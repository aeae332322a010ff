//! A small HTTP/1.1 protocol engine: request decoding, route matching with
//! named path parameters, and response encoding, with the supporting
//! configuration, logging and container-management rules.

pub mod config;
pub mod docker_works;
pub mod handlers;
pub mod http_server;
pub mod json;
pub mod logger;
pub mod parse_funcs;
pub mod req_res_structs;
pub mod request;
pub mod server_errors;
pub mod text;
