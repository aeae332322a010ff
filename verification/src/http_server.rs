//! The route table of a server and what it answers to a request text.
//!
//! Routes are kept in the order of their registration. Where several
//! patterns of one method fit a path, the one that was registered first
//! answers.

use crate::parse_funcs::decode;
use crate::parse_funcs::deser_response;
use crate::parse_funcs::encode;
use crate::parse_funcs::parse_request;
use crate::req_res_structs::Method;
use crate::req_res_structs::Response;
use crate::req_res_structs::ResponseView;
use crate::request::captures;
use crate::request::path_matches;
use crate::request::pattern_matches;
use crate::request::Request;
use crate::request::RequestView;
use crate::server_errors::ServerError;
use crate::text::is_blank;
use crate::text::lemma_blank;
use crate::text::scan;
use crate::text::str_eq;
use crate::text::to_chars;
use crate::text::CharClass;
use vstd::prelude::*;
use vstd::string::StringExecFns;

verus! {

/// A method and a pattern: what a route is registered under.
pub struct RouteKey {
    pub method: Method,
    pub pattern: Seq<char>,
}

impl RouteKey {
    /// Whether a request with this method and path is one for this route.
    pub open spec fn fits(self, method: Method, path: Seq<char>) -> bool {
        self.method == method && pattern_matches(self.pattern, path)
    }
}

/// Whether no two of `keys` are the same.
pub open spec fn keys_unique(keys: Seq<RouteKey>) -> bool {
    forall|i: int, j: int| 0 <= i < j < keys.len() ==> #[trigger] keys[i] != #[trigger] keys[j]
}

/// Whether `key` is among `keys`.
pub open spec fn has_key(keys: Seq<RouteKey>, key: RouteKey) -> bool {
    exists|i: int| 0 <= i < keys.len() && #[trigger] keys[i] == key
}

/// Whether `at` is the first of `keys` that fits.
pub open spec fn is_first_fit(keys: Seq<RouteKey>, method: Method, path: Seq<char>, at: int) -> bool {
    &&& 0 <= at < keys.len()
    &&& keys[at].fits(method, path)
    &&& forall|j: int| 0 <= j < at ==> !(#[trigger] keys[j]).fits(method, path)
}

/// Whether none of `keys` fits.
pub open spec fn none_fits(keys: Seq<RouteKey>, method: Method, path: Seq<char>) -> bool {
    forall|j: int| 0 <= j < keys.len() ==> !(#[trigger] keys[j]).fits(method, path)
}

/// The text with which a second registration of a route is refused.
pub open spec fn duplicate_message(method: Method, pattern: Seq<char>) -> Seq<char> {
    method.name() + " handler with path '"@ + pattern + "' already registered!"@
}

struct Route<H> {
    method: Method,
    pattern: String,
    handler: H,
}

impl<H> Route<H> {
    spec fn key(self) -> RouteKey {
        RouteKey { method: self.method, pattern: self.pattern@ }
    }
}

/// The address that a server is to listen on, and its routes.
pub struct Server<H> {
    addr: String,
    routes: Vec<Route<H>>,
}

impl<H> Server<H> {
    #[verifier::type_invariant]
    spec fn well_formed(&self) -> bool {
        keys_unique(self.keys())
    }

    /// The keys of the routes, in the order of their registration.
    pub closed spec fn keys(&self) -> Seq<RouteKey> {
        Seq::new(self.routes@.len(), |i: int| self.routes@[i].key())
    }

    /// The handlers of the routes, in the same order as `keys`.
    pub closed spec fn handlers(&self) -> Seq<H> {
        Seq::new(self.routes@.len(), |i: int| self.routes@[i].handler)
    }

    /// The address that the server is to listen on.
    pub closed spec fn address(&self) -> Seq<char> {
        self.addr@
    }

    /// A server for `addr` without routes.
    pub fn new(addr: &str) -> (server: Server<H>)
        ensures
            server.address() == addr@,
            server.keys() == Seq::<RouteKey>::empty(),
            server.handlers() == Seq::<H>::empty(),
    {
        let server = Server { addr: String::from_str(addr), routes: Vec::new() };
        proof {
            assert(server.keys() =~= Seq::<RouteKey>::empty());
            assert(server.handlers() =~= Seq::<H>::empty());
        }
        server
    }

    pub fn addr(&self) -> (addr: &String)
        ensures
            addr@ == self.address(),
    {
        &self.addr
    }

    /// How many routes are registered.
    pub fn route_count(&self) -> (count: usize)
        ensures
            count == self.keys().len(),
            count == self.handlers().len(),
            keys_unique(self.keys()),
    {
        proof {
            use_type_invariant(self);
        }
        self.routes.len()
    }

    /// Whether a route is registered under exactly this method and pattern.
    pub fn has_route(&self, method: Method, pattern: &str) -> (present: bool)
        ensures
            present == has_key(self.keys(), RouteKey { method, pattern: pattern@ }),
    {
        let ghost key = RouteKey { method, pattern: pattern@ };
        let mut i: usize = 0;
        while i < self.routes.len()
            invariant
                i <= self.routes@.len(),
                key == (RouteKey { method, pattern: pattern@ }),
                forall|k: int| 0 <= k < i ==> #[trigger] self.keys()[k] != key,
            decreases self.routes@.len() - i,
        {
            if self.routes[i].method == method && str_eq(self.routes[i].pattern.as_str(), pattern) {
                proof {
                    assert(self.keys()[i as int] == key);
                }
                return true;
            }
            i += 1;
        }
        false
    }

    /// Registers `handler` for the requests with `method` whose path fits
    /// `path`. A pair of method and pattern can be registered once: a second
    /// registration is refused, and leaves the table as it was.
    pub fn add_handler(&mut self, method: Method, path: &str, handler: H) -> (added: Result<
        (),
        ServerError,
    >)
        ensures
            final(self).address() == old(self).address(),
            added is Ok <==> !has_key(old(self).keys(), RouteKey { method, pattern: path@ }),
            added is Ok ==> {
                &&& final(self).keys() == old(self).keys().push(RouteKey { method, pattern: path@ })
                &&& final(self).handlers() == old(self).handlers().push(handler)
            },
            added is Err ==> {
                &&& final(self).keys() == old(self).keys()
                &&& final(self).handlers() == old(self).handlers()
                &&& added matches Err(ServerError::HandlerError(detail))
                &&& detail@ == duplicate_message(method, path@)
            },
    {
        proof {
            use_type_invariant(&*self);
        }
        if self.has_route(method, path) {
            let mut detail = method.to_string();
            detail.append(" handler with path '");
            detail.append(path);
            detail.append("' already registered!");
            return Err(ServerError::HandlerError(detail));
        }
        let ghost keys = self.keys();
        let ghost handlers = self.handlers();
        let ghost key = RouteKey { method, pattern: path@ };
        // The routes are taken out while one is added, and put back once
        // the table holds its invariant again.
        let mut routes: Vec<Route<H>> = Vec::new();
        std::mem::swap(&mut self.routes, &mut routes);
        routes.push(Route { method, pattern: String::from_str(path), handler });
        proof {
            let after = Seq::new(routes@.len(), |i: int| routes@[i].key());
            assert(after =~= keys.push(key));
            assert(keys_unique(after)) by {
                assert forall|i: int, j: int| 0 <= i < j < after.len() implies #[trigger] after[i]
                    != #[trigger] after[j] by {
                    if j == keys.len() {
                        assert(keys[i] != key);
                    } else {
                        assert(keys[i] != keys[j]);
                    }
                }
            }
            assert(Seq::new(routes@.len(), |i: int| routes@[i].handler) =~= handlers.push(handler));
        }
        std::mem::swap(&mut self.routes, &mut routes);
        Ok(())
    }

    /// Registers `handler` for `GET` requests whose path fits `path`.
    #[allow(non_snake_case)]
    pub fn GET(&mut self, path: &str, handler: H)
        requires
            !has_key(old(self).keys(), RouteKey { method: Method::GET, pattern: path@ }),
        ensures
            final(self).address() == old(self).address(),
            final(self).keys() == old(self).keys().push(
                RouteKey { method: Method::GET, pattern: path@ },
            ),
            final(self).handlers() == old(self).handlers().push(handler),
    {
        let _ = self.add_handler(Method::GET, path, handler);
    }

    /// Registers `handler` for `POST` requests whose path fits `path`.
    #[allow(non_snake_case)]
    pub fn POST(&mut self, path: &str, handler: H)
        requires
            !has_key(old(self).keys(), RouteKey { method: Method::POST, pattern: path@ }),
        ensures
            final(self).address() == old(self).address(),
            final(self).keys() == old(self).keys().push(
                RouteKey { method: Method::POST, pattern: path@ },
            ),
            final(self).handlers() == old(self).handlers().push(handler),
    {
        let _ = self.add_handler(Method::POST, path, handler);
    }

    /// Registers `handler` for `PUT` requests whose path fits `path`.
    #[allow(non_snake_case)]
    pub fn PUT(&mut self, path: &str, handler: H)
        requires
            !has_key(old(self).keys(), RouteKey { method: Method::PUT, pattern: path@ }),
        ensures
            final(self).address() == old(self).address(),
            final(self).keys() == old(self).keys().push(
                RouteKey { method: Method::PUT, pattern: path@ },
            ),
            final(self).handlers() == old(self).handlers().push(handler),
    {
        let _ = self.add_handler(Method::PUT, path, handler);
    }

    /// Registers `handler` for `DELETE` requests whose path fits `path`.
    #[allow(non_snake_case)]
    pub fn DELETE(&mut self, path: &str, handler: H)
        requires
            !has_key(old(self).keys(), RouteKey { method: Method::DELETE, pattern: path@ }),
        ensures
            final(self).address() == old(self).address(),
            final(self).keys() == old(self).keys().push(
                RouteKey { method: Method::DELETE, pattern: path@ },
            ),
            final(self).handlers() == old(self).handlers().push(handler),
    {
        let _ = self.add_handler(Method::DELETE, path, handler);
    }

    /// The place of the route that answers a request with this method and
    /// path: the first one that fits, if any does.
    pub fn find_route(&self, method: Method, path: &str) -> (found: Option<usize>)
        ensures
            match found {
                Some(at) => is_first_fit(self.keys(), method, path@, at as int),
                None => none_fits(self.keys(), method, path@),
            },
    {
        let mut i: usize = 0;
        while i < self.routes.len()
            invariant
                i <= self.routes@.len(),
                forall|j: int| 0 <= j < i ==> !(#[trigger] self.keys()[j]).fits(method, path@),
            decreases self.routes@.len() - i,
        {
            if self.routes[i].method == method && path_matches(
                self.routes[i].pattern.as_str(),
                path,
            ) {
                return Some(i);
            }
            i += 1;
        }
        None
    }

    /// The pattern of the route at `at`.
    pub fn pattern_at(&self, at: usize) -> (pattern: &String)
        requires
            at < self.keys().len(),
        ensures
            pattern@ == self.keys()[at as int].pattern,
    {
        &self.routes[at].pattern
    }

    /// The handler of the route at `at`.
    pub fn handler_at(&self, at: usize) -> (handler: &H)
        requires
            at < self.keys().len(),
        ensures
            *handler == self.handlers()[at as int],
    {
        &self.routes[at].handler
    }

    /// Finds the route for `request`, binds the parameters that its pattern
    /// captures from the path, and hands out the place of the route. Without
    /// a route the request is left as it was.
    pub fn dispatch(&self, request: &mut Request) -> (found: Option<usize>)
        ensures
            match found {
                Some(at) => {
                    &&& is_first_fit(self.keys(), old(request).method, old(request).path@, at as int)
                    &&& final(request)@ == routed(
                        old(request)@,
                        self.keys()[at as int].pattern,
                    )
                },
                None => {
                    &&& none_fits(self.keys(), old(request).method, old(request).path@)
                    &&& *final(request) == *old(request)
                },
            },
    {
        match self.find_route(request.method, request.path.as_str()) {
            Some(at) => {
                request.parse_args(self.routes[at].pattern.as_str());
                Some(at)
            },
            None => None,
        }
    }
}

/// A request once the route with `pattern` has been found for it: the
/// parameters that the pattern captures from its path are bound.
pub open spec fn routed(request: RequestView, pattern: Seq<char>) -> RequestView {
    RequestView {
        rest_params: request.rest_params.union_prefer_right(captures(pattern, request.path)),
        ..request
    }
}

/// What is answered where no route fits a request.
pub fn not_found_response() -> (response: Response)
    ensures
        response@ == ResponseView::bare(404),
{
    Response::only_code(404)
}

/// What is answered to a text that cannot be decoded. Such a text is
/// answered like a request for which there is no route.
pub fn bad_request_response() -> (response: Response)
    ensures
        response@ == ResponseView::bare(404),
{
    Response::only_code(404)
}

/// Whether what a handler answers depends on nothing but the request as the
/// contracts see it.
pub open spec fn is_pure<H: Fn(&Request) -> Response>(handler: H) -> bool {
    forall|a: Request, b: Request, x: Response, y: Response|
        a@ == b@ && #[trigger] call_ensures(handler, (&a,), x) && #[trigger] call_ensures(
            handler,
            (&b,),
            y,
        ) ==> x@ == y@
}

impl<H: Fn(&Request) -> Response> Server<H> {
    /// Whether every handler can be called on every request.
    pub open spec fn handlers_total(&self) -> bool {
        forall|i: int, request: Request|
            0 <= i < self.handlers().len() ==> #[trigger] call_requires(
                self.handlers()[i],
                (&request,),
            )
    }

    /// Whether `wire` is an answer of this server to the request text `raw`.
    ///
    /// A text that cannot be decoded, and a request that no route fits, are
    /// answered with a bare status 404. Any other request is handed, with
    /// the parameters of the first route that fits, to the handler of that
    /// route, and the answer is what the handler returned, encoded.
    pub open spec fn answers(&self, raw: Seq<char>, wire: Seq<char>) -> bool {
        match decode(raw) {
            None => wire == encode(ResponseView::bare(404)),
            Some(request) => {
                ||| {
                    &&& none_fits(self.keys(), request.method, request.path)
                    &&& wire == encode(ResponseView::bare(404))
                }
                ||| exists|at: int, given: Request, response: Response|
                    {
                        &&& is_first_fit(self.keys(), request.method, request.path, at)
                        &&& given@ == routed(request, self.keys()[at].pattern)
                        &&& #[trigger] call_ensures(self.handlers()[at], (&given,), response)
                        &&& wire == encode(response@)
                    }
            },
        }
    }

    /// Answers one request text: decodes it, finds its route, calls the
    /// handler and encodes what it returned.
    pub fn respond(&self, raw: String) -> (wire: String)
        requires
            self.handlers_total(),
        ensures
            self.answers(raw@, wire@),
    {
        match parse_request(raw) {
            Ok(mut request) => {
                match self.dispatch(&mut request) {
                    Some(at) => {
                        let handler = self.handler_at(at);
                        let response = handler(&request);
                        let wire = deser_response(response);
                        proof {
                            assert(call_ensures(self.handlers()[at as int], (&request,), response));
                        }
                        wire
                    },
                    None => deser_response(not_found_response()),
                }
            },
            Err(_) => deser_response(bad_request_response()),
        }
    }
}

/// A server with pure handlers answers a request text in one way only.
pub proof fn lemma_answers_deterministic<H: Fn(&Request) -> Response>(
    server: Server<H>,
    raw: Seq<char>,
    first: Seq<char>,
    second: Seq<char>,
)
    requires
        forall|i: int| 0 <= i < server.handlers().len() ==> is_pure(#[trigger] server.handlers()[i]),
        server.handlers().len() == server.keys().len(),
        server.answers(raw, first),
        server.answers(raw, second),
    ensures
        first == second,
{
    match decode(raw) {
        None => {},
        Some(request) => {
            let keys = server.keys();
            if none_fits(keys, request.method, request.path) {
                assert forall|at: int| !is_first_fit(keys, request.method, request.path, at) by {
                    if 0 <= at < keys.len() {
                        assert(!keys[at].fits(request.method, request.path));
                    }
                }
            } else {
                let (at1, given1, response1) = choose|at: int, given: Request, response: Response|
                    {
                        &&& is_first_fit(keys, request.method, request.path, at)
                        &&& given@ == routed(request, keys[at].pattern)
                        &&& #[trigger] call_ensures(server.handlers()[at], (&given,), response)
                        &&& first == encode(response@)
                    };
                let (at2, given2, response2) = choose|at: int, given: Request, response: Response|
                    {
                        &&& is_first_fit(keys, request.method, request.path, at)
                        &&& given@ == routed(request, keys[at].pattern)
                        &&& #[trigger] call_ensures(server.handlers()[at], (&given,), response)
                        &&& second == encode(response@)
                    };
                assert(at1 == at2) by {
                    if at1 < at2 {
                        assert(!keys[at1].fits(request.method, request.path));
                    } else if at2 < at1 {
                        assert(!keys[at2].fits(request.method, request.path));
                    }
                }
                assert(is_pure(server.handlers()[at1]));
                assert(response1@ == response2@);
            }
        },
    }
}

/// Takes one more line of an incoming request, as it was read without its
/// line ending. A blank line ends the head of the request: it is not kept,
/// and no further line is wanted. Any other line is added to `buffer`,
/// followed by a carriage return and a line feed.
pub fn accept_line(buffer: &mut String, line: &str) -> (more: bool)
    ensures
        more == !is_blank(line@),
        more ==> final(buffer)@ == old(buffer)@ + line@ + "\r\n"@,
        !more ==> final(buffer)@ == old(buffer)@,
{
    let chars = to_chars(line);
    let end = scan(&chars, 0, chars.len(), CharClass::Whitespace);
    proof {
        assert(chars@.subrange(0, chars@.len() as int) =~= line@);
        lemma_blank(line@);
    }
    if end == chars.len() {
        false
    } else {
        buffer.append(line);
        buffer.append("\r\n");
        true
    }
}

} // verus!
