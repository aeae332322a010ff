//! What the handlers of the container routes answer.
//!
//! A handler that acts on a container needs the container tool several
//! times. It is therefore written as a step: given the request and what has
//! happened so far, it says what is to be done next, or what the answer is.

use crate::docker_works::container_views;
use crate::docker_works::has_label;
use crate::docker_works::is_listed;
use crate::docker_works::ContainerError;
use crate::docker_works::ContainerErrorView;
use crate::docker_works::ContainerInfo;
use crate::docker_works::ContainerInfoView;
use crate::req_res_structs::BodyType;
use crate::req_res_structs::Response;
use crate::req_res_structs::ResponseView;
use crate::request::Request;
use crate::text::nth_word;
use crate::text::span_string;
use crate::text::starts_with;
use crate::text::str_eq;
use crate::text::to_chars;
use crate::text::word_span;
use crate::text::Span;
use vstd::prelude::*;
use vstd::string::StrSliceExecFns;
use vstd::string::StringExecFns;

verus! {

/// The answer to a request for the list of all containers: the list as a
/// JSON body with status 200, or a bare status 500 where the containers
/// could not be listed.
pub fn handler_return_all_containers(
    _request: &Request,
    listing: Result<serde_json::Value, ContainerError>,
) -> (response: Response)
    ensures
        match listing {
            Ok(list) => {
                &&& response.response_code == 200
                &&& response.headers is None
                &&& response.body == Some(BodyType::Json(list))
            },
            Err(_) => response@ == ResponseView::bare(500),
        },
{
    match listing {
        Ok(list) => Response { response_code: 200, headers: None, body: Some(BodyType::Json(list)) },
        Err(_) => Response::only_code(500),
    }
}

/// Whether a container with this label is there: status 200 where the list
/// holds it, status 500 where it does not or where there is no list.
pub fn check_existence_container(
    container_id: &str,
    listing: &Result<Vec<ContainerInfo>, ContainerError>,
) -> (response: Response)
    ensures
        response@ == ResponseView::bare(
            if listing matches Ok(containers) && is_listed(
                container_views(containers@),
                container_id@,
            ) {
                200
            } else {
                500
            },
        ),
{
    match listing {
        Ok(containers) => {
            if has_label(containers, container_id) {
                Response::only_code(200)
            } else {
                Response::only_code(500)
            }
        },
        Err(_) => Response::only_code(500),
    }
}

/// The container that a request is about: the parameter `id` of its route.
/// A request without it is refused with status 400.
pub fn get_container_id(request: &Request) -> (id: Result<&String, Response>)
    ensures
        match id {
            Ok(label) => request.rest_params@.contains_key("id"@) && label@
                == request.rest_params@["id"@],
            Err(response) => !request.rest_params@.contains_key("id"@) && response@
                == ResponseView::bare(400),
        },
{
    match request.rest_params.get("id") {
        Some(label) => Ok(label),
        None => Err(Response::only_code(400)),
    }
}

/// The state of a container as an inspection reports it.
#[derive(Debug)]
pub struct ReadStatus {
    pub status: String,
    pub is_running: bool,
    pub is_paused: bool,
    pub is_restarting: bool,
    pub is_dead: bool,
}

pub struct ReadStatusView {
    pub status: Seq<char>,
    pub is_running: bool,
    pub is_paused: bool,
    pub is_restarting: bool,
    pub is_dead: bool,
}

impl View for ReadStatus {
    type V = ReadStatusView;

    open spec fn view(&self) -> ReadStatusView {
        ReadStatusView {
            status: self.status@,
            is_running: self.is_running,
            is_paused: self.is_paused,
            is_restarting: self.is_restarting,
            is_dead: self.is_dead,
        }
    }
}

/// The state that an inspection reports: its first word is the status, and
/// the four words after it say whether the container is running, paused,
/// restarting and dead. Only the word `true` says yes; a word that is
/// missing says no. A report without a word reports nothing.
pub open spec fn reported_status(report: Seq<char>) -> Option<ReadStatusView> {
    if nth_word(report, 0).len() == 0 {
        None
    } else {
        Some(
            ReadStatusView {
                status: nth_word(report, 0),
                is_running: nth_word(report, 1) == "true"@,
                is_paused: nth_word(report, 2) == "true"@,
                is_restarting: nth_word(report, 3) == "true"@,
                is_dead: nth_word(report, 4) == "true"@,
            },
        )
    }
}

/// Reads the state of a container from the report of an inspection.
pub fn fill_struct_read_status(report: &str) -> (state: Option<ReadStatus>)
    ensures
        match reported_status(report@) {
            Some(view) => state is Some && state->Some_0@ == view,
            None => state is None,
        },
{
    let chars = to_chars(report);
    let whole = Span { start: 0, end: chars.len() };
    proof {
        assert(whole.of(chars@) =~= report@);
        reveal_with_fuel(nth_word, 5);
    }
    let (status, rest) = word_span(&chars, whole);
    if status.start == status.end {
        return None;
    }
    let (running, rest) = word_span(&chars, rest);
    let (paused, rest) = word_span(&chars, rest);
    let (restarting, rest) = word_span(&chars, rest);
    let (dead, _) = word_span(&chars, rest);
    Some(
        ReadStatus {
            status: span_string(report, status),
            is_running: str_eq(report.substring_char(running.start, running.end), "true"),
            is_paused: str_eq(report.substring_char(paused.start, paused.end), "true"),
            is_restarting: str_eq(report.substring_char(restarting.start, restarting.end), "true"),
            is_dead: str_eq(report.substring_char(dead.start, dead.end), "true"),
        },
    )
}

/// The answer once the tool was run with an action: status 200 where it
/// could be run, status 500 where it could not.
pub fn do_docker_command(ran: &Result<(), String>) -> (response: Response)
    ensures
        response@ == ResponseView::bare(
            if ran is Ok {
                200
            } else {
                500
            },
        ),
{
    match ran {
        Ok(_) => Response::only_code(200),
        Err(_) => Response::only_code(500),
    }
}

/// An action on the life of a container.
#[derive(Copy, Clone, Debug, PartialEq, Eq, Structural)]
pub enum Lifecycle {
    Start,
    Stop,
    Restart,
}

impl Lifecycle {
    /// The word by which the tool knows the action.
    pub open spec fn verb(self) -> Seq<char> {
        match self {
            Lifecycle::Start => "start"@,
            Lifecycle::Stop => "stop"@,
            Lifecycle::Restart => "restart"@,
        }
    }

    /// Whether the action is out of place on a container in this state. A
    /// dead container takes no action. One that is restarting can only be
    /// stopped. One that runs cannot be started, and one that has exited
    /// cannot be stopped.
    pub open spec fn conflicts(self, state: ReadStatusView) -> bool {
        match self {
            Lifecycle::Start => state.is_dead || state.is_restarting || state.is_running,
            Lifecycle::Stop => "exited"@.is_prefix_of(state.status) || state.is_dead,
            Lifecycle::Restart => state.is_dead || state.is_restarting,
        }
    }

    pub fn word(self) -> (verb: &'static str)
        ensures
            verb@ == self.verb(),
    {
        match self {
            Lifecycle::Start => "start",
            Lifecycle::Stop => "stop",
            Lifecycle::Restart => "restart",
        }
    }

    pub fn is_refused(self, state: &ReadStatus) -> (refused: bool)
        ensures
            refused == self.conflicts(state@),
    {
        match self {
            Lifecycle::Start => state.is_dead || state.is_restarting || state.is_running,
            Lifecycle::Stop => starts_with(state.status.as_str(), "exited") || state.is_dead,
            Lifecycle::Restart => state.is_dead || state.is_restarting,
        }
    }
}

/// What has happened so far while a request is handled.
pub enum HandlerEvent {
    /// Nothing yet.
    Begin,
    /// The containers were listed, or could not be.
    Listed(Result<Vec<ContainerInfo>, ContainerError>),
    /// The container was inspected and this was reported, or it could not
    /// be inspected.
    Inspected(Result<String, String>),
    /// The tool was run with the action, or could not be.
    Ran(Result<(), String>),
}

/// What is to be done next while a request is handled.
#[derive(Debug)]
pub enum HandlerStep {
    /// List the containers.
    List,
    /// Inspect the container with this label.
    Inspect(String),
    /// Run the tool with this verb on the container with this label.
    Run { verb: String, container: String },
    /// Nothing more: this is the answer.
    Reply(Response),
}

pub enum HandlerEventView {
    Begin,
    Listed(Result<Seq<ContainerInfoView>, ContainerErrorView>),
    Inspected(Result<Seq<char>, Seq<char>>),
    Ran(Result<(), Seq<char>>),
}

pub enum HandlerStepView {
    List,
    Inspect(Seq<char>),
    Run { verb: Seq<char>, container: Seq<char> },
    Reply(ResponseView),
}

impl View for HandlerEvent {
    type V = HandlerEventView;

    open spec fn view(&self) -> HandlerEventView {
        match *self {
            HandlerEvent::Begin => HandlerEventView::Begin,
            HandlerEvent::Listed(Ok(containers)) => HandlerEventView::Listed(
                Ok(container_views(containers@)),
            ),
            HandlerEvent::Listed(Err(error)) => HandlerEventView::Listed(Err(error@)),
            HandlerEvent::Inspected(Ok(report)) => HandlerEventView::Inspected(Ok(report@)),
            HandlerEvent::Inspected(Err(reason)) => HandlerEventView::Inspected(Err(reason@)),
            HandlerEvent::Ran(Ok(())) => HandlerEventView::Ran(Ok(())),
            HandlerEvent::Ran(Err(reason)) => HandlerEventView::Ran(Err(reason@)),
        }
    }
}

impl View for HandlerStep {
    type V = HandlerStepView;

    open spec fn view(&self) -> HandlerStepView {
        match *self {
            HandlerStep::List => HandlerStepView::List,
            HandlerStep::Inspect(container) => HandlerStepView::Inspect(container@),
            HandlerStep::Run { verb, container } => HandlerStepView::Run {
                verb: verb@,
                container: container@,
            },
            HandlerStep::Reply(response) => HandlerStepView::Reply(response@),
        }
    }
}

/// The step that follows an event while `action` is asked of the container
/// that the parameter `id` names.
///
/// Without the parameter the answer is status 400, whatever has happened.
/// The containers are listed first; one that is not listed, or a list that
/// cannot be had, gives status 500. The container is inspected next; where
/// that fails or reports nothing the answer is status 500, and where the
/// action is out of place on the state reported it is status 409. Then the
/// tool is run: status 200 where it could be run, status 500 where not.
pub open spec fn lifecycle_step(
    action: Lifecycle,
    params: Map<Seq<char>, Seq<char>>,
    event: HandlerEventView,
) -> HandlerStepView {
    if !params.contains_key("id"@) {
        HandlerStepView::Reply(ResponseView::bare(400))
    } else {
        let container = params["id"@];
        match event {
            HandlerEventView::Begin => HandlerStepView::List,
            HandlerEventView::Listed(Err(_)) => HandlerStepView::Reply(ResponseView::bare(500)),
            HandlerEventView::Listed(Ok(containers)) => if is_listed(containers, container) {
                HandlerStepView::Inspect(container)
            } else {
                HandlerStepView::Reply(ResponseView::bare(500))
            },
            HandlerEventView::Inspected(Err(_)) => HandlerStepView::Reply(ResponseView::bare(500)),
            HandlerEventView::Inspected(Ok(report)) => match reported_status(report) {
                None => HandlerStepView::Reply(ResponseView::bare(500)),
                Some(state) => if action.conflicts(state) {
                    HandlerStepView::Reply(ResponseView::bare(409))
                } else {
                    HandlerStepView::Run { verb: action.verb(), container }
                },
            },
            HandlerEventView::Ran(Ok(_)) => HandlerStepView::Reply(ResponseView::bare(200)),
            HandlerEventView::Ran(Err(_)) => HandlerStepView::Reply(ResponseView::bare(500)),
        }
    }
}

/// Says what is to be done next while `action` is asked of the container
/// that `request` names.
pub fn handle_lifecycle(action: Lifecycle, request: &Request, event: HandlerEvent) -> (step:
    HandlerStep)
    ensures
        step@ == lifecycle_step(action, request.rest_params@, event@),
{
    let container = match get_container_id(request) {
        Ok(label) => label,
        Err(response) => {
            return HandlerStep::Reply(response);
        },
    };
    match event {
        HandlerEvent::Begin => HandlerStep::List,
        HandlerEvent::Listed(listing) => {
            let found = check_existence_container(container.as_str(), &listing);
            if found.response_code == 500 {
                HandlerStep::Reply(found)
            } else {
                HandlerStep::Inspect(container.clone())
            }
        },
        HandlerEvent::Inspected(Err(_)) => HandlerStep::Reply(Response::only_code(500)),
        HandlerEvent::Inspected(Ok(report)) => match fill_struct_read_status(report.as_str()) {
            None => HandlerStep::Reply(Response::only_code(500)),
            Some(state) => {
                if action.is_refused(&state) {
                    HandlerStep::Reply(Response::only_code(409))
                } else {
                    HandlerStep::Run {
                        verb: String::from_str(action.word()),
                        container: container.clone(),
                    }
                }
            },
        },
        HandlerEvent::Ran(ran) => HandlerStep::Reply(do_docker_command(&ran)),
    }
}

/// Says what is to be done next while a container is started.
pub fn handler_start_container(request: &Request, event: HandlerEvent) -> (step: HandlerStep)
    ensures
        step@ == lifecycle_step(Lifecycle::Start, request.rest_params@, event@),
{
    handle_lifecycle(Lifecycle::Start, request, event)
}

/// Says what is to be done next while a container is stopped.
pub fn handler_stop_container(request: &Request, event: HandlerEvent) -> (step: HandlerStep)
    ensures
        step@ == lifecycle_step(Lifecycle::Stop, request.rest_params@, event@),
{
    handle_lifecycle(Lifecycle::Stop, request, event)
}

/// Says what is to be done next while a container is restarted.
pub fn handler_restart_container(request: &Request, event: HandlerEvent) -> (step: HandlerStep)
    ensures
        step@ == lifecycle_step(Lifecycle::Restart, request.rest_params@, event@),
{
    handle_lifecycle(Lifecycle::Restart, request, event)
}

} // verus!
