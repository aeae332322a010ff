//! Containers as the container tool lists them, and the rules by which an
//! action on a container is carried out.
//!
//! The tool itself is run elsewhere. This module reads what it printed, and
//! says after each step what is to be done next.

use crate::text::ascii_alphanumeric;
use crate::text::decimal;
use crate::text::decimal_string;
use crate::text::first_word;
use crate::text::is_ascii_alphanumeric;
use crate::text::line_spans;
use crate::text::lines;
use crate::text::span_string;
use crate::text::span_texts;
use crate::text::spans_within;
use crate::text::split;
use crate::text::split_spans;
use crate::text::str_eq;
use crate::text::to_chars;
use crate::text::word_span;
use crate::text::Span;
use vstd::prelude::*;
use vstd::string::StrSliceExecFns;
use vstd::string::StringExecFns;

verus! {

/// The state of a container.
#[derive(Copy, Clone, Debug, PartialEq, Eq, Structural)]
pub enum ContainerStatus {
    Exited,
    Up,
    Created,
    Paused,
    Restarting,
    RemovalInProgress,
    Dead,
}

impl ContainerStatus {
    /// The name of the state.
    pub open spec fn name(self) -> Seq<char> {
        match self {
            ContainerStatus::Exited => "Exited"@,
            ContainerStatus::Up => "Up"@,
            ContainerStatus::Created => "Created"@,
            ContainerStatus::Paused => "Paused"@,
            ContainerStatus::Restarting => "Restarting"@,
            ContainerStatus::RemovalInProgress => "RemovalInProgress"@,
            ContainerStatus::Dead => "Dead"@,
        }
    }

    /// The state that the first word of a status column stands for, if it
    /// stands for one.
    pub open spec fn of_word(word: Seq<char>) -> Option<ContainerStatus> {
        if word == "Exited"@ {
            Some(ContainerStatus::Exited)
        } else if word == "Up"@ {
            Some(ContainerStatus::Up)
        } else if word == "Created"@ {
            Some(ContainerStatus::Created)
        } else if word == "Paused"@ {
            Some(ContainerStatus::Paused)
        } else if word == "Restarting"@ {
            Some(ContainerStatus::Restarting)
        } else if word == "Removal"@ {
            Some(ContainerStatus::RemovalInProgress)
        } else if word == "Dead"@ {
            Some(ContainerStatus::Dead)
        } else {
            None
        }
    }

    pub fn to_string(&self) -> (text: String)
        ensures
            text@ == self.name(),
    {
        match self {
            ContainerStatus::Exited => "Exited".to_owned(),
            ContainerStatus::Up => "Up".to_owned(),
            ContainerStatus::Created => "Created".to_owned(),
            ContainerStatus::Paused => "Paused".to_owned(),
            ContainerStatus::Restarting => "Restarting".to_owned(),
            ContainerStatus::RemovalInProgress => "RemovalInProgress".to_owned(),
            ContainerStatus::Dead => "Dead".to_owned(),
        }
    }

    pub fn from_word(word: &str) -> (status: Option<ContainerStatus>)
        ensures
            status == ContainerStatus::of_word(word@),
    {
        if str_eq(word, "Exited") {
            Some(ContainerStatus::Exited)
        } else if str_eq(word, "Up") {
            Some(ContainerStatus::Up)
        } else if str_eq(word, "Created") {
            Some(ContainerStatus::Created)
        } else if str_eq(word, "Paused") {
            Some(ContainerStatus::Paused)
        } else if str_eq(word, "Restarting") {
            Some(ContainerStatus::Restarting)
        } else if str_eq(word, "Removal") {
            Some(ContainerStatus::RemovalInProgress)
        } else if str_eq(word, "Dead") {
            Some(ContainerStatus::Dead)
        } else {
            None
        }
    }
}

/// One container of the list.
#[derive(Debug)]
pub struct ContainerInfo {
    pub label: String,
    pub status: ContainerStatus,
    pub command: String,
    pub image: String,
}

pub struct ContainerInfoView {
    pub label: Seq<char>,
    pub status: ContainerStatus,
    pub command: Seq<char>,
    pub image: Seq<char>,
}

impl View for ContainerInfo {
    type V = ContainerInfoView;

    open spec fn view(&self) -> ContainerInfoView {
        ContainerInfoView {
            label: self.label@,
            status: self.status,
            command: self.command@,
            image: self.image@,
        }
    }
}

/// The containers that a list holds, in order.
pub open spec fn container_views(list: Seq<ContainerInfo>) -> Seq<ContainerInfoView> {
    Seq::new(list.len(), |i: int| list[i]@)
}

/// What went wrong with the container tool.
#[derive(Debug)]
pub enum ContainerError {
    /// The tool failed, or refused what was asked.
    DockerError(String),
    /// What the tool printed could not be read.
    ParseError(String),
}

pub enum ContainerErrorView {
    DockerError(Seq<char>),
    ParseError(Seq<char>),
}

impl View for ContainerError {
    type V = ContainerErrorView;

    open spec fn view(&self) -> ContainerErrorView {
        match *self {
            ContainerError::DockerError(detail) => ContainerErrorView::DockerError(detail@),
            ContainerError::ParseError(detail) => ContainerErrorView::ParseError(detail@),
        }
    }
}

impl ContainerErrorView {
    /// The text that `to_string` gives for this error.
    pub open spec fn message(self) -> Seq<char> {
        match self {
            ContainerErrorView::DockerError(detail) => "Docker error: "@ + detail,
            ContainerErrorView::ParseError(detail) => "Parse error: "@ + detail,
        }
    }
}

impl ContainerError {
    /// The error as a line of text: its kind, then its detail.
    pub fn to_string(&self) -> (text: String)
        ensures
            text@ == self@.message(),
    {
        match self {
            ContainerError::DockerError(detail) => String::from_str("Docker error: ").concat(
                detail.as_str(),
            ),
            ContainerError::ParseError(detail) => String::from_str("Parse error: ").concat(
                detail.as_str(),
            ),
        }
    }
}

/// What a line of the list stands for. The columns of a line are separated
/// by tabs: the label, the status, the image, and the command between two
/// quotation marks. The detail of the error says why a line cannot be read:
/// it has fewer than four columns, its status begins with no known word, or
/// its command is too short to stand between quotation marks.
pub open spec fn parse_line(line: Seq<char>) -> Result<ContainerInfoView, Seq<char>> {
    let columns = split(line, '\t');
    if columns.len() < 4 {
        Err(
            "Unexpected columns (expected 4), got "@ + decimal(columns.len()) + " in "@ + line,
        )
    } else {
        match ContainerStatus::of_word(first_word(columns[1])) {
            None => Err("Unkown status "@ + columns[2] + " in line "@ + line),
            Some(status) => if columns[3].len() >= 2 {
                Ok(
                    ContainerInfoView {
                        label: columns[0],
                        status,
                        command: columns[3].subrange(1, columns[3].len() - 1),
                        image: columns[2],
                    },
                )
            } else {
                Err("Unknown command "@ + columns[3] + " in line "@ + line)
            },
        }
    }
}

/// Reads the line that `span` covers in `raw`, whose characters `chars`
/// holds.
fn read_line(raw: &str, chars: &Vec<char>, span: Span) -> (read: Result<ContainerInfo, String>)
    requires
        chars@ == raw@,
        span.within(chars@.len()),
    ensures
        match parse_line(span.of(raw@)) {
            Ok(info) => read is Ok && read->Ok_0@ == info,
            Err(detail) => read is Err && read->Err_0@ == detail,
        },
{
    let columns = split_spans(chars, span, '\t');
    let ghost texts = split(span.of(raw@), '\t');
    if columns.len() < 4 {
        let mut detail = String::from_str("Unexpected columns (expected 4), got ");
        detail.append(decimal_string(columns.len()).as_str());
        detail.append(" in ");
        detail.append(raw.substring_char(span.start, span.end));
        return Err(detail);
    }
    proof {
        assert(span_texts(columns@, chars@)[0] == columns@[0].of(chars@));
        assert(span_texts(columns@, chars@)[1] == columns@[1].of(chars@));
        assert(span_texts(columns@, chars@)[2] == columns@[2].of(chars@));
        assert(span_texts(columns@, chars@)[3] == columns@[3].of(chars@));
    }
    let (word, _) = word_span(chars, columns[1]);
    let status = match ContainerStatus::from_word(raw.substring_char(word.start, word.end)) {
        Some(status) => status,
        None => {
            let mut detail = String::from_str("Unkown status ");
            detail.append(raw.substring_char(columns[2].start, columns[2].end));
            detail.append(" in line ");
            detail.append(raw.substring_char(span.start, span.end));
            return Err(detail);
        },
    };
    let quoted = columns[3];
    if quoted.end - quoted.start < 2 {
        let mut detail = String::from_str("Unknown command ");
        detail.append(raw.substring_char(quoted.start, quoted.end));
        detail.append(" in line ");
        detail.append(raw.substring_char(span.start, span.end));
        return Err(detail);
    }
    let inner = Span { start: quoted.start + 1, end: quoted.end - 1 };
    proof {
        assert(inner.of(raw@) =~= texts[3].subrange(1, texts[3].len() - 1));
    }
    Ok(
        ContainerInfo {
            label: span_string(raw, columns[0]),
            status,
            command: span_string(raw, inner),
            image: span_string(raw, columns[2]),
        },
    )
}

/// Reads the list of all containers from what the tool printed. `success`
/// says whether the tool ended well; where it did not, what it printed is
/// the detail of the error. Otherwise each line of the output stands for a
/// container, and the first line that cannot be read fails the whole list.
pub fn parse_docker_ps_a(success: bool, stdout: &str) -> (list: Result<
    Vec<ContainerInfo>,
    ContainerError,
>)
    ensures
        !success ==> list is Err && list->Err_0@ == ContainerErrorView::DockerError(stdout@),
        success ==> match list {
            Ok(containers) => {
                &&& containers@.len() == lines(stdout@).len()
                &&& forall|i: int|
                    0 <= i < containers@.len() ==> parse_line(#[trigger] lines(stdout@)[i]) == Ok::<
                        ContainerInfoView,
                        Seq<char>,
                    >(containers@[i]@)
            },
            Err(error) => exists|k: int|
                {
                    &&& 0 <= k < lines(stdout@).len()
                    &&& parse_line(#[trigger] lines(stdout@)[k]) is Err
                    &&& error@ == ContainerErrorView::ParseError(
                        parse_line(lines(stdout@)[k])->Err_0,
                    )
                    &&& forall|j: int| 0 <= j < k ==> parse_line(#[trigger] lines(stdout@)[j]) is Ok
                },
        },
{
    if !success {
        return Err(ContainerError::DockerError(String::from_str(stdout)));
    }
    let chars = to_chars(stdout);
    let spans = line_spans(&chars);
    let ghost all = lines(stdout@);
    let mut containers: Vec<ContainerInfo> = Vec::new();
    let mut i: usize = 0;
    while i < spans.len()
        invariant
            success,
            i <= spans@.len(),
            chars@ == stdout@,
            all == lines(stdout@),
            spans_within(spans@, chars@.len()),
            span_texts(spans@, chars@) == all,
            containers@.len() == i,
            forall|j: int|
                0 <= j < i ==> parse_line(#[trigger] all[j]) == Ok::<ContainerInfoView, Seq<char>>(
                    containers@[j]@,
                ),
        decreases spans@.len() - i,
    {
        proof {
            assert(span_texts(spans@, chars@)[i as int] == spans@[i as int].of(chars@));
        }
        match read_line(stdout, &chars, spans[i]) {
            Ok(info) => {
                containers.push(info);
            },
            Err(detail) => {
                proof {
                    assert(parse_line(all[i as int]) is Err);
                }
                return Err(ContainerError::ParseError(detail));
            },
        }
        i += 1;
    }
    Ok(containers)
}

/// Whether a label is made of ASCII letters and digits, hyphens and
/// underscores alone.
pub open spec fn valid_label(label: Seq<char>) -> bool {
    forall|i: int|
        0 <= i < label.len() ==> is_ascii_alphanumeric(#[trigger] label[i]) || label[i] == '-'
            || label[i] == '_'
}

pub fn is_valid_label(label: &str) -> (valid: bool)
    ensures
        valid == valid_label(label@),
{
    let chars = to_chars(label);
    let mut i: usize = 0;
    while i < chars.len()
        invariant
            i <= chars@.len(),
            chars@ == label@,
            forall|k: int|
                0 <= k < i ==> is_ascii_alphanumeric(#[trigger] label@[k]) || label@[k] == '-'
                    || label@[k] == '_',
        decreases chars@.len() - i,
    {
        let c = chars[i];
        if !(ascii_alphanumeric(c) || c == '-' || c == '_') {
            return false;
        }
        i += 1;
    }
    true
}

/// Whether one of `containers` has the label.
pub open spec fn is_listed(containers: Seq<ContainerInfoView>, label: Seq<char>) -> bool {
    exists|i: int| 0 <= i < containers.len() && (#[trigger] containers[i]).label == label
}

/// Whether one of `containers` has the label.
pub fn has_label(containers: &Vec<ContainerInfo>, label: &str) -> (found: bool)
    ensures
        found == is_listed(container_views(containers@), label@),
{
    let mut i: usize = 0;
    while i < containers.len()
        invariant
            i <= containers@.len(),
            forall|k: int|
                0 <= k < i ==> (#[trigger] container_views(containers@)[k]).label != label@,
        decreases containers@.len() - i,
    {
        if str_eq(containers[i].label.as_str(), label) {
            proof {
                assert(container_views(containers@)[i as int].label == label@);
            }
            return true;
        }
        i += 1;
    }
    false
}

/// What has happened so far while an action is carried out.
pub enum DockerEvent {
    /// Nothing yet.
    Begin,
    /// The containers were listed, or could not be.
    Listed(Result<Vec<ContainerInfo>, ContainerError>),
    /// The tool was run with the action: it ended well or not, or it could
    /// not be run at all, for the reason given.
    Ran(Result<bool, String>),
}

/// What is to be done next while an action is carried out.
#[derive(Debug)]
pub enum DockerStep {
    /// List the containers.
    List,
    /// Run the tool with the action and the label.
    Run { action: String, label: String },
    /// Nothing more: the action has ended in this way.
    Done(Result<(), ContainerError>),
}

pub enum DockerEventView {
    Begin,
    Listed(Result<Seq<ContainerInfoView>, ContainerErrorView>),
    Ran(Result<bool, Seq<char>>),
}

pub enum DockerStepView {
    List,
    Run { action: Seq<char>, label: Seq<char> },
    Done(Result<(), ContainerErrorView>),
}

impl View for DockerEvent {
    type V = DockerEventView;

    open spec fn view(&self) -> DockerEventView {
        match *self {
            DockerEvent::Begin => DockerEventView::Begin,
            DockerEvent::Listed(Ok(containers)) => DockerEventView::Listed(
                Ok(container_views(containers@)),
            ),
            DockerEvent::Listed(Err(error)) => DockerEventView::Listed(Err(error@)),
            DockerEvent::Ran(Ok(success)) => DockerEventView::Ran(Ok(success)),
            DockerEvent::Ran(Err(reason)) => DockerEventView::Ran(Err(reason@)),
        }
    }
}

impl View for DockerStep {
    type V = DockerStepView;

    open spec fn view(&self) -> DockerStepView {
        match *self {
            DockerStep::List => DockerStepView::List,
            DockerStep::Run { action, label } => DockerStepView::Run {
                action: action@,
                label: label@,
            },
            DockerStep::Done(Ok(())) => DockerStepView::Done(Ok(())),
            DockerStep::Done(Err(error)) => DockerStepView::Done(Err(error@)),
        }
    }
}

/// The step that follows an event while `action` is carried out on the
/// container `label`.
///
/// A label with a character that is not allowed is refused before anything
/// is run. The containers are listed next, and the action is run only on a
/// container of the list. The action has succeeded where the tool ended
/// well.
pub open spec fn next_step(action: Seq<char>, label: Seq<char>, event: DockerEventView)
    -> DockerStepView {
    match event {
        DockerEventView::Begin => if valid_label(label) {
            DockerStepView::List
        } else {
            DockerStepView::Done(
                Err(ContainerErrorView::DockerError("Invalid label. Use ASCII symbols, '-', '_'"@)),
            )
        },
        DockerEventView::Listed(Err(error)) => DockerStepView::Done(Err(error)),
        DockerEventView::Listed(Ok(containers)) => if is_listed(containers, label) {
            DockerStepView::Run { action, label }
        } else {
            DockerStepView::Done(
                Err(
                    ContainerErrorView::DockerError(
                        "Can't find "@ + label + " in list of containers"@,
                    ),
                ),
            )
        },
        DockerEventView::Ran(Err(reason)) => DockerStepView::Done(
            Err(ContainerErrorView::DockerError(reason)),
        ),
        DockerEventView::Ran(Ok(success)) => if success {
            DockerStepView::Done(Ok(()))
        } else {
            DockerStepView::Done(
                Err(
                    ContainerErrorView::DockerError(
                        label + " was found. Unsucsessful attempt to stop "@ + label,
                    ),
                ),
            )
        },
    }
}

/// Says what is to be done next while `action` is carried out on the
/// container `label`.
pub fn docker_action(action: &str, label: &str, event: DockerEvent) -> (step: DockerStep)
    ensures
        step@ == next_step(action@, label@, event@),
{
    match event {
        DockerEvent::Begin => {
            if is_valid_label(label) {
                DockerStep::List
            } else {
                DockerStep::Done(
                    Err(
                        ContainerError::DockerError(
                            String::from_str("Invalid label. Use ASCII symbols, '-', '_'"),
                        ),
                    ),
                )
            }
        },
        DockerEvent::Listed(Err(error)) => DockerStep::Done(Err(error)),
        DockerEvent::Listed(Ok(containers)) => {
            if has_label(&containers, label) {
                DockerStep::Run { action: String::from_str(action), label: String::from_str(label) }
            } else {
                let mut detail = String::from_str("Can't find ");
                detail.append(label);
                detail.append(" in list of containers");
                DockerStep::Done(Err(ContainerError::DockerError(detail)))
            }
        },
        DockerEvent::Ran(Err(reason)) => DockerStep::Done(Err(ContainerError::DockerError(reason))),
        DockerEvent::Ran(Ok(success)) => {
            if success {
                DockerStep::Done(Ok(()))
            } else {
                let mut detail = String::from_str(label);
                detail.append(" was found. Unsucsessful attempt to stop ");
                detail.append(label);
                DockerStep::Done(Err(ContainerError::DockerError(detail)))
            }
        },
    }
}

/// Says what is to be done next while the container `label` is stopped.
pub fn stop_container(label: String, event: DockerEvent) -> (step: DockerStep)
    ensures
        step@ == next_step("stop"@, label@, event@),
{
    docker_action("stop", label.as_str(), event)
}

/// Says what is to be done next while the container `label` is started.
pub fn start_container(label: String, event: DockerEvent) -> (step: DockerStep)
    ensures
        step@ == next_step("start"@, label@, event@),
{
    docker_action("start", label.as_str(), event)
}

} // verus!
