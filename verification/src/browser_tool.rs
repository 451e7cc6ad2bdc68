//! The agent's tool for driving a browser.
//!
//! Looking is possible in every mode. Whatever starts, moves or changes something needs
//! a mode that can change things, and the user's permission.

use vstd::prelude::*;
use crate::assoc::lemma_lookup_first;
use crate::browser::{TargetCommand, TargetCommandView};
use crate::digits::decimal_text;
use crate::json::{bool_in, field, text_field, uint, uint_view, Fields, Json, JsonView};
use crate::network_tool::session_text;
use crate::models::outcome;
use crate::text::{ascii_lower_text, begins_with, lemma_occurs_between, occurs, occurs_at};
use crate::tool_plan::{
    call_title, lemma_asked_names_session_and_rest, permission_inputs, permission_list,
    planned_call, show_output, shown_output, title_of_call,
    title_of_partial_call, OutputView, PlanView, ToolOutput, ToolPlan,
};

verus! {

/// What to do.
#[derive(Clone, Copy, Debug, PartialEq, Eq, Structural)]
pub enum BrowserOperation {
    /// List the sessions and their targets.
    ListSessions,
    /// Launch a browser at a URL.
    StartSession,
    /// Take a target to a URL.
    Navigate,
    /// Read a target as text.
    Snapshot,
    /// Take a picture of a target.
    Screenshot,
    /// Click an element.
    Click,
    /// Type text.
    Type,
    /// Evaluate a JavaScript expression.
    Evaluate,
    /// Read the last console events.
    ReadConsole,
    /// Read the last network events.
    ReadNetwork,
    /// Open a new target.
    OpenTarget,
    /// Close a target.
    CloseTarget,
    /// Make a target the active one.
    ActivateTarget,
    /// Stop a session.
    StopSession,
}

impl Default for BrowserOperation {
    fn default() -> (r: BrowserOperation)
        ensures
            r == BrowserOperation::ListSessions,
    {
        BrowserOperation::ListSessions
    }
}

/// The name of an operation.
pub open spec fn browser_operation_name(operation: BrowserOperation) -> Seq<char> {
    match operation {
        BrowserOperation::ListSessions => "list_sessions"@,
        BrowserOperation::StartSession => "start_session"@,
        BrowserOperation::Navigate => "navigate"@,
        BrowserOperation::Snapshot => "snapshot"@,
        BrowserOperation::Screenshot => "screenshot"@,
        BrowserOperation::Click => "click"@,
        BrowserOperation::Type => "type"@,
        BrowserOperation::Evaluate => "evaluate"@,
        BrowserOperation::ReadConsole => "read_console"@,
        BrowserOperation::ReadNetwork => "read_network"@,
        BrowserOperation::OpenTarget => "open_target"@,
        BrowserOperation::CloseTarget => "close_target"@,
        BrowserOperation::ActivateTarget => "activate_target"@,
        BrowserOperation::StopSession => "stop_session"@,
    }
}

/// Whether an operation starts, moves or changes something.
pub open spec fn browser_writes(operation: BrowserOperation) -> bool {
    match operation {
        BrowserOperation::ListSessions
        | BrowserOperation::Snapshot
        | BrowserOperation::Screenshot
        | BrowserOperation::ReadConsole
        | BrowserOperation::ReadNetwork => false,
        _ => true,
    }
}

/// What is said once an operation succeeded.
pub open spec fn browser_success(operation: BrowserOperation) -> Seq<char> {
    match operation {
        BrowserOperation::ListSessions => "listed browser sessions"@,
        BrowserOperation::StartSession => "started browser session"@,
        BrowserOperation::Navigate => "navigated"@,
        BrowserOperation::Snapshot => "captured browser snapshot"@,
        BrowserOperation::Screenshot => "captured screenshot, but the current model cannot accept image input"@,
        BrowserOperation::Click => "clicked element"@,
        BrowserOperation::Type => "typed text"@,
        BrowserOperation::Evaluate => "evaluated expression"@,
        BrowserOperation::ReadConsole => "read console events"@,
        BrowserOperation::ReadNetwork => "read network events"@,
        BrowserOperation::OpenTarget => "opened browser target"@,
        BrowserOperation::CloseTarget => "closed browser target"@,
        BrowserOperation::ActivateTarget => "activated browser target"@,
        BrowserOperation::StopSession => "stopped browser session"@,
    }
}

/// The title under which the user is asked for permission.
pub open spec fn browser_ask_title(operation: BrowserOperation) -> Seq<char> {
    match operation {
        BrowserOperation::StartSession => "Start browser session"@,
        BrowserOperation::Navigate => "Navigate browser"@,
        BrowserOperation::Click => "Click browser element"@,
        BrowserOperation::Type => "Type into browser"@,
        BrowserOperation::Evaluate => "Evaluate browser JavaScript"@,
        BrowserOperation::OpenTarget => "Open browser target"@,
        BrowserOperation::CloseTarget => "Close browser target"@,
        BrowserOperation::ActivateTarget => "Activate browser target"@,
        BrowserOperation::StopSession => "Stop browser session"@,
        _ => Seq::empty(),
    }
}

impl BrowserOperation {
    /// The name of this operation.
    pub fn name(self) -> (r: &'static str)
        ensures
            r@ == browser_operation_name(self),
    {
        match self {
            BrowserOperation::ListSessions => "list_sessions",
            BrowserOperation::StartSession => "start_session",
            BrowserOperation::Navigate => "navigate",
            BrowserOperation::Snapshot => "snapshot",
            BrowserOperation::Screenshot => "screenshot",
            BrowserOperation::Click => "click",
            BrowserOperation::Type => "type",
            BrowserOperation::Evaluate => "evaluate",
            BrowserOperation::ReadConsole => "read_console",
            BrowserOperation::ReadNetwork => "read_network",
            BrowserOperation::OpenTarget => "open_target",
            BrowserOperation::CloseTarget => "close_target",
            BrowserOperation::ActivateTarget => "activate_target",
            BrowserOperation::StopSession => "stop_session",
        }
    }

    /// Whether this operation starts, moves or changes something.
    pub fn is_write(self) -> (r: bool)
        ensures
            r == browser_writes(self),
    {
        match self {
            BrowserOperation::ListSessions => false,
            BrowserOperation::Snapshot => false,
            BrowserOperation::Screenshot => false,
            BrowserOperation::ReadConsole => false,
            BrowserOperation::ReadNetwork => false,
            _ => true,
        }
    }

    fn success_text(self) -> (r: &'static str)
        ensures
            r@ == browser_success(self),
    {
        match self {
            BrowserOperation::ListSessions => "listed browser sessions",
            BrowserOperation::StartSession => "started browser session",
            BrowserOperation::Navigate => "navigated",
            BrowserOperation::Snapshot => "captured browser snapshot",
            BrowserOperation::Screenshot => "captured screenshot, but the current model cannot accept image input",
            BrowserOperation::Click => "clicked element",
            BrowserOperation::Type => "typed text",
            BrowserOperation::Evaluate => "evaluated expression",
            BrowserOperation::ReadConsole => "read console events",
            BrowserOperation::ReadNetwork => "read network events",
            BrowserOperation::OpenTarget => "opened browser target",
            BrowserOperation::CloseTarget => "closed browser target",
            BrowserOperation::ActivateTarget => "activated browser target",
            BrowserOperation::StopSession => "stopped browser session",
        }
    }

    fn ask_title(self) -> (r: &'static str)
        requires
            browser_writes(self),
        ensures
            r@ == browser_ask_title(self),
    {
        match self {
            BrowserOperation::StartSession => "Start browser session",
            BrowserOperation::Navigate => "Navigate browser",
            BrowserOperation::Click => "Click browser element",
            BrowserOperation::Type => "Type into browser",
            BrowserOperation::Evaluate => "Evaluate browser JavaScript",
            BrowserOperation::OpenTarget => "Open browser target",
            BrowserOperation::CloseTarget => "Close browser target",
            BrowserOperation::ActivateTarget => "Activate browser target",
            _ => "Stop browser session",
        }
    }
}

/// The tool's input: the operation and the fields that it needs.
#[derive(Debug)]
pub struct BrowserToolInput {
    pub operation: BrowserOperation,
    pub session_id: Option<u64>,
    /// The session's active target is meant where none is given.
    pub target_id: Option<String>,
    pub url: Option<String>,
    pub selector: Option<String>,
    pub text: Option<String>,
    pub expression: Option<String>,
    /// Whether the browser keeps running once the session is stopped.
    pub keep_open: Option<bool>,
    /// Whether the browser is launched without a window.
    pub headless: Option<bool>,
}

/// What is run.
#[allow(inconsistent_fields)]
#[derive(Debug)]
pub enum BrowserCall {
    ListSessions,
    StartSession { url: String, headless: bool },
    StopSession { session_id: u64, keep_open: bool },
    OpenTarget { session_id: u64, url: String },
    CloseTarget { session_id: u64, target_id: String },
    ActivateTarget { session_id: u64, target_id: String },
    ReadConsole { session_id: u64, target_id: Option<String> },
    ReadNetwork { session_id: u64, target_id: Option<String> },
    /// An operation on a target of the session.
    Command { session_id: u64, target_id: Option<String>, command: TargetCommand },
}

/// The model of what is run.
#[allow(inconsistent_fields)]
pub enum BrowserCallView {
    ListSessions,
    StartSession { url: Seq<char>, headless: bool },
    StopSession { session_id: u64, keep_open: bool },
    OpenTarget { session_id: u64, url: Seq<char> },
    CloseTarget { session_id: u64, target_id: Seq<char> },
    ActivateTarget { session_id: u64, target_id: Seq<char> },
    ReadConsole { session_id: u64, target_id: Option<Seq<char>> },
    ReadNetwork { session_id: u64, target_id: Option<Seq<char>> },
    Command { session_id: u64, target_id: Option<Seq<char>>, command: TargetCommandView },
}

impl DeepView for BrowserCall {
    type V = BrowserCallView;

    open spec fn deep_view(&self) -> BrowserCallView {
        match self {
            BrowserCall::ListSessions => BrowserCallView::ListSessions,
            BrowserCall::StartSession { url, headless } => BrowserCallView::StartSession {
                url: url@,
                headless: *headless,
            },
            BrowserCall::StopSession { session_id, keep_open } => BrowserCallView::StopSession {
                session_id: *session_id,
                keep_open: *keep_open,
            },
            BrowserCall::OpenTarget { session_id, url } => BrowserCallView::OpenTarget {
                session_id: *session_id,
                url: url@,
            },
            BrowserCall::CloseTarget { session_id, target_id } => BrowserCallView::CloseTarget {
                session_id: *session_id,
                target_id: target_id@,
            },
            BrowserCall::ActivateTarget { session_id, target_id } => BrowserCallView::ActivateTarget {
                session_id: *session_id,
                target_id: target_id@,
            },
            BrowserCall::ReadConsole { session_id, target_id } => BrowserCallView::ReadConsole {
                session_id: *session_id,
                target_id: target_id.deep_view(),
            },
            BrowserCall::ReadNetwork { session_id, target_id } => BrowserCallView::ReadNetwork {
                session_id: *session_id,
                target_id: target_id.deep_view(),
            },
            BrowserCall::Command { session_id, target_id, command } => BrowserCallView::Command {
                session_id: *session_id,
                target_id: target_id.deep_view(),
                command: command.deep_view(),
            },
        }
    }
}

// ---------------------------------------------------------------------------
// The plan

/// What is said where a field is missing.
pub open spec fn browser_field_missing(field: Seq<char>, operation: BrowserOperation) -> Seq<char> {
    field + " is required for browser "@ + browser_operation_name(operation)
}

/// The error of a missing field.
pub open spec fn lacks<T>(field: Seq<char>, operation: BrowserOperation) -> Result<T, Seq<char>> {
    Err(browser_field_missing(field, operation))
}

/// Whether the flag is set.
pub open spec fn flag(value: Option<bool>) -> bool {
    value == Some(true)
}

/// What an operation runs in a session and the value that permission is asked for, or
/// which field it lacks.
pub open spec fn session_call(input: BrowserToolInput, session_id: u64) -> Result<
    (BrowserCallView, Seq<char>),
    Seq<char>,
> {
    let operation = input.operation;
    let target_id = input.target_id.deep_view();
    let session = session_text(session_id);
    match operation {
        BrowserOperation::Snapshot => Ok(
            (
                BrowserCallView::Command {
                    session_id,
                    target_id,
                    command: TargetCommandView::Snapshot,
                },
                session,
            ),
        ),
        BrowserOperation::Screenshot => Ok(
            (
                BrowserCallView::Command {
                    session_id,
                    target_id,
                    command: TargetCommandView::Screenshot,
                },
                session,
            ),
        ),
        BrowserOperation::ReadConsole => Ok(
            (BrowserCallView::ReadConsole { session_id, target_id }, session),
        ),
        BrowserOperation::ReadNetwork => Ok(
            (BrowserCallView::ReadNetwork { session_id, target_id }, session),
        ),
        BrowserOperation::StopSession => Ok(
            (
                BrowserCallView::StopSession { session_id, keep_open: flag(input.keep_open) },
                session,
            ),
        ),
        BrowserOperation::Navigate => match input.url {
            Some(url) => Ok(
                (
                    BrowserCallView::Command {
                        session_id,
                        target_id,
                        command: TargetCommandView::Navigate { url: url@ },
                    },
                    session + " url:"@ + url@,
                ),
            ),
            None => lacks("url"@, operation),
        },
        BrowserOperation::Click => match input.selector {
            Some(selector) => Ok(
                (
                    BrowserCallView::Command {
                        session_id,
                        target_id,
                        command: TargetCommandView::Click { selector: selector@ },
                    },
                    session + " selector:"@ + selector@,
                ),
            ),
            None => lacks("selector"@, operation),
        },
        BrowserOperation::Type => match (input.selector, input.text) {
            (None, _) => lacks("selector"@, operation),
            (_, None) => lacks("text"@, operation),
            (Some(selector), Some(text)) => Ok(
                (
                    BrowserCallView::Command {
                        session_id,
                        target_id,
                        command: TargetCommandView::TypeText { selector: selector@, text: text@ },
                    },
                    session + " selector:"@ + selector@ + " text:"@ + text@,
                ),
            ),
        },
        BrowserOperation::Evaluate => match input.expression {
            Some(expression) => Ok(
                (
                    BrowserCallView::Command {
                        session_id,
                        target_id,
                        command: TargetCommandView::Evaluate { expression: expression@ },
                    },
                    session + " expression:"@ + expression@,
                ),
            ),
            None => lacks("expression"@, operation),
        },
        BrowserOperation::OpenTarget => match input.url {
            Some(url) => Ok(
                (
                    BrowserCallView::OpenTarget { session_id, url: url@ },
                    session + " url:"@ + url@,
                ),
            ),
            None => lacks("url"@, operation),
        },
        BrowserOperation::CloseTarget => match input.target_id {
            Some(id) => Ok(
                (
                    BrowserCallView::CloseTarget { session_id, target_id: id@ },
                    session + " target_id:"@ + id@,
                ),
            ),
            None => lacks("target_id"@, operation),
        },
        _ => match input.target_id {
            Some(id) => Ok(
                (
                    BrowserCallView::ActivateTarget { session_id, target_id: id@ },
                    session + " target_id:"@ + id@,
                ),
            ),
            None => lacks("target_id"@, operation),
        },
    }
}

/// What an operation runs and the value that permission is asked for, or which field it
/// lacks.
pub open spec fn browser_call(input: BrowserToolInput) -> Result<
    (BrowserCallView, Seq<char>),
    Seq<char>,
> {
    match input.operation {
        BrowserOperation::ListSessions => Ok((BrowserCallView::ListSessions, Seq::empty())),
        BrowserOperation::StartSession => match input.url {
            Some(url) => Ok(
                (
                    BrowserCallView::StartSession { url: url@, headless: flag(input.headless) },
                    "url:"@ + url@,
                ),
            ),
            None => lacks("url"@, input.operation),
        },
        _ => match input.session_id {
            Some(session_id) => session_call(input, session_id),
            None => lacks("session_id"@, input.operation),
        },
    }
}

/// What is said where an operation is not available.
pub open spec fn browser_refusal(operation: BrowserOperation) -> Seq<char> {
    "browser."@ + browser_operation_name(operation)
        + " is not available in read-only modes. Switch to Write or Execute mode to start sessions, navigate, or interact with the browser."@
}

/// What a call of the tool comes to. An operation that starts, moves or changes
/// something is refused in a read-only mode, and otherwise asks the user first.
pub open spec fn browser_plan(input: BrowserToolInput, read_only: bool) -> PlanView<
    BrowserCallView,
> {
    let operation = input.operation;
    let message = browser_success(operation);
    if browser_writes(operation) && read_only {
        PlanView::Refused { error: browser_refusal(operation) }
    } else {
        match browser_call(input) {
            Err(error) => PlanView::Refused { error },
            Ok((call, value)) => if browser_writes(operation) {
                PlanView::Ask {
                    title: browser_ask_title(operation),
                    inputs: permission_list(
                        browser_operation_name(operation),
                        Seq::empty().push(value),
                    ),
                    call,
                    message,
                }
            } else {
                PlanView::Run { call, message }
            },
        }
    }
}

/// Nothing that starts, moves or changes something is run without asking the user, nor
/// at all in a read-only mode; and looking never asks.
pub proof fn law_browser_writes_ask(input: BrowserToolInput, read_only: bool)
    ensures
        browser_writes(input.operation) ==> !(browser_plan(input, read_only) is Run),
        browser_writes(input.operation) && read_only ==> browser_plan(input, read_only) is Refused,
        !browser_writes(input.operation) ==> browser_plan(input, read_only) is Run || browser_plan(
            input,
            read_only,
        ) is Refused,
        !browser_writes(input.operation) ==> browser_plan(input, true) == browser_plan(input, false),
{
}

fn lacking<T>(field: &str, operation: BrowserOperation) -> (r: Result<T, String>)
    ensures
        r matches Err(error) && error@ == browser_field_missing(field@, operation),
{
    let mut error = field.to_owned();
    error.append(" is required for browser ");
    error.append(operation.name());
    Err(error)
}

fn is_set(value: Option<bool>) -> (r: bool)
    ensures
        r == flag(value),
{
    match value {
        Some(value) => value,
        None => false,
    }
}

fn plan_session_call(input: BrowserToolInput, session_id: u64) -> (r: Result<
    (BrowserCall, String),
    String,
>)
    ensures
        match session_call(input, session_id) {
            Ok((call, value)) => r matches Ok(c) && c.0.deep_view() == call && c.1@ == value,
            Err(text) => r matches Err(error) && error@ == text,
        },
{
    let operation = input.operation;
    let target_id = input.target_id;
    let mut value = "session_id:".to_owned();
    value.append(decimal_text(session_id).as_str());
    match operation {
        BrowserOperation::Snapshot => Ok(
            (
                BrowserCall::Command { session_id, target_id, command: TargetCommand::Snapshot },
                value,
            ),
        ),
        BrowserOperation::Screenshot => Ok(
            (
                BrowserCall::Command { session_id, target_id, command: TargetCommand::Screenshot },
                value,
            ),
        ),
        BrowserOperation::ReadConsole => Ok(
            (BrowserCall::ReadConsole { session_id, target_id }, value),
        ),
        BrowserOperation::ReadNetwork => Ok(
            (BrowserCall::ReadNetwork { session_id, target_id }, value),
        ),
        BrowserOperation::StopSession => Ok(
            (BrowserCall::StopSession { session_id, keep_open: is_set(input.keep_open) }, value),
        ),
        BrowserOperation::Navigate => match input.url {
            Some(url) => {
                value.append(" url:");
                value.append(url.as_str());
                let command = TargetCommand::Navigate { url };
                Ok((BrowserCall::Command { session_id, target_id, command }, value))
            },
            None => lacking("url", operation),
        },
        BrowserOperation::Click => match input.selector {
            Some(selector) => {
                value.append(" selector:");
                value.append(selector.as_str());
                let command = TargetCommand::Click { selector };
                Ok((BrowserCall::Command { session_id, target_id, command }, value))
            },
            None => lacking("selector", operation),
        },
        BrowserOperation::Type => match input.selector {
            Some(selector) => match input.text {
                Some(text) => {
                    value.append(" selector:");
                    value.append(selector.as_str());
                    value.append(" text:");
                    value.append(text.as_str());
                    let command = TargetCommand::TypeText { selector, text };
                    Ok((BrowserCall::Command { session_id, target_id, command }, value))
                },
                None => lacking("text", operation),
            },
            None => lacking("selector", operation),
        },
        BrowserOperation::Evaluate => match input.expression {
            Some(expression) => {
                value.append(" expression:");
                value.append(expression.as_str());
                let command = TargetCommand::Evaluate { expression };
                Ok((BrowserCall::Command { session_id, target_id, command }, value))
            },
            None => lacking("expression", operation),
        },
        BrowserOperation::OpenTarget => match input.url {
            Some(url) => {
                value.append(" url:");
                value.append(url.as_str());
                Ok((BrowserCall::OpenTarget { session_id, url }, value))
            },
            None => lacking("url", operation),
        },
        BrowserOperation::CloseTarget => match target_id {
            Some(target_id) => {
                value.append(" target_id:");
                value.append(target_id.as_str());
                Ok((BrowserCall::CloseTarget { session_id, target_id }, value))
            },
            None => lacking("target_id", operation),
        },
        _ => match target_id {
            Some(target_id) => {
                value.append(" target_id:");
                value.append(target_id.as_str());
                Ok((BrowserCall::ActivateTarget { session_id, target_id }, value))
            },
            None => lacking("target_id", operation),
        },
    }
}

fn plan_call(input: BrowserToolInput) -> (r: Result<(BrowserCall, String), String>)
    ensures
        match browser_call(input) {
            Ok((call, value)) => r matches Ok(c) && c.0.deep_view() == call && c.1@ == value,
            Err(text) => r matches Err(error) && error@ == text,
        },
{
    match input.operation {
        BrowserOperation::ListSessions => {
            let value = String::new();
            assert(value@ =~= Seq::<char>::empty());
            Ok((BrowserCall::ListSessions, value))
        },
        BrowserOperation::StartSession => match input.url {
            Some(url) => {
                let mut value = "url:".to_owned();
                value.append(url.as_str());
                Ok((BrowserCall::StartSession { url, headless: is_set(input.headless) }, value))
            },
            None => lacking("url", BrowserOperation::StartSession),
        },
        _ => match input.session_id {
            Some(session_id) => plan_session_call(input, session_id),
            None => lacking("session_id", input.operation),
        },
    }
}

/// What a call of the tool comes to.
pub fn plan_browser_operation(input: BrowserToolInput, read_only: bool) -> (r: ToolPlan<BrowserCall>)
    ensures
        r.deep_view() == browser_plan(input, read_only),
{
    let operation = input.operation;
    let writes = operation.is_write();
    if writes && read_only {
        let mut error = "browser.".to_owned();
        error.append(operation.name());
        error.append(
            " is not available in read-only modes. Switch to Write or Execute mode to start sessions, navigate, or interact with the browser.",
        );
        return ToolPlan::Refused { error };
    }
    let message = operation.success_text().to_owned();
    match plan_call(input) {
        Ok((call, value)) => if writes {
            let mut values: Vec<String> = Vec::new();
            values.push(value);
            assert(values.deep_view() =~= Seq::empty().push(value@));
            ToolPlan::Ask {
                title: operation.ask_title().to_owned(),
                inputs: permission_inputs(operation.name(), &values),
                call,
                message,
            }
        } else {
            ToolPlan::Run { call, message }
        },
        Err(error) => ToolPlan::Refused { error },
    }
}

// ---------------------------------------------------------------------------
// Results

/// What is reported of a session that was started.
pub fn started_session(session_id: u64) -> (r: Json)
    ensures
        r.deep_view() == JsonView::Object(
            Seq::empty().push(("session_id"@, uint_view(session_id as int))),
        ),
{
    Fields::new().with("session_id", uint(session_id)).object()
}

/// What is reported of an operation that has nothing to report.
pub fn nothing_to_report() -> (r: Json)
    ensures
        r.deep_view() == JsonView::Object(Seq::empty()),
{
    Fields::new().object()
}

/// What is reported of a picture that the model cannot be shown: how many bytes of text
/// it was written in.
pub fn unseen_screenshot(image: &str) -> (r: Json)
    ensures
        r.deep_view() == JsonView::Object(
            Seq::empty().push(("captured"@, JsonView::Bool(true))).push(
                ("base64_bytes"@, uint_view(vstd::utf8::encode_utf8(image@).len() as int)),
            ),
        ),
{
    let bytes: usize = image.as_bytes().len();
    Fields::new().with("captured", Json::Bool(true)).with(
        "base64_bytes",
        uint(bytes as u64),
    ).object()
}

/// The output of the tool.
#[allow(inconsistent_fields)]
#[derive(Debug)]
pub enum BrowserToolOutput {
    Success { operation: String, message: String, data: Json },
    /// A picture of a page, in the form that the model takes.
    Screenshot { operation: String, image: Json },
    Error { operation: Option<String>, error: String },
}

/// The model of the tool's output.
#[allow(inconsistent_fields)]
pub enum BrowserOutputView {
    Success { operation: Seq<char>, message: Seq<char>, data: JsonView },
    Screenshot { operation: Seq<char>, image: JsonView },
    Error { operation: Option<Seq<char>>, error: Seq<char> },
}

impl DeepView for BrowserToolOutput {
    type V = BrowserOutputView;

    open spec fn deep_view(&self) -> BrowserOutputView {
        match self {
            BrowserToolOutput::Success { operation, message, data } => BrowserOutputView::Success {
                operation: operation@,
                message: message@,
                data: data.deep_view(),
            },
            BrowserToolOutput::Screenshot { operation, image } => BrowserOutputView::Screenshot {
                operation: operation@,
                image: image.deep_view(),
            },
            BrowserToolOutput::Error { operation, error } => BrowserOutputView::Error {
                operation: operation.deep_view(),
                error: error@,
            },
        }
    }
}

/// The output of an operation that succeeded with that data, or failed.
pub open spec fn browser_output(
    operation: Seq<char>,
    message: Seq<char>,
    result: Result<JsonView, Seq<char>>,
) -> Result<BrowserOutputView, BrowserOutputView> {
    match result {
        Ok(data) => Ok(BrowserOutputView::Success { operation, message, data }),
        Err(error) => Err(BrowserOutputView::Error { operation: Some(operation), error }),
    }
}

/// The output of an operation that succeeded with that data, or failed.
pub fn finish_browser_operation(operation: &str, message: &str, result: Result<Json, String>) -> (r:
    Result<BrowserToolOutput, BrowserToolOutput>)
    ensures
        outcome(r) == browser_output(operation@, message@, outcome(result)),
{
    match result {
        Ok(data) => Ok(
            BrowserToolOutput::Success {
                operation: operation.to_owned(),
                message: message.to_owned(),
                data,
            },
        ),
        Err(error) => Err(
            BrowserToolOutput::Error { operation: Some(operation.to_owned()), error },
        ),
    }
}

/// The output of taking a picture. A model that takes no pictures is told so. For one
/// that does, `converted` is what became of putting the picture into its form: it may
/// have failed, or given nothing.
pub open spec fn screenshot_output(
    operation: Seq<char>,
    picture: Seq<char>,
    supports_images: bool,
    converted: Result<Option<JsonView>, Seq<char>>,
) -> Result<BrowserOutputView, BrowserOutputView> {
    if supports_images {
        match converted {
            Ok(Some(image)) => Ok(BrowserOutputView::Screenshot { operation, image }),
            Ok(None) => Err(
                BrowserOutputView::Error {
                    operation: Some(operation),
                    error: "browser screenshot could not be converted for language model input"@,
                },
            ),
            Err(_) => Err(
                BrowserOutputView::Error {
                    operation: Some(operation),
                    error: "failed to convert browser screenshot"@,
                },
            ),
        }
    } else {
        Ok(
            BrowserOutputView::Success {
                operation,
                message: "captured screenshot, but the current model cannot accept image input"@,
                data: JsonView::Object(
                    Seq::empty().push(("captured"@, JsonView::Bool(true))).push(
                        ("base64_bytes"@, uint_view(vstd::utf8::encode_utf8(picture).len() as int)),
                    ),
                ),
            },
        )
    }
}

/// The output of taking a picture.
pub fn finish_screenshot(
    operation: &str,
    picture: &str,
    supports_images: bool,
    converted: Result<Option<Json>, String>,
) -> (r: Result<BrowserToolOutput, BrowserToolOutput>)
    ensures
        outcome(r) == screenshot_output(operation@, picture@, supports_images, outcome(converted)),
{
    if !supports_images {
        return Ok(
            BrowserToolOutput::Success {
                operation: operation.to_owned(),
                message:
                    "captured screenshot, but the current model cannot accept image input".to_owned(),
                data: unseen_screenshot(picture),
            },
        );
    }
    match converted {
        Ok(Some(image)) => Ok(
            BrowserToolOutput::Screenshot { operation: operation.to_owned(), image },
        ),
        Ok(None) => Err(
            BrowserToolOutput::Error {
                operation: Some(operation.to_owned()),
                error:
                    "browser screenshot could not be converted for language model input".to_owned(),
            },
        ),
        Err(_) => Err(
            BrowserToolOutput::Error {
                operation: Some(operation.to_owned()),
                error: "failed to convert browser screenshot".to_owned(),
            },
        ),
    }
}

/// What the model is shown.
#[derive(Debug)]
pub enum ShownOutput {
    Text(String),
    Image(Json),
}

/// The model of what the model is shown.
pub enum ShownView {
    Text(Seq<char>),
    Image(JsonView),
}

impl DeepView for ShownOutput {
    type V = ShownView;

    open spec fn deep_view(&self) -> ShownView {
        match self {
            ShownOutput::Text(text) => ShownView::Text(text@),
            ShownOutput::Image(image) => ShownView::Image(image.deep_view()),
        }
    }
}

/// What the model is shown of an output, given the data written out as text.
pub open spec fn shown_browser_output(output: BrowserOutputView, data: Seq<char>) -> ShownView {
    match output {
        BrowserOutputView::Success { operation, message, data: value } => ShownView::Text(
            shown_output(
                "Browser"@,
                OutputView::Success { operation, message, data: value },
                data,
            ),
        ),
        BrowserOutputView::Screenshot { image, .. } => ShownView::Image(image),
        BrowserOutputView::Error { operation, error } => ShownView::Text(
            shown_output("Browser"@, OutputView::Error { operation, error }, data),
        ),
    }
}

/// What the model is shown of an output, given the data written out as text.
pub fn show_browser_output(output: BrowserToolOutput, data: &str) -> (r: ShownOutput)
    ensures
        r.deep_view() == shown_browser_output(output.deep_view(), data@),
{
    match output {
        BrowserToolOutput::Success { operation, message, data: value } => {
            let output = ToolOutput::Success { operation, message, data: value };
            ShownOutput::Text(show_output("Browser", &output, data))
        },
        BrowserToolOutput::Screenshot { operation, image } => ShownOutput::Image(image),
        BrowserToolOutput::Error { operation, error } => {
            let output = ToolOutput::Error { operation, error };
            ShownOutput::Text(show_output("Browser", &output, data))
        },
    }
}

/// The tool.
#[derive(Clone, Copy, Debug, PartialEq, Eq, Structural)]
pub struct BrowserTool;

impl BrowserTool {
    /// The tool.
    pub fn new() -> (r: BrowserTool)
        ensures
            r == BrowserTool,
    {
        BrowserTool
    }

    /// The name that the model calls the tool by.
    pub fn name(&self) -> (r: &'static str)
        ensures
            r@ == "browser"@,
    {
        "browser"
    }

    /// The title of a call while it runs, for an input that is complete or one that is
    /// not yet.
    pub fn initial_title(&self, input: Result<&BrowserToolInput, &Json>) -> (r: String)
        ensures
            r@ == match input {
                Ok(input) => call_title(
                    "Browser"@,
                    Some(browser_operation_name(input.operation)),
                ),
                Err(value) => call_title("Browser"@, text_field(value.deep_view(), "operation"@)),
            },
    {
        match input {
            Ok(input) => title_of_call("Browser", Some(input.operation.name())),
            Err(value) => title_of_partial_call("Browser", value),
        }
    }

    /// The output where the input did not arrive.
    pub fn input_error(&self, error: &str) -> (r: BrowserToolOutput)
        ensures
            r.deep_view() == (BrowserOutputView::Error {
                operation: None,
                error: "Failed to receive browser tool input: "@ + error@,
            }),
    {
        let mut text = "Failed to receive browser tool input: ".to_owned();
        text.append(error);
        BrowserToolOutput::Error { operation: None, error: text }
    }

    /// What a call of the tool comes to.
    pub fn run_operation(&self, input: BrowserToolInput, read_only: bool) -> (r: ToolPlan<
        BrowserCall,
    >)
        ensures
            r.deep_view() == browser_plan(input, read_only),
    {
        plan_browser_operation(input, read_only)
    }
}

// ---------------------------------------------------------------------------
// What a call comes to

/// What is run is what the input asks for, with the input's own values, in the input's own
/// session and target.
pub proof fn law_browser_runs_what_is_asked(input: BrowserToolInput, read_only: bool)
    ensures
        planned_call(browser_plan(input, read_only)) matches Some(call) ==> match call {
            BrowserCallView::ListSessions => input.operation == BrowserOperation::ListSessions,
            BrowserCallView::StartSession { url, headless } => {
                &&& input.operation == BrowserOperation::StartSession
                &&& input.url matches Some(given) && given@ == url
                &&& headless <==> input.headless == Some(true)
            },
            BrowserCallView::StopSession { session_id, keep_open } => {
                &&& input.operation == BrowserOperation::StopSession
                &&& input.session_id == Some(session_id)
                &&& keep_open <==> input.keep_open == Some(true)
            },
            BrowserCallView::OpenTarget { session_id, url } => {
                &&& input.operation == BrowserOperation::OpenTarget
                &&& input.session_id == Some(session_id)
                &&& input.url matches Some(given) && given@ == url
            },
            BrowserCallView::CloseTarget { session_id, target_id } => {
                &&& input.operation == BrowserOperation::CloseTarget
                &&& input.session_id == Some(session_id)
                &&& input.target_id matches Some(given) && given@ == target_id
            },
            BrowserCallView::ActivateTarget { session_id, target_id } => {
                &&& input.operation == BrowserOperation::ActivateTarget
                &&& input.session_id == Some(session_id)
                &&& input.target_id matches Some(given) && given@ == target_id
            },
            BrowserCallView::ReadConsole { session_id, target_id } => {
                &&& input.operation == BrowserOperation::ReadConsole
                &&& input.session_id == Some(session_id)
                &&& target_id == input.target_id.deep_view()
            },
            BrowserCallView::ReadNetwork { session_id, target_id } => {
                &&& input.operation == BrowserOperation::ReadNetwork
                &&& input.session_id == Some(session_id)
                &&& target_id == input.target_id.deep_view()
            },
            BrowserCallView::Command { session_id, target_id, command } => {
                &&& input.session_id == Some(session_id)
                &&& target_id == input.target_id.deep_view()
                &&& match command {
                    TargetCommandView::Snapshot => input.operation == BrowserOperation::Snapshot,
                    TargetCommandView::Screenshot => input.operation
                        == BrowserOperation::Screenshot,
                    TargetCommandView::Navigate { url } => input.operation
                        == BrowserOperation::Navigate && (input.url matches Some(given) && given@
                        == url),
                    TargetCommandView::Click { selector } => input.operation
                        == BrowserOperation::Click && (input.selector matches Some(given) && given@
                        == selector),
                    TargetCommandView::TypeText { selector, text } => input.operation
                        == BrowserOperation::Type && (input.selector matches Some(given) && given@
                        == selector) && (input.text matches Some(given) && given@ == text),
                    TargetCommandView::Evaluate { expression } => input.operation
                        == BrowserOperation::Evaluate && (input.expression matches Some(given)
                        && given@ == expression),
                    _ => false,
                }
            },
        },
{
}

/// A call is refused only where it may not change anything or lacks what its operation needs.
pub proof fn law_browser_refuses_what_lacks_something(input: BrowserToolInput)
    ensures
        browser_plan(input, false) is Refused <==> match input.operation {
            BrowserOperation::ListSessions => false,
            BrowserOperation::StartSession => input.url is None,
            BrowserOperation::Navigate | BrowserOperation::OpenTarget => input.session_id is None
                || input.url is None,
            BrowserOperation::Click => input.session_id is None || input.selector is None,
            BrowserOperation::Type => input.session_id is None || input.selector is None
                || input.text is None,
            BrowserOperation::Evaluate => input.session_id is None || input.expression is None,
            BrowserOperation::CloseTarget | BrowserOperation::ActivateTarget => input.session_id
                is None || input.target_id is None,
            _ => input.session_id is None,
        },
{
}

/// Whatever is run without asking only looks: it lists, reads events, or takes the page's
/// text or picture.
pub proof fn law_browser_only_looks_unasked(input: BrowserToolInput, read_only: bool)
    ensures
        browser_plan(input, read_only) matches PlanView::Run { call, .. } ==> match call {
            BrowserCallView::ListSessions => true,
            BrowserCallView::ReadConsole { .. } => true,
            BrowserCallView::ReadNetwork { .. } => true,
            BrowserCallView::Command { command, .. } => command is Snapshot || command
                is Screenshot,
            _ => false,
        },
        browser_plan(input, read_only) matches PlanView::Ask { call, .. } ==> match call {
            BrowserCallView::ListSessions => false,
            BrowserCallView::ReadConsole { .. } => false,
            BrowserCallView::ReadNetwork { .. } => false,
            BrowserCallView::Command { command, .. } => !(command is Snapshot || command
                is Screenshot),
            _ => true,
        },
{
}

/// The user is asked by what will be done: the one thing that permission is asked for names
/// the operation, the session, and every value that is sent.
pub proof fn law_browser_asks_for_what_is_sent(input: BrowserToolInput)
    ensures
        browser_plan(input, false) matches PlanView::Ask { inputs, call, title, message } ==> {
            &&& inputs.len() == 1
            &&& begins_with(inputs[0], browser_operation_name(input.operation))
            &&& title == browser_ask_title(input.operation)
            &&& message == browser_success(input.operation)
            &&& input.operation != BrowserOperation::StartSession ==> (input.session_id matches Some(
                id,
            ) && occurs(inputs[0], session_text(id)))
            &&& match call {
                BrowserCallView::StartSession { url, .. } => occurs(inputs[0], "url:"@ + url),
                BrowserCallView::OpenTarget { url, .. } => occurs(inputs[0], " url:"@ + url),
                BrowserCallView::CloseTarget { target_id, .. } => occurs(
                    inputs[0],
                    " target_id:"@ + target_id,
                ),
                BrowserCallView::ActivateTarget { target_id, .. } => occurs(
                    inputs[0],
                    " target_id:"@ + target_id,
                ),
                BrowserCallView::Command { command, .. } => match command {
                    TargetCommandView::Navigate { url } => occurs(inputs[0], " url:"@ + url),
                    TargetCommandView::Click { selector } => occurs(
                        inputs[0],
                        " selector:"@ + selector,
                    ),
                    TargetCommandView::TypeText { selector, text } => occurs(
                        inputs[0],
                        " selector:"@ + selector + " text:"@ + text,
                    ),
                    TargetCommandView::Evaluate { expression } => occurs(
                        inputs[0],
                        " expression:"@ + expression,
                    ),
                    _ => true,
                },
                _ => true,
            }
        },
{
    if let PlanView::Ask { inputs, call, .. } = browser_plan(input, false) {
        let name = browser_operation_name(input.operation);
        let value = browser_call(input)->Ok_0.1;
        assert(inputs[0] == name + " "@ + value);
        if input.operation == BrowserOperation::StartSession {
            let nothing = Seq::<char>::empty();
            assert(value =~= nothing + value);
            lemma_asked_names_session_and_rest(inputs[0], name, nothing, value);
        } else {
            let session = session_text(input.session_id->0);
            let sent = match call {
                BrowserCallView::OpenTarget { url, .. } => " url:"@ + url,
                BrowserCallView::CloseTarget { target_id, .. } => " target_id:"@ + target_id,
                BrowserCallView::ActivateTarget { target_id, .. } => " target_id:"@ + target_id,
                BrowserCallView::Command { command, .. } => match command {
                    TargetCommandView::Navigate { url } => " url:"@ + url,
                    TargetCommandView::Click { selector } => " selector:"@ + selector,
                    TargetCommandView::TypeText { selector, text } => " selector:"@ + selector
                        + " text:"@ + text,
                    TargetCommandView::Evaluate { expression } => " expression:"@ + expression,
                    _ => Seq::empty(),
                },
                _ => Seq::empty(),
            };
            assert(value =~= session + sent);
            lemma_asked_names_session_and_rest(inputs[0], name, session, sent);
        }
    }
}

/// Each operation has a name of its own.
pub proof fn law_browser_operations_are_told_by_name(a: BrowserOperation, b: BrowserOperation)
    requires
        browser_operation_name(a) == browser_operation_name(b),
    ensures
        a == b,
{
    reveal_strlit("list_sessions");
    reveal_strlit("start_session");
    reveal_strlit("navigate");
    reveal_strlit("snapshot");
    reveal_strlit("screenshot");
    reveal_strlit("click");
    reveal_strlit("type");
    reveal_strlit("evaluate");
    reveal_strlit("read_console");
    reveal_strlit("read_network");
    reveal_strlit("open_target");
    reveal_strlit("close_target");
    reveal_strlit("activate_target");
    reveal_strlit("stop_session");
    assert("list_sessions"@.len() == 13 && "list_sessions"@[0] == 'l');
    assert("start_session"@.len() == 13 && "start_session"@[0] == 's');
    assert("navigate"@.len() == 8 && "navigate"@[0] == 'n');
    assert("snapshot"@.len() == 8 && "snapshot"@[0] == 's');
    assert("screenshot"@.len() == 10 && "click"@.len() == 5 && "type"@.len() == 4);
    assert("evaluate"@.len() == 8 && "evaluate"@[0] == 'e');
    assert("read_console"@.len() == 12 && "read_console"@[5] == 'c' && "read_console"@[0] == 'r');
    assert("read_network"@.len() == 12 && "read_network"@[5] == 'n' && "read_network"@[0] == 'r');
    assert("open_target"@.len() == 11);
    assert("close_target"@.len() == 12 && "close_target"@[0] == 'c');
    assert("activate_target"@.len() == 15);
    assert("stop_session"@.len() == 12 && "stop_session"@[0] == 's');
}

/// Whether a name, with underscores between its words, and a title begin with the same word
/// of `n` letters.
pub open spec fn first_words_agree(name: Seq<char>, title: Seq<char>, n: int) -> bool {
    &&& 0 < n <= name.len()
    &&& n < title.len()
    &&& ascii_lower_text(title.take(n)) == name.take(n)
    &&& title[n] == ' '
    &&& n < name.len() ==> name[n] == '_'
}

/// The title that the user is asked under begins with the word that the operation's name
/// begins with.
pub proof fn law_browser_title_says_the_operation(operation: BrowserOperation)
    requires
        browser_writes(operation),
    ensures
        exists|n: int| first_words_agree(
            browser_operation_name(operation),
            browser_ask_title(operation),
            n,
        ),
{
    reveal_strlit("start_session");
    reveal_strlit("navigate");
    reveal_strlit("click");
    reveal_strlit("type");
    reveal_strlit("evaluate");
    reveal_strlit("open_target");
    reveal_strlit("close_target");
    reveal_strlit("activate_target");
    reveal_strlit("stop_session");
    reveal_strlit("Start browser session");
    reveal_strlit("Navigate browser");
    reveal_strlit("Click browser element");
    reveal_strlit("Type into browser");
    reveal_strlit("Evaluate browser JavaScript");
    reveal_strlit("Open browser target");
    reveal_strlit("Close browser target");
    reveal_strlit("Activate browser target");
    reveal_strlit("Stop browser session");
    let n: int = match operation {
        BrowserOperation::StartSession => 5,
        BrowserOperation::Navigate => 8,
        BrowserOperation::Click => 5,
        BrowserOperation::Type => 4,
        BrowserOperation::Evaluate => 8,
        BrowserOperation::OpenTarget => 4,
        BrowserOperation::CloseTarget => 5,
        BrowserOperation::ActivateTarget => 8,
        _ => 4,
    };
    let name = browser_operation_name(operation);
    let title = browser_ask_title(operation);
    assert(ascii_lower_text(title.take(n)) =~= name.take(n));
    assert(title[n] == ' ');
    assert(first_words_agree(name, title, n));
}

/// What became of an operation is told as it is: its data where it succeeded, its error where
/// it did not, and by its name either way. A picture is handed over where the model takes
/// pictures, and only there.
pub proof fn law_browser_outcome_is_told(
    operation: Seq<char>,
    message: Seq<char>,
    data: JsonView,
    error: Seq<char>,
    picture: Seq<char>,
    image: JsonView,
    converted: Result<Option<JsonView>, Seq<char>>,
)
    ensures
        browser_output(operation, message, Ok(data)) matches Ok(BrowserOutputView::Success {
            operation: o,
            message: m,
            data: d,
        }) && o == operation && m == message && d == data,
        browser_output(operation, message, Err(error)) matches Err(BrowserOutputView::Error {
            operation: o,
            error: e,
        }) && o == Some(operation) && e == error,
        screenshot_output(operation, picture, true, Ok(Some(image))) matches Ok(
            BrowserOutputView::Screenshot { operation: o, image: i },
        ) && o == operation && i == image,
        !(converted matches Ok(Some(_))) ==> screenshot_output(
            operation,
            picture,
            true,
            converted,
        ) is Err,
        screenshot_output(operation, picture, false, converted) matches Ok(
            BrowserOutputView::Success { operation: o, data: d, .. },
        ) && o == operation && bool_in(field(d, "captured"@)) == Some(true) && field(
            d,
            "base64_bytes"@,
        ) == Some(uint_view(vstd::utf8::encode_utf8(picture).len() as int)),
        shown_browser_output(BrowserOutputView::Screenshot { operation, image }, error)
            == ShownView::Image(image),
{
    reveal_strlit("captured");
    reveal_strlit("base64_bytes");
    assert("captured"@.len() == 8 && "base64_bytes"@.len() == 12);
    if let Ok(BrowserOutputView::Success { data: d, .. }) = screenshot_output(
        operation,
        picture,
        false,
        converted,
    ) {
        let members = d->Object_0;
        assert(members[0].0 == "captured"@ && members[1].0 == "base64_bytes"@);
        lemma_lookup_first(members, 0);
        lemma_lookup_first(members, 1);
    }
}

/// A call that lacks something is told the first thing that it lacks, and for which operation;
/// one that may not change anything is told which operation that was.
pub proof fn law_browser_says_what_is_missing(input: BrowserToolInput)
    ensures
        browser_plan(input, false) matches PlanView::Refused { error } ==> {
            let lacking = if input.session_id is None && input.operation
                != BrowserOperation::StartSession {
                "session_id"@
            } else {
                match input.operation {
                    BrowserOperation::StartSession
                    | BrowserOperation::Navigate
                    | BrowserOperation::OpenTarget => "url"@,
                    BrowserOperation::Click => "selector"@,
                    BrowserOperation::Type => if input.selector is None {
                        "selector"@
                    } else {
                        "text"@
                    },
                    BrowserOperation::Evaluate => "expression"@,
                    _ => "target_id"@,
                }
            };
            &&& begins_with(error, lacking + " is required"@)
            &&& occurs(error, browser_operation_name(input.operation))
        },
        browser_writes(input.operation) ==> (browser_plan(input, true) matches PlanView::Refused {
            error,
        } && begins_with(error, "browser."@ + browser_operation_name(input.operation)
            + " is not available in read-only modes"@)),
{
    let operation = input.operation;
    let name = browser_operation_name(operation);
    if let PlanView::Refused { error } = browser_plan(input, false) {
        let lacking = if input.session_id is None && operation != BrowserOperation::StartSession {
            "session_id"@
        } else {
            match operation {
                BrowserOperation::StartSession
                | BrowserOperation::Navigate
                | BrowserOperation::OpenTarget => "url"@,
                BrowserOperation::Click => "selector"@,
                BrowserOperation::Type => if input.selector is None {
                    "selector"@
                } else {
                    "text"@
                },
                BrowserOperation::Evaluate => "expression"@,
                _ => "target_id"@,
            }
        };
        assert(error == browser_field_missing(lacking, operation));
        lemma_missing_field_is_named(lacking, operation);
    }
    if browser_writes(operation) {
        let error = browser_refusal(operation);
        let front = "browser."@ + name + " is not available in read-only modes"@;
        let why =
            " is not available in read-only modes. Switch to Write or Execute mode to start sessions, navigate, or interact with the browser."@;
        let tail = why.skip(" is not available in read-only modes"@.len() as int);
        assert(why =~= " is not available in read-only modes"@ + tail) by {
            reveal_strlit(" is not available in read-only modes");
            reveal_strlit(
                " is not available in read-only modes. Switch to Write or Execute mode to start sessions, navigate, or interact with the browser.",
            );
        }
        assert(error =~= front + tail);
        assert(error.take(front.len() as int) =~= front);
    }
}

proof fn lemma_missing_field_is_named(lacking: Seq<char>, operation: BrowserOperation)
    ensures
        begins_with(browser_field_missing(lacking, operation), lacking + " is required"@),
        occurs(browser_field_missing(lacking, operation), browser_operation_name(operation)),
{
    let error = browser_field_missing(lacking, operation);
    let name = browser_operation_name(operation);
    let front = lacking + " is required"@;
    let rest = " is required for browser "@.skip(" is required"@.len() as int);
    assert(" is required for browser "@ =~= " is required"@ + rest) by {
        reveal_strlit(" is required");
        reveal_strlit(" is required for browser ");
    }
    assert(error =~= front + (rest + name));
    assert(error.take(front.len() as int) =~= front);
    let nothing = Seq::<char>::empty();
    assert(error =~= (lacking + " is required for browser "@) + name + nothing);
    lemma_occurs_between(error, lacking + " is required for browser "@, name, nothing);
}

/// Whether what is said holds the first word of a name, of `n` letters, and what follows the
/// underscore behind it, if anything does.
pub open spec fn words_occur(name: Seq<char>, said: Seq<char>, n: int) -> bool {
    &&& 0 < n <= name.len()
    &&& occurs(said, name.take(n))
    &&& n < name.len() ==> name[n] == '_' && occurs(said, name.skip(n + 1))
}

/// What is said of an operation that succeeded holds the words of its name.
#[verifier::rlimit(40)]
pub proof fn law_browser_success_names_the_operation(operation: BrowserOperation)
    ensures
        exists|n: int| words_occur(
            browser_operation_name(operation),
            browser_success(operation),
            n,
        ),
{
    let name = browser_operation_name(operation);
    let said = browser_success(operation);
    reveal_strlit("list_sessions");
    reveal_strlit("start_session");
    reveal_strlit("navigate");
    reveal_strlit("snapshot");
    reveal_strlit("screenshot");
    reveal_strlit("click");
    reveal_strlit("type");
    reveal_strlit("evaluate");
    reveal_strlit("read_console");
    reveal_strlit("read_network");
    reveal_strlit("open_target");
    reveal_strlit("close_target");
    reveal_strlit("activate_target");
    reveal_strlit("stop_session");
    reveal_strlit("listed browser sessions");
    reveal_strlit("started browser session");
    reveal_strlit("navigated");
    reveal_strlit("captured browser snapshot");
    reveal_strlit("captured screenshot, but the current model cannot accept image input");
    reveal_strlit("clicked element");
    reveal_strlit("typed text");
    reveal_strlit("evaluated expression");
    reveal_strlit("read console events");
    reveal_strlit("read network events");
    reveal_strlit("opened browser target");
    reveal_strlit("closed browser target");
    reveal_strlit("activated browser target");
    reveal_strlit("stopped browser session");
    match operation {
        BrowserOperation::ListSessions => {
            assert(name.take(4) =~= said.subrange(0, 4));
            assert(occurs_at(said, name.take(4), 0));
            assert(name.skip(5) =~= said.subrange(15, 23));
            assert(occurs_at(said, name.skip(5), 15));
            assert(words_occur(name, said, 4));
        },
        BrowserOperation::StartSession => {
            assert(name.take(5) =~= said.subrange(0, 5));
            assert(occurs_at(said, name.take(5), 0));
            assert(name.skip(6) =~= said.subrange(16, 23));
            assert(occurs_at(said, name.skip(6), 16));
            assert(words_occur(name, said, 5));
        },
        BrowserOperation::Navigate => {
            assert(name.take(8) =~= said.subrange(0, 8));
            assert(occurs_at(said, name.take(8), 0));
            assert(words_occur(name, said, 8));
        },
        BrowserOperation::Snapshot => {
            assert(name.take(8) =~= said.subrange(17, 25));
            assert(occurs_at(said, name.take(8), 17));
            assert(words_occur(name, said, 8));
        },
        BrowserOperation::Screenshot => {
            assert(name.take(10) =~= said.subrange(9, 19));
            assert(occurs_at(said, name.take(10), 9));
            assert(words_occur(name, said, 10));
        },
        BrowserOperation::Click => {
            assert(name.take(5) =~= said.subrange(0, 5));
            assert(occurs_at(said, name.take(5), 0));
            assert(words_occur(name, said, 5));
        },
        BrowserOperation::Type => {
            assert(name.take(4) =~= said.subrange(0, 4));
            assert(occurs_at(said, name.take(4), 0));
            assert(words_occur(name, said, 4));
        },
        BrowserOperation::Evaluate => {
            assert(name.take(8) =~= said.subrange(0, 8));
            assert(occurs_at(said, name.take(8), 0));
            assert(words_occur(name, said, 8));
        },
        BrowserOperation::ReadConsole => {
            assert(name.take(4) =~= said.subrange(0, 4));
            assert(occurs_at(said, name.take(4), 0));
            assert(name.skip(5) =~= said.subrange(5, 12));
            assert(occurs_at(said, name.skip(5), 5));
            assert(words_occur(name, said, 4));
        },
        BrowserOperation::ReadNetwork => {
            assert(name.take(4) =~= said.subrange(0, 4));
            assert(occurs_at(said, name.take(4), 0));
            assert(name.skip(5) =~= said.subrange(5, 12));
            assert(occurs_at(said, name.skip(5), 5));
            assert(words_occur(name, said, 4));
        },
        BrowserOperation::OpenTarget => {
            assert(name.take(4) =~= said.subrange(0, 4));
            assert(occurs_at(said, name.take(4), 0));
            assert(name.skip(5) =~= said.subrange(15, 21));
            assert(occurs_at(said, name.skip(5), 15));
            assert(words_occur(name, said, 4));
        },
        BrowserOperation::CloseTarget => {
            assert(name.take(5) =~= said.subrange(0, 5));
            assert(occurs_at(said, name.take(5), 0));
            assert(name.skip(6) =~= said.subrange(15, 21));
            assert(occurs_at(said, name.skip(6), 15));
            assert(words_occur(name, said, 5));
        },
        BrowserOperation::ActivateTarget => {
            assert(name.take(8) =~= said.subrange(0, 8));
            assert(occurs_at(said, name.take(8), 0));
            assert(name.skip(9) =~= said.subrange(18, 24));
            assert(occurs_at(said, name.skip(9), 18));
            assert(words_occur(name, said, 8));
        },
        BrowserOperation::StopSession => {
            assert(name.take(4) =~= said.subrange(0, 4));
            assert(occurs_at(said, name.take(4), 0));
            assert(name.skip(5) =~= said.subrange(16, 23));
            assert(occurs_at(said, name.skip(5), 16));
            assert(words_occur(name, said, 4));
        },
    }
}

} // verus!
