//! What the agent's tools do before they act: refuse, act at once, or ask first.

use vstd::prelude::*;
use crate::json::{read_text, text_field, Json, JsonView};
use crate::text::{begins_with, lemma_occurs_between, occurs};

verus! {

/// What a call of a tool comes to before anything is done.
#[derive(Debug)]
pub enum ToolPlan<C> {
    /// The call is refused.
    Refused { error: String },
    /// The operation is run at once; `message` is what to say once it succeeded.
    Run { call: C, message: String },
    /// The user is asked, under that title and for those inputs; once they agree, the
    /// operation is run.
    Ask { title: String, inputs: Vec<String>, call: C, message: String },
    /// The URL of a request is looked up; what follows is in `after_lookup`.
    LookUp {
        session_id: u64,
        request_id: String,
        operation: String,
        title: String,
        call: C,
        message: String,
    },
}

/// The model of what a call comes to.
pub enum PlanView<C> {
    Refused { error: Seq<char> },
    Run { call: C, message: Seq<char> },
    Ask { title: Seq<char>, inputs: Seq<Seq<char>>, call: C, message: Seq<char> },
    LookUp {
        session_id: u64,
        request_id: Seq<char>,
        operation: Seq<char>,
        title: Seq<char>,
        call: C,
        message: Seq<char>,
    },
}

impl<C: DeepView> DeepView for ToolPlan<C> {
    type V = PlanView<C::V>;

    open spec fn deep_view(&self) -> PlanView<C::V> {
        match self {
            ToolPlan::Refused { error } => PlanView::Refused { error: error@ },
            ToolPlan::Run { call, message } => PlanView::Run {
                call: call.deep_view(),
                message: message@,
            },
            ToolPlan::Ask { title, inputs, call, message } => PlanView::Ask {
                title: title@,
                inputs: inputs.deep_view(),
                call: call.deep_view(),
                message: message@,
            },
            ToolPlan::LookUp { session_id, request_id, operation, title, call, message } => PlanView::LookUp {
                session_id: *session_id,
                request_id: request_id@,
                operation: operation@,
                title: title@,
                call: call.deep_view(),
                message: message@,
            },
        }
    }
}

/// What permission is asked for: the operation with each value, or the operation alone
/// where there are no values.
pub open spec fn permission_list(operation: Seq<char>, values: Seq<Seq<char>>) -> Seq<Seq<char>> {
    if values.len() == 0 {
        Seq::empty().push(operation)
    } else {
        Seq::new(values.len(), |i: int| operation + " "@ + values[i])
    }
}

/// What permission is asked for.
pub fn permission_inputs(operation: &str, values: &Vec<String>) -> (r: Vec<String>)
    ensures
        r.deep_view() == permission_list(operation@, values.deep_view()),
{
    let mut out: Vec<String> = Vec::new();
    if values.len() == 0 {
        out.push(operation.to_owned());
        assert(out.deep_view() =~= permission_list(operation@, values.deep_view()));
        return out;
    }
    let ghost wanted = permission_list(operation@, values.deep_view());
    let mut i: usize = 0;
    while i < values.len()
        invariant
            i <= values@.len(),
            values@.len() > 0,
            wanted == permission_list(operation@, values.deep_view()),
            out.deep_view() == wanted.take(i as int),
        decreases values@.len() - i,
    {
        let ghost done = out.deep_view();
        let mut input = operation.to_owned();
        input.append(" ");
        input.append(values[i].as_str());
        out.push(input);
        assert(out.deep_view() =~= done.push(input@));
        i = i + 1;
        assert(out.deep_view() =~= wanted.take(i as int));
    }
    assert(out.deep_view() =~= wanted);
    out
}

/// The values that are asked for where a request is decided on: its id, and its URL
/// where that is known.
pub open spec fn disposition_values(request_id: Seq<char>, url: Option<Seq<char>>) -> Seq<Seq<char>> {
    let id = Seq::empty().push("request_id:"@ + request_id);
    match url {
        Some(url) => id.push("url:"@ + url),
        None => id,
    }
}

/// What follows the lookup of a request's URL, which is absent where the lookup failed.
/// Nothing follows any other plan but the plan itself.
pub open spec fn plan_after_lookup<C>(plan: PlanView<C>, url: Option<Seq<char>>) -> PlanView<C> {
    match plan {
        PlanView::LookUp { session_id, request_id, operation, title, call, message } => PlanView::Ask {
            title,
            inputs: permission_list(operation, disposition_values(request_id, url)),
            call,
            message,
        },
        other => other,
    }
}

/// What follows the lookup of a request's URL.
pub fn after_lookup<C: DeepView>(plan: ToolPlan<C>, url: Option<&str>) -> (r: ToolPlan<C>)
    ensures
        r.deep_view() == plan_after_lookup(plan.deep_view(), url.deep_view()),
{
    match plan {
        ToolPlan::LookUp { session_id, request_id, operation, title, call, message } => {
            let mut values: Vec<String> = Vec::new();
            let mut id = "request_id:".to_owned();
            id.append(request_id.as_str());
            values.push(id);
            assert(values.deep_view() =~= disposition_values(request_id@, None));
            if let Some(url) = url {
                let mut shown = "url:".to_owned();
                shown.append(url);
                values.push(shown);
                assert(values.deep_view() =~= disposition_values(request_id@, Some(url@)));
            }
            let inputs = permission_inputs(operation.as_str(), &values);
            ToolPlan::Ask { title, inputs, call, message }
        },
        other => other,
    }
}

/// The URL in a request that was looked up.
pub fn looked_up_url(request: &Json) -> (r: Option<String>)
    ensures
        r.deep_view() == text_field(request.deep_view(), "url"@),
{
    read_text(request.get("url"))
}

/// The title of a call while it runs: the tool and the operation, by its name or, where
/// the input is not complete, by what the input says so far.
pub open spec fn call_title(tool: Seq<char>, operation: Option<Seq<char>>) -> Seq<char> {
    match operation {
        Some(operation) => tool + ": "@ + operation,
        None => tool,
    }
}

/// The title of a call while it runs.
pub fn title_of_call(tool: &str, operation: Option<&str>) -> (r: String)
    ensures
        r@ == call_title(tool@, operation.deep_view()),
{
    let mut title = tool.to_owned();
    if let Some(operation) = operation {
        title.append(": ");
        title.append(operation);
    }
    title
}

/// The title of a call whose input is not complete.
pub fn title_of_partial_call(tool: &str, input: &Json) -> (r: String)
    ensures
        r@ == call_title(tool@, text_field(input.deep_view(), "operation"@)),
{
    match read_text(input.get("operation")) {
        Some(operation) => title_of_call(tool, Some(operation.as_str())),
        None => title_of_call(tool, None),
    }
}

/// A tool's output.
#[allow(inconsistent_fields)]
#[derive(Debug)]
pub enum ToolOutput {
    Success { operation: String, message: String, data: Json },
    Error { operation: Option<String>, error: String },
}

/// The model of a tool's output.
#[allow(inconsistent_fields)]
pub enum OutputView {
    Success { operation: Seq<char>, message: Seq<char>, data: JsonView },
    Error { operation: Option<Seq<char>>, error: Seq<char> },
}

impl DeepView for ToolOutput {
    type V = OutputView;

    open spec fn deep_view(&self) -> OutputView {
        match self {
            ToolOutput::Success { operation, message, data } => OutputView::Success {
                operation: operation@,
                message: message@,
                data: data.deep_view(),
            },
            ToolOutput::Error { operation, error } => OutputView::Error {
                operation: operation.deep_view(),
                error: error@,
            },
        }
    }
}

/// The output of an operation that succeeded with that data, or failed.
pub fn output_of(operation: &str, message: &str, result: Result<Json, String>) -> (r: Result<
    ToolOutput,
    ToolOutput,
>)
    ensures
        match result {
            Ok(data) => r matches Ok(output) && output.deep_view() == (OutputView::Success {
                operation: operation@,
                message: message@,
                data: data.deep_view(),
            }),
            Err(error) => r matches Err(output) && output.deep_view() == (OutputView::Error {
                operation: Some(operation@),
                error: error@,
            }),
        },
{
    match result {
        Ok(data) => Ok(
            ToolOutput::Success {
                operation: operation.to_owned(),
                message: message.to_owned(),
                data,
            },
        ),
        Err(error) => Err(ToolOutput::Error { operation: Some(operation.to_owned()), error }),
    }
}

/// What the model is shown of an output, given the data written out as text.
pub open spec fn shown_output(tool: Seq<char>, output: OutputView, data: Seq<char>) -> Seq<char> {
    match output {
        OutputView::Success { operation, message, .. } => tool + " `"@ + operation
            + "` succeeded: "@ + message + "\n\n```json\n"@ + data + "\n```"@,
        OutputView::Error { operation, error } => tool + " `"@ + (match operation {
            Some(operation) => operation,
            None => "unknown"@,
        }) + "` failed: "@ + error,
    }
}

/// What the model is shown of an output, given the data written out as text.
pub fn show_output(tool: &str, output: &ToolOutput, data: &str) -> (r: String)
    ensures
        r@ == shown_output(tool@, output.deep_view(), data@),
{
    let mut out = tool.to_owned();
    out.append(" `");
    match output {
        ToolOutput::Success { operation, message, .. } => {
            out.append(operation.as_str());
            out.append("` succeeded: ");
            out.append(message.as_str());
            out.append("\n\n```json\n");
            out.append(data);
            out.append("\n```");
        },
        ToolOutput::Error { operation, error } => {
            match operation {
                Some(operation) => {
                    out.append(operation.as_str());
                },
                None => {
                    out.append("unknown");
                },
            }
            out.append("` failed: ");
            out.append(error.as_str());
        },
    }
    out
}

/// What is run once a plan goes through.
pub open spec fn planned_call<C>(plan: PlanView<C>) -> Option<C> {
    match plan {
        PlanView::Refused { .. } => None,
        PlanView::Run { call, .. } => Some(call),
        PlanView::Ask { call, .. } => Some(call),
        PlanView::LookUp { call, .. } => Some(call),
    }
}

/// Permission is asked for one thing after the other, each under the operation's name and
/// with its value told, or for the operation alone where there is no value.
pub proof fn law_permission_names_operation_and_value(
    operation: Seq<char>,
    values: Seq<Seq<char>>,
    i: int,
)
    ensures
        values.len() == 0 ==> permission_list(operation, values) == seq![operation],
        values.len() > 0 ==> permission_list(operation, values).len() == values.len(),
        0 <= i < values.len() ==> {
            let asked = permission_list(operation, values)[i];
            &&& begins_with(asked, operation)
            &&& occurs(asked, values[i])
            &&& asked.len() == operation.len() + 1 + values[i].len()
        },
{
    assert(Seq::<Seq<char>>::empty().push(operation) =~= seq![operation]);
    if 0 <= i < values.len() {
        let asked = permission_list(operation, values)[i];
        reveal_strlit(" ");
        assert(asked.take(operation.len() as int) =~= operation);
        assert(asked =~= (operation + " "@) + values[i] + Seq::<char>::empty());
        lemma_occurs_between(asked, operation + " "@, values[i], Seq::empty());
    }
}

/// A decision on a request asks for that request, and names its URL where it is known; what
/// is run and what is said is what was planned.
pub proof fn law_decision_asks_for_the_request<C>(plan: PlanView<C>, url: Option<Seq<char>>)
    ensures
        planned_call(plan_after_lookup(plan, url)) == planned_call(plan),
        !(plan is LookUp) ==> plan_after_lookup(plan, url) == plan,
        plan matches PlanView::LookUp { request_id, operation, title, message, .. } ==> {
            &&& plan_after_lookup(plan, url) matches PlanView::Ask {
                title: asked_title,
                inputs,
                message: said,
                ..
            }
            &&& asked_title == title
            &&& said == message
            &&& inputs.len() == if url is Some {
                2int
            } else {
                1int
            }
            &&& inputs[0] == operation + " "@ + ("request_id:"@ + request_id)
            &&& url matches Some(url) ==> inputs[1] == operation + " "@ + ("url:"@ + url)
        },
{
}

/// An output that succeeded says so and holds the message and the data; one that failed says
/// so and ends in the error.
pub proof fn law_output_is_shown(tool: Seq<char>, output: OutputView, data: Seq<char>)
    ensures
        begins_with(shown_output(tool, output, data), tool),
        output matches OutputView::Success { operation, message, .. } ==> {
            &&& occurs(shown_output(tool, output, data), "` succeeded: "@ + message)
            &&& occurs(shown_output(tool, output, data), data)
            &&& occurs(shown_output(tool, output, data), "`"@ + operation + "`"@)
        },
        output matches OutputView::Error { operation, error } ==> {
            &&& occurs(shown_output(tool, output, data), "` failed: "@ + error)
            &&& operation matches Some(name) ==> occurs(
                shown_output(tool, output, data),
                "`"@ + name + "`"@,
            )
        },
{
    let shown = shown_output(tool, output, data);
    assert(shown.take(tool.len() as int) =~= tool);
    match output {
        OutputView::Success { operation, message, .. } => {
            lemma_success_is_shown(tool, operation, message, data, shown);
        },
        OutputView::Error { operation, error } => {
            let name = match operation {
                Some(operation) => operation,
                None => "unknown"@,
            };
            lemma_error_is_shown(tool, name, error, shown);
        },
    }
}

proof fn lemma_name_is_quoted(shown: Seq<char>, tool: Seq<char>, name: Seq<char>, rest: Seq<char>)
    requires
        shown == tool + " `"@ + name + "`"@ + rest,
    ensures
        occurs(shown, "`"@ + name + "`"@),
{
    reveal_strlit(" `");
    reveal_strlit("`");
    let named = "`"@ + name + "`"@;
    let front = tool.push(' ');
    assert(shown =~= front + named + rest);
    lemma_occurs_between(shown, front, named, rest);
}

proof fn lemma_success_is_shown(
    tool: Seq<char>,
    operation: Seq<char>,
    message: Seq<char>,
    data: Seq<char>,
    shown: Seq<char>,
)
    requires
        shown == tool + " `"@ + operation + "` succeeded: "@ + message + "\n\n```json\n"@ + data
            + "\n```"@,
    ensures
        occurs(shown, "` succeeded: "@ + message),
        occurs(shown, data),
        occurs(shown, "`"@ + operation + "`"@),
{
    let (open, close) = ("\n\n```json\n"@, "\n```"@);
    let front = tool + " `"@ + operation;
    let said = "` succeeded: "@ + message;
    assert(shown =~= front + said + (open + data + close));
    lemma_occurs_between(shown, front, said, open + data + close);
    assert(shown =~= (front + "` succeeded: "@ + message + open) + data + close);
    lemma_occurs_between(shown, front + "` succeeded: "@ + message + open, data, close);
    reveal_strlit("`");
    reveal_strlit("` succeeded: ");
    let rest = "` succeeded: "@.skip(1) + message + open + data + close;
    assert("` succeeded: "@ =~= "`"@ + "` succeeded: "@.skip(1));
    assert(shown =~= tool + " `"@ + operation + "`"@ + rest);
    lemma_name_is_quoted(shown, tool, operation, rest);
}

proof fn lemma_error_is_shown(
    tool: Seq<char>,
    name: Seq<char>,
    error: Seq<char>,
    shown: Seq<char>,
)
    requires
        shown == tool + " `"@ + name + "` failed: "@ + error,
    ensures
        occurs(shown, "` failed: "@ + error),
        occurs(shown, "`"@ + name + "`"@),
{
    let front = tool + " `"@ + name;
    let said = "` failed: "@ + error;
    assert(occurs(shown, said)) by {
        assert(shown =~= front + said + Seq::<char>::empty());
        lemma_occurs_between(shown, front, said, Seq::empty());
    }
    let rest = "` failed: "@.skip(1) + error;
    assert("` failed: "@ =~= "`"@ + "` failed: "@.skip(1)) by {
        reveal_strlit("`");
        reveal_strlit("` failed: ");
    }
    assert(shown =~= tool + " `"@ + name + "`"@ + rest);
    lemma_name_is_quoted(shown, tool, name, rest);
}

/// What permission is asked for where a value names a session and what is sent to it.
pub proof fn lemma_asked_names_session_and_rest(
    asked: Seq<char>,
    operation: Seq<char>,
    session: Seq<char>,
    sent: Seq<char>,
)
    requires
        asked == operation + " "@ + (session + sent),
    ensures
        begins_with(asked, operation),
        occurs(asked, session),
        occurs(asked, sent),
{
    let nothing = Seq::<char>::empty();
    assert(asked.take(operation.len() as int) =~= operation);
    assert(asked =~= (operation + " "@) + session + sent);
    lemma_occurs_between(asked, operation + " "@, session, sent);
    assert(asked =~= (operation + " "@ + session) + sent + nothing);
    lemma_occurs_between(asked, operation + " "@ + session, sent, nothing);
}

/// The title of a call begins with the tool and ends with the operation, where that is known.
pub proof fn law_title_names_tool_and_operation(tool: Seq<char>, operation: Option<Seq<char>>)
    ensures
        begins_with(call_title(tool, operation), tool),
        operation is None ==> call_title(tool, operation) == tool,
        operation matches Some(name) ==> occurs(call_title(tool, operation), ": "@ + name),
{
    let title = call_title(tool, operation);
    assert(title.take(tool.len() as int) =~= tool);
    if let Some(name) = operation {
        let said = ": "@ + name;
        assert(title =~= tool + said + Seq::<char>::empty());
        lemma_occurs_between(title, tool, said, Seq::empty());
    }
}

} // verus!
