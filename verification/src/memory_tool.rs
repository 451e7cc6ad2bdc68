//! The agent's tool for reading and changing its memory.
//!
//! An operation starts from what loading the memory gave. Where it changes the
//! memory, its outcome waits for the memory to be saved.

use vstd::prelude::*;
use crate::memory::MemoryStore;
use crate::text::{begins_with, lemma_occurs_between, occurs};

verus! {

/// What to do with the memory.
#[derive(Clone, Copy, Debug, PartialEq, Eq, Structural)]
pub enum MemoryOperation {
    /// Store a fact under the key, in place of any that is there.
    Remember,
    /// Read the fact stored under the key.
    Recall,
    /// Remove the fact stored under the key.
    Forget,
}

impl Default for MemoryOperation {
    fn default() -> (r: MemoryOperation)
        ensures
            r == MemoryOperation::Recall,
    {
        MemoryOperation::Recall
    }
}

/// The tool's input.
#[derive(Debug)]
pub struct MemoryToolInput {
    pub operation: MemoryOperation,
    pub key: String,
    /// The value to store; needed to remember.
    pub value: Option<String>,
}

/// The tool's output.
#[derive(Debug)]
pub enum MemoryToolOutput {
    Success { message: String },
    Error { error: String },
}

/// The model of the tool's outcome: the message of a success or the text of an error.
pub enum OutcomeView {
    Success(Seq<char>),
    Error(Seq<char>),
}

impl MemoryToolOutput {
    /// The text that the model is shown.
    pub fn text(&self) -> (r: &String)
        ensures
            match self {
                MemoryToolOutput::Success { message } => r@ == message@,
                MemoryToolOutput::Error { error } => r@ == error@,
            },
    {
        match self {
            MemoryToolOutput::Success { message } => message,
            MemoryToolOutput::Error { error } => error,
        }
    }
}

/// The outcome that a result stands for: a success in `Ok`, an error in `Err`.
pub open spec fn is_outcome(
    result: Result<MemoryToolOutput, MemoryToolOutput>,
    outcome: OutcomeView,
) -> bool {
    match outcome {
        OutcomeView::Success(text) => result matches Ok(MemoryToolOutput::Success { message })
            && message@ == text,
        OutcomeView::Error(text) => result matches Err(MemoryToolOutput::Error { error })
            && error@ == text,
    }
}

/// What an operation comes to.
#[derive(Debug)]
pub enum MemoryStep {
    /// The outcome is known.
    Done { outcome: Result<MemoryToolOutput, MemoryToolOutput> },
    /// The changed memory is to be saved; `message` is what to say once it is.
    Save { store: MemoryStore, message: String },
}

/// The model of a step.
pub enum StepView {
    Done(OutcomeView),
    Save { facts: Map<Seq<char>, Seq<char>>, message: Seq<char> },
}

/// Whether a step is the one that the model says.
pub open spec fn is_step(step: MemoryStep, model: StepView) -> bool {
    match model {
        StepView::Done(outcome) => step matches MemoryStep::Done { outcome: result } && is_outcome(
            result,
            outcome,
        ),
        StepView::Save { facts, message } => step matches MemoryStep::Save {
            store,
            message: text,
        } && store@ == facts && text@ == message,
    }
}

/// The message that there is no fact under a key.
pub open spec fn nothing_stored(key: Seq<char>) -> Seq<char> {
    "No memory stored under key \""@ + key + "\"."@
}

/// What an operation on loaded memory comes to.
pub open spec fn operation_step(
    operation: MemoryOperation,
    key: Seq<char>,
    value: Option<Seq<char>>,
    facts: Map<Seq<char>, Seq<char>>,
) -> StepView {
    match operation {
        MemoryOperation::Remember => match value {
            Some(text) => StepView::Save {
                facts: facts.insert(key, text),
                message: "Remembered "@ + key + " = "@ + text,
            },
            None => StepView::Done(
                OutcomeView::Error("`value` is required for `operation: \"remember\"`."@),
            ),
        },
        MemoryOperation::Recall => StepView::Done(
            OutcomeView::Success(
                if facts.dom().contains(key) {
                    facts[key]
                } else {
                    nothing_stored(key)
                },
            ),
        ),
        MemoryOperation::Forget => if facts.dom().contains(key) {
            StepView::Save { facts: facts.remove(key), message: "Forgot \""@ + key + "\"."@ }
        } else {
            StepView::Done(OutcomeView::Success(nothing_stored(key)))
        },
    }
}

/// What was remembered, once it is saved, is what a recall of that key answers, and
/// what was forgotten is answered as not stored.
pub proof fn law_recall_answers_what_was_saved(
    key: Seq<char>,
    value: Seq<char>,
    facts: Map<Seq<char>, Seq<char>>,
)
    ensures
        operation_step(MemoryOperation::Remember, key, Some(value), facts) matches StepView::Save {
            facts: saved,
            message: _,
        } && operation_step(MemoryOperation::Recall, key, None, saved) == StepView::Done(
            OutcomeView::Success(value),
        ),
        operation_step(MemoryOperation::Forget, key, None, facts) matches StepView::Save {
            facts: saved,
            message: _,
        } ==> operation_step(MemoryOperation::Recall, key, None, saved) == StepView::Done(
            OutcomeView::Success(nothing_stored(key)),
        ),
{
}

fn nothing_stored_text(key: &str) -> (r: String)
    ensures
        r@ == nothing_stored(key@),
{
    let mut text = "No memory stored under key \"".to_owned();
    text.append(key);
    text.append("\".");
    text
}

/// Performs an operation on what loading the memory gave.
pub fn run_operation(input: MemoryToolInput, loaded: Result<MemoryStore, String>) -> (r: MemoryStep)
    ensures
        match loaded {
            Ok(store) => {
                &&& is_step(
                    r,
                    operation_step(input.operation, input.key@, input.value.deep_view(), store@),
                )
                &&& r matches MemoryStep::Save { store: changed, message: _ } ==> changed.file()
                    == store.file()
            },
            Err(error) => is_step(
                r,
                StepView::Done(OutcomeView::Error("Failed to load memory: "@ + error@)),
            ),
        },
{
    let mut store = match loaded {
        Ok(store) => store,
        Err(error) => {
            let mut text = "Failed to load memory: ".to_owned();
            text.append(error.as_str());
            return MemoryStep::Done { outcome: Err(MemoryToolOutput::Error { error: text }) };
        },
    };
    match input.operation {
        MemoryOperation::Remember => match input.value {
            Some(value) => {
                store.remember(input.key.as_str(), value.as_str());
                let mut message = "Remembered ".to_owned();
                message.append(input.key.as_str());
                message.append(" = ");
                message.append(value.as_str());
                MemoryStep::Save { store, message }
            },
            None => MemoryStep::Done {
                outcome: Err(
                    MemoryToolOutput::Error {
                        error: "`value` is required for `operation: \"remember\"`.".to_owned(),
                    },
                ),
            },
        },
        MemoryOperation::Recall => {
            let message = match store.recall(input.key.as_str()) {
                Some(value) => value.to_owned(),
                None => nothing_stored_text(input.key.as_str()),
            };
            MemoryStep::Done { outcome: Ok(MemoryToolOutput::Success { message }) }
        },
        MemoryOperation::Forget => {
            if store.forget(input.key.as_str()) {
                let mut message = "Forgot \"".to_owned();
                message.append(input.key.as_str());
                message.append("\".");
                MemoryStep::Save { store, message }
            } else {
                let message = nothing_stored_text(input.key.as_str());
                MemoryStep::Done { outcome: Ok(MemoryToolOutput::Success { message }) }
            }
        },
    }
}

/// The outcome once saving the memory has ended.
pub fn finish_operation(message: String, saved: Result<(), String>) -> (r: Result<
    MemoryToolOutput,
    MemoryToolOutput,
>)
    ensures
        match saved {
            Ok(_) => is_outcome(r, OutcomeView::Success(message@)),
            Err(error) => is_outcome(r, OutcomeView::Error(error@)),
        },
{
    match saved {
        Ok(_) => Ok(MemoryToolOutput::Success { message }),
        Err(error) => Err(MemoryToolOutput::Error { error }),
    }
}

/// The tool.
#[derive(Clone, Copy, Debug, PartialEq, Eq, Structural)]
pub struct MemoryTool;

/// The title of a call while it runs; the input is absent until it is complete.
pub open spec fn memory_title(input: Option<(MemoryOperation, Seq<char>)>) -> Seq<char> {
    match input {
        Some((MemoryOperation::Remember, key)) => "Remembering "@ + key,
        Some((MemoryOperation::Recall, key)) => "Recalling "@ + key,
        Some((MemoryOperation::Forget, key)) => "Forgetting "@ + key,
        None => "Updating memory"@,
    }
}

impl MemoryTool {
    /// The name that the model calls the tool by.
    pub fn name(&self) -> (r: &'static str)
        ensures
            r@ == "memory"@,
    {
        "memory"
    }

    /// The title of a call while it runs.
    pub fn initial_title(&self, input: Option<&MemoryToolInput>) -> (r: String)
        ensures
            r@ == memory_title(
                match input {
                    Some(i) => Some((i.operation, i.key@)),
                    None => None,
                },
            ),
    {
        match input {
            Some(input) => {
                let mut title = match input.operation {
                    MemoryOperation::Remember => "Remembering ".to_owned(),
                    MemoryOperation::Recall => "Recalling ".to_owned(),
                    MemoryOperation::Forget => "Forgetting ".to_owned(),
                };
                title.append(input.key.as_str());
                title
            },
            None => "Updating memory".to_owned(),
        }
    }

    /// The text of the error that the input did not arrive.
    pub fn input_error(&self, error: &str) -> (r: MemoryToolOutput)
        ensures
            r matches MemoryToolOutput::Error { error: text } && text@
                == "Failed to receive memory tool input: "@ + error@,
    {
        let mut text = "Failed to receive memory tool input: ".to_owned();
        text.append(error);
        MemoryToolOutput::Error { error: text }
    }
}

/// Looking a fact up changes nothing and answers it, or says that there is none. Only what the
/// operation names is changed: every other fact is saved as it was.
pub proof fn law_memory_operations_touch_their_key(
    key: Seq<char>,
    value: Option<Seq<char>>,
    facts: Map<Seq<char>, Seq<char>>,
    other: Seq<char>,
)
    requires
        other != key,
    ensures
        operation_step(MemoryOperation::Recall, key, value, facts) matches StepView::Done(
            OutcomeView::Success(text),
        ) && (facts.dom().contains(key) ==> text == facts[key]) && (!facts.dom().contains(key)
            ==> occurs(text, key)),
        value is None ==> (operation_step(
            MemoryOperation::Remember,
            key,
            value,
            facts,
        ) matches StepView::Done(OutcomeView::Error(_))),
        value matches Some(text) ==> {
            &&& operation_step(MemoryOperation::Remember, key, value, facts) matches StepView::Save {
                facts: saved,
                message,
            }
            &&& saved.dom().contains(key) && saved[key] == text
            &&& saved.dom().contains(other) <==> facts.dom().contains(other)
            &&& facts.dom().contains(other) ==> saved[other] == facts[other]
            &&& occurs(message, key + " = "@ + text)
        },
        facts.dom().contains(key) ==> {
            &&& operation_step(MemoryOperation::Forget, key, value, facts) matches StepView::Save {
                facts: saved,
                message,
            }
            &&& !saved.dom().contains(key)
            &&& saved.dom().contains(other) <==> facts.dom().contains(other)
            &&& facts.dom().contains(other) ==> saved[other] == facts[other]
            &&& occurs(message, key)
        },
        !facts.dom().contains(key) ==> operation_step(MemoryOperation::Forget, key, value, facts)
            == operation_step(MemoryOperation::Recall, key, value, facts),
{
    lemma_occurs_between(nothing_stored(key), "No memory stored under key \""@, key, "\"."@);
    if let Some(text) = value {
        let said = key + " = "@ + text;
        let message = "Remembered "@ + key + " = "@ + text;
        assert(message =~= "Remembered "@ + said + Seq::<char>::empty());
        lemma_occurs_between(message, "Remembered "@, said, Seq::empty());
    }
    lemma_occurs_between("Forgot \""@ + key + "\"."@, "Forgot \""@, key, "\"."@);
}

/// The title of a call says which operation runs, and on which key.
pub proof fn law_memory_title_names_the_key(
    operation: MemoryOperation,
    key: Seq<char>,
    other: MemoryOperation,
)
    ensures
        occurs(memory_title(Some((operation, key))), key),
        memory_title(Some((operation, key))) == memory_title(Some((other, key))) ==> operation
            == other,
        operation == MemoryOperation::Remember ==> begins_with(
            memory_title(Some((operation, key))),
            "Remember"@,
        ),
        operation == MemoryOperation::Recall ==> begins_with(
            memory_title(Some((operation, key))),
            "Recall"@,
        ),
        operation == MemoryOperation::Forget ==> begins_with(
            memory_title(Some((operation, key))),
            "Forget"@,
        ),
{
    reveal_strlit("Remembering ");
    reveal_strlit("Recalling ");
    reveal_strlit("Forgetting ");
    reveal_strlit("Remember");
    reveal_strlit("Recall");
    reveal_strlit("Forget");
    let title = memory_title(Some((operation, key)));
    let front = match operation {
        MemoryOperation::Remember => "Remembering "@,
        MemoryOperation::Recall => "Recalling "@,
        MemoryOperation::Forget => "Forgetting "@,
    };
    assert(title =~= front + key + Seq::<char>::empty());
    lemma_occurs_between(title, front, key, Seq::empty());
    assert(title[0] == front[0] && title[2] == front[2]);
    let again = memory_title(Some((other, key)));
    let first = match other {
        MemoryOperation::Remember => "Remembering "@,
        MemoryOperation::Recall => "Recalling "@,
        MemoryOperation::Forget => "Forgetting "@,
    };
    assert(again[0] == first[0] && again[2] == first[2]);
    match operation {
        MemoryOperation::Remember => {
            assert(title.take(8) =~= "Remember"@);
        },
        MemoryOperation::Recall => {
            assert(title.take(6) =~= "Recall"@);
        },
        MemoryOperation::Forget => {
            assert(title.take(6) =~= "Forget"@);
        },
    }
}

} // verus!
