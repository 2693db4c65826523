//! What happens to each record of a run, and how the outcomes of all fold
//! into the result of the run.
//!
//! A worker takes a record through its states: it renders the command line,
//! asks the operator where the action is interactive, runs the process and
//! closes the record. The work itself is the caller's; the state says what
//! work is due, and an event says how it went.

use crate::action::Action;
use crate::command::Command;
use crate::errors::EachError;
use crate::text::{lemma_starts_with, starts_with};
use crate::value::tree_of;
use vstd::prelude::*;
use vstd::string::StringExecFns;

verus! {

/// Where a record stands.
#[derive(Clone, Copy, Debug, PartialEq, Eq, Structural)]
pub enum RecordState {
    /// Nothing is done yet.
    Pending,
    /// The command line is rendered.
    Rendered,
    /// A template did not render.
    RenderFailed,
    /// The process is to run.
    Confirmed,
    /// The operator declined the run.
    Declined,
    /// The process has run.
    Executed,
    /// The process could not run.
    ExecutionFailed,
    /// The record was left out.
    Skipped,
    /// The record is closed, with an error or without.
    Done { failed: bool },
}

/// How a piece of work on a record went.
#[derive(Clone, Copy, Debug, PartialEq, Eq, Structural)]
pub enum RecordEvent {
    /// The command line rendered, or did not.
    Rendered { ok: bool },
    /// The run is agreed to, or declined. A record of an action that does
    /// not ask is agreed to by itself.
    Answered { run: bool },
    /// The process ran, or could not.
    Ran { ok: bool },
    /// The declined run was left out.
    Skipped,
    /// The record is put aside.
    Closed,
}

/// The work that is due on a record.
#[derive(Clone, Copy, Debug, PartialEq, Eq, Structural)]
pub enum Work {
    Render,
    /// Get the answer to the question, from the operator where the action asks.
    Confirm,
    Launch,
    /// Leave the declined run out.
    Skip,
    Close,
    /// The record is done.
    Nothing,
}

impl RecordState {
    /// The work that is due in this state.
    pub open spec fn spec_work(self) -> Work {
        match self {
            RecordState::Pending => Work::Render,
            RecordState::Rendered => Work::Confirm,
            RecordState::Confirmed => Work::Launch,
            RecordState::Declined => Work::Skip,
            RecordState::RenderFailed
            | RecordState::Executed
            | RecordState::ExecutionFailed
            | RecordState::Skipped => Work::Close,
            RecordState::Done { .. } => Work::Nothing,
        }
    }

    /// The state after an event, or `None` where the event does not belong
    /// to the work that is due.
    pub open spec fn spec_advance(self, event: RecordEvent) -> Option<RecordState> {
        match (self, event) {
            (RecordState::Pending, RecordEvent::Rendered { ok }) => Some(
                if ok {
                    RecordState::Rendered
                } else {
                    RecordState::RenderFailed
                },
            ),
            (RecordState::Rendered, RecordEvent::Answered { run }) => Some(
                if run {
                    RecordState::Confirmed
                } else {
                    RecordState::Declined
                },
            ),
            (RecordState::Confirmed, RecordEvent::Ran { ok }) => Some(
                if ok {
                    RecordState::Executed
                } else {
                    RecordState::ExecutionFailed
                },
            ),
            (RecordState::Declined, RecordEvent::Skipped) => Some(RecordState::Skipped),
            (RecordState::Skipped, RecordEvent::Closed) => Some(
                RecordState::Done { failed: false },
            ),
            (RecordState::Executed, RecordEvent::Closed) => Some(
                RecordState::Done { failed: false },
            ),
            (RecordState::RenderFailed, RecordEvent::Closed) => Some(
                RecordState::Done { failed: true },
            ),
            (RecordState::ExecutionFailed, RecordEvent::Closed) => Some(
                RecordState::Done { failed: true },
            ),
            _ => None,
        }
    }

    /// Whether an event answers the work that is due.
    pub open spec fn expects(self, event: RecordEvent) -> bool {
        match self.spec_work() {
            Work::Render => event is Rendered,
            Work::Confirm => event is Answered,
            Work::Launch => event is Ran,
            Work::Skip => event is Skipped,
            Work::Close => event is Closed,
            Work::Nothing => false,
        }
    }

    /// How many events a record in this state still takes, at most.
    pub open spec fn distance(self) -> nat {
        match self {
            RecordState::Pending => 4,
            RecordState::Rendered => 3,
            RecordState::Confirmed => 2,
            RecordState::Declined => 2,
            RecordState::RenderFailed
            | RecordState::Executed
            | RecordState::ExecutionFailed
            | RecordState::Skipped => 1,
            RecordState::Done { .. } => 0,
        }
    }

    #[verifier::when_used_as_spec(spec_work)]
    pub fn work(self) -> (w: Work)
        ensures
            w == self.spec_work(),
    {
        match self {
            RecordState::Pending => Work::Render,
            RecordState::Rendered => Work::Confirm,
            RecordState::Confirmed => Work::Launch,
            RecordState::RenderFailed => Work::Close,
            RecordState::Declined => Work::Skip,
            RecordState::Executed => Work::Close,
            RecordState::ExecutionFailed => Work::Close,
            RecordState::Skipped => Work::Close,
            RecordState::Done { .. } => Work::Nothing,
        }
    }

    /// Takes a record to its next state.
    ///
    /// An event that answers the work that is due is taken, and brings the
    /// record nearer to its end. Any other event is refused with `None`: a
    /// process is launched for a confirmed record only, and a closed record
    /// takes no event.
    #[verifier::when_used_as_spec(spec_advance)]
    pub fn advance(self, event: RecordEvent) -> (next: Option<RecordState>)
        ensures
            next == self.spec_advance(event),
            next is Some <==> self.expects(event),
            next matches Some(state) ==> state.distance() < self.distance(),
    {
        match self {
            RecordState::Pending => match event {
                RecordEvent::Rendered { ok } => Some(
                    if ok {
                        RecordState::Rendered
                    } else {
                        RecordState::RenderFailed
                    },
                ),
                _ => None,
            },
            RecordState::Rendered => match event {
                RecordEvent::Answered { run } => Some(
                    if run {
                        RecordState::Confirmed
                    } else {
                        RecordState::Declined
                    },
                ),
                _ => None,
            },
            RecordState::Confirmed => match event {
                RecordEvent::Ran { ok } => Some(
                    if ok {
                        RecordState::Executed
                    } else {
                        RecordState::ExecutionFailed
                    },
                ),
                _ => None,
            },
            RecordState::Declined => match event {
                RecordEvent::Skipped => Some(RecordState::Skipped),
                _ => None,
            },
            RecordState::Skipped => match event {
                RecordEvent::Closed => Some(RecordState::Done { failed: false }),
                _ => None,
            },
            RecordState::Executed => match event {
                RecordEvent::Closed => Some(RecordState::Done { failed: false }),
                _ => None,
            },
            RecordState::RenderFailed => match event {
                RecordEvent::Closed => Some(RecordState::Done { failed: true }),
                _ => None,
            },
            RecordState::ExecutionFailed => match event {
                RecordEvent::Closed => Some(RecordState::Done { failed: true }),
                _ => None,
            },
            RecordState::Done { .. } => None,
        }
    }
}

/// The state that a run of events takes a record to, or `None` where one
/// of them is refused.
pub open spec fn after(state: RecordState, events: Seq<RecordEvent>) -> Option<RecordState>
    decreases events.len(),
{
    if events.len() == 0 {
        Some(state)
    } else {
        match state.spec_advance(events[0]) {
            Some(next) => after(next, events.drop_first()),
            None => None,
        }
    }
}

/// Whether a template failed to render or a process failed to run among events.
pub open spec fn has_failure(events: Seq<RecordEvent>) -> bool {
    exists|i: int|
        0 <= i < events.len() && (#[trigger] events[i] == RecordEvent::Rendered { ok: false }
            || events[i] == RecordEvent::Ran { ok: false })
}

/// A record takes four events at most, and one that is closed has failed
/// exactly where its command line did not render or its process did not run:
/// a declined record is closed without an error.
pub proof fn lemma_record_ends(events: Seq<RecordEvent>)
    requires
        after(RecordState::Pending, events) is Some,
    ensures
        events.len() <= 4,
        after(RecordState::Pending, events) matches Some(RecordState::Done { failed }) ==> failed
            == has_failure(events),
{
    lemma_after_from(RecordState::Pending, events, false);
}

/// What the states on the way know of the events so far.
spec fn settled(state: RecordState, failed_before: bool) -> bool {
    match state {
        RecordState::RenderFailed | RecordState::ExecutionFailed => failed_before,
        RecordState::Done { failed } => failed == failed_before,
        _ => !failed_before,
    }
}

proof fn lemma_after_from(state: RecordState, events: Seq<RecordEvent>, failed_before: bool)
    requires
        after(state, events) is Some,
        settled(state, failed_before),
    ensures
        events.len() <= state.distance(),
        settled(after(state, events).unwrap(), failed_before || has_failure(events)),
    decreases events.len(),
{
    if events.len() > 0 {
        let next = state.spec_advance(events[0]).unwrap();
        let rest = events.drop_first();
        let now = failed_before || events[0] == (RecordEvent::Rendered { ok: false }) || events[0]
            == (RecordEvent::Ran { ok: false });
        lemma_after_from(next, rest, now);
        if has_failure(rest) {
            let i = choose|i: int|
                0 <= i < rest.len() && (#[trigger] rest[i] == RecordEvent::Rendered { ok: false }
                    || rest[i] == RecordEvent::Ran { ok: false });
            assert(events[i + 1] == rest[i]);
        }
        if has_failure(events) {
            let i = choose|i: int|
                0 <= i < events.len() && (#[trigger] events[i] == RecordEvent::Rendered {
                    ok: false,
                } || events[i] == RecordEvent::Ran { ok: false });
            if i > 0 {
                assert(rest[i - 1] == events[i]);
            }
        }
        if events[0] == (RecordEvent::Rendered { ok: false }) || events[0] == (RecordEvent::Ran {
            ok: false,
        }) {
            assert(has_failure(events));
        }
    }
}

/// What is due after the command line of a record is rendered.
pub enum Prepared {
    /// The operator is asked this question before the process runs.
    Ask { question: String, cmd: Command },
    /// The process runs without a question.
    Run { cmd: Command },
}

/// Renders the command line for a record and, for an action that asks,
/// words the question to the operator.
///
/// A template that does not render is a data error of this record alone.
pub fn prepare_record(action: &Action, value: &serde_json::Value) -> (r: Result<
    Prepared,
    EachError,
>)
    ensures
        match action@.prepared(tree_of(*value)) {
            Err(slot) => r matches Err(e) && e is Data && starts_with(
                e.spec_message(),
                "failed to prepare command: "@ + slot.spec_describe() + ": "@,
            ),
            Ok(invocation) => if action@.prompt {
                match action@.prompt_text(invocation, tree_of(*value)) {
                    Some(text) => r matches Ok(Prepared::Ask { question, cmd }) && question@
                        == text && cmd@ == invocation,
                    None => r matches Err(e) && e is Data && starts_with(
                        e.spec_message(),
                        "failed to render stdin: "@,
                    ),
                }
            } else {
                r matches Ok(Prepared::Run { cmd }) && cmd@ == invocation
            },
        },
{
    let cmd = match action.prepare(value) {
        Ok(cmd) => cmd,
        Err(failure) => {
            let mut message = String::from_str("failed to prepare command: ");
            message.append(failure.slot.describe().as_str());
            message.append(": ");
            proof {
                lemma_starts_with(message@, failure.message@);
            }
            message.append(failure.message.as_str());
            return Err(EachError::Data { message });
        },
    };
    if action.is_interactive() {
        match action.prompt(&cmd, value) {
            Ok(question) => Ok(Prepared::Ask { question, cmd }),
            Err(failure) => {
                let mut message = String::from_str("failed to render stdin: ");
                proof {
                    lemma_starts_with(message@, failure.message@);
                }
                message.append(failure.message.as_str());
                Err(EachError::Data { message })
            },
        }
    } else {
        Ok(Prepared::Run { cmd })
    }
}

/// Makes the data error of a process that could not run.
pub fn run_failed(reason: &str) -> (r: EachError)
    ensures
        r is Data,
        r.spec_message() == "failed to run command: "@ + reason@,
{
    let mut message = String::from_str("failed to run command: ");
    message.append(reason);
    EachError::Data { message }
}

/// Makes the error of a file or stream that failed, with its path.
pub fn io_failed(path: &str, reason: &str) -> (r: EachError)
    ensures
        r is Io,
        r.spec_message() == path@ + ": "@ + reason@,
{
    let mut message = String::from_str(path);
    message.append(": ");
    message.append(reason);
    EachError::Io { message }
}

/// The index of the first outcome from `from` on that is an error.
pub open spec fn first_failed(outcomes: Seq<Result<(), EachError>>, from: nat) -> Option<nat>
    decreases outcomes.len() - from,
{
    if from >= outcomes.len() {
        None
    } else if outcomes[from as int] is Err {
        Some(from)
    } else {
        first_failed(outcomes, from + 1)
    }
}

/// Folds the outcomes of the records of a run, by record index, into the
/// result of the run.
///
/// The run fails where a record failed, and its error is that of the failed
/// record with the lowest index, whatever order the records ran in.
pub fn first_error(outcomes: Vec<Result<(), EachError>>) -> (r: Result<(), EachError>)
    ensures
        match first_failed(outcomes@, 0) {
            Some(i) => i < outcomes@.len() && r == outcomes@[i as int],
            None => r is Ok,
        },
{
    let mut left = outcomes;
    let ghost all = left@;
    let mut i: usize = 0;
    while i < left.len()
        invariant
            i <= left@.len(),
            left@ == all,
            all == outcomes@,
            first_failed(all, 0) == first_failed(all, i as nat),
        decreases left@.len() - i,
    {
        if left[i].is_err() {
            return left.swap_remove(i);
        }
        i = i + 1;
    }
    Ok(())
}

} // verus!
