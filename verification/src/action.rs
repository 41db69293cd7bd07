//! The protocol between an operation and whoever holds the store.
//!
//! An operation is a state machine. In every state it waits for one thing, its
//! pending [`Action`]: a command to be sent, a groomer to be started, or
//! nothing more, because it has ended. The caller does what the action asks
//! and hands the store's reply to the operation, which moves to its next
//! state. The operation itself never blocks and never fails to answer.
use crate::command::{Command, CommandView};
use crate::error::{EngineError, ErrorView};
use crate::reply::{Reply, ReplyView};
use vstd::prelude::*;

verus! {

/// What an operation waits for.
#[derive(Debug, PartialEq, Eq)]
pub enum Action {
    /// Send the command to the store and hand its reply to the operation.
    Call(Command),
    /// Start a targeted groomer for the key on a worker of its own, then hand
    /// any reply to the operation: it does not read it.
    Schedule { namespace: String, key: String },
    /// The operation has ended, with this result for the caller.
    Done(Result<Reply, EngineError>),
}

/// The mathematical value of an [`Action`].
pub enum ActionView {
    Call(CommandView),
    Schedule { namespace: Seq<char>, key: Seq<char> },
    Done(Result<ReplyView, ErrorView>),
}

impl View for Action {
    type V = ActionView;

    open spec fn view(&self) -> ActionView {
        match self {
            Action::Call(command) => ActionView::Call(command@),
            Action::Schedule { namespace, key } => ActionView::Schedule {
                namespace: namespace@,
                key: key@,
            },
            Action::Done(Ok(reply)) => ActionView::Done(Ok(reply@)),
            Action::Done(Err(error)) => ActionView::Done(Err(error@)),
        }
    }
}

impl ActionView {
    /// The operation has ended and did what it was asked.
    pub open spec fn succeeded(self) -> bool {
        self matches ActionView::Done(Ok(_))
    }
}

/// The status line with which the store, and the engine, say that a write was
/// done.
pub open spec fn ok() -> ReplyView {
    ReplyView::Status("OK"@)
}

/// The reply `OK`.
pub fn ok_reply() -> (reply: Reply)
    ensures
        reply@ == ok(),
{
    Reply::Status(String::from_str("OK"))
}

/// The mathematical value of an operation's result.
pub open spec fn outcome_view(outcome: Result<Reply, EngineError>) -> Result<ReplyView, ErrorView> {
    match outcome {
        Ok(reply) => Ok(reply@),
        Err(error) => Err(error@),
    }
}

/// A copy of an operation's result.
pub fn copy_outcome(outcome: &Result<Reply, EngineError>) -> (copy: Result<Reply, EngineError>)
    ensures
        outcome_view(copy) == outcome_view(*outcome),
{
    match outcome {
        Ok(reply) => Ok(reply.clone()),
        Err(error) => Err(error.clone()),
    }
}

/// An operation as a state machine, seen as a mathematical value.
pub trait Machine: Sized {
    /// What the operation waits for in this state.
    spec fn pending(self) -> ActionView;

    /// The state that follows when `reply` answers the pending action. An
    /// operation that has ended stays as it is.
    spec fn after(self, reply: ReplyView) -> Self;
}

} // verus!
