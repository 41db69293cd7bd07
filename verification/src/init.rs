//! Start-up: the counters are set to zero.
use crate::action::{ok, ok_reply, Action, ActionView, Machine};
use crate::clean::META_MISSING;
use crate::command::{Command, CommandView};
use crate::error::{EngineError, ErrorView};
use crate::reply::{Reply, ReplyView};
use vstd::prelude::*;

verus! {

/// The counter of notifications that were handled.
pub const EVENTS: &'static str = "events";

/// The counter of keys whose expiry was handled.
pub const KEYS_EXPIRED: &'static str = "keys_expired";

/// The name of the counter that is set as number `done`.
pub open spec fn counter(done: nat) -> Seq<char> {
    if done == 0 {
        EVENTS@
    } else if done == 1 {
        KEYS_EXPIRED@
    } else {
        META_MISSING@
    }
}

/// The setting of the three counters to zero, as a state machine.
#[derive(Debug)]
pub struct Init {
    /// How many counters have been set.
    done: u8,
    failure: Option<EngineError>,
}

/// The mathematical value of an [`Init`].
pub struct InitView {
    pub done: nat,
    pub failure: Option<ErrorView>,
}

impl InitView {
    /// The operation before its first command.
    pub open spec fn start() -> Self {
        InitView { done: 0, failure: None }
    }
}

impl Machine for InitView {
    open spec fn pending(self) -> ActionView {
        match self.failure {
            Some(error) => ActionView::Done(Err(error)),
            None => if self.done < 3 {
                ActionView::Call(CommandView::Write { key: counter(self.done), value: "0"@ })
            } else {
                ActionView::Done(Ok(ok()))
            },
        }
    }

    open spec fn after(self, reply: ReplyView) -> Self {
        if self.failure is Some || self.done >= 3 {
            self
        } else {
            match reply {
                ReplyView::Error(message) => InitView {
                    failure: Some(ErrorView::Store(message)),
                    ..self
                },
                _ => InitView { done: self.done + 1, ..self },
            }
        }
    }
}

impl View for Init {
    type V = InitView;

    closed spec fn view(&self) -> InitView {
        InitView {
            done: self.done as nat,
            failure: match self.failure {
                Some(error) => Some(error@),
                None => None,
            },
        }
    }
}

impl Init {
    /// The operation before its first command.
    pub fn from() -> (op: Self)
        ensures
            op@ == InitView::start(),
    {
        Init { done: 0, failure: None }
    }

    /// What the operation waits for.
    pub fn action(&self) -> (action: Action)
        ensures
            action@ == self@.pending(),
    {
        match &self.failure {
            Some(error) => Action::Done(Err(error.clone())),
            None => {
                if self.done < 3 {
                    let name = if self.done == 0 {
                        EVENTS
                    } else if self.done == 1 {
                        KEYS_EXPIRED
                    } else {
                        META_MISSING
                    };
                    Action::Call(
                        Command::Write { key: String::from_str(name), value: String::from_str("0") },
                    )
                } else {
                    Action::Done(Ok(ok_reply()))
                }
            },
        }
    }

    /// Takes the reply to the pending command, moves on, and says what the
    /// operation waits for next.
    pub fn perform(&mut self, reply: &Reply) -> (action: Action)
        ensures
            final(self)@ == old(self)@.after(reply@),
            action@ == final(self)@.pending(),
    {
        if self.failure.is_none() && self.done < 3 {
            match reply {
                Reply::Error(message) => {
                    self.failure = Some(EngineError::Store(message.clone()));
                },
                _ => {
                    self.done = self.done + 1;
                },
            }
        }
        self.action()
    }
}

} // verus!
