//! The reactive groomer: what is done when the store says that a key has
//! expired or was evicted.
//!
//! The primary entry and the metadata of a key go independently; whichever
//! goes first, the other is cleaned. Where the metadata went first and the
//! primary entry is still there, nothing says any more which index sets hold
//! the key: a targeted groomer is asked for, which looks through all index
//! sets of the namespace.
use crate::action::{ok, ok_reply, Action, ActionView, Machine};
use crate::clean::{CleanKey, CleanKeyView, CleanStage};
use crate::command::{Command, CommandView};
use crate::error::{EngineError, ErrorView};
use crate::init::{EVENTS, KEYS_EXPIRED};
use crate::layout::{classified, classify, prefixed, primary_key, PhysicalKey, PhysicalKeyView};
use crate::reply::{expect_integer, integer_in, Reply, ReplyView};
use vstd::prelude::*;

verus! {

/// Where the handling of a notification stands.
#[derive(Clone, Copy, Debug, PartialEq, Eq, Structural)]
pub enum EventStage {
    /// The notification is to be counted.
    CountEvent,
    /// The expired key is to be counted.
    CountExpired,
    /// The metadata has gone: is the primary entry still there?
    CheckPrimary,
    /// It is: a targeted groomer is to be started.
    Schedule,
    /// The key is being cleaned.
    Clean,
    /// Nothing is left to do.
    Finished,
}

/// The handling of one notification, as a state machine.
#[derive(Debug)]
pub struct EventGroom {
    namespace: String,
    key: String,
    /// The key that went was the metadata of the logical key.
    was_meta: bool,
    stage: EventStage,
    /// The clean operation for the logical key.
    clean: CleanKey,
    failure: Option<EngineError>,
}

/// The mathematical value of an [`EventGroom`].
pub struct EventGroomView {
    pub namespace: Seq<char>,
    pub key: Seq<char>,
    pub was_meta: bool,
    pub stage: EventStage,
    pub clean: CleanKeyView,
    pub failure: Option<ErrorView>,
}

impl EventGroomView {
    /// The handling of the notification for a physical key, before its first
    /// command.
    pub open spec fn start(named: PhysicalKeyView) -> Self {
        match named {
            PhysicalKeyView::Primary { namespace, key } => EventGroomView {
                namespace,
                key,
                was_meta: false,
                stage: EventStage::CountEvent,
                clean: CleanKeyView::start(namespace, key),
                failure: None,
            },
            PhysicalKeyView::Meta { namespace, key } => EventGroomView {
                namespace,
                key,
                was_meta: true,
                stage: EventStage::CountEvent,
                clean: CleanKeyView::start(namespace, key),
                failure: None,
            },
        }
    }

    /// The handling at another stage.
    pub open spec fn at_stage(self, stage: EventStage) -> Self {
        EventGroomView { stage, ..self }
    }

    /// The handling, ended by an error.
    pub open spec fn failed(self, error: ErrorView) -> Self {
        EventGroomView { stage: EventStage::Finished, failure: Some(error), ..self }
    }
}

impl Machine for EventGroomView {
    open spec fn pending(self) -> ActionView {
        match self.stage {
            EventStage::CountEvent => ActionView::Call(CommandView::Incr { key: EVENTS@ }),
            EventStage::CountExpired => ActionView::Call(CommandView::Incr { key: KEYS_EXPIRED@ }),
            EventStage::CheckPrimary => ActionView::Call(
                CommandView::Exists { key: primary_key(self.namespace, self.key) },
            ),
            EventStage::Schedule => ActionView::Schedule {
                namespace: self.namespace,
                key: self.key,
            },
            EventStage::Clean => self.clean.pending(),
            EventStage::Finished => ActionView::Done(
                match self.failure {
                    Some(error) => Err(error),
                    None => Ok(ok()),
                },
            ),
        }
    }

    open spec fn after(self, reply: ReplyView) -> Self {
        match self.stage {
            EventStage::CountEvent => match integer_in(reply) {
                Err(error) => self.failed(error),
                Ok(_) => self.at_stage(EventStage::CountExpired),
            },
            EventStage::CountExpired => match integer_in(reply) {
                Err(error) => self.failed(error),
                Ok(_) => if self.was_meta {
                    self.at_stage(EventStage::CheckPrimary)
                } else {
                    self.at_stage(EventStage::Clean)
                },
            },
            EventStage::CheckPrimary => match integer_in(reply) {
                Err(error) => self.failed(error),
                Ok(n) => if n == 1 {
                    self.at_stage(EventStage::Schedule)
                } else {
                    self.at_stage(EventStage::Clean)
                },
            },
            EventStage::Schedule => self.at_stage(EventStage::Clean),
            EventStage::Clean => {
                let clean = self.clean.after(reply);
                let stepped = EventGroomView { clean, ..self };
                if clean.stage != CleanStage::Finished {
                    stepped
                } else {
                    EventGroomView { stage: EventStage::Finished, failure: clean.failure, ..stepped }
                }
            },
            EventStage::Finished => self,
        }
    }
}

impl View for EventGroom {
    type V = EventGroomView;

    closed spec fn view(&self) -> EventGroomView {
        EventGroomView {
            namespace: self.namespace@,
            key: self.key@,
            was_meta: self.was_meta,
            stage: self.stage,
            clean: self.clean@,
            failure: match self.failure {
                Some(error) => Some(error@),
                None => None,
            },
        }
    }
}

impl EventGroom {
    /// The handling of the notification that the physical key `key` has gone,
    /// before its first command. `None` where the key holds no separator: it
    /// is no key of this layout, and there is nothing to do.
    pub fn from(key: &str) -> (handling: Option<Self>)
        ensures
            match handling {
                Some(op) => classified(key@) matches Some(named) && op@ == EventGroomView::start(
                    named,
                ),
                None => classified(key@) is None,
            },
    {
        match classify(key) {
            None => None,
            Some(PhysicalKey::Primary { namespace, key }) => {
                let clean = CleanKey::new(namespace.clone(), key.clone());
                Some(
                    EventGroom {
                        namespace,
                        key,
                        was_meta: false,
                        stage: EventStage::CountEvent,
                        clean,
                        failure: None,
                    },
                )
            },
            Some(PhysicalKey::Meta { namespace, key }) => {
                let clean = CleanKey::new(namespace.clone(), key.clone());
                Some(
                    EventGroom {
                        namespace,
                        key,
                        was_meta: true,
                        stage: EventStage::CountEvent,
                        clean,
                        failure: None,
                    },
                )
            },
        }
    }

    /// What the handling waits for.
    pub fn action(&self) -> (action: Action)
        ensures
            action@ == self@.pending(),
    {
        match self.stage {
            EventStage::CountEvent => Action::Call(Command::Incr { key: String::from_str(EVENTS) }),
            EventStage::CountExpired => Action::Call(
                Command::Incr { key: String::from_str(KEYS_EXPIRED) },
            ),
            EventStage::CheckPrimary => Action::Call(
                Command::Exists { key: prefixed(self.namespace.as_str(), self.key.as_str()) },
            ),
            EventStage::Schedule => Action::Schedule {
                namespace: self.namespace.clone(),
                key: self.key.clone(),
            },
            EventStage::Clean => self.clean.action(),
            EventStage::Finished => match &self.failure {
                Some(error) => Action::Done(Err(error.clone())),
                None => Action::Done(Ok(ok_reply())),
            },
        }
    }

    /// Ends the handling with an error.
    fn fail(&mut self, error: EngineError)
        ensures
            final(self)@ == old(self)@.failed(error@),
    {
        self.stage = EventStage::Finished;
        self.failure = Some(error);
    }

    /// Takes the reply to the pending action, moves on, and says what the
    /// handling waits for next.
    pub fn perform(&mut self, reply: &Reply) -> (action: Action)
        ensures
            final(self)@ == old(self)@.after(reply@),
            action@ == final(self)@.pending(),
    {
        match self.stage {
            EventStage::CountEvent => match expect_integer(reply) {
                Err(error) => self.fail(error),
                Ok(_) => {
                    self.stage = EventStage::CountExpired;
                },
            },
            EventStage::CountExpired => match expect_integer(reply) {
                Err(error) => self.fail(error),
                Ok(_) => {
                    self.stage = if self.was_meta {
                        EventStage::CheckPrimary
                    } else {
                        EventStage::Clean
                    };
                },
            },
            EventStage::CheckPrimary => match expect_integer(reply) {
                Err(error) => self.fail(error),
                Ok(n) => {
                    self.stage = if n == 1 {
                        EventStage::Schedule
                    } else {
                        EventStage::Clean
                    };
                },
            },
            EventStage::Schedule => {
                self.stage = EventStage::Clean;
            },
            EventStage::Clean => {
                self.clean.process(reply);
                if self.clean.finished() {
                    self.failure = self.clean.failure();
                    self.stage = EventStage::Finished;
                }
            },
            EventStage::Finished => {},
        }
        self.action()
    }
}

} // verus!
