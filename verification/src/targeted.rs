//! The targeted groomer: take one key out of every index set of its
//! namespace.
//!
//! It runs when the metadata of a key has gone before its primary entry, so
//! that nothing says any more which index sets hold the key. The sweep walks
//! the index sets of the namespace with the store's cursor. Before it removes
//! the key from a set, it asks whether the primary entry exists: a key that
//! has been written again in the meantime is left where it is.
use crate::action::{ok, ok_reply, Action, ActionView, Machine};
use crate::command::{Command, CommandView};
use crate::error::{EngineError, ErrorView};
use crate::layout::{index_pattern, pattern_of, prefixed, primary_key};
use crate::periodic::INITIAL_CURSOR;
use crate::reply::{expect_integer, expect_scan, integer_in, scan_in, Reply, ReplyView};
use vstd::prelude::*;

verus! {

/// Where a targeted sweep stands.
#[derive(Clone, Copy, Debug, PartialEq, Eq, Structural)]
pub enum TargetStage {
    /// The next batch of keys is to be read.
    Scanning,
    /// Does the primary entry of the key exist?
    Check,
    /// It does not: the key is to be removed from the current index set.
    Drop,
    /// Nothing is left to do.
    Finished,
}

/// The removal of one key from the index sets of its namespace, as a state
/// machine.
#[derive(Debug)]
pub struct TargetedGroom {
    namespace: String,
    key: String,
    /// The cursor to go on with.
    cursor: String,
    /// The keys of the index sets that the last scan found.
    batch: Vec<String>,
    /// How many keys of the batch have been taken up.
    taken: usize,
    /// The physical key of the index set that was taken up last.
    current: String,
    stage: TargetStage,
    failure: Option<EngineError>,
}

/// The mathematical value of a [`TargetedGroom`].
pub struct TargetedGroomView {
    pub namespace: Seq<char>,
    pub key: Seq<char>,
    pub cursor: Seq<char>,
    pub batch: Seq<Seq<char>>,
    pub taken: nat,
    pub current: Seq<char>,
    pub stage: TargetStage,
    pub failure: Option<ErrorView>,
}

impl TargetedGroomView {
    /// The sweep for `key` of `namespace`, before its first command.
    pub open spec fn start(namespace: Seq<char>, key: Seq<char>) -> Self {
        TargetedGroomView {
            namespace,
            key,
            cursor: INITIAL_CURSOR@,
            batch: Seq::empty(),
            taken: 0,
            current: Seq::empty(),
            stage: TargetStage::Scanning,
            failure: None,
        }
    }

    /// The sweep, ended by an error.
    pub open spec fn failed(self, error: ErrorView) -> Self {
        TargetedGroomView { stage: TargetStage::Finished, failure: Some(error), ..self }
    }

    /// The sweep, gone on to the next index set of the batch. Where the batch
    /// is used up, the next batch is to be read, unless the cursor has come
    /// back to where it began: then the sweep has ended.
    pub open spec fn proceed(self) -> Self {
        if self.taken < self.batch.len() {
            TargetedGroomView {
                current: self.batch[self.taken as int],
                taken: self.taken + 1,
                stage: TargetStage::Check,
                ..self
            }
        } else if self.cursor == INITIAL_CURSOR@ {
            TargetedGroomView { stage: TargetStage::Finished, ..self }
        } else {
            TargetedGroomView { stage: TargetStage::Scanning, ..self }
        }
    }

    /// The pending command belongs to the critical section of the command
    /// before it: the store must not be let go in between.
    pub open spec fn continues_section(self) -> bool {
        self.stage == TargetStage::Drop
    }
}

impl Machine for TargetedGroomView {
    open spec fn pending(self) -> ActionView {
        match self.stage {
            TargetStage::Scanning => ActionView::Call(
                CommandView::Scan { cursor: self.cursor, pattern: index_pattern(self.namespace) },
            ),
            TargetStage::Check => ActionView::Call(
                CommandView::Exists { key: primary_key(self.namespace, self.key) },
            ),
            TargetStage::Drop => ActionView::Call(
                CommandView::SRem { key: self.current, member: self.key },
            ),
            TargetStage::Finished => ActionView::Done(
                match self.failure {
                    Some(error) => Err(error),
                    None => Ok(ok()),
                },
            ),
        }
    }

    open spec fn after(self, reply: ReplyView) -> Self {
        match self.stage {
            TargetStage::Scanning => match scan_in(reply) {
                Err(error) => self.failed(error),
                Ok((cursor, batch)) => TargetedGroomView { cursor, batch, taken: 0, ..self }.proceed(),
            },
            TargetStage::Check => match integer_in(reply) {
                Err(error) => self.failed(error),
                Ok(n) => if n == 1 {
                    self.proceed()
                } else {
                    TargetedGroomView { stage: TargetStage::Drop, ..self }
                },
            },
            TargetStage::Drop => match integer_in(reply) {
                Err(error) => self.failed(error),
                Ok(_) => self.proceed(),
            },
            TargetStage::Finished => self,
        }
    }
}

impl View for TargetedGroom {
    type V = TargetedGroomView;

    closed spec fn view(&self) -> TargetedGroomView {
        TargetedGroomView {
            namespace: self.namespace@,
            key: self.key@,
            cursor: self.cursor@,
            batch: self.batch.deep_view(),
            taken: self.taken as nat,
            current: self.current@,
            stage: self.stage,
            failure: match self.failure {
                Some(error) => Some(error@),
                None => None,
            },
        }
    }
}

impl TargetedGroom {
    /// The sweep for `key` of `namespace`, before its first command.
    pub fn new(namespace: String, key: String) -> (op: Self)
        ensures
            op@ == TargetedGroomView::start(namespace@, key@),
    {
        let op = TargetedGroom {
            namespace,
            key,
            cursor: String::from_str(INITIAL_CURSOR),
            batch: Vec::new(),
            taken: 0,
            current: String::new(),
            stage: TargetStage::Scanning,
            failure: None,
        };
        assert(op.batch.deep_view() =~= Seq::empty());
        op
    }

    /// Whether the pending command belongs to the critical section of the
    /// command before it.
    pub fn continues_section(&self) -> (continues: bool)
        ensures
            continues == self@.continues_section(),
    {
        self.stage == TargetStage::Drop
    }

    /// What the sweep waits for.
    pub fn action(&self) -> (action: Action)
        ensures
            action@ == self@.pending(),
    {
        match self.stage {
            TargetStage::Scanning => Action::Call(
                Command::Scan {
                    cursor: self.cursor.clone(),
                    pattern: pattern_of(self.namespace.as_str()),
                },
            ),
            TargetStage::Check => Action::Call(
                Command::Exists { key: prefixed(self.namespace.as_str(), self.key.as_str()) },
            ),
            TargetStage::Drop => Action::Call(
                Command::SRem { key: self.current.clone(), member: self.key.clone() },
            ),
            TargetStage::Finished => match &self.failure {
                Some(error) => Action::Done(Err(error.clone())),
                None => Action::Done(Ok(ok_reply())),
            },
        }
    }

    /// Ends the sweep with an error.
    fn fail(&mut self, error: EngineError)
        ensures
            final(self)@ == old(self)@.failed(error@),
    {
        self.stage = TargetStage::Finished;
        self.failure = Some(error);
    }

    /// Goes on to the next index set of the batch, to the next batch, or to
    /// the end.
    fn proceed(&mut self)
        ensures
            final(self)@ == old(self)@.proceed(),
    {
        proof {
            assert(self.batch.deep_view().len() == self.batch.len());
        }
        if self.taken < self.batch.len() {
            self.current = self.batch[self.taken].clone();
            self.taken = self.taken + 1;
            self.stage = TargetStage::Check;
        } else if self.cursor == String::from_str(INITIAL_CURSOR) {
            self.stage = TargetStage::Finished;
        } else {
            self.stage = TargetStage::Scanning;
        }
    }

    /// Takes the reply to the pending command, moves on, and says what the
    /// sweep waits for next.
    pub fn perform(&mut self, reply: &Reply) -> (action: Action)
        ensures
            final(self)@ == old(self)@.after(reply@),
            action@ == final(self)@.pending(),
    {
        match self.stage {
            TargetStage::Scanning => match expect_scan(reply) {
                Err(error) => self.fail(error),
                Ok((cursor, batch)) => {
                    self.cursor = cursor;
                    self.batch = batch;
                    self.taken = 0;
                    self.proceed();
                },
            },
            TargetStage::Check => match expect_integer(reply) {
                Err(error) => self.fail(error),
                Ok(n) => {
                    if n == 1 {
                        self.proceed();
                    } else {
                        self.stage = TargetStage::Drop;
                    }
                },
            },
            TargetStage::Drop => match expect_integer(reply) {
                Err(error) => self.fail(error),
                Ok(_) => self.proceed(),
            },
            TargetStage::Finished => {},
        }
        self.action()
    }
}

} // verus!
