//! The periodic groomer: a sweep over all index sets that takes out the
//! members whose primary entry is gone.
//!
//! The sweep walks the keys of the index sets with the store's cursor, a batch
//! at a time. Of each index set it asks for a sample of bounded size, and of
//! each member of the sample whether its primary entry exists; a member
//! without one is removed from the set. The sweep ends when the cursor has
//! come back to where it began.
use crate::action::{ok, ok_reply, Action, ActionView, Machine};
use crate::command::{Command, CommandView};
use crate::error::{EngineError, ErrorView};
use crate::layout::{
    all_indices, index_namespace, index_pattern, namespace_of_index, pattern_of, prefixed,
    primary_key, ALL_INDICES,
};
use crate::reply::{
    expect_integer, expect_scan, expect_strings, integer_in, scan_in, strings_in, Reply, ReplyView,
};
use vstd::prelude::*;

verus! {

/// The cursor with which a sweep begins, and with which the store says that
/// it has ended.
pub const INITIAL_CURSOR: &'static str = "0";

/// The largest number of members that are looked at in one index set.
pub const BATCH_SIZE: u64 = 256;

/// Where the grooming of one index set stands.
#[derive(Clone, Copy, Debug, PartialEq, Eq, Structural)]
pub enum GroomStage {
    /// A sample of the members is to be read.
    Sample,
    /// Does the primary entry of a member exist?
    Check,
    /// It does not: the member is to be removed.
    Drop,
    /// Nothing is left to do.
    Finished,
}

/// The grooming of one index set, as a state machine.
#[derive(Debug)]
pub struct GroomIndex {
    namespace: String,
    /// The physical key of the index set.
    index: String,
    stage: GroomStage,
    /// The sample, as it was read.
    keys: Vec<String>,
    /// The member that is looked at.
    at: usize,
    failure: Option<EngineError>,
}

/// The mathematical value of a [`GroomIndex`].
pub struct GroomIndexView {
    pub namespace: Seq<char>,
    pub index: Seq<char>,
    pub stage: GroomStage,
    pub keys: Seq<Seq<char>>,
    pub at: nat,
    pub failure: Option<ErrorView>,
}

impl GroomIndexView {
    /// The grooming of the index set `index` of `namespace`, before its first
    /// command.
    pub open spec fn start(namespace: Seq<char>, index: Seq<char>) -> Self {
        GroomIndexView {
            namespace,
            index,
            stage: GroomStage::Sample,
            keys: Seq::empty(),
            at: 0,
            failure: None,
        }
    }

    /// While a member is looked at, there is such a member.
    pub open spec fn well_formed(self) -> bool {
        self.stage == GroomStage::Check || self.stage == GroomStage::Drop ==> self.at
            < self.keys.len()
    }

    /// The grooming, ended by an error.
    pub open spec fn failed(self, error: ErrorView) -> Self {
        GroomIndexView { stage: GroomStage::Finished, failure: Some(error), ..self }
    }

    /// The grooming, gone on to the member behind the current one, or ended
    /// where there is none.
    pub open spec fn next(self) -> Self {
        if self.at + 1 < self.keys.len() {
            GroomIndexView { stage: GroomStage::Check, at: self.at + 1, ..self }
        } else {
            GroomIndexView { stage: GroomStage::Finished, ..self }
        }
    }

    /// The pending command belongs to the critical section of the command
    /// before it: the store must not be let go in between.
    pub open spec fn continues_section(self) -> bool {
        self.stage == GroomStage::Drop
    }
}

impl Machine for GroomIndexView {
    open spec fn pending(self) -> ActionView {
        match self.stage {
            GroomStage::Sample => ActionView::Call(
                CommandView::SRandMember { key: self.index, count: BATCH_SIZE },
            ),
            GroomStage::Check => ActionView::Call(
                CommandView::Exists { key: primary_key(self.namespace, self.keys[self.at as int]) },
            ),
            GroomStage::Drop => ActionView::Call(
                CommandView::SRem { key: self.index, member: self.keys[self.at as int] },
            ),
            GroomStage::Finished => ActionView::Done(
                match self.failure {
                    Some(error) => Err(error),
                    None => Ok(ok()),
                },
            ),
        }
    }

    open spec fn after(self, reply: ReplyView) -> Self {
        match self.stage {
            GroomStage::Sample => match strings_in(reply) {
                Err(error) => self.failed(error),
                Ok(keys) => if keys.len() == 0 {
                    GroomIndexView { stage: GroomStage::Finished, ..self }
                } else {
                    GroomIndexView { stage: GroomStage::Check, keys, at: 0, ..self }
                },
            },
            GroomStage::Check => match integer_in(reply) {
                Err(error) => self.failed(error),
                Ok(n) => if n == 1 {
                    self.next()
                } else {
                    GroomIndexView { stage: GroomStage::Drop, ..self }
                },
            },
            GroomStage::Drop => match integer_in(reply) {
                Err(error) => self.failed(error),
                Ok(_) => self.next(),
            },
            GroomStage::Finished => self,
        }
    }
}

impl View for GroomIndex {
    type V = GroomIndexView;

    closed spec fn view(&self) -> GroomIndexView {
        GroomIndexView {
            namespace: self.namespace@,
            index: self.index@,
            stage: self.stage,
            keys: self.keys.deep_view(),
            at: self.at as nat,
            failure: match self.failure {
                Some(error) => Some(error@),
                None => None,
            },
        }
    }
}

impl GroomIndex {
    #[verifier::type_invariant]
    spec fn inv(self) -> bool {
        self@.well_formed()
    }

    /// The grooming of the index set with the physical key `index`, which
    /// belongs to `namespace`, before its first command.
    pub fn new(namespace: String, index: String) -> (op: Self)
        ensures
            op@ == GroomIndexView::start(namespace@, index@),
    {
        let op = GroomIndex {
            namespace,
            index,
            stage: GroomStage::Sample,
            keys: Vec::new(),
            at: 0,
            failure: None,
        };
        assert(op.keys.deep_view() =~= Seq::empty());
        op
    }

    /// Whether the grooming has ended.
    pub fn finished(&self) -> (ended: bool)
        ensures
            ended == (self@.stage == GroomStage::Finished),
    {
        self.stage == GroomStage::Finished
    }

    /// The error that ended the grooming, if one did.
    pub fn failure(&self) -> (error: Option<EngineError>)
        ensures
            match error {
                Some(e) => self@.failure == Some(e@),
                None => self@.failure is None,
            },
    {
        match &self.failure {
            Some(e) => Some(e.clone()),
            None => None,
        }
    }

    /// Whether the pending command belongs to the critical section of the
    /// command before it.
    pub fn continues_section(&self) -> (continues: bool)
        ensures
            continues == self@.continues_section(),
    {
        self.stage == GroomStage::Drop
    }

    /// What the grooming waits for.
    pub fn action(&self) -> (action: Action)
        ensures
            action@ == self@.pending(),
    {
        proof {
            use_type_invariant(self);
            assert(self.keys.deep_view().len() == self.keys.len());
        }
        match self.stage {
            GroomStage::Sample => Action::Call(
                Command::SRandMember { key: self.index.clone(), count: BATCH_SIZE },
            ),
            GroomStage::Check => Action::Call(
                Command::Exists {
                    key: prefixed(self.namespace.as_str(), self.keys[self.at].as_str()),
                },
            ),
            GroomStage::Drop => Action::Call(
                Command::SRem { key: self.index.clone(), member: self.keys[self.at].clone() },
            ),
            GroomStage::Finished => match &self.failure {
                Some(error) => Action::Done(Err(error.clone())),
                None => Action::Done(Ok(ok_reply())),
            },
        }
    }

    /// Ends the grooming with an error.
    fn fail(&mut self, error: EngineError)
        ensures
            final(self)@ == old(self)@.failed(error@),
    {
        self.stage = GroomStage::Finished;
        self.failure = Some(error);
    }

    /// Goes on to the next member of the sample.
    fn next(&mut self)
        requires
            old(self)@.stage == GroomStage::Check || old(self)@.stage == GroomStage::Drop,
        ensures
            final(self)@ == old(self)@.next(),
    {
        proof {
            use_type_invariant(&*self);
            assert(self.keys.deep_view().len() == self.keys.len());
        }
        if self.at + 1 < self.keys.len() {
            self.stage = GroomStage::Check;
            self.at = self.at + 1;
        } else {
            self.stage = GroomStage::Finished;
        }
    }

    /// Takes the reply to the pending command, moves on, and says what the
    /// grooming waits for next.
    pub fn perform(&mut self, reply: &Reply) -> (action: Action)
        ensures
            final(self)@ == old(self)@.after(reply@),
            action@ == final(self)@.pending(),
    {
        proof {
            use_type_invariant(&*self);
        }
        match self.stage {
            GroomStage::Sample => match expect_strings(reply) {
                Err(error) => self.fail(error),
                Ok(keys) => {
                    if keys.len() == 0 {
                        self.stage = GroomStage::Finished;
                    } else {
                        self.stage = GroomStage::Finished;
                        self.keys = keys;
                        self.at = 0;
                        self.stage = GroomStage::Check;
                    }
                },
            },
            GroomStage::Check => match expect_integer(reply) {
                Err(error) => self.fail(error),
                Ok(n) => {
                    if n == 1 {
                        self.next();
                    } else {
                        self.stage = GroomStage::Drop;
                    }
                },
            },
            GroomStage::Drop => match expect_integer(reply) {
                Err(error) => self.fail(error),
                Ok(_) => self.next(),
            },
            GroomStage::Finished => {},
        }
        self.action()
    }
}

/// Where a sweep stands.
#[derive(Clone, Copy, Debug, PartialEq, Eq, Structural)]
pub enum SweepStage {
    /// The next batch of keys is to be read.
    Scanning,
    /// An index set of the batch is being groomed.
    Grooming,
    /// Nothing is left to do.
    Finished,
}

/// One sweep over all index sets, or over those of one namespace, as a state
/// machine.
#[derive(Debug)]
pub struct PeriodicGroom {
    /// The pattern that the keys of the index sets to look at match.
    pattern: String,
    /// The cursor to go on with.
    cursor: String,
    /// The keys of the index sets that the last scan found.
    batch: Vec<String>,
    /// How many keys of the batch have been taken up.
    taken: usize,
    stage: SweepStage,
    /// The grooming of the index set that was taken up last.
    groom: GroomIndex,
    failure: Option<EngineError>,
}

/// The mathematical value of a [`PeriodicGroom`].
pub struct PeriodicGroomView {
    pub pattern: Seq<char>,
    pub cursor: Seq<char>,
    pub batch: Seq<Seq<char>>,
    pub taken: nat,
    pub stage: SweepStage,
    pub groom: GroomIndexView,
    pub failure: Option<ErrorView>,
}

impl PeriodicGroomView {
    /// The sweep over all index sets, before its first command.
    pub open spec fn start() -> Self {
        Self::matching(all_indices())
    }

    /// The sweep over the index sets of `namespace`, before its first command.
    pub open spec fn within(namespace: Seq<char>) -> Self {
        Self::matching(index_pattern(namespace))
    }

    /// The sweep over the index sets whose keys match `pattern`, before its
    /// first command.
    pub open spec fn matching(pattern: Seq<char>) -> Self {
        PeriodicGroomView {
            pattern,
            cursor: INITIAL_CURSOR@,
            batch: Seq::empty(),
            taken: 0,
            stage: SweepStage::Scanning,
            groom: GroomIndexView::start(Seq::empty(), Seq::empty()),
            failure: None,
        }
    }

    /// The sweep, ended by an error.
    pub open spec fn failed(self, error: ErrorView) -> Self {
        PeriodicGroomView { stage: SweepStage::Finished, failure: Some(error), ..self }
    }

    /// The sweep, gone on to the next key of the batch. Where the batch is
    /// used up, the next batch is to be read, unless the cursor has come back
    /// to where it began: then the sweep has ended. A key that is not the key
    /// of an index set ends the sweep with an error: the store was asked for
    /// such keys only.
    pub open spec fn proceed(self) -> Self {
        if self.taken < self.batch.len() {
            let index = self.batch[self.taken as int];
            match namespace_of_index(index) {
                Some(namespace) => PeriodicGroomView {
                    taken: self.taken + 1,
                    stage: SweepStage::Grooming,
                    groom: GroomIndexView::start(namespace, index),
                    ..self
                },
                None => self.failed(ErrorView::BadScan),
            }
        } else if self.cursor == INITIAL_CURSOR@ {
            PeriodicGroomView { stage: SweepStage::Finished, ..self }
        } else {
            PeriodicGroomView { stage: SweepStage::Scanning, ..self }
        }
    }

    /// The pending command belongs to the critical section of the command
    /// before it.
    pub open spec fn continues_section(self) -> bool {
        self.stage == SweepStage::Grooming && self.groom.continues_section()
    }
}

impl Machine for PeriodicGroomView {
    open spec fn pending(self) -> ActionView {
        match self.stage {
            SweepStage::Scanning => ActionView::Call(
                CommandView::Scan { cursor: self.cursor, pattern: self.pattern },
            ),
            SweepStage::Grooming => self.groom.pending(),
            SweepStage::Finished => ActionView::Done(
                match self.failure {
                    Some(error) => Err(error),
                    None => Ok(ok()),
                },
            ),
        }
    }

    open spec fn after(self, reply: ReplyView) -> Self {
        match self.stage {
            SweepStage::Scanning => match scan_in(reply) {
                Err(error) => self.failed(error),
                Ok((cursor, batch)) => PeriodicGroomView { cursor, batch, taken: 0, ..self }.proceed(),
            },
            SweepStage::Grooming => {
                let groom = self.groom.after(reply);
                let stepped = PeriodicGroomView { groom, ..self };
                if groom.stage != GroomStage::Finished {
                    stepped
                } else {
                    match groom.failure {
                        Some(error) => stepped.failed(error),
                        None => stepped.proceed(),
                    }
                }
            },
            SweepStage::Finished => self,
        }
    }
}

impl View for PeriodicGroom {
    type V = PeriodicGroomView;

    closed spec fn view(&self) -> PeriodicGroomView {
        PeriodicGroomView {
            pattern: self.pattern@,
            cursor: self.cursor@,
            batch: self.batch.deep_view(),
            taken: self.taken as nat,
            stage: self.stage,
            groom: self.groom@,
            failure: match self.failure {
                Some(error) => Some(error@),
                None => None,
            },
        }
    }
}

impl PeriodicGroom {
    /// A sweep over all index sets, before its first command.
    pub fn new() -> (op: Self)
        ensures
            op@ == PeriodicGroomView::start(),
    {
        proof {
            reveal_strlit("idx_*");
            assert("idx_*"@ =~= all_indices());
        }
        Self::matching(String::from_str(ALL_INDICES))
    }

    /// A sweep over the index sets of `namespace`, before its first command.
    pub fn within(namespace: &str) -> (op: Self)
        ensures
            op@ == PeriodicGroomView::within(namespace@),
    {
        Self::matching(pattern_of(namespace))
    }

    /// A sweep over the index sets whose keys match `pattern`.
    fn matching(pattern: String) -> (op: Self)
        ensures
            op@ == PeriodicGroomView::matching(pattern@),
    {
        let op = PeriodicGroom {
            pattern,
            cursor: String::from_str(INITIAL_CURSOR),
            batch: Vec::new(),
            taken: 0,
            stage: SweepStage::Scanning,
            groom: GroomIndex::new(String::new(), String::new()),
            failure: None,
        };
        assert(op.batch.deep_view() =~= Seq::empty());
        op
    }

    /// Whether the pending command belongs to the critical section of the
    /// command before it.
    pub fn continues_section(&self) -> (continues: bool)
        ensures
            continues == self@.continues_section(),
    {
        self.stage == SweepStage::Grooming && self.groom.continues_section()
    }

    /// What the sweep waits for.
    pub fn action(&self) -> (action: Action)
        ensures
            action@ == self@.pending(),
    {
        match self.stage {
            SweepStage::Scanning => Action::Call(
                Command::Scan { cursor: self.cursor.clone(), pattern: self.pattern.clone() },
            ),
            SweepStage::Grooming => self.groom.action(),
            SweepStage::Finished => match &self.failure {
                Some(error) => Action::Done(Err(error.clone())),
                None => Action::Done(Ok(ok_reply())),
            },
        }
    }

    /// Goes on to the next key of the batch, to the next batch, or to the end.
    fn proceed(&mut self)
        ensures
            final(self)@ == old(self)@.proceed(),
    {
        proof {
            assert(self.batch.deep_view().len() == self.batch.len());
        }
        if self.taken < self.batch.len() {
            let index = &self.batch[self.taken];
            match index_namespace(index.as_str()) {
                Some(namespace) => {
                    self.groom = GroomIndex::new(namespace, index.clone());
                    self.taken = self.taken + 1;
                    self.stage = SweepStage::Grooming;
                },
                None => {
                    self.stage = SweepStage::Finished;
                    self.failure = Some(EngineError::BadScan);
                },
            }
        } else if self.cursor == String::from_str(INITIAL_CURSOR) {
            self.stage = SweepStage::Finished;
        } else {
            self.stage = SweepStage::Scanning;
        }
    }

    /// Takes the reply to the pending command, moves on, and says what the
    /// sweep waits for next.
    pub fn perform(&mut self, reply: &Reply) -> (action: Action)
        ensures
            final(self)@ == old(self)@.after(reply@),
            action@ == final(self)@.pending(),
    {
        match self.stage {
            SweepStage::Scanning => match expect_scan(reply) {
                Err(error) => {
                    self.stage = SweepStage::Finished;
                    self.failure = Some(error);
                },
                Ok((cursor, batch)) => {
                    self.cursor = cursor;
                    self.batch = batch;
                    self.taken = 0;
                    self.proceed();
                },
            },
            SweepStage::Grooming => {
                let _ = self.groom.perform(reply);
                if self.groom.finished() {
                    match self.groom.failure() {
                        Some(error) => {
                            self.stage = SweepStage::Finished;
                            self.failure = Some(error);
                        },
                        None => self.proceed(),
                    }
                }
            },
            SweepStage::Finished => {},
        }
        self.action()
    }
}

} // verus!
