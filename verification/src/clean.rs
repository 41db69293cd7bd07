//! The clean operation: remove every trace of one logical key.
//!
//! In this order: delete the primary entry; read the metadata; if there is
//! none, count that and stop; else take the key out of the index set of every
//! pair of the metadata, and delete the metadata. It is safe to run on a key
//! of which nothing is left.
use crate::action::{ok, ok_reply, Action, ActionView, Machine};
use crate::command::{Command, CommandView};
use crate::error::{EngineError, ErrorView};
use crate::layout::{index_key, meta_key, prefixed, prefixed_idx, prefixed_meta, primary_key};
use crate::reply::{array_view, extract_strings, texts_of, Reply, ReplyView};
use vstd::prelude::*;

verus! {

/// The counter of keys that were cleaned without metadata.
pub const META_MISSING: &'static str = "meta_missing";

/// Where a clean operation stands.
#[derive(Clone, Copy, Debug, PartialEq, Eq, Structural)]
pub enum CleanStage {
    /// The primary entry is to be deleted.
    DeletePrimary,
    /// The metadata is to be read.
    ReadMeta,
    /// The key is to be taken out of the index set of one pair.
    Unindex,
    /// The metadata is to be deleted.
    DeleteMeta,
    /// There was no metadata: that is to be counted.
    CountMissing,
    /// Nothing is left to do.
    Finished,
}

/// The clean operation on one key, as a state machine.
#[derive(Debug)]
pub struct CleanKey {
    namespace: String,
    key: String,
    stage: CleanStage,
    /// The metadata as it was read: names and values in turn.
    meta: Vec<String>,
    /// The pair whose index set is next.
    at: usize,
    failure: Option<EngineError>,
}

/// The mathematical value of a [`CleanKey`].
pub struct CleanKeyView {
    pub namespace: Seq<char>,
    pub key: Seq<char>,
    pub stage: CleanStage,
    pub meta: Seq<Seq<char>>,
    pub at: nat,
    pub failure: Option<ErrorView>,
}

impl CleanKeyView {
    /// The operation before its first command.
    pub open spec fn start(namespace: Seq<char>, key: Seq<char>) -> Self {
        CleanKeyView {
            namespace,
            key,
            stage: CleanStage::DeletePrimary,
            meta: Seq::empty(),
            at: 0,
            failure: None,
        }
    }

    /// The number of whole pairs in the metadata that was read. A name without
    /// a value at the end does not count.
    pub open spec fn pairs(self) -> nat {
        self.meta.len() / 2
    }

    /// While a pair is pending, there is such a pair.
    pub open spec fn well_formed(self) -> bool {
        self.stage == CleanStage::Unindex ==> self.at < self.pairs()
    }

    /// The operation at another stage.
    pub open spec fn at_stage(self, stage: CleanStage) -> Self {
        CleanKeyView { stage, ..self }
    }

    /// The operation, ended by an error.
    pub open spec fn failed(self, error: ErrorView) -> Self {
        CleanKeyView { stage: CleanStage::Finished, failure: Some(error), ..self }
    }

    /// The state that follows a reply which is no error.
    pub open spec fn advanced(self, reply: ReplyView) -> Self {
        match self.stage {
            CleanStage::ReadMeta => match reply {
                ReplyView::Array(items) => {
                    let meta = texts_of(items);
                    let read = CleanKeyView { meta, at: 0, ..self };
                    if meta.len() == 0 {
                        read.at_stage(CleanStage::CountMissing)
                    } else if meta.len() >= 2 {
                        read.at_stage(CleanStage::Unindex)
                    } else {
                        read.at_stage(CleanStage::DeleteMeta)
                    }
                },
                _ => self.failed(ErrorView::NotAList),
            },
            CleanStage::Finished => self,
            _ => if reply is Integer {
                match self.stage {
                    CleanStage::DeletePrimary => self.at_stage(CleanStage::ReadMeta),
                    CleanStage::Unindex => if self.at + 1 < self.pairs() {
                        CleanKeyView { at: self.at + 1, ..self }
                    } else {
                        self.at_stage(CleanStage::DeleteMeta)
                    },
                    _ => self.at_stage(CleanStage::Finished),
                }
            } else {
                self.failed(ErrorView::NotAnInteger)
            },
        }
    }
}

impl Machine for CleanKeyView {
    open spec fn pending(self) -> ActionView {
        match self.stage {
            CleanStage::DeletePrimary => ActionView::Call(
                CommandView::Del { key: primary_key(self.namespace, self.key) },
            ),
            CleanStage::ReadMeta => ActionView::Call(
                CommandView::HGetAll { key: meta_key(self.namespace, self.key) },
            ),
            CleanStage::Unindex => ActionView::Call(
                CommandView::SRem {
                    key: index_key(
                        self.namespace,
                        self.meta[2 * (self.at as int)],
                        self.meta[2 * (self.at as int) + 1],
                    ),
                    member: self.key,
                },
            ),
            CleanStage::DeleteMeta => ActionView::Call(
                CommandView::Del { key: meta_key(self.namespace, self.key) },
            ),
            CleanStage::CountMissing => ActionView::Call(CommandView::Incr { key: META_MISSING@ }),
            CleanStage::Finished => ActionView::Done(
                match self.failure {
                    Some(error) => Err(error),
                    None => Ok(ok()),
                },
            ),
        }
    }

    open spec fn after(self, reply: ReplyView) -> Self {
        if self.stage == CleanStage::Finished {
            self
        } else {
            match reply {
                ReplyView::Error(message) => self.failed(ErrorView::Store(message)),
                _ => self.advanced(reply),
            }
        }
    }
}

impl View for CleanKey {
    type V = CleanKeyView;

    closed spec fn view(&self) -> CleanKeyView {
        CleanKeyView {
            namespace: self.namespace@,
            key: self.key@,
            stage: self.stage,
            meta: self.meta.deep_view(),
            at: self.at as nat,
            failure: match self.failure {
                Some(error) => Some(error@),
                None => None,
            },
        }
    }
}

impl CleanKey {
    #[verifier::type_invariant]
    spec fn inv(self) -> bool {
        self@.well_formed()
    }

    /// The clean operation on `key` of `namespace`, before its first command.
    pub fn new(namespace: String, key: String) -> (op: Self)
        ensures
            op@ == CleanKeyView::start(namespace@, key@),
    {
        let op = CleanKey {
            namespace,
            key,
            stage: CleanStage::DeletePrimary,
            meta: Vec::new(),
            at: 0,
            failure: None,
        };
        assert(op.meta.deep_view() =~= Seq::empty());
        op
    }

    /// Whether the operation has ended.
    pub fn finished(&self) -> (ended: bool)
        ensures
            ended == (self@.stage == CleanStage::Finished),
    {
        self.stage == CleanStage::Finished
    }

    /// The error that ended the operation, if one did.
    pub fn failure(&self) -> (error: Option<EngineError>)
        ensures
            match error {
                Some(e) => self@.failure == Some(e@),
                None => self@.failure is None,
            },
    {
        match &self.failure {
            Some(e) => Some(e.clone()),
            None => None,
        }
    }

    /// What the operation waits for.
    pub fn action(&self) -> (action: Action)
        ensures
            action@ == self@.pending(),
    {
        proof {
            use_type_invariant(self);
            assert(self.meta.deep_view().len() == self.meta.len());
        }
        match self.stage {
            CleanStage::DeletePrimary => Action::Call(
                Command::Del { key: prefixed(self.namespace.as_str(), self.key.as_str()) },
            ),
            CleanStage::ReadMeta => Action::Call(
                Command::HGetAll { key: prefixed_meta(self.namespace.as_str(), self.key.as_str()) },
            ),
            CleanStage::Unindex => {
                let idx = &self.meta[2 * self.at];
                let idx_val = &self.meta[2 * self.at + 1];
                Action::Call(
                    Command::SRem {
                        key: prefixed_idx(self.namespace.as_str(), idx.as_str(), idx_val.as_str()),
                        member: self.key.clone(),
                    },
                )
            },
            CleanStage::DeleteMeta => Action::Call(
                Command::Del { key: prefixed_meta(self.namespace.as_str(), self.key.as_str()) },
            ),
            CleanStage::CountMissing => Action::Call(
                Command::Incr { key: String::from_str(META_MISSING) },
            ),
            CleanStage::Finished => match &self.failure {
                Some(error) => Action::Done(Err(error.clone())),
                None => Action::Done(Ok(ok_reply())),
            },
        }
    }

    /// Takes the reply to the pending command and moves on.
    pub fn process(&mut self, reply: &Reply)
        ensures
            final(self)@ == old(self)@.after(reply@),
    {
        proof {
            use_type_invariant(&*self);
            assert(self.meta.deep_view().len() == self.meta.len());
        }
        if self.stage == CleanStage::Finished {
            return ;
        }
        match reply {
            Reply::Error(message) => {
                self.stage = CleanStage::Finished;
                self.failure = Some(EngineError::Store(message.clone()));
            },
            Reply::Array(items) => {
                proof {
                    array_view(*items);
                }
                if self.stage == CleanStage::ReadMeta {
                    let meta = extract_strings(items);
                    let count = meta.len();
                    self.stage = if count == 0 {
                        CleanStage::CountMissing
                    } else {
                        CleanStage::DeleteMeta
                    };
                    self.meta = meta;
                    self.at = 0;
                    if count >= 2 {
                        self.stage = CleanStage::Unindex;
                    }
                } else {
                    self.stage = CleanStage::Finished;
                    self.failure = Some(EngineError::NotAnInteger);
                }
            },
            Reply::Integer(_) => {
                match self.stage {
                    CleanStage::ReadMeta => {
                        self.stage = CleanStage::Finished;
                        self.failure = Some(EngineError::NotAList);
                    },
                    CleanStage::DeletePrimary => {
                        self.stage = CleanStage::ReadMeta;
                    },
                    CleanStage::Unindex => {
                        if self.at + 1 < self.meta.len() / 2 {
                            self.at = self.at + 1;
                        } else {
                            self.stage = CleanStage::DeleteMeta;
                        }
                    },
                    _ => {
                        self.stage = CleanStage::Finished;
                    },
                }
            },
            _ => {
                let error = if self.stage == CleanStage::ReadMeta {
                    EngineError::NotAList
                } else {
                    EngineError::NotAnInteger
                };
                self.stage = CleanStage::Finished;
                self.failure = Some(error);
            },
        }
    }
}

} // verus!
