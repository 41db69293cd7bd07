//! Reading by index: the values of the keys that one index set holds. A key
//! of the set whose value is gone adds nothing to the answer.
use crate::action::{copy_outcome, outcome_view, Action, ActionView, Machine};
use crate::command::{Command, CommandView};
use crate::error::{EngineError, ErrorView};
use crate::layout::{index_key, prefixed, prefixed_idx, primary_key};
use crate::reply::{
    empty_reply, expect_strings, expect_values, strings_in, values_in, Reply, ReplyView,
};
use vstd::prelude::*;

verus! {

/// The physical keys of the primary entries of `keys` in `namespace`.
pub open spec fn primary_keys(namespace: Seq<char>, keys: Seq<Seq<char>>) -> Seq<Seq<char>> {
    keys.map_values(|key: Seq<char>| primary_key(namespace, key))
}

/// The physical keys of the primary entries of `keys` in `namespace`.
pub fn prefixed_all(namespace: &str, keys: &Vec<String>) -> (physical: Vec<String>)
    ensures
        physical.deep_view() == primary_keys(namespace@, keys.deep_view()),
{
    let mut physical: Vec<String> = Vec::new();
    let mut i: usize = 0;
    while i < keys.len()
        invariant
            i <= keys.len(),
            physical.len() == i,
            forall|j: int| 0 <= j < i ==> physical[j]@ == primary_key(namespace@, keys[j]@),
        decreases keys.len() - i,
    {
        physical.push(prefixed(namespace, keys[i].as_str()));
        i += 1;
    }
    assert(physical.deep_view() =~= primary_keys(namespace@, keys.deep_view()));
    physical
}

/// Where a read by index stands.
#[derive(Clone, Copy, Debug, PartialEq, Eq, Structural)]
pub enum GetStage {
    /// The members of the index set are to be read.
    ReadMembers,
    /// The values of the members are to be read.
    ReadValues,
    /// Nothing is left to do.
    Finished,
}

/// A read by index, as a state machine.
#[derive(Debug)]
pub struct Get {
    namespace: String,
    idx: String,
    idx_val: String,
    stage: GetStage,
    /// The members of the index set, as they were read.
    keys: Vec<String>,
    /// The result, once the read has ended.
    outcome: Result<Reply, EngineError>,
}

/// The mathematical value of a [`Get`].
pub struct GetView {
    pub namespace: Seq<char>,
    pub idx: Seq<char>,
    pub idx_val: Seq<char>,
    pub stage: GetStage,
    pub keys: Seq<Seq<char>>,
    pub outcome: Result<ReplyView, ErrorView>,
}

impl GetView {
    /// The read before its first command.
    pub open spec fn start(namespace: Seq<char>, idx: Seq<char>, idx_val: Seq<char>) -> Self {
        GetView {
            namespace,
            idx,
            idx_val,
            stage: GetStage::ReadMembers,
            keys: Seq::empty(),
            outcome: Ok(ReplyView::Nil),
        }
    }

    /// What a call asks for, or why it is refused. The first word is the
    /// command's own name; then come the namespace, the index name and the
    /// index value.
    pub open spec fn validated(args: Seq<Seq<char>>) -> Result<Self, ErrorView> {
        if args.len() < 4 {
            Err(ErrorView::WrongArity)
        } else {
            Ok(Self::start(args[1], args[2], args[3]))
        }
    }

    /// The read, ended with a result.
    pub open spec fn ended(self, outcome: Result<ReplyView, ErrorView>) -> Self {
        GetView { stage: GetStage::Finished, outcome, ..self }
    }
}

impl Machine for GetView {
    open spec fn pending(self) -> ActionView {
        match self.stage {
            GetStage::ReadMembers => ActionView::Call(
                CommandView::SMembers { key: index_key(self.namespace, self.idx, self.idx_val) },
            ),
            GetStage::ReadValues => ActionView::Call(
                CommandView::MGet { keys: primary_keys(self.namespace, self.keys) },
            ),
            GetStage::Finished => ActionView::Done(self.outcome),
        }
    }

    open spec fn after(self, reply: ReplyView) -> Self {
        match self.stage {
            GetStage::ReadMembers => match strings_in(reply) {
                Err(error) => self.ended(Err(error)),
                Ok(keys) => if keys.len() == 0 {
                    self.ended(Ok(ReplyView::Array(Seq::empty())))
                } else {
                    GetView { keys, stage: GetStage::ReadValues, ..self }
                },
            },
            GetStage::ReadValues => self.ended(values_in(reply)),
            GetStage::Finished => self,
        }
    }
}

impl View for Get {
    type V = GetView;

    closed spec fn view(&self) -> GetView {
        GetView {
            namespace: self.namespace@,
            idx: self.idx@,
            idx_val: self.idx_val@,
            stage: self.stage,
            keys: self.keys.deep_view(),
            outcome: outcome_view(self.outcome),
        }
    }
}

impl Get {
    /// Reads a call. The first word is the command's own name; then come the
    /// namespace, the index name and the index value. A call with fewer words
    /// is refused.
    pub fn from(args: Vec<String>) -> (call: Result<Self, EngineError>)
        ensures
            match call {
                Ok(op) => GetView::validated(args.deep_view()) == Ok::<GetView, ErrorView>(op@),
                Err(error) => GetView::validated(args.deep_view()) == Err::<GetView, ErrorView>(
                    error@,
                ),
            },
            call matches Err(error) ==> error@.is_validation(),
    {
        if args.len() < 4 {
            return Err(EngineError::WrongArity);
        }
        let op = Get {
            namespace: args[1].clone(),
            idx: args[2].clone(),
            idx_val: args[3].clone(),
            stage: GetStage::ReadMembers,
            keys: Vec::new(),
            outcome: Ok(Reply::Nil),
        };
        assert(op.keys.deep_view() =~= Seq::empty());
        Ok(op)
    }

    /// What the read waits for.
    pub fn action(&self) -> (action: Action)
        ensures
            action@ == self@.pending(),
    {
        match self.stage {
            GetStage::ReadMembers => Action::Call(
                Command::SMembers {
                    key: prefixed_idx(
                        self.namespace.as_str(),
                        self.idx.as_str(),
                        self.idx_val.as_str(),
                    ),
                },
            ),
            GetStage::ReadValues => Action::Call(
                Command::MGet { keys: prefixed_all(self.namespace.as_str(), &self.keys) },
            ),
            GetStage::Finished => Action::Done(copy_outcome(&self.outcome)),
        }
    }

    /// Takes the reply to the pending command, moves on, and says what the
    /// read waits for next.
    pub fn process(&mut self, reply: &Reply) -> (action: Action)
        ensures
            final(self)@ == old(self)@.after(reply@),
            action@ == final(self)@.pending(),
    {
        match self.stage {
            GetStage::ReadMembers => match expect_strings(reply) {
                Err(error) => {
                    self.outcome = Err(error);
                    self.stage = GetStage::Finished;
                },
                Ok(keys) => {
                    if keys.len() == 0 {
                        self.outcome = Ok(empty_reply());
                        self.stage = GetStage::Finished;
                    } else {
                        self.keys = keys;
                        self.stage = GetStage::ReadValues;
                    }
                },
            },
            GetStage::ReadValues => {
                self.outcome = expect_values(reply);
                self.stage = GetStage::Finished;
            },
            GetStage::Finished => {},
        }
        self.action()
    }
}

} // verus!
