//! Removal by index: the clean operation on every key that an index set
//! holds. The answer is the number of keys: zero where the set holds none.
use crate::action::{copy_outcome, outcome_view, Action, ActionView, Machine};
use crate::command::{Command, CommandView};
use crate::error::{EngineError, ErrorView};
use crate::layout::{index_key, prefixed_idx};
use crate::rem::{Remove, RemoveView};
use crate::reply::{expect_strings, strings_in, Reply, ReplyView};
use vstd::prelude::*;

verus! {

/// The removal of the keys of one index set, as a state machine.
#[derive(Debug)]
pub struct RemoveByIndex {
    namespace: String,
    idx: String,
    idx_val: String,
    /// The members of the index set have not been read yet.
    reading: bool,
    /// The removal of the members, once they have been read.
    removal: Remove,
    /// The result, where the members could not be read.
    outcome: Option<Result<Reply, EngineError>>,
}

/// The mathematical value of a [`RemoveByIndex`].
pub struct RemoveByIndexView {
    pub namespace: Seq<char>,
    pub idx: Seq<char>,
    pub idx_val: Seq<char>,
    pub reading: bool,
    pub removal: RemoveView,
    pub outcome: Option<Result<ReplyView, ErrorView>>,
}

impl RemoveByIndexView {
    /// The removal before its first command.
    pub open spec fn start(namespace: Seq<char>, idx: Seq<char>, idx_val: Seq<char>) -> Self {
        RemoveByIndexView {
            namespace,
            idx,
            idx_val,
            reading: true,
            removal: RemoveView::start(namespace, Seq::empty()),
            outcome: None,
        }
    }

    /// What a call asks for, or why it is refused. The first word is the
    /// command's own name; then come the namespace, the index name and the
    /// index value.
    pub open spec fn validated(args: Seq<Seq<char>>) -> Result<Self, ErrorView> {
        if args.len() < 4 {
            Err(ErrorView::WrongArity)
        } else {
            Ok(Self::start(args[1], args[2], args[3]))
        }
    }

    /// The removal, ended because the members could not be read.
    pub open spec fn ended(self, outcome: Result<ReplyView, ErrorView>) -> Self {
        RemoveByIndexView { reading: false, outcome: Some(outcome), ..self }
    }
}

impl Machine for RemoveByIndexView {
    open spec fn pending(self) -> ActionView {
        if self.reading {
            ActionView::Call(
                CommandView::SMembers { key: index_key(self.namespace, self.idx, self.idx_val) },
            )
        } else {
            match self.outcome {
                Some(outcome) => ActionView::Done(outcome),
                None => self.removal.pending(),
            }
        }
    }

    open spec fn after(self, reply: ReplyView) -> Self {
        if self.reading {
            match strings_in(reply) {
                Err(error) => self.ended(Err(error)),
                Ok(keys) => RemoveByIndexView {
                    reading: false,
                    removal: RemoveView::start(self.namespace, keys),
                    ..self
                },
            }
        } else if self.outcome is Some {
            self
        } else {
            RemoveByIndexView { removal: self.removal.after(reply), ..self }
        }
    }
}

impl View for RemoveByIndex {
    type V = RemoveByIndexView;

    closed spec fn view(&self) -> RemoveByIndexView {
        RemoveByIndexView {
            namespace: self.namespace@,
            idx: self.idx@,
            idx_val: self.idx_val@,
            reading: self.reading,
            removal: self.removal@,
            outcome: match self.outcome {
                Some(outcome) => Some(outcome_view(outcome)),
                None => None,
            },
        }
    }
}

impl RemoveByIndex {
    /// Reads a call. The first word is the command's own name; then come the
    /// namespace, the index name and the index value. A call with fewer words
    /// is refused.
    pub fn from(args: Vec<String>) -> (call: Result<Self, EngineError>)
        ensures
            match call {
                Ok(op) => RemoveByIndexView::validated(args.deep_view()) == Ok::<
                    RemoveByIndexView,
                    ErrorView,
                >(op@),
                Err(error) => RemoveByIndexView::validated(args.deep_view()) == Err::<
                    RemoveByIndexView,
                    ErrorView,
                >(error@),
            },
            call matches Err(error) ==> error@.is_validation(),
    {
        if args.len() < 4 {
            return Err(EngineError::WrongArity);
        }
        let namespace = args[1].clone();
        let none: Vec<String> = Vec::new();
        assert(none.deep_view() =~= Seq::empty());
        let removal = Remove::new(namespace.clone(), none);
        Ok(
            RemoveByIndex {
                namespace,
                idx: args[2].clone(),
                idx_val: args[3].clone(),
                reading: true,
                removal,
                outcome: None,
            },
        )
    }

    /// What the removal waits for.
    pub fn action(&self) -> (action: Action)
        ensures
            action@ == self@.pending(),
    {
        if self.reading {
            Action::Call(
                Command::SMembers {
                    key: prefixed_idx(
                        self.namespace.as_str(),
                        self.idx.as_str(),
                        self.idx_val.as_str(),
                    ),
                },
            )
        } else {
            match &self.outcome {
                Some(outcome) => Action::Done(copy_outcome(outcome)),
                None => self.removal.action(),
            }
        }
    }

    /// Takes the reply to the pending command, moves on, and says what the
    /// removal waits for next.
    pub fn process(&mut self, reply: &Reply) -> (action: Action)
        ensures
            final(self)@ == old(self)@.after(reply@),
            action@ == final(self)@.pending(),
    {
        if self.reading {
            self.reading = false;
            match expect_strings(reply) {
                Err(error) => {
                    self.outcome = Some(Err(error));
                },
                Ok(keys) => {
                    self.removal = Remove::new(self.namespace.clone(), keys);
                },
            }
        } else if self.outcome.is_none() {
            let _ = self.removal.process(reply);
        }
        self.action()
    }
}

} // verus!
