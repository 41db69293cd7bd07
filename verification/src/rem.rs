//! Direct removal: the clean operation on each of a list of keys.
use crate::action::{Action, ActionView, Machine};
use crate::clean::{CleanKey, CleanKeyView, CleanStage};
use crate::error::{EngineError, ErrorView};
use crate::reply::{count_of, count_reply, Reply, ReplyView};
use crate::sequences::copy_range;
use vstd::prelude::*;

verus! {

/// The removal of a list of keys, as a state machine.
#[derive(Debug)]
pub struct Remove {
    namespace: String,
    keys: Vec<String>,
    /// The key that is being cleaned.
    at: usize,
    /// The clean operation for that key.
    clean: CleanKey,
    failure: Option<EngineError>,
}

/// The mathematical value of a [`Remove`].
pub struct RemoveView {
    pub namespace: Seq<char>,
    pub keys: Seq<Seq<char>>,
    pub at: nat,
    pub clean: CleanKeyView,
    pub failure: Option<ErrorView>,
}

impl RemoveView {
    /// The removal before its first command.
    pub open spec fn start(namespace: Seq<char>, keys: Seq<Seq<char>>) -> Self {
        RemoveView {
            namespace,
            keys,
            at: 0,
            clean: CleanKeyView::start(
                namespace,
                if keys.len() > 0 {
                    keys[0]
                } else {
                    Seq::empty()
                },
            ),
            failure: None,
        }
    }

    /// What a call asks for, or why it is refused. The first word is the
    /// command's own name; then come the namespace and the keys.
    pub open spec fn validated(args: Seq<Seq<char>>) -> Result<Self, ErrorView> {
        if args.len() < 2 {
            Err(ErrorView::WrongArity)
        } else {
            Ok(Self::start(args[1], args.skip(2)))
        }
    }

    /// The removal has ended.
    pub open spec fn finished(self) -> bool {
        self.failure is Some || self.at >= self.keys.len()
    }
}

impl Machine for RemoveView {
    open spec fn pending(self) -> ActionView {
        match self.failure {
            Some(error) => ActionView::Done(Err(error)),
            None => if self.at >= self.keys.len() {
                ActionView::Done(Ok(ReplyView::Integer(count_of(self.keys.len()))))
            } else {
                self.clean.pending()
            },
        }
    }

    open spec fn after(self, reply: ReplyView) -> Self {
        if self.finished() {
            self
        } else {
            let clean = self.clean.after(reply);
            if clean.stage != CleanStage::Finished {
                RemoveView { clean, ..self }
            } else if clean.failure is Some {
                RemoveView { clean, failure: clean.failure, ..self }
            } else if self.at + 1 < self.keys.len() {
                RemoveView {
                    at: self.at + 1,
                    clean: CleanKeyView::start(self.namespace, self.keys[self.at as int + 1]),
                    ..self
                }
            } else {
                RemoveView { at: self.at + 1, clean, ..self }
            }
        }
    }
}

impl View for Remove {
    type V = RemoveView;

    closed spec fn view(&self) -> RemoveView {
        RemoveView {
            namespace: self.namespace@,
            keys: self.keys.deep_view(),
            at: self.at as nat,
            clean: self.clean@,
            failure: match self.failure {
                Some(error) => Some(error@),
                None => None,
            },
        }
    }
}

impl Remove {
    /// The removal of `keys` from `namespace`, before its first command.
    pub fn new(namespace: String, keys: Vec<String>) -> (op: Self)
        ensures
            op@ == RemoveView::start(namespace@, keys.deep_view()),
    {
        let first = if keys.len() > 0 {
            keys[0].clone()
        } else {
            String::new()
        };
        let clean = CleanKey::new(namespace.clone(), first);
        Remove { namespace, keys, at: 0, clean, failure: None }
    }

    /// Reads a call. The first word is the command's own name; then come the
    /// namespace and the keys to remove. A call without a namespace is
    /// refused.
    pub fn from(args: Vec<String>) -> (call: Result<Self, EngineError>)
        ensures
            match call {
                Ok(op) => RemoveView::validated(args.deep_view()) == Ok::<RemoveView, ErrorView>(
                    op@,
                ),
                Err(error) => RemoveView::validated(args.deep_view()) == Err::<
                    RemoveView,
                    ErrorView,
                >(error@),
            },
            call matches Err(error) ==> error@.is_validation(),
    {
        if args.len() < 2 {
            return Err(EngineError::WrongArity);
        }
        let keys = copy_range(&args, 2, args.len());
        assert(args.deep_view().skip(2) =~= args.deep_view().subrange(2, args.len() as int));
        Ok(Remove::new(args[1].clone(), keys))
    }

    /// What the removal waits for.
    pub fn action(&self) -> (action: Action)
        ensures
            action@ == self@.pending(),
    {
        match &self.failure {
            Some(error) => Action::Done(Err(error.clone())),
            None => {
                if self.at >= self.keys.len() {
                    Action::Done(Ok(count_reply(self.keys.len())))
                } else {
                    self.clean.action()
                }
            },
        }
    }

    /// Takes the reply to the pending command, moves on, and says what the
    /// removal waits for next.
    pub fn process(&mut self, reply: &Reply) -> (action: Action)
        ensures
            final(self)@ == old(self)@.after(reply@),
            action@ == final(self)@.pending(),
    {
        if self.failure.is_none() && self.at < self.keys.len() {
            self.clean.process(reply);
            if self.clean.finished() {
                match self.clean.failure() {
                    Some(error) => {
                        self.failure = Some(error);
                    },
                    None => {
                        self.at = self.at + 1;
                        if self.at < self.keys.len() {
                            self.clean = CleanKey::new(
                                self.namespace.clone(),
                                self.keys[self.at].clone(),
                            );
                        }
                    },
                }
            }
        }
        self.action()
    }
}

} // verus!
