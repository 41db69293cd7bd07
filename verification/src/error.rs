//! Why an operation did not succeed.
use vstd::prelude::*;

verus! {

/// The failure of an operation.
///
/// The first three are validation errors: they are found before the first
/// command is sent. The next three say that the store answered in a shape
/// that the command sent does not have. The last carries the store's own
/// refusal.
#[derive(Debug, PartialEq, Eq)]
pub enum EngineError {
    /// The call has too few arguments, or its rows do not have the length that
    /// the number of indices asks for.
    WrongArity,
    /// The number of indices or the expiry is no number in the store's form.
    NotANumber,
    /// Two index names of one call are the same.
    DuplicateIndex,
    /// The store answered something else than an integer.
    NotAnInteger,
    /// The store answered something else than a list.
    NotAList,
    /// The answer to a scan is no pair of a cursor and a list of keys.
    BadScan,
    /// The store answered with an error; the text is its message.
    Store(String),
}

/// The mathematical value of an [`EngineError`].
pub enum ErrorView {
    WrongArity,
    NotANumber,
    DuplicateIndex,
    NotAnInteger,
    NotAList,
    BadScan,
    Store(Seq<char>),
}

impl View for EngineError {
    type V = ErrorView;

    open spec fn view(&self) -> ErrorView {
        match self {
            EngineError::WrongArity => ErrorView::WrongArity,
            EngineError::NotANumber => ErrorView::NotANumber,
            EngineError::DuplicateIndex => ErrorView::DuplicateIndex,
            EngineError::NotAnInteger => ErrorView::NotAnInteger,
            EngineError::NotAList => ErrorView::NotAList,
            EngineError::BadScan => ErrorView::BadScan,
            EngineError::Store(text) => ErrorView::Store(text@),
        }
    }
}

impl ErrorView {
    /// The message that the caller is shown.
    pub open spec fn text(self) -> Seq<char> {
        match self {
            ErrorView::WrongArity => "Wrong Arity"@,
            ErrorView::NotANumber => "Couldn't parse as integer"@,
            ErrorView::DuplicateIndex => "ERR index names must be unique!"@,
            ErrorView::NotAnInteger => "command returned non-integer response!"@,
            ErrorView::NotAList => "command didn't return a list of strings!"@,
            ErrorView::BadScan => "SCAN did not return a 2 element array!"@,
            ErrorView::Store(text) => text,
        }
    }

    /// The error was found before anything was sent to the store.
    pub open spec fn is_validation(self) -> bool {
        self is WrongArity || self is NotANumber || self is DuplicateIndex
    }
}

impl Clone for EngineError {
    fn clone(&self) -> (copy: Self)
        ensures
            copy@ == self@,
    {
        match self {
            EngineError::WrongArity => EngineError::WrongArity,
            EngineError::NotANumber => EngineError::NotANumber,
            EngineError::DuplicateIndex => EngineError::DuplicateIndex,
            EngineError::NotAnInteger => EngineError::NotAnInteger,
            EngineError::NotAList => EngineError::NotAList,
            EngineError::BadScan => EngineError::BadScan,
            EngineError::Store(text) => EngineError::Store(text.clone()),
        }
    }
}

impl EngineError {
    /// The message that the caller is shown.
    pub fn message(&self) -> (text: String)
        ensures
            text@ == self@.text(),
    {
        match self {
            EngineError::WrongArity => String::from_str("Wrong Arity"),
            EngineError::NotANumber => String::from_str("Couldn't parse as integer"),
            EngineError::DuplicateIndex => String::from_str("ERR index names must be unique!"),
            EngineError::NotAnInteger => String::from_str("command returned non-integer response!"),
            EngineError::NotAList => String::from_str("command didn't return a list of strings!"),
            EngineError::BadScan => String::from_str("SCAN did not return a 2 element array!"),
            EngineError::Store(text) => text.clone(),
        }
    }
}

} // verus!
