//! What the store answers, held as plain values, and what the engine reads
//! out of it.
use crate::error::{EngineError, ErrorView};
use vstd::prelude::*;

verus! {

/// A reply of the store to one command.
#[derive(Debug, PartialEq, Eq)]
pub enum Reply {
    /// A status line, such as `OK`.
    Status(String),
    /// A string value.
    Bulk(String),
    /// An integer.
    Integer(i64),
    /// A list of replies.
    Array(Vec<Reply>),
    /// The absence of a value.
    Nil,
    /// The store refused or failed the command; the text is its message.
    Error(String),
    /// A reply of a shape that the engine has no use for.
    Other,
}

/// The mathematical value of a [`Reply`].
pub enum ReplyView {
    Status(Seq<char>),
    Bulk(Seq<char>),
    Integer(i64),
    Array(Seq<ReplyView>),
    Nil,
    Error(Seq<char>),
    Other,
}

/// The value of a reply, with the value of each reply inside it.
pub open spec fn value_of(reply: Reply) -> ReplyView
    decreases reply,
{
    match reply {
        Reply::Status(text) => ReplyView::Status(text@),
        Reply::Bulk(text) => ReplyView::Bulk(text@),
        Reply::Integer(n) => ReplyView::Integer(n),
        Reply::Array(items) => ReplyView::Array(
            Seq::new(
                items@.len(),
                |i: int|
                    if 0 <= i < items@.len() {
                        value_of(items@[i])
                    } else {
                        ReplyView::Nil
                    },
            ),
        ),
        Reply::Nil => ReplyView::Nil,
        Reply::Error(text) => ReplyView::Error(text@),
        Reply::Other => ReplyView::Other,
    }
}

impl View for Reply {
    type V = ReplyView;

    open spec fn view(&self) -> ReplyView {
        value_of(*self)
    }
}

/// The views of a list of replies, one by one.
pub open spec fn views(items: Seq<Reply>) -> Seq<ReplyView> {
    Seq::new(items.len(), |i: int| items[i]@)
}

/// The view of an array is the array of the views.
pub proof fn array_view(items: Vec<Reply>)
    ensures
        Reply::Array(items)@ == ReplyView::Array(views(items@)),
{
    assert(Reply::Array(items)@->Array_0 =~= views(items@));
}

impl Clone for Reply {
    fn clone(&self) -> (copy: Self)
        ensures
            copy@ == self@,
        decreases self,
    {
        match self {
            Reply::Status(text) => Reply::Status(text.clone()),
            Reply::Bulk(text) => Reply::Bulk(text.clone()),
            Reply::Integer(n) => Reply::Integer(*n),
            Reply::Array(items) => {
                let mut copies: Vec<Reply> = Vec::new();
                let mut i: usize = 0;
                while i < items.len()
                    invariant
                        *self == Reply::Array(*items),
                        i <= items.len(),
                        copies.len() == i,
                        forall|j: int| 0 <= j < i ==> copies[j]@ == items[j]@,
                    decreases items.len() - i,
                {
                    proof {
                        vstd::std_specs::vec::axiom_vec_index_decreases(*items, i as int);
                        assert(decreases_to!(*self => self->Array_0));
                    }
                    copies.push(items[i].clone());
                    i += 1;
                }
                proof {
                    array_view(copies);
                    array_view(*items);
                    assert(views(copies@) =~= views(items@));
                }
                Reply::Array(copies)
            },
            Reply::Nil => Reply::Nil,
            Reply::Error(text) => Reply::Error(text.clone()),
            Reply::Other => Reply::Other,
        }
    }
}

/// The text of a reply that is a string, status line or value.
pub open spec fn text_of(reply: ReplyView) -> Option<Seq<char>> {
    match reply {
        ReplyView::Status(text) => Some(text),
        ReplyView::Bulk(text) => Some(text),
        _ => None,
    }
}

/// The texts of those replies of a list that are strings, in their order.
pub open spec fn texts_of(items: Seq<ReplyView>) -> Seq<Seq<char>> {
    items.filter_map(|item: ReplyView| text_of(item))
}

/// The text of a reply that is a string.
pub fn is_string(v: &Reply) -> (text: Option<String>)
    ensures
        match text {
            Some(s) => text_of(v@) == Some(s@),
            None => text_of(v@) is None,
        },
{
    match v {
        Reply::Status(s) => Some(s.clone()),
        Reply::Bulk(s) => Some(s.clone()),
        _ => None,
    }
}

/// The strings among a list of replies, in their order; what is no string is
/// left out.
pub fn extract_strings(values: &Vec<Reply>) -> (texts: Vec<String>)
    ensures
        texts.deep_view() == texts_of(views(values@)),
{
    let mut texts: Vec<String> = Vec::new();
    let mut i: usize = 0;
    while i < values.len()
        invariant
            i <= values.len(),
            texts.deep_view() == texts_of(views(values@).take(i as int)),
        decreases values.len() - i,
    {
        proof {
            views(values@).lemma_filter_map_take_succ(|item: ReplyView| text_of(item), i as int);
        }
        let ghost before = texts.deep_view();
        match is_string(&values[i]) {
            Some(s) => {
                texts.push(s);
                assert(texts.deep_view() =~= before + seq![values[i as int]@->Status_0]
                    || texts.deep_view() =~= before + seq![values[i as int]@->Bulk_0]);
            },
            None => {
                assert(texts.deep_view() =~= before);
            },
        }
        i += 1;
    }
    proof {
        assert(views(values@).take(values.len() as int) =~= views(values@));
    }
    texts
}

/// What a reply to a command that answers with an integer holds.
pub open spec fn integer_in(reply: ReplyView) -> Result<i64, ErrorView> {
    match reply {
        ReplyView::Error(message) => Err(ErrorView::Store(message)),
        ReplyView::Integer(n) => Ok(n),
        _ => Err(ErrorView::NotAnInteger),
    }
}

/// What a reply to a command that answers with a list of strings holds.
pub open spec fn strings_in(reply: ReplyView) -> Result<Seq<Seq<char>>, ErrorView> {
    match reply {
        ReplyView::Error(message) => Err(ErrorView::Store(message)),
        ReplyView::Array(items) => Ok(texts_of(items)),
        _ => Err(ErrorView::NotAList),
    }
}

/// Reads the reply to a command that answers with an integer.
pub fn expect_integer(reply: &Reply) -> (number: Result<i64, EngineError>)
    ensures
        match number {
            Ok(n) => integer_in(reply@) == Ok::<i64, ErrorView>(n),
            Err(error) => integer_in(reply@) == Err::<i64, ErrorView>(error@),
        },
{
    match reply {
        Reply::Error(message) => Err(EngineError::Store(message.clone())),
        Reply::Integer(n) => Ok(*n),
        _ => Err(EngineError::NotAnInteger),
    }
}

/// Reads the reply to a command that answers with a list of strings.
pub fn expect_strings(reply: &Reply) -> (texts: Result<Vec<String>, EngineError>)
    ensures
        match texts {
            Ok(list) => strings_in(reply@) == Ok::<Seq<Seq<char>>, ErrorView>(list.deep_view()),
            Err(error) => strings_in(reply@) == Err::<Seq<Seq<char>>, ErrorView>(error@),
        },
{
    match reply {
        Reply::Error(message) => Err(EngineError::Store(message.clone())),
        Reply::Array(items) => {
            proof {
                array_view(*items);
            }
            Ok(extract_strings(items))
        },
        _ => Err(EngineError::NotAList),
    }
}

/// The items of a list that stand for something: the absences of a value are
/// left out.
pub open spec fn present(items: Seq<ReplyView>) -> Seq<ReplyView> {
    items.filter(|item: ReplyView| !(item is Nil))
}

/// Of an empty list nothing is left, and of a list of one item that item,
/// unless it is the absence of a value.
pub proof fn present_of_few(item: ReplyView)
    ensures
        present(Seq::empty()) == Seq::<ReplyView>::empty(),
        !(item is Nil) ==> present(seq![item]) == seq![item],
        item is Nil ==> present(seq![item]) == Seq::<ReplyView>::empty(),
{
    reveal_with_fuel(Seq::filter, 2);
    let none = Seq::<ReplyView>::empty();
    assert(present(none) =~= none);
    assert(seq![item].drop_last() =~= none);
    if item is Nil {
        assert(present(seq![item]) =~= none);
    } else {
        assert(present(seq![item]) =~= seq![item]);
    }
}

/// What a reply to a read of several strings holds: the values that are
/// there, in their order.
pub open spec fn values_in(reply: ReplyView) -> Result<ReplyView, ErrorView> {
    match reply {
        ReplyView::Error(message) => Err(ErrorView::Store(message)),
        ReplyView::Array(items) => Ok(ReplyView::Array(present(items))),
        _ => Err(ErrorView::NotAList),
    }
}

/// Reads the reply to a read of several strings: a list of what is there,
/// without the absences.
pub fn expect_values(reply: &Reply) -> (values: Result<Reply, EngineError>)
    ensures
        match values {
            Ok(list) => values_in(reply@) == Ok::<ReplyView, ErrorView>(list@),
            Err(error) => values_in(reply@) == Err::<ReplyView, ErrorView>(error@),
        },
{
    match reply {
        Reply::Error(message) => Err(EngineError::Store(message.clone())),
        Reply::Array(items) => {
            let mut kept: Vec<Reply> = Vec::new();
            let mut i: usize = 0;
            while i < items.len()
                invariant
                    i <= items.len(),
                    views(kept@) == present(views(items@).take(i as int)),
                decreases items.len() - i,
            {
                let ghost before = views(kept@);
                proof {
                    let so_far = views(items@).take(i as int);
                    so_far.lemma_filter_push(items[i as int]@, |item: ReplyView| !(item is Nil));
                    assert(views(items@).take(i + 1) =~= so_far.push(items[i as int]@));
                }
                match &items[i] {
                    Reply::Nil => {},
                    item => {
                        kept.push(item.clone());
                        assert(views(kept@) =~= before.push(items[i as int]@));
                    },
                }
                i += 1;
            }
            proof {
                assert(views(items@).take(items.len() as int) =~= views(items@));
                array_view(*items);
                array_view(kept);
            }
            Ok(Reply::Array(kept))
        },
        _ => Err(EngineError::NotAList),
    }
}

/// What a reply to a scan holds: the cursor to go on with, and the keys that
/// were found. The reply is a list whose first item is the cursor, a string,
/// and whose second item is the list of keys.
pub open spec fn scan_in(reply: ReplyView) -> Result<(Seq<char>, Seq<Seq<char>>), ErrorView> {
    match reply {
        ReplyView::Error(message) => Err(ErrorView::Store(message)),
        ReplyView::Array(items) => if items.len() >= 2 && text_of(items[0]) is Some
            && items[1] is Array {
            Ok((text_of(items[0])->0, texts_of(items[1]->Array_0)))
        } else {
            Err(ErrorView::BadScan)
        },
        _ => Err(ErrorView::BadScan),
    }
}

/// Reads the reply to a scan.
pub fn expect_scan(reply: &Reply) -> (found: Result<(String, Vec<String>), EngineError>)
    ensures
        match found {
            Ok((cursor, keys)) => scan_in(reply@) == Ok::<(Seq<char>, Seq<Seq<char>>), ErrorView>(
                (cursor@, keys.deep_view()),
            ),
            Err(error) => scan_in(reply@) == Err::<(Seq<char>, Seq<Seq<char>>), ErrorView>(
                error@,
            ),
        },
{
    match reply {
        Reply::Error(message) => Err(EngineError::Store(message.clone())),
        Reply::Array(items) => {
            proof {
                array_view(*items);
            }
            if items.len() < 2 {
                return Err(EngineError::BadScan);
            }
            match (is_string(&items[0]), &items[1]) {
                (Some(cursor), Reply::Array(keys)) => {
                    proof {
                        array_view(*keys);
                    }
                    Ok((cursor, extract_strings(keys)))
                },
                _ => Err(EngineError::BadScan),
            }
        },
        _ => Err(EngineError::BadScan),
    }
}

/// The count `n` as the store's integer: the largest integer where `n` is
/// larger than that.
pub open spec fn count_of(n: nat) -> i64 {
    if n <= i64::MAX {
        n as i64
    } else {
        i64::MAX
    }
}

/// The reply that says how many keys were handled.
pub fn count_reply(n: usize) -> (reply: Reply)
    ensures
        reply@ == ReplyView::Integer(count_of(n as nat)),
{
    let wide: u64 = n as u64;
    if wide <= 9223372036854775807 {
        Reply::Integer(wide as i64)
    } else {
        Reply::Integer(9223372036854775807)
    }
}

/// The reply that is an empty list.
pub fn empty_reply() -> (reply: Reply)
    ensures
        reply@ == ReplyView::Array(Seq::empty()),
{
    let items: Vec<Reply> = Vec::new();
    proof {
        array_view(items);
        assert(views(items@) =~= Seq::empty());
    }
    Reply::Array(items)
}

} // verus!
