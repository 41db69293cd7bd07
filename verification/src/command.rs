//! What the engine asks of the store.
//!
//! The engine never touches the store. It names the command to send, the
//! caller sends it and hands the reply back. A [`Command`] says what is asked
//! in terms of the store's data; [`Command::words`] gives the words to send.
use crate::decimal::{decimal, digits_of};
use vstd::prelude::*;

verus! {

/// A command for the store.
#[derive(Debug, PartialEq, Eq)]
pub enum Command {
    /// `DEL key`: remove the entry, whatever it holds.
    Del { key: String },
    /// `EXISTS key`: is there an entry?
    Exists { key: String },
    /// `SETEX key seconds value`: write a string that expires.
    SetEx { key: String, seconds: String, value: String },
    /// `MGET key ...`: the strings under the keys.
    MGet { keys: Vec<String> },
    /// `SADD key member`: add a member to a set.
    SAdd { key: String, member: String },
    /// `SREM key member`: take a member out of a set.
    SRem { key: String, member: String },
    /// `SMEMBERS key`: the members of a set.
    SMembers { key: String },
    /// `SRANDMEMBER key count`: up to `count` members of a set, each once.
    SRandMember { key: String, count: u64 },
    /// `HMSET key field value ...`: write fields of a hash. `entries` holds
    /// fields and values in turn.
    HMSet { key: String, entries: Vec<String> },
    /// `HGETALL key`: the fields and values of a hash, in turn.
    HGetAll { key: String },
    /// `INCR key`: add one to a counter.
    Incr { key: String },
    /// `SET key value`: write a string that does not expire.
    Write { key: String, value: String },
    /// `SCAN cursor MATCH pattern`: some of the keys that match, and the
    /// cursor to go on with.
    Scan { cursor: String, pattern: String },
}

/// The mathematical value of a [`Command`].
pub enum CommandView {
    Del { key: Seq<char> },
    Exists { key: Seq<char> },
    SetEx { key: Seq<char>, seconds: Seq<char>, value: Seq<char> },
    MGet { keys: Seq<Seq<char>> },
    SAdd { key: Seq<char>, member: Seq<char> },
    SRem { key: Seq<char>, member: Seq<char> },
    SMembers { key: Seq<char> },
    SRandMember { key: Seq<char>, count: u64 },
    HMSet { key: Seq<char>, entries: Seq<Seq<char>> },
    HGetAll { key: Seq<char> },
    Incr { key: Seq<char> },
    Write { key: Seq<char>, value: Seq<char> },
    Scan { cursor: Seq<char>, pattern: Seq<char> },
}

impl View for Command {
    type V = CommandView;

    open spec fn view(&self) -> CommandView {
        match self {
            Command::Del { key } => CommandView::Del { key: key@ },
            Command::Exists { key } => CommandView::Exists { key: key@ },
            Command::SetEx { key, seconds, value } => CommandView::SetEx {
                key: key@,
                seconds: seconds@,
                value: value@,
            },
            Command::MGet { keys } => CommandView::MGet { keys: keys.deep_view() },
            Command::SAdd { key, member } => CommandView::SAdd { key: key@, member: member@ },
            Command::SRem { key, member } => CommandView::SRem { key: key@, member: member@ },
            Command::SMembers { key } => CommandView::SMembers { key: key@ },
            Command::SRandMember { key, count } => CommandView::SRandMember {
                key: key@,
                count: *count,
            },
            Command::HMSet { key, entries } => CommandView::HMSet {
                key: key@,
                entries: entries.deep_view(),
            },
            Command::HGetAll { key } => CommandView::HGetAll { key: key@ },
            Command::Incr { key } => CommandView::Incr { key: key@ },
            Command::Write { key, value } => CommandView::Write { key: key@, value: value@ },
            Command::Scan { cursor, pattern } => CommandView::Scan {
                cursor: cursor@,
                pattern: pattern@,
            },
        }
    }
}

impl CommandView {
    /// The words that are sent: the command's name, then its arguments.
    pub open spec fn words(self) -> Seq<Seq<char>> {
        match self {
            CommandView::Del { key } => seq!["DEL"@, key],
            CommandView::Exists { key } => seq!["EXISTS"@, key],
            CommandView::SetEx { key, seconds, value } => seq!["SETEX"@, key, seconds, value],
            CommandView::MGet { keys } => seq!["MGET"@] + keys,
            CommandView::SAdd { key, member } => seq!["SADD"@, key, member],
            CommandView::SRem { key, member } => seq!["SREM"@, key, member],
            CommandView::SMembers { key } => seq!["SMEMBERS"@, key],
            CommandView::SRandMember { key, count } => seq![
                "SRANDMEMBER"@,
                key,
                digits_of(count as nat),
            ],
            CommandView::HMSet { key, entries } => seq!["HMSET"@, key] + entries,
            CommandView::HGetAll { key } => seq!["HGETALL"@, key],
            CommandView::Incr { key } => seq!["INCR"@, key],
            CommandView::Write { key, value } => seq!["SET"@, key, value],
            CommandView::Scan { cursor, pattern } => seq!["SCAN"@, cursor, "MATCH"@, pattern],
        }
    }
}

/// A copy of a list of strings.
pub fn copy_strings(texts: &Vec<String>) -> (copy: Vec<String>)
    ensures
        copy.deep_view() == texts.deep_view(),
{
    let mut copy: Vec<String> = Vec::new();
    let mut i: usize = 0;
    while i < texts.len()
        invariant
            i <= texts.len(),
            copy.len() == i,
            forall|j: int| 0 <= j < i ==> copy[j]@ == texts[j]@,
        decreases texts.len() - i,
    {
        copy.push(texts[i].clone());
        i += 1;
    }
    assert(copy.deep_view() =~= texts.deep_view());
    copy
}

/// Adds copies of `more` to the end of `words`.
fn push_all(words: &mut Vec<String>, more: &Vec<String>)
    ensures
        final(words).deep_view() == old(words).deep_view() + more.deep_view(),
{
    let ghost before = words.deep_view();
    let mut i: usize = 0;
    while i < more.len()
        invariant
            i <= more.len(),
            words.deep_view() == before + more.deep_view().take(i as int),
        decreases more.len() - i,
    {
        let ghost so_far = words.deep_view();
        words.push(more[i].clone());
        assert(words.deep_view() =~= so_far.push(more[i as int]@));
        assert(more.deep_view().take(i + 1) =~= more.deep_view().take(i as int).push(
            more[i as int]@,
        ));
        i += 1;
    }
    assert(more.deep_view().take(more.len() as int) =~= more.deep_view());
}

/// A list of the given words.
fn words_of(name: &str, first: &String) -> (words: Vec<String>)
    ensures
        words.deep_view() == seq![name@, first@],
{
    let mut words: Vec<String> = Vec::new();
    words.push(String::from_str(name));
    words.push(first.clone());
    assert(words.deep_view() =~= seq![name@, first@]);
    words
}

/// Adds one word to the end of `words`.
fn push_word(words: &mut Vec<String>, word: String)
    ensures
        final(words).deep_view() == old(words).deep_view().push(word@),
{
    let ghost before = words.deep_view();
    words.push(word);
    assert(words.deep_view() =~= before.push(word@));
}

impl Clone for Command {
    fn clone(&self) -> (copy: Self)
        ensures
            copy@ == self@,
    {
        match self {
            Command::Del { key } => Command::Del { key: key.clone() },
            Command::Exists { key } => Command::Exists { key: key.clone() },
            Command::SetEx { key, seconds, value } => Command::SetEx {
                key: key.clone(),
                seconds: seconds.clone(),
                value: value.clone(),
            },
            Command::MGet { keys } => Command::MGet { keys: copy_strings(keys) },
            Command::SAdd { key, member } => Command::SAdd {
                key: key.clone(),
                member: member.clone(),
            },
            Command::SRem { key, member } => Command::SRem {
                key: key.clone(),
                member: member.clone(),
            },
            Command::SMembers { key } => Command::SMembers { key: key.clone() },
            Command::SRandMember { key, count } => Command::SRandMember {
                key: key.clone(),
                count: *count,
            },
            Command::HMSet { key, entries } => Command::HMSet {
                key: key.clone(),
                entries: copy_strings(entries),
            },
            Command::HGetAll { key } => Command::HGetAll { key: key.clone() },
            Command::Incr { key } => Command::Incr { key: key.clone() },
            Command::Write { key, value } => Command::Write { key: key.clone(), value: value.clone() },
            Command::Scan { cursor, pattern } => Command::Scan {
                cursor: cursor.clone(),
                pattern: pattern.clone(),
            },
        }
    }
}

impl Command {
    /// The words to send to the store: the command's name, then its arguments.
    pub fn words(&self) -> (words: Vec<String>)
        ensures
            words.deep_view() == self@.words(),
    {
        match self {
            Command::Del { key } => words_of("DEL", key),
            Command::Exists { key } => words_of("EXISTS", key),
            Command::SetEx { key, seconds, value } => {
                let mut words = words_of("SETEX", key);
                push_word(&mut words, seconds.clone());
                push_word(&mut words, value.clone());
                assert(words.deep_view() =~= self@.words());
                words
            },
            Command::MGet { keys } => {
                let mut words: Vec<String> = Vec::new();
                push_word(&mut words, String::from_str("MGET"));
                push_all(&mut words, keys);
                assert(words.deep_view() =~= self@.words());
                words
            },
            Command::SAdd { key, member } => {
                let mut words = words_of("SADD", key);
                push_word(&mut words, member.clone());
                assert(words.deep_view() =~= self@.words());
                words
            },
            Command::SRem { key, member } => {
                let mut words = words_of("SREM", key);
                push_word(&mut words, member.clone());
                assert(words.deep_view() =~= self@.words());
                words
            },
            Command::SMembers { key } => words_of("SMEMBERS", key),
            Command::SRandMember { key, count } => {
                let mut words = words_of("SRANDMEMBER", key);
                push_word(&mut words, decimal(*count));
                assert(words.deep_view() =~= self@.words());
                words
            },
            Command::HMSet { key, entries } => {
                let mut words = words_of("HMSET", key);
                push_all(&mut words, entries);
                assert(words.deep_view() =~= self@.words());
                words
            },
            Command::HGetAll { key } => words_of("HGETALL", key),
            Command::Incr { key } => words_of("INCR", key),
            Command::Write { key, value } => {
                let mut words = words_of("SET", key);
                push_word(&mut words, value.clone());
                assert(words.deep_view() =~= self@.words());
                words
            },
            Command::Scan { cursor, pattern } => {
                let mut words = words_of("SCAN", cursor);
                push_word(&mut words, String::from_str("MATCH"));
                push_word(&mut words, pattern.clone());
                assert(words.deep_view() =~= self@.words());
                words
            },
        }
    }
}

} // verus!
