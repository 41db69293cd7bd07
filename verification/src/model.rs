//! The store as the engine sees it: a mathematical model of the entries and
//! of what each command does to them.
//!
//! The model is what the laws of this library are stated over. It says what
//! an answer that is no error tells about the store, and what the command has
//! done when it was answered so. It never says that the store must answer:
//! the store may refuse any command with an error, and then it has done
//! nothing.
use crate::action::{ok, ActionView, Machine};
use crate::command::CommandView;
use crate::decimal::{digits_of, parsed, LARGEST};
use crate::layout::index_prefix;
use crate::reply::{scan_in, texts_of, ReplyView};
use vstd::prelude::*;

verus! {

/// What the store holds under one key.
pub enum Entry {
    /// A string.
    Text(Seq<char>),
    /// A hash: values by field.
    Hash(Map<Seq<char>, Seq<char>>),
    /// A set of strings.
    Members(Set<Seq<char>>),
}

/// The entries of the store, by physical key.
pub struct Keyspace {
    pub entries: Map<Seq<char>, Entry>,
}

/// The hash that `entries` writes into `hash`: fields and values in turn, a
/// later value for a field replacing an earlier one.
pub open spec fn written(hash: Map<Seq<char>, Seq<char>>, entries: Seq<Seq<char>>) -> Map<
    Seq<char>,
    Seq<char>,
>
    decreases entries.len(),
{
    if entries.len() < 2 {
        hash
    } else {
        written(hash.insert(entries[0], entries[1]), entries.skip(2))
    }
}

/// `texts` lists the members of `set`, each once.
pub open spec fn lists_set(texts: Seq<Seq<char>>, set: Set<Seq<char>>) -> bool {
    &&& texts.no_duplicates()
    &&& forall|member: Seq<char>| texts.contains(member) <==> set.contains(member)
}

/// `texts` is a sample of `set`: up to `count` of its members, each once, and
/// all of them where the set has no more than `count`.
pub open spec fn samples(texts: Seq<Seq<char>>, set: Set<Seq<char>>, count: int) -> bool {
    &&& texts.no_duplicates()
    &&& texts.len() <= count
    &&& forall|member: Seq<char>| texts.contains(member) ==> set.contains(member)
    &&& texts.len() < count || (set.finite() && set.len() <= count) ==> forall|member: Seq<char>|
        set.contains(member) ==> texts.contains(member)
}

/// `texts` lists the fields of `hash`, each once, and behind each its value.
pub open spec fn lists_hash(texts: Seq<Seq<char>>, hash: Map<Seq<char>, Seq<char>>) -> bool {
    &&& texts.len() % 2 == 0
    &&& forall|i: int|
        0 <= i < texts.len() / 2 ==> hash.dom().contains(#[trigger] texts[2 * i]) && hash[texts[2
            * i]] == texts[2 * i + 1]
    &&& forall|i: int, j: int|
        0 <= i < j < texts.len() / 2 ==> #[trigger] texts[2 * i] != #[trigger] texts[2 * j]
    &&& forall|field: Seq<char>|
        hash.dom().contains(field) ==> exists|i: int|
            0 <= i < texts.len() / 2 && #[trigger] texts[2 * i] == field
}

/// The entry is not an empty hash and not an empty set.
pub open spec fn occupied(entry: Entry) -> bool {
    match entry {
        Entry::Text(_) => true,
        Entry::Hash(hash) => exists|field: Seq<char>| hash.dom().contains(field),
        Entry::Members(set) => exists|member: Seq<char>| set.contains(member),
    }
}

/// The two stores hold the same under `key`.
pub open spec fn same_at(one: Keyspace, other: Keyspace, key: Seq<char>) -> bool {
    &&& one.holds(key) <==> other.holds(key)
    &&& one.holds(key) ==> one.entries[key] == other.entries[key]
}

impl Keyspace {
    /// There is an entry under `key`.
    pub open spec fn holds(self, key: Seq<char>) -> bool {
        self.entries.dom().contains(key)
    }

    /// There is no entry under `key`, or it is a set.
    pub open spec fn set_or_none(self, key: Seq<char>) -> bool {
        self.holds(key) ==> self.entries[key] is Members
    }

    /// There is no entry under `key`, or it is a hash.
    pub open spec fn hash_or_none(self, key: Seq<char>) -> bool {
        self.holds(key) ==> self.entries[key] is Hash
    }

    /// The members of the set under `key`: none where there is no set.
    pub open spec fn members(self, key: Seq<char>) -> Set<Seq<char>> {
        if self.holds(key) && self.entries[key] is Members {
            self.entries[key]->Members_0
        } else {
            Set::empty()
        }
    }

    /// The hash under `key`: empty where there is no hash.
    pub open spec fn hash(self, key: Seq<char>) -> Map<Seq<char>, Seq<char>> {
        if self.holds(key) && self.entries[key] is Hash {
            self.entries[key]->Hash_0
        } else {
            Map::empty()
        }
    }

    /// What a read of the string under `key` gives.
    pub open spec fn value(self, key: Seq<char>) -> ReplyView {
        if self.holds(key) && self.entries[key] is Text {
            ReplyView::Bulk(self.entries[key]->Text_0)
        } else {
            ReplyView::Nil
        }
    }

    /// What a read of the strings under `keys` gives, key by key.
    pub open spec fn values(self, keys: Seq<Seq<char>>) -> Seq<ReplyView> {
        keys.map_values(|key: Seq<char>| self.value(key))
    }

    /// The store with `entry` under `key`.
    pub open spec fn with(self, key: Seq<char>, entry: Entry) -> Keyspace {
        Keyspace { entries: self.entries.insert(key, entry) }
    }

    /// The store without an entry under `key`.
    pub open spec fn without(self, key: Seq<char>) -> Keyspace {
        Keyspace { entries: self.entries.remove(key) }
    }

    /// The store after `member` has left the set under `key`. A set that has
    /// lost its last member is no longer there.
    pub open spec fn without_member(self, key: Seq<char>, member: Seq<char>) -> Keyspace {
        if self.holds(key) && self.entries[key] is Members {
            let rest = self.members(key).remove(member);
            if rest =~= Set::empty() {
                self.without(key)
            } else {
                self.with(key, Entry::Members(rest))
            }
        } else {
            self
        }
    }

    /// The store after the counter under `key` has gone up by one. A counter
    /// that is not there counts as zero.
    pub open spec fn counted(self, key: Seq<char>) -> Keyspace {
        if !self.holds(key) {
            self.with(key, Entry::Text(digits_of(1)))
        } else {
            match self.entries[key] {
                Entry::Text(text) => match parsed(text) {
                    Some(n) => self.with(key, Entry::Text(digits_of((n + 1) as nat))),
                    None => self,
                },
                _ => self,
            }
        }
    }

    /// No hash and no set is empty: the store drops what has become empty.
    pub open spec fn sound(self) -> bool {
        forall|key: Seq<char>| #[trigger] self.holds(key) ==> occupied(self.entries[key])
    }

    /// The two stores hold the same under every key but `key`.
    pub open spec fn same_but(self, other: Keyspace, key: Seq<char>) -> bool {
        forall|any: Seq<char>| any != key ==> #[trigger] same_at(self, other, any)
    }

    /// The store after a command that it did not refuse.
    pub open spec fn apply(self, command: CommandView) -> Keyspace {
        match command {
            CommandView::Del { key } => self.without(key),
            CommandView::SetEx { key, seconds, value } => self.with(key, Entry::Text(value)),
            CommandView::Write { key, value } => self.with(key, Entry::Text(value)),
            CommandView::SAdd { key, member } => self.with(
                key,
                Entry::Members(self.members(key).insert(member)),
            ),
            CommandView::SRem { key, member } => self.without_member(key, member),
            CommandView::HMSet { key, entries } => self.with(
                key,
                Entry::Hash(written(self.hash(key), entries)),
            ),
            CommandView::Incr { key } => self.counted(key),
            _ => self,
        }
    }

    /// The store after a command and its reply: as before where the command
    /// was refused.
    pub open spec fn effect(self, command: CommandView, reply: ReplyView) -> Keyspace {
        if reply is Error {
            self
        } else {
            self.apply(command)
        }
    }

    /// The store in this state may give `reply` to `command`. An error is
    /// always possible. Any other reply is the one that the command has in
    /// this state; there is none where the entry under the key is of another
    /// kind than the command is for.
    pub open spec fn admits(self, command: CommandView, reply: ReplyView) -> bool {
        reply is Error || match command {
            CommandView::Del { key } => reply == ReplyView::Integer(
                if self.holds(key) {
                    1i64
                } else {
                    0i64
                },
            ),
            CommandView::Exists { key } => reply == ReplyView::Integer(
                if self.holds(key) {
                    1i64
                } else {
                    0i64
                },
            ),
            CommandView::SetEx { key, seconds, value } => {
                &&& reply == ok()
                &&& parsed(seconds) matches Some(n) && n > 0
            },
            CommandView::Write { key, value } => reply == ok(),
            CommandView::MGet { keys } => reply == ReplyView::Array(self.values(keys)),
            CommandView::SAdd { key, member } => {
                &&& self.set_or_none(key)
                &&& reply == ReplyView::Integer(
                    if self.members(key).contains(member) {
                        0i64
                    } else {
                        1i64
                    },
                )
            },
            CommandView::SRem { key, member } => {
                &&& self.set_or_none(key)
                &&& reply == ReplyView::Integer(
                    if self.members(key).contains(member) {
                        1i64
                    } else {
                        0i64
                    },
                )
            },
            CommandView::SMembers { key } => {
                &&& self.set_or_none(key)
                &&& reply matches ReplyView::Array(items)
                &&& lists_set(texts_of(items), self.members(key))
            },
            CommandView::SRandMember { key, count } => {
                &&& self.set_or_none(key)
                &&& reply matches ReplyView::Array(items)
                &&& samples(texts_of(items), self.members(key), count as int)
            },
            CommandView::HMSet { key, entries } => {
                &&& self.hash_or_none(key)
                &&& entries.len() >= 2
                &&& entries.len() % 2 == 0
                &&& reply == ok()
            },
            CommandView::HGetAll { key } => {
                &&& self.hash_or_none(key)
                &&& reply matches ReplyView::Array(items)
                &&& lists_hash(texts_of(items), self.hash(key))
            },
            CommandView::Incr { key } => if !self.holds(key) {
                reply == ReplyView::Integer(1)
            } else {
                &&& self.entries[key] matches Entry::Text(text)
                &&& parsed(text) matches Some(n)
                &&& n < LARGEST
                &&& reply == ReplyView::Integer((n + 1) as i64)
            },
            CommandView::Scan { cursor, pattern } => {
                &&& scan_in(reply) matches Ok((_, keys))
                &&& forall|i: int| 0 <= i < keys.len() ==> self.holds(#[trigger] keys[i])
            },
        }
    }
}

/// What the store promises of a full cycle of its cursor over the keys of the
/// index sets: every such key that was there from the beginning of the cycle
/// to its end has been listed. This is a property of a whole run; what the
/// store may answer to one command cannot say it.
pub open spec fn whole_cycle(listed: Set<Seq<char>>, before: Keyspace, after: Keyspace) -> bool {
    forall|physical: Seq<char>|
        before.holds(physical) && #[trigger] after.holds(physical) && index_prefix().is_prefix_of(
            physical,
        ) ==> listed.contains(physical)
}

/// The operation and the store after the store has answered with `replies`,
/// one after the other, to what the operation asked. Replies that come after
/// the operation has ended are not read.
pub open spec fn run<M: Machine>(op: M, store: Keyspace, replies: Seq<ReplyView>) -> (M, Keyspace)
    decreases replies.len(),
{
    if replies.len() == 0 {
        (op, store)
    } else {
        match op.pending() {
            ActionView::Call(command) => run(
                op.after(replies[0]),
                store.effect(command, replies[0]),
                replies.drop_first(),
            ),
            ActionView::Schedule { .. } => run(op.after(replies[0]), store, replies.drop_first()),
            ActionView::Done(_) => (op, store),
        }
    }
}

/// Every one of `replies` is a reply that the store, in the state it is in by
/// then, may give to the command that the operation has pending by then.
pub open spec fn faithful<M: Machine>(op: M, store: Keyspace, replies: Seq<ReplyView>) -> bool
    decreases replies.len(),
{
    replies.len() == 0 || match op.pending() {
        ActionView::Call(command) => store.admits(command, replies[0]) && faithful(
            op.after(replies[0]),
            store.effect(command, replies[0]),
            replies.drop_first(),
        ),
        ActionView::Schedule { .. } => faithful(op.after(replies[0]), store, replies.drop_first()),
        ActionView::Done(_) => true,
    }
}

/// Writing into a hash takes no field out of it.
pub proof fn written_keeps_fields(
    hash: Map<Seq<char>, Seq<char>>,
    entries: Seq<Seq<char>>,
    field: Seq<char>,
)
    requires
        hash.dom().contains(field),
    ensures
        written(hash, entries).dom().contains(field),
    decreases entries.len(),
{
    if entries.len() >= 2 {
        written_keeps_fields(hash.insert(entries[0], entries[1]), entries.skip(2), field);
    }
}

/// A command that the store has answered leaves no empty hash and no empty
/// set behind.
pub proof fn effect_keeps_sound(store: Keyspace, command: CommandView, reply: ReplyView)
    requires
        store.sound(),
        store.admits(command, reply),
    ensures
        store.effect(command, reply).sound(),
{
    let then = store.effect(command, reply);
    if !(reply is Error) {
        assert forall|key: Seq<char>| #[trigger] then.holds(key) implies occupied(
            then.entries[key],
        ) by {
            if store.holds(key) {
                assert(occupied(store.entries[key]));
            }
            match command {
                CommandView::SAdd { key: target, member } => {
                    if key == target {
                        assert(store.members(target).insert(member).contains(member));
                    }
                },
                CommandView::SRem { key: target, member } => {
                    if key == target {
                        let rest = store.members(target).remove(member);
                        if forall|other: Seq<char>| !rest.contains(other) {
                            assert(rest =~= Set::empty());
                        }
                    }
                },
                CommandView::HMSet { key: target, entries } => {
                    if key == target {
                        let first = store.hash(target).insert(entries[0], entries[1]);
                        assert(first.dom().contains(entries[0]));
                        written_keeps_fields(first, entries.skip(2), entries[0]);
                    }
                },
                _ => {},
            }
            match then.entries[key] {
                Entry::Text(_) => {},
                Entry::Hash(hash) => {
                    assert(exists|field: Seq<char>| hash.dom().contains(field));
                },
                Entry::Members(set) => {
                    assert(exists|member: Seq<char>| set.contains(member));
                },
            }
        }
    }
}

/// Counting leaves no empty hash and no empty set behind.
pub proof fn counted_keeps_sound(store: Keyspace, counter: Seq<char>)
    requires
        store.sound(),
    ensures
        store.counted(counter).sound(),
{
    let then = store.counted(counter);
    assert forall|key: Seq<char>| #[trigger] then.holds(key) implies occupied(
        then.entries[key],
    ) by {
        if key != counter {
            assert(store.holds(key));
        } else if store.holds(key) {
            assert(occupied(store.entries[key]));
        }
    }
}

/// The loss of an entry leaves no empty hash and no empty set behind.
pub proof fn without_keeps_sound(store: Keyspace, key: Seq<char>)
    requires
        store.sound(),
    ensures
        store.without(key).sound(),
{
    let then = store.without(key);
    assert forall|any: Seq<char>| #[trigger] then.holds(any) implies occupied(
        then.entries[any],
    ) by {
        assert(store.holds(any));
    }
}

/// However an operation runs, as long as the store answers as the model
/// allows, it leaves no empty hash and no empty set behind.
pub proof fn run_keeps_sound<M: Machine>(op: M, store: Keyspace, replies: Seq<ReplyView>)
    requires
        store.sound(),
        faithful(op, store, replies),
    ensures
        run(op, store, replies).1.sound(),
    decreases replies.len(),
{
    if replies.len() > 0 {
        match op.pending() {
            ActionView::Call(command) => {
                effect_keeps_sound(store, command, replies[0]);
                run_keeps_sound(
                    op.after(replies[0]),
                    store.effect(command, replies[0]),
                    replies.drop_first(),
                );
            },
            ActionView::Schedule { .. } => {
                run_keeps_sound(op.after(replies[0]), store, replies.drop_first());
            },
            ActionView::Done(_) => {},
        }
    }
}

} // verus!
