//! The invariant of the data, and what a history of writes and expiries
//! leaves behind.
//!
//! A store is tidy for a key when the key is in an index set of the namespace
//! only if its metadata says so. On a tidy store, the clean operation leaves
//! nothing of a key at all: no entry and no membership. Writes, clean
//! operations and expiries keep a store tidy, so that after any history of
//! writes and handled expiries, nothing is left of a key that expired last.
use crate::action::Machine;
use crate::clean::META_MISSING;
use crate::clean_law::{cleaned, counter_is_plain, indexed_under, unindexing};
use crate::groom::EventGroomView;
use crate::groom_law::{event_counters_are_plain, notified, reactive_groomer_cleans};
use crate::init::{EVENTS, KEYS_EXPIRED};
use crate::layout::{
    index_key, index_keys_differ, keys_differ, meta_is_not_index, meta_key, plain,
    plain_is_no_key, primary_is_no_meta, primary_is_not_index, primary_key,
    PhysicalKeyView,
};
use crate::model::{faithful, run, run_keeps_sound, same_at, without_keeps_sound, Keyspace};
use crate::reply::ReplyView;
use crate::set::{RowView, SetIndexedView};
use crate::set_law::{among_indices, indexing, precleaning, stored, write_stores_the_row};
use vstd::prelude::*;

verus! {

/// The key is a member of an index set of the namespace only where its
/// metadata records the name and the value of the set.
pub open spec fn tidy_for(store: Keyspace, namespace: Seq<char>, key: Seq<char>) -> bool {
    forall|name: Seq<char>, value: Seq<char>|
        plain(name) && #[trigger] store.members(index_key(namespace, name, value)).contains(key)
            ==> store.hash(meta_key(namespace, key)).dom().contains(name) && store.hash(
            meta_key(namespace, key),
        )[name] == value
}

/// Every key is a member of an index set of the namespace only where its
/// metadata says so.
pub open spec fn tidy(store: Keyspace, namespace: Seq<char>) -> bool {
    forall|key: Seq<char>| #[trigger] tidy_for(store, namespace, key)
}

/// Nothing is left of the key: no primary entry, no metadata, and no
/// membership in an index set of the namespace.
pub open spec fn gone(store: Keyspace, namespace: Seq<char>, key: Seq<char>) -> bool {
    &&& !store.holds(primary_key(namespace, key))
    &&& !store.holds(meta_key(namespace, key))
    &&& forall|name: Seq<char>, value: Seq<char>|
        plain(name) ==> !(#[trigger] store.members(index_key(namespace, name, value)).contains(key))
}

/// On a store that is tidy for the key, the clean operation leaves nothing
/// of the key.
pub proof fn clean_leaves_nothing(
    before: Keyspace,
    after: Keyspace,
    namespace: Seq<char>,
    key: Seq<char>,
)
    requires
        plain(namespace),
        cleaned(before, after, namespace, key),
        tidy_for(before, namespace, key),
    ensures
        gone(after, namespace, key),
{
    let meta = meta_key(namespace, key);
    counter_is_plain();
    assert forall|name: Seq<char>, value: Seq<char>| plain(name) implies !(#[trigger] after.members(
        index_key(namespace, name, value),
    ).contains(key)) by {
        let physical = index_key(namespace, name, value);
        primary_is_not_index(namespace, key, name, value);
        meta_is_not_index(namespace, key, namespace, name, value);
        plain_is_no_key(META_MISSING@, namespace, name, value);
        assert(same_at(after, unindexing(before, namespace, key, physical), physical));
        if after.members(physical).contains(key) {
            if indexed_under(before.hash(meta), namespace, physical) {
                let left = before.without_member(physical, key);
                assert(!left.members(physical).contains(key));
            } else {
                assert(before.members(physical).contains(key));
                assert(before.hash(meta).dom().contains(name));
                assert(physical == index_key(namespace, name, before.hash(meta)[name]));
            }
        }
    }
}

/// The clean operation on one key keeps the store tidy for every key, and
/// leaves gone what was gone.
pub proof fn clean_keeps_tidy(
    before: Keyspace,
    after: Keyspace,
    namespace: Seq<char>,
    key: Seq<char>,
    other: Seq<char>,
)
    requires
        plain(namespace),
        cleaned(before, after, namespace, key),
        tidy_for(before, namespace, key),
    ensures
        tidy_for(before, namespace, other) ==> tidy_for(after, namespace, other),
        gone(before, namespace, other) ==> gone(after, namespace, other),
{
    counter_is_plain();
    clean_leaves_nothing(before, after, namespace, key);
    if other != key {
        let meta = meta_key(namespace, other);
        let primary = primary_key(namespace, other);
        keys_differ(namespace, key, other);
        primary_is_no_meta(namespace, key, other);
        primary_is_no_meta(namespace, other, key);
        plain_is_no_key(META_MISSING@, namespace, other, other);
        assert(!indexed_under(before.hash(meta_key(namespace, key)), namespace, meta)) by {
            if indexed_under(before.hash(meta_key(namespace, key)), namespace, meta) {
                let name = choose|name: Seq<char>|
                    before.hash(meta_key(namespace, key)).dom().contains(name) && meta
                        == #[trigger] index_key(
                        namespace,
                        name,
                        before.hash(meta_key(namespace, key))[name],
                    );
                meta_is_not_index(
                    namespace,
                    other,
                    namespace,
                    name,
                    before.hash(meta_key(namespace, key))[name],
                );
            }
        }
        assert(same_at(after, unindexing(before, namespace, key, meta), meta));
        assert(after.hash(meta) == before.hash(meta));
        assert(same_at(after, unindexing(before, namespace, key, primary), primary));
        assert forall|name: Seq<char>, value: Seq<char>|
            plain(name) && #[trigger] after.members(index_key(namespace, name, value)).contains(
                other,
            ) implies before.members(index_key(namespace, name, value)).contains(other) by {
            let physical = index_key(namespace, name, value);
            primary_is_not_index(namespace, key, name, value);
            meta_is_not_index(namespace, key, namespace, name, value);
            plain_is_no_key(META_MISSING@, namespace, name, value);
            assert(same_at(after, unindexing(before, namespace, key, physical), physical));
        }
        if gone(before, namespace, other) {
            assert(!after.holds(primary)) by {
                if after.holds(primary) {
                    assert(unindexing(before, namespace, key, primary).holds(primary));
                }
            }
            assert(!after.holds(meta));
        }
    }
}

/// The write of one row keeps the store tidy for every key, and leaves gone
/// what was gone, but for the key of the row.
pub proof fn write_keeps_tidy(
    before: Keyspace,
    after: Keyspace,
    namespace: Seq<char>,
    names: Seq<Seq<char>>,
    row: RowView,
    other: Seq<char>,
)
    requires
        plain(namespace),
        names.len() == row.index_values.len(),
        forall|i: int| 0 <= i < names.len() ==> plain(#[trigger] names[i]),
        stored(before, after, namespace, names, row),
        tidy_for(before, namespace, row.key),
    ensures
        tidy_for(before, namespace, other) ==> tidy_for(after, namespace, other),
        other != row.key && gone(before, namespace, other) ==> gone(after, namespace, other),
{
    let key = row.key;
    let values = row.index_values;
    let own = meta_key(namespace, key);
    counter_is_plain();
    if other == key {
        assert forall|name: Seq<char>, value: Seq<char>|
            plain(name) && #[trigger] after.members(index_key(namespace, name, value)).contains(
                key,
            ) implies after.hash(own).dom().contains(name) && after.hash(own)[name] == value by {
            let physical = index_key(namespace, name, value);
            primary_is_not_index(namespace, key, name, value);
            meta_is_not_index(namespace, key, namespace, name, value);
            plain_is_no_key(META_MISSING@, namespace, name, value);
            let base = precleaning(before, namespace, key, physical);
            assert(same_at(
                after,
                indexing(base, namespace, key, names, values, names.len() as int, physical),
                physical,
            ));
            if among_indices(namespace, names, values, names.len() as int, physical) {
                let j = choose|j: int|
                    0 <= j < names.len() && #[trigger] index_key(namespace, names[j], values[j])
                        == physical;
                if name != names[j] || value != values[j] {
                    index_keys_differ(namespace, name, value, names[j], values[j]);
                }
                assert(after.hash(own).dom().contains(names[j]));
            } else {
                assert(base.members(physical).contains(key));
                if before.holds(own) {
                    if indexed_under(before.hash(own), namespace, physical) {
                        let left = before.without_member(physical, key);
                        assert(!left.members(physical).contains(key));
                    } else {
                        assert(before.members(physical).contains(key));
                        assert(before.hash(own).dom().contains(name));
                        assert(physical == index_key(namespace, name, before.hash(own)[name]));
                    }
                } else {
                    assert(before.members(physical).contains(key));
                    assert(before.hash(own).dom().contains(name));
                }
            }
        }
    } else {
        let meta = meta_key(namespace, other);
        let primary = primary_key(namespace, other);
        keys_differ(namespace, key, other);
        primary_is_no_meta(namespace, key, other);
        primary_is_no_meta(namespace, other, key);
        plain_is_no_key(META_MISSING@, namespace, other, other);
        assert(!among_indices(namespace, names, values, names.len() as int, meta)) by {
            if among_indices(namespace, names, values, names.len() as int, meta) {
                let j = choose|j: int|
                    0 <= j < names.len() && #[trigger] index_key(namespace, names[j], values[j])
                        == meta;
                meta_is_not_index(namespace, other, namespace, names[j], values[j]);
            }
        }
        assert(!among_indices(namespace, names, values, names.len() as int, primary)) by {
            if among_indices(namespace, names, values, names.len() as int, primary) {
                let j = choose|j: int|
                    0 <= j < names.len() && #[trigger] index_key(namespace, names[j], values[j])
                        == primary;
                primary_is_not_index(namespace, other, names[j], values[j]);
            }
        }
        assert(!indexed_under(before.hash(own), namespace, meta)) by {
            if indexed_under(before.hash(own), namespace, meta) {
                let name = choose|name: Seq<char>|
                    before.hash(own).dom().contains(name) && meta == #[trigger] index_key(
                        namespace,
                        name,
                        before.hash(own)[name],
                    );
                meta_is_not_index(namespace, other, namespace, name, before.hash(own)[name]);
            }
        }
        assert(!indexed_under(before.hash(own), namespace, primary)) by {
            if indexed_under(before.hash(own), namespace, primary) {
                let name = choose|name: Seq<char>|
                    before.hash(own).dom().contains(name) && primary == #[trigger] index_key(
                        namespace,
                        name,
                        before.hash(own)[name],
                    );
                primary_is_not_index(namespace, other, name, before.hash(own)[name]);
            }
        }
        assert(same_at(
            after,
            indexing(
                precleaning(before, namespace, key, meta),
                namespace,
                key,
                names,
                values,
                names.len() as int,
                meta,
            ),
            meta,
        ));
        assert(after.hash(meta) == before.hash(meta));
        assert(same_at(
            after,
            indexing(
                precleaning(before, namespace, key, primary),
                namespace,
                key,
                names,
                values,
                names.len() as int,
                primary,
            ),
            primary,
        ));
        assert forall|name: Seq<char>, value: Seq<char>|
            plain(name) && #[trigger] after.members(index_key(namespace, name, value)).contains(
                other,
            ) implies before.members(index_key(namespace, name, value)).contains(other) by {
            let physical = index_key(namespace, name, value);
            primary_is_not_index(namespace, key, name, value);
            meta_is_not_index(namespace, key, namespace, name, value);
            plain_is_no_key(META_MISSING@, namespace, name, value);
            assert(same_at(
                after,
                indexing(
                    precleaning(before, namespace, key, physical),
                    namespace,
                    key,
                    names,
                    values,
                    names.len() as int,
                    physical,
                ),
                physical,
            ));
        }
    }
}

/// The loss of a primary entry and the counting of the notification keep the
/// store tidy for every key, and leave gone what was gone.
pub proof fn expiry_keeps_tidy(
    store: Keyspace,
    namespace: Seq<char>,
    key: Seq<char>,
    other: Seq<char>,
)
    requires
        plain(namespace),
    ensures
        tidy_for(store, namespace, other) ==> tidy_for(
            notified(store.without(primary_key(namespace, key))),
            namespace,
            other,
        ),
        gone(store, namespace, other) ==> gone(
            notified(store.without(primary_key(namespace, key))),
            namespace,
            other,
        ),
{
    let primary = primary_key(namespace, key);
    let then = notified(store.without(primary));
    let meta = meta_key(namespace, other);
    event_counters_are_plain();
    primary_is_no_meta(namespace, key, other);
    plain_is_no_key(EVENTS@, namespace, other, other);
    plain_is_no_key(KEYS_EXPIRED@, namespace, other, other);
    assert(then.hash(meta) == store.hash(meta));
    assert forall|name: Seq<char>, value: Seq<char>|
        then.members(#[trigger] index_key(namespace, name, value)) == store.members(
            index_key(namespace, name, value),
        ) by {
        primary_is_not_index(namespace, key, name, value);
        plain_is_no_key(EVENTS@, namespace, name, value);
        plain_is_no_key(KEYS_EXPIRED@, namespace, name, value);
    }
    if tidy_for(store, namespace, other) {
        assert forall|name: Seq<char>, value: Seq<char>|
            plain(name) && #[trigger] then.members(index_key(namespace, name, value)).contains(
                other,
            ) implies then.hash(meta).dom().contains(name) && then.hash(meta)[name] == value by {
            assert(store.members(index_key(namespace, name, value)).contains(other));
        }
    }
    if gone(store, namespace, other) {
        assert forall|name: Seq<char>, value: Seq<char>| plain(name) implies !(#[trigger] then.members(
            index_key(namespace, name, value),
        ).contains(other)) by {
            assert(!store.members(index_key(namespace, name, value)).contains(other));
        }
    }
}

/// One event in the life of a namespace.
pub enum Step {
    /// A key is written with one row; the store answers with `replies`.
    Write { expiry: Seq<char>, names: Seq<Seq<char>>, row: RowView, replies: Seq<ReplyView> },
    /// The primary entry of a key goes, and the notification is handled; the
    /// store answers with `replies`.
    Expire { key: Seq<char>, replies: Seq<ReplyView> },
}

/// The operation that a step runs.
pub open spec fn written_by(namespace: Seq<char>, step: Step) -> SetIndexedView {
    SetIndexedView::start(
        namespace,
        step->Write_expiry,
        step->Write_names,
        seq![step->Write_row],
    )
}

/// The handling that the expiry of a key runs.
pub open spec fn handled_by(namespace: Seq<char>, key: Seq<char>) -> EventGroomView {
    EventGroomView::start(PhysicalKeyView::Primary { namespace, key })
}

/// The store after one step.
pub open spec fn after_step(store: Keyspace, namespace: Seq<char>, step: Step) -> Keyspace {
    match step {
        Step::Write { replies, .. } => run(written_by(namespace, step), store, replies).1,
        Step::Expire { key, replies } => run(
            handled_by(namespace, key),
            store.without(primary_key(namespace, key)),
            replies,
        ).1,
    }
}

/// The step is one that the laws speak of: the index names are plain and
/// differ, the row has a value for each, the store answers as the model
/// allows, and the operation ends well.
pub open spec fn fair_step(store: Keyspace, namespace: Seq<char>, step: Step) -> bool {
    match step {
        Step::Write { names, row, replies, .. } => {
            &&& names.no_duplicates()
            &&& names.len() == row.index_values.len()
            &&& forall|i: int| 0 <= i < names.len() ==> plain(#[trigger] names[i])
            &&& faithful(written_by(namespace, step), store, replies)
            &&& run(written_by(namespace, step), store, replies).0.pending().succeeded()
        },
        Step::Expire { key, replies } => {
            let expired = store.without(primary_key(namespace, key));
            &&& faithful(handled_by(namespace, key), expired, replies)
            &&& run(handled_by(namespace, key), expired, replies).0.pending().succeeded()
        },
    }
}

/// The store after the steps, one after the other.
pub open spec fn played(store: Keyspace, namespace: Seq<char>, steps: Seq<Step>) -> Keyspace
    decreases steps.len(),
{
    if steps.len() == 0 {
        store
    } else {
        after_step(played(store, namespace, steps.drop_last()), namespace, steps.last())
    }
}

/// Every step is fair in the store that the steps before it have left.
pub open spec fn fair(store: Keyspace, namespace: Seq<char>, steps: Seq<Step>) -> bool
    decreases steps.len(),
{
    steps.len() == 0 || (fair(store, namespace, steps.drop_last()) && fair_step(
        played(store, namespace, steps.drop_last()),
        namespace,
        steps.last(),
    ))
}

/// The key has expired, and has not been written since.
pub open spec fn expired_last(steps: Seq<Step>, key: Seq<char>) -> bool
    decreases steps.len(),
{
    steps.len() > 0 && match steps.last() {
        Step::Expire { key: last, .. } => last == key || expired_last(steps.drop_last(), key),
        Step::Write { row, .. } => row.key != key && expired_last(steps.drop_last(), key),
    }
}

/// After any history of writes and of expiries that were handled, the store
/// is tidy, and of every key that has expired and has not been written since
/// nothing is left: no primary entry, no metadata, and no membership in an
/// index set of the namespace. This holds of any number of keys with any
/// number of indices.
pub proof fn history_leaves_no_residue(store: Keyspace, namespace: Seq<char>, steps: Seq<Step>)
    requires
        plain(namespace),
        store.sound(),
        tidy(store, namespace),
        fair(store, namespace, steps),
    ensures
        played(store, namespace, steps).sound(),
        tidy(played(store, namespace, steps), namespace),
        forall|key: Seq<char>| #[trigger]
            expired_last(steps, key) ==> gone(played(store, namespace, steps), namespace, key),
    decreases steps.len(),
{
    if steps.len() > 0 {
        let earlier = steps.drop_last();
        let step = steps.last();
        history_leaves_no_residue(store, namespace, earlier);
        let before = played(store, namespace, earlier);
        let after = played(store, namespace, steps);
        match step {
            Step::Write { expiry, names, row, replies } => {
                assert(tidy_for(before, namespace, row.key));
                write_stores_the_row(namespace, expiry, names, row, before, replies);
                run_keeps_sound(written_by(namespace, step), before, replies);
                assert forall|key: Seq<char>| #[trigger] tidy_for(after, namespace, key) by {
                    assert(tidy_for(before, namespace, key));
                    write_keeps_tidy(before, after, namespace, names, row, key);
                }
                assert forall|key: Seq<char>| #[trigger] expired_last(steps, key) implies gone(
                    after,
                    namespace,
                    key,
                ) by {
                    assert(expired_last(earlier, key));
                    write_keeps_tidy(before, after, namespace, names, row, key);
                }
            },
            Step::Expire { key: lost, replies } => {
                let expired = before.without(primary_key(namespace, lost));
                let base = notified(expired);
                without_keeps_sound(before, primary_key(namespace, lost));
                reactive_groomer_cleans(
                    PhysicalKeyView::Primary { namespace, key: lost },
                    expired,
                    replies,
                );
                run_keeps_sound(handled_by(namespace, lost), expired, replies);
                assert(tidy_for(before, namespace, lost));
                expiry_keeps_tidy(before, namespace, lost, lost);
                assert(cleaned(base, after, namespace, lost));
                clean_leaves_nothing(base, after, namespace, lost);
                assert forall|key: Seq<char>| #[trigger] tidy_for(after, namespace, key) by {
                    assert(tidy_for(before, namespace, key));
                    expiry_keeps_tidy(before, namespace, lost, key);
                    clean_keeps_tidy(base, after, namespace, lost, key);
                }
                assert forall|key: Seq<char>| #[trigger] expired_last(steps, key) implies gone(
                    after,
                    namespace,
                    key,
                ) by {
                    if key != lost {
                        assert(expired_last(earlier, key));
                        expiry_keeps_tidy(before, namespace, lost, key);
                        clean_keeps_tidy(base, after, namespace, lost, key);
                    }
                }
            },
        }
    }
}

/// Expiry cascade, in general: in a tidy store, when the primary entry of a
/// key has gone and the notification has been handled, nothing is left of
/// the key: no metadata, and no membership in any index set of the
/// namespace.
pub proof fn expiry_leaves_nothing(
    store: Keyspace,
    namespace: Seq<char>,
    key: Seq<char>,
    replies: Seq<ReplyView>,
)
    requires
        plain(namespace),
        store.sound(),
        tidy_for(store, namespace, key),
        fair_step(store, namespace, Step::Expire { key, replies }),
    ensures
        gone(after_step(store, namespace, Step::Expire { key, replies }), namespace, key),
{
    let expired = store.without(primary_key(namespace, key));
    without_keeps_sound(store, primary_key(namespace, key));
    reactive_groomer_cleans(PhysicalKeyView::Primary { namespace, key }, expired, replies);
    expiry_keeps_tidy(store, namespace, key, key);
    clean_leaves_nothing(
        notified(expired),
        after_step(store, namespace, Step::Expire { key, replies }),
        namespace,
        key,
    );
}

} // verus!
