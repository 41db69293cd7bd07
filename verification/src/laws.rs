//! What holds of the operations together: what is written can be read, a
//! rewrite replaces the memberships of a key, and a removal clears them.
use crate::action::{ok, ActionView, Machine};
use crate::command::CommandView;
use crate::decimal::parsed;
use crate::clean::META_MISSING;
use crate::clean_law::{cleaned, counter_is_plain, indexed_under, unindexing};
use crate::get::{primary_keys, GetStage, GetView};
use crate::get_law::{answers_index, get_reads_the_index, listing_of_one};
use crate::init::{counter, InitView, EVENTS, KEYS_EXPIRED};
use crate::layout::{
    index_key, index_keys_differ, meta_is_not_index, meta_key, plain, plain_is_no_key,
    primary_is_not_index, primary_is_not_meta, primary_key,
};
use crate::model::{faithful, lists_set, run, run_keeps_sound, same_at, Entry, Keyspace};
use crate::rem::RemoveView;
use crate::rem_law::remove_cleans_the_key;
use crate::reply::{present, present_of_few, text_of, texts_of, ReplyView};
use crate::sequences::interleaved_pairs;
use crate::set::{RowView, SetIndexedView, SetStage};
use crate::set_law::{among_indices, indexing, precleaning, stored, write_stores_the_row};
use vstd::prelude::*;

verus! {

/// After the write of a row that ended well, the key is a member of the index
/// set of each pair of the row.
pub proof fn stored_key_is_indexed(
    before: Keyspace,
    after: Keyspace,
    namespace: Seq<char>,
    names: Seq<Seq<char>>,
    row: RowView,
    i: int,
)
    requires
        plain(namespace),
        stored(before, after, namespace, names, row),
        0 <= i < names.len(),
    ensures
        after.members(index_key(namespace, names[i], row.index_values[i])) == precleaning(
            before,
            namespace,
            row.key,
            index_key(namespace, names[i], row.index_values[i]),
        ).members(index_key(namespace, names[i], row.index_values[i])).insert(row.key),
        after.members(index_key(namespace, names[i], row.index_values[i])).contains(row.key),
{
    let physical = index_key(namespace, names[i], row.index_values[i]);
    primary_is_not_index(namespace, row.key, names[i], row.index_values[i]);
    meta_is_not_index(namespace, row.key, namespace, names[i], row.index_values[i]);
    counter_is_plain();
    plain_is_no_key(META_MISSING@, namespace, names[i], row.index_values[i]);
    assert(among_indices(namespace, names, row.index_values, names.len() as int, physical));
    assert(same_at(
        after,
        indexing(
            precleaning(before, namespace, row.key, physical),
            namespace,
            row.key,
            names,
            row.index_values,
            names.len() as int,
            physical,
        ),
        physical,
    ));
}

/// Round trip: after a write of one key with one index, a read by that index
/// and value answers with the value of the key, and with nothing else,
/// provided that the index set held no other key before.
pub proof fn round_trip(
    namespace: Seq<char>,
    expiry: Seq<char>,
    idx: Seq<char>,
    idx_val: Seq<char>,
    key: Seq<char>,
    value: Seq<char>,
    store: Keyspace,
    writing: Seq<ReplyView>,
    reading: Seq<ReplyView>,
)
    requires
        store.sound(),
        plain(namespace),
        forall|other: Seq<char>|
            store.members(index_key(namespace, idx, idx_val)).contains(other) ==> other == key,
        ({
            let row = RowView { key, value, index_values: seq![idx_val] };
            let write = SetIndexedView::start(namespace, expiry, seq![idx], seq![row]);
            let read = GetView::start(namespace, idx, idx_val);
            &&& faithful(write, store, writing)
            &&& run(write, store, writing).0.pending().succeeded()
            &&& faithful(read, run(write, store, writing).1, reading)
            &&& run(read, run(write, store, writing).1, reading).0.pending().succeeded()
        }),
    ensures
        ({
            let row = RowView { key, value, index_values: seq![idx_val] };
            let write = SetIndexedView::start(namespace, expiry, seq![idx], seq![row]);
            let read = GetView::start(namespace, idx, idx_val);
            run(read, run(write, store, writing).1, reading).0.pending() == ActionView::Done(
                Ok(ReplyView::Array(seq![ReplyView::Bulk(value)])),
            )
        }),
{
    let row = RowView { key, value, index_values: seq![idx_val] };
    let names = seq![idx];
    let write = SetIndexedView::start(namespace, expiry, names, seq![row]);
    let read = GetView::start(namespace, idx, idx_val);
    let after = run(write, store, writing).1;
    let index = index_key(namespace, idx, idx_val);
    write_stores_the_row(namespace, expiry, names, row, store, writing);
    stored_key_is_indexed(store, after, namespace, names, row, 0);
    assert(after.members(index) =~= set![key]) by {
        let base = precleaning(store, namespace, key, index);
        assert forall|other: Seq<char>| base.members(index).contains(other) implies other
            == key by {
            assert(store.members(index).contains(other));
        }
    }
    get_reads_the_index(namespace, idx, idx_val, after, reading);
    let reply = run(read, after, reading).0.pending()->Done_0->Ok_0;
    assert(answers_index(after, namespace, idx, idx_val, reply));
    let keys = choose|keys: Seq<Seq<char>>|
        lists_set(keys, after.members(index)) && reply == ReplyView::Array(
            present(after.values(#[trigger] primary_keys(namespace, keys))),
        );
    listing_of_one(keys, key);
    assert(after.values(primary_keys(namespace, keys)) =~= seq![ReplyView::Bulk(value)]);
    present_of_few(ReplyView::Bulk(value));
}

/// Re-indexing replaces membership: after two writes of one key that ended
/// well, the key is a member of the index set of each pair of the second
/// write, and no member of the index set of any pair of the first write that
/// the second write does not have.
pub proof fn rewrite_replaces_membership(
    namespace: Seq<char>,
    key: Seq<char>,
    first_expiry: Seq<char>,
    first_names: Seq<Seq<char>>,
    first_value: Seq<char>,
    first_values: Seq<Seq<char>>,
    second_expiry: Seq<char>,
    second_names: Seq<Seq<char>>,
    second_value: Seq<char>,
    second_values: Seq<Seq<char>>,
    store: Keyspace,
    first: Seq<ReplyView>,
    second: Seq<ReplyView>,
)
    requires
        store.sound(),
        plain(namespace),
        first_names.no_duplicates(),
        second_names.no_duplicates(),
        first_names.len() == first_values.len(),
        second_names.len() == second_values.len(),
        forall|i: int| 0 <= i < first_names.len() ==> plain(#[trigger] first_names[i]),
        forall|j: int| 0 <= j < second_names.len() ==> plain(#[trigger] second_names[j]),
        ({
            let one = SetIndexedView::start(
                namespace,
                first_expiry,
                first_names,
                seq![RowView { key, value: first_value, index_values: first_values }],
            );
            let two = SetIndexedView::start(
                namespace,
                second_expiry,
                second_names,
                seq![RowView { key, value: second_value, index_values: second_values }],
            );
            &&& faithful(one, store, first)
            &&& run(one, store, first).0.pending().succeeded()
            &&& faithful(two, run(one, store, first).1, second)
            &&& run(two, run(one, store, first).1, second).0.pending().succeeded()
        }),
    ensures
        ({
            let one = SetIndexedView::start(
                namespace,
                first_expiry,
                first_names,
                seq![RowView { key, value: first_value, index_values: first_values }],
            );
            let two = SetIndexedView::start(
                namespace,
                second_expiry,
                second_names,
                seq![RowView { key, value: second_value, index_values: second_values }],
            );
            let end = run(two, run(one, store, first).1, second).1;
            &&& forall|j: int|
                0 <= j < second_names.len() ==> end.members(
                    #[trigger] index_key(namespace, second_names[j], second_values[j]),
                ).contains(key)
            &&& forall|i: int|
                0 <= i < first_names.len() && (forall|j: int|
                    0 <= j < second_names.len() ==> first_names[i] != second_names[j]
                        || first_values[i] != second_values[j]) ==> !end.members(
                    #[trigger] index_key(namespace, first_names[i], first_values[i]),
                ).contains(key)
        }),
{
    let row_one = RowView { key, value: first_value, index_values: first_values };
    let row_two = RowView { key, value: second_value, index_values: second_values };
    let one = SetIndexedView::start(namespace, first_expiry, first_names, seq![row_one]);
    let two = SetIndexedView::start(namespace, second_expiry, second_names, seq![row_two]);
    let mid = run(one, store, first).1;
    let end = run(two, mid, second).1;
    let meta = meta_key(namespace, key);
    write_stores_the_row(namespace, first_expiry, first_names, row_one, store, first);
    run_keeps_sound(one, store, first);
    write_stores_the_row(namespace, second_expiry, second_names, row_two, mid, second);
    counter_is_plain();
    assert forall|j: int| 0 <= j < second_names.len() implies end.members(
        #[trigger] index_key(namespace, second_names[j], second_values[j]),
    ).contains(key) by {
        stored_key_is_indexed(mid, end, namespace, second_names, row_two, j);
    }
    assert forall|i: int|
        0 <= i < first_names.len() && (forall|j: int|
            0 <= j < second_names.len() ==> first_names[i] != second_names[j] || first_values[i]
                != second_values[j]) implies !end.members(
        #[trigger] index_key(namespace, first_names[i], first_values[i]),
    ).contains(key) by {
        let physical = index_key(namespace, first_names[i], first_values[i]);
        primary_is_not_index(namespace, key, first_names[i], first_values[i]);
        meta_is_not_index(namespace, key, namespace, first_names[i], first_values[i]);
        plain_is_no_key(META_MISSING@, namespace, first_names[i], first_values[i]);
        assert(mid.holds(meta));
        assert(mid.hash(meta).dom().contains(first_names[i]));
        assert(indexed_under(mid.hash(meta), namespace, physical));
        if among_indices(namespace, second_names, second_values, second_names.len() as int, physical) {
            let j = choose|j: int|
                0 <= j < second_names.len() && #[trigger] index_key(
                    namespace,
                    second_names[j],
                    second_values[j],
                ) == physical;
            index_keys_differ(
                namespace,
                first_names[i],
                first_values[i],
                second_names[j],
                second_values[j],
            );
        }
        assert(same_at(
            end,
            indexing(
                precleaning(mid, namespace, key, physical),
                namespace,
                key,
                second_names,
                second_values,
                second_names.len() as int,
                physical,
            ),
            physical,
        ));
        let left = mid.without_member(physical, key);
        assert(!left.members(physical).contains(key));
    }
}

/// Direct removal clears indices: after a write of one key that ended well,
/// the removal of the key, where it ends well, says that it has handled one
/// key, and leaves no primary entry, no metadata, and the key in none of the
/// index sets of the pairs it was written with.
pub proof fn removal_clears_indices(
    namespace: Seq<char>,
    key: Seq<char>,
    expiry: Seq<char>,
    names: Seq<Seq<char>>,
    value: Seq<char>,
    values: Seq<Seq<char>>,
    store: Keyspace,
    writing: Seq<ReplyView>,
    removing: Seq<ReplyView>,
)
    requires
        store.sound(),
        plain(namespace),
        names.no_duplicates(),
        names.len() == values.len(),
        ({
            let write = SetIndexedView::start(
                namespace,
                expiry,
                names,
                seq![RowView { key, value, index_values: values }],
            );
            let removal = RemoveView::start(namespace, seq![key]);
            &&& faithful(write, store, writing)
            &&& run(write, store, writing).0.pending().succeeded()
            &&& faithful(removal, run(write, store, writing).1, removing)
            &&& run(removal, run(write, store, writing).1, removing).0.pending().succeeded()
        }),
    ensures
        ({
            let write = SetIndexedView::start(
                namespace,
                expiry,
                names,
                seq![RowView { key, value, index_values: values }],
            );
            let removal = RemoveView::start(namespace, seq![key]);
            let end = run(removal, run(write, store, writing).1, removing);
            &&& end.0.pending() == ActionView::Done(Ok(ReplyView::Integer(1)))
            &&& !end.1.holds(primary_key(namespace, key))
            &&& !end.1.holds(meta_key(namespace, key))
            &&& forall|i: int|
                0 <= i < names.len() ==> !end.1.members(
                    #[trigger] index_key(namespace, names[i], values[i]),
                ).contains(key)
        }),
{
    let row = RowView { key, value, index_values: values };
    let write = SetIndexedView::start(namespace, expiry, names, seq![row]);
    let removal = RemoveView::start(namespace, seq![key]);
    let mid = run(write, store, writing).1;
    let end = run(removal, mid, removing).1;
    let meta = meta_key(namespace, key);
    write_stores_the_row(namespace, expiry, names, row, store, writing);
    run_keeps_sound(write, store, writing);
    remove_cleans_the_key(namespace, key, mid, removing);
    counter_is_plain();
    assert(cleaned(mid, end, namespace, key));
    assert forall|i: int| 0 <= i < names.len() implies !end.members(
        #[trigger] index_key(namespace, names[i], values[i]),
    ).contains(key) by {
        let physical = index_key(namespace, names[i], values[i]);
        primary_is_not_index(namespace, key, names[i], values[i]);
        meta_is_not_index(namespace, key, namespace, names[i], values[i]);
        plain_is_no_key(META_MISSING@, namespace, names[i], values[i]);
        assert(mid.hash(meta).dom().contains(names[i]));
        assert(indexed_under(mid.hash(meta), namespace, physical));
        assert(same_at(end, unindexing(mid, namespace, key, physical), physical));
        let left = mid.without_member(physical, key);
        assert(!left.members(physical).contains(key));
    }
}

/// The round trip happens: on an empty store that refuses nothing, the write
/// of one key with one index ends well after four replies, and the read by
/// that index and value answers with the value of the key.
pub proof fn round_trip_happens(
    namespace: Seq<char>,
    expiry: Seq<char>,
    idx: Seq<char>,
    idx_val: Seq<char>,
    key: Seq<char>,
    value: Seq<char>,
)
    requires
        plain(namespace),
        parsed(expiry) matches Some(seconds) && seconds > 0,
    ensures
        ({
            let store = Keyspace { entries: Map::empty() };
            let row = RowView { key, value, index_values: seq![idx_val] };
            let write = SetIndexedView::start(namespace, expiry, seq![idx], seq![row]);
            let read = GetView::start(namespace, idx, idx_val);
            let writing = seq![
                ReplyView::Integer(0),
                ok(),
                ReplyView::Integer(1),
                ok(),
            ];
            let reading = seq![
                ReplyView::Array(seq![ReplyView::Bulk(key)]),
                ReplyView::Array(seq![ReplyView::Bulk(value)]),
            ];
            &&& store.sound()
            &&& faithful(write, store, writing)
            &&& run(write, store, writing).0.pending().succeeded()
            &&& faithful(read, run(write, store, writing).1, reading)
            &&& run(read, run(write, store, writing).1, reading).0.pending() == ActionView::Done(
                Ok(ReplyView::Array(seq![ReplyView::Bulk(value)])),
            )
        }),
{
    let store = Keyspace { entries: Map::empty() };
    let row = RowView { key, value, index_values: seq![idx_val] };
    let names = seq![idx];
    let rows = seq![row];
    let primary = primary_key(namespace, key);
    let meta = meta_key(namespace, key);
    let index = index_key(namespace, idx, idx_val);
    primary_is_not_index(namespace, key, idx, idx_val);
    meta_is_not_index(namespace, key, namespace, idx, idx_val);
    primary_is_not_meta(namespace, key);
    let w0 = SetIndexedView::start(namespace, expiry, names, rows);
    let writing = seq![ReplyView::Integer(0), ok(), ReplyView::Integer(1), ok()];
    assert(rows[0] == row);
    assert(names[0] == idx);
    assert(row.index_values[0] == idx_val);
    assert(w0.stage == SetStage::CheckMeta);
    assert(store.admits(w0.pending()->Call_0, writing[0]));
    let w1 = w0.after(writing[0]);
    let s1 = store.effect(w0.pending()->Call_0, writing[0]);
    let rest1 = writing.drop_first();
    assert(rest1 =~= seq![ok(), ReplyView::Integer(1), ok()]);
    assert(w1.stage == SetStage::WritePrimary);
    assert(s1.admits(w1.pending()->Call_0, rest1[0]));
    let w2 = w1.after(rest1[0]);
    let s2 = s1.effect(w1.pending()->Call_0, rest1[0]);
    let rest2 = rest1.drop_first();
    assert(rest2 =~= seq![ReplyView::Integer(1), ok()]);
    assert(w2.stage == SetStage::AddIndex);
    assert(w2.pending() == ActionView::Call(CommandView::SAdd { key: index, member: key }));
    assert(!s2.holds(index));
    assert(s2.admits(w2.pending()->Call_0, rest2[0]));
    let w3 = w2.after(rest2[0]);
    let s3 = s2.effect(w2.pending()->Call_0, rest2[0]);
    let rest3 = rest2.drop_first();
    assert(rest3 =~= seq![ok()]);
    assert(w3.stage == SetStage::WriteMeta);
    interleaved_pairs(names, row.index_values);
    assert(!s3.holds(meta));
    assert(s3.admits(w3.pending()->Call_0, rest3[0]));
    let w4 = w3.after(rest3[0]);
    let s4 = s3.effect(w3.pending()->Call_0, rest3[0]);
    let rest4 = rest3.drop_first();
    assert(rest4.len() == 0);
    assert(w4.stage == SetStage::Finished);
    assert(w4.failure is None);
    assert(faithful(w4, s4, rest4));
    assert(faithful(w3, s3, rest3));
    assert(faithful(w2, s2, rest2));
    assert(faithful(w1, s1, rest1));
    assert(faithful(w0, store, writing));
    assert(run(w4, s4, rest4) == (w4, s4));
    assert(run(w3, s3, rest3) == (w4, s4));
    assert(run(w2, s2, rest2) == (w4, s4));
    assert(run(w1, s1, rest1) == (w4, s4));
    assert(run(w0, store, writing) == (w4, s4));
    assert(s4.members(index) =~= set![key]);
    assert(s4.value(primary) == ReplyView::Bulk(value));

    let g0 = GetView::start(namespace, idx, idx_val);
    let reading = seq![
        ReplyView::Array(seq![ReplyView::Bulk(key)]),
        ReplyView::Array(seq![ReplyView::Bulk(value)]),
    ];
    let listing = seq![ReplyView::Bulk(key)];
    Seq::lemma_filter_map_singleton(ReplyView::Bulk(key), |item: ReplyView| text_of(item));
    assert(texts_of(listing) =~= seq![key]);
    assert(lists_set(seq![key], s4.members(index))) by {
        assert(seq![key][0] == key);
    }
    assert(s4.admits(g0.pending()->Call_0, reading[0]));
    let g1 = g0.after(reading[0]);
    let more = reading.drop_first();
    assert(more =~= seq![ReplyView::Array(seq![ReplyView::Bulk(value)])]);
    assert(g1.stage == GetStage::ReadValues);
    assert(g1.keys == seq![key]);
    assert(s4.values(primary_keys(namespace, seq![key])) =~= seq![ReplyView::Bulk(value)]);
    present_of_few(ReplyView::Bulk(value));
    assert(s4.admits(g1.pending()->Call_0, more[0]));
    let g2 = g1.after(more[0]);
    let last = more.drop_first();
    assert(last.len() == 0);
    assert(faithful(g2, s4, last));
    assert(faithful(g1, s4, more));
    assert(faithful(g0, s4, reading));
    assert(run(g2, s4, last) == (g2, s4));
    assert(run(g1, s4, more) == (g2, s4));
    assert(run(g0, s4, reading) == (g2, s4));
}

/// The store with the first `done` of the three counters at zero.
pub open spec fn zeroed(store: Keyspace, done: nat) -> Keyspace
    decreases done,
{
    if done == 0 {
        store
    } else {
        zeroed(store, (done - 1) as nat).with(counter((done - 1) as nat), Entry::Text("0"@))
    }
}

/// Whatever the store answers, as long as it answers as the model allows,
/// the counters that have been set are at zero and nothing else has changed.
pub proof fn init_run(op: InitView, before: Keyspace, now: Keyspace, replies: Seq<ReplyView>)
    requires
        op.done <= 3,
        op.failure is None ==> now == zeroed(before, op.done),
        op.failure matches Some(error) ==> error is Store,
        faithful(op, now, replies),
    ensures
        ({
            let end = run(op, now, replies);
            &&& end.0.pending().succeeded() ==> end.1 == zeroed(before, 3)
            &&& end.0.pending() matches ActionView::Done(Err(error)) ==> error is Store
        }),
    decreases replies.len(),
{
    if replies.len() > 0 {
        match op.pending() {
            ActionView::Call(command) => {
                init_run(
                    op.after(replies[0]),
                    before,
                    now.effect(command, replies[0]),
                    replies.drop_first(),
                );
            },
            _ => {},
        }
    }
}

/// Start-up that has ended well has set the three counters to zero and has
/// touched nothing else. Where it fails, it hands on an error of the store.
pub proof fn init_zeroes_the_counters(store: Keyspace, replies: Seq<ReplyView>)
    requires
        faithful(InitView::start(), store, replies),
    ensures
        ({
            let end = run(InitView::start(), store, replies);
            &&& end.0.pending().succeeded() ==> {
                &&& end.1.entries[EVENTS@] == Entry::Text("0"@)
                &&& end.1.entries[KEYS_EXPIRED@] == Entry::Text("0"@)
                &&& end.1.entries[META_MISSING@] == Entry::Text("0"@)
                &&& forall|physical: Seq<char>|
                    physical != EVENTS@ && physical != KEYS_EXPIRED@ && physical != META_MISSING@
                        ==> #[trigger] same_at(end.1, store, physical)
            }
            &&& end.0.pending() matches ActionView::Done(Err(error)) ==> error is Store
        }),
{
    init_run(InitView::start(), store, store, replies);
    reveal_with_fuel(zeroed, 4);
    reveal_strlit("events");
    reveal_strlit("keys_expired");
    reveal_strlit("meta_missing");
    assert(EVENTS@.len() != KEYS_EXPIRED@.len());
    assert(EVENTS@.len() != META_MISSING@.len());
    assert(KEYS_EXPIRED@[0] != META_MISSING@[0]);
}

} // verus!
