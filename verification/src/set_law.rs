//! What an indexed write does to the store.
use crate::action::{ActionView, Machine};
use crate::clean::{CleanKeyView, CleanStage, META_MISSING};
use crate::clean_law::{clean_inv, clean_step, cleaned, counter_is_plain, unindexing};
use crate::layout::{
    index_key, meta_is_not_index, meta_key, plain, plain_is_no_key, primary_is_not_index,
    primary_is_not_meta, primary_key,
};
use crate::model::{effect_keeps_sound, faithful, run, same_at, written, Entry, Keyspace};
use crate::reply::ReplyView;
use crate::sequences::{interleaved, interleaved_pairs};
use crate::set::{RowView, SetIndexedView, SetStage};
use vstd::prelude::*;

verus! {

/// The hash holds the `names` as its fields, and under each name the value at
/// the same place of `values`.
pub open spec fn records(
    hash: Map<Seq<char>, Seq<char>>,
    names: Seq<Seq<char>>,
    values: Seq<Seq<char>>,
) -> bool {
    &&& forall|i: int|
        0 <= i < names.len() ==> hash.dom().contains(#[trigger] names[i]) && hash[names[i]]
            == values[i]
    &&& forall|field: Seq<char>| hash.dom().contains(field) ==> names.contains(field)
}

/// Writing names and values in turn into a hash puts each value under its
/// name, and leaves the other fields as they were.
pub proof fn written_interleaved(
    hash: Map<Seq<char>, Seq<char>>,
    names: Seq<Seq<char>>,
    values: Seq<Seq<char>>,
)
    requires
        names.len() == values.len(),
        names.no_duplicates(),
    ensures
        forall|field: Seq<char>| #[trigger]
            written(hash, interleaved(names, values)).dom().contains(field)
                ==> hash.dom().contains(field) || names.contains(field),
        forall|field: Seq<char>| #[trigger]
            hash.dom().contains(field) ==> written(hash, interleaved(names, values)).dom().contains(
                field,
            ) && (!names.contains(field) ==> written(hash, interleaved(names, values))[field]
                == hash[field]),
        forall|i: int|
            0 <= i < names.len() ==> written(hash, interleaved(names, values)).dom().contains(
                #[trigger] names[i],
            ) && written(hash, interleaved(names, values))[names[i]] == values[i],
    decreases names.len(),
{
    let entries = interleaved(names, values);
    let all = written(hash, entries);
    if names.len() == 0 {
        assert(entries.len() == 0);
        assert(all == hash);
    } else {
        let rest_names = names.drop_first();
        let rest_values = values.drop_first();
        let rest = interleaved(rest_names, rest_values);
        interleaved_pairs(names, values);
        assert(interleaved(values, rest_names) =~= seq![values[0]] + rest);
        assert(entries =~= seq![names[0], values[0]] + rest);
        assert(entries.skip(2) =~= rest);
        let first = hash.insert(names[0], values[0]);
        written_interleaved(first, rest_names, rest_values);
        assert(all == written(first, rest));
        assert(!rest_names.contains(names[0])) by {
            if rest_names.contains(names[0]) {
                let j = choose|j: int| 0 <= j < rest_names.len() && rest_names[j] == names[0];
                assert(names[j + 1] == names[0]);
            }
        }
        assert(first.dom().contains(names[0]));
        assert forall|field: Seq<char>| #[trigger] all.dom().contains(field) implies hash.dom().contains(
            field,
        ) || names.contains(field) by {
            assert(written(first, rest).dom().contains(field));
            if rest_names.contains(field) {
                let j = choose|j: int| 0 <= j < rest_names.len() && rest_names[j] == field;
                assert(names[j + 1] == field);
            }
            if first.dom().contains(field) && !hash.dom().contains(field) {
                assert(field == names[0]);
            }
        }
        assert forall|field: Seq<char>| #[trigger] hash.dom().contains(field) implies all.dom().contains(
            field,
        ) && (!names.contains(field) ==> all[field] == hash[field]) by {
            assert(first.dom().contains(field));
            if !names.contains(field) {
                assert(names[0] != field);
                if rest_names.contains(field) {
                    let j = choose|j: int| 0 <= j < rest_names.len() && rest_names[j] == field;
                    assert(names[j + 1] == field);
                }
            }
        }
        assert forall|i: int| 0 <= i < names.len() implies all.dom().contains(#[trigger] names[i])
            && all[names[i]] == values[i] by {
            if i > 0 {
                assert(rest_names[i - 1] == names[i]);
                assert(rest_values[i - 1] == values[i]);
            }
        }
    }
}

/// A store that holds under `physical` what is there once the key has been
/// cleaned where it had metadata: what the clean operation leaves, or what
/// was there before where the key had no metadata.
pub open spec fn precleaning(
    before: Keyspace,
    namespace: Seq<char>,
    key: Seq<char>,
    physical: Seq<char>,
) -> Keyspace {
    if before.holds(meta_key(namespace, key)) {
        unindexing(before, namespace, key, physical)
    } else {
        before
    }
}

/// `physical` is the key of the index set of one of the first `n` pairs of
/// names and values.
pub open spec fn among_indices(
    namespace: Seq<char>,
    names: Seq<Seq<char>>,
    values: Seq<Seq<char>>,
    n: int,
    physical: Seq<char>,
) -> bool {
    exists|j: int| 0 <= j < n && #[trigger] index_key(namespace, names[j], values[j]) == physical
}

/// A store that holds under `physical` what is there once the key has been
/// added to the index sets of the first `n` pairs: the set with the key in it
/// where `physical` is the key of one of them, else what `base` holds.
pub open spec fn indexing(
    base: Keyspace,
    namespace: Seq<char>,
    key: Seq<char>,
    names: Seq<Seq<char>>,
    values: Seq<Seq<char>>,
    n: int,
    physical: Seq<char>,
) -> Keyspace {
    if among_indices(namespace, names, values, n, physical) {
        base.with(physical, Entry::Members(base.members(physical).insert(key)))
    } else {
        base
    }
}

/// The store while a row is written: the value is there, the metadata is not
/// there yet, and the key has been added to the index sets of the first `n`
/// pairs.
pub open spec fn progress(
    before: Keyspace,
    now: Keyspace,
    namespace: Seq<char>,
    names: Seq<Seq<char>>,
    row: RowView,
    n: int,
) -> bool {
    let primary = primary_key(namespace, row.key);
    let meta = meta_key(namespace, row.key);
    &&& now.holds(primary)
    &&& now.entries[primary] == Entry::Text(row.value)
    &&& !now.holds(meta)
    &&& forall|physical: Seq<char>|
        physical != primary && physical != meta && physical != META_MISSING@ ==> #[trigger] same_at(
            now,
            indexing(
                precleaning(before, namespace, row.key, physical),
                namespace,
                row.key,
                names,
                row.index_values,
                n,
                physical,
            ),
            physical,
        )
}

/// What the write of one row has made of the store `before`, where it ended
/// well: the value is under the primary key; the metadata records the pairs
/// of the row, and is not there where the row has none; the key is a member
/// of the index set of each pair; in the index sets that its earlier metadata
/// named and the row does not, it is no member any more; and everything
/// else is as it was, but for the counter of missing metadata.
pub open spec fn stored(
    before: Keyspace,
    after: Keyspace,
    namespace: Seq<char>,
    names: Seq<Seq<char>>,
    row: RowView,
) -> bool {
    let primary = primary_key(namespace, row.key);
    let meta = meta_key(namespace, row.key);
    &&& after.holds(primary)
    &&& after.entries[primary] == Entry::Text(row.value)
    &&& names.len() == 0 ==> !after.holds(meta)
    &&& names.len() > 0 ==> after.holds(meta) && after.entries[meta] is Hash && records(
        after.hash(meta),
        names,
        row.index_values,
    )
    &&& forall|physical: Seq<char>|
        physical != primary && physical != meta && physical != META_MISSING@ ==> #[trigger] same_at(
            after,
            indexing(
                precleaning(before, namespace, row.key, physical),
                namespace,
                row.key,
                names,
                row.index_values,
                names.len() as int,
                physical,
            ),
            physical,
        )
}

/// How the store stands to the store at the beginning of the current row, at
/// each stage of a write.
pub open spec fn write_inv(
    op: SetIndexedView,
    namespace: Seq<char>,
    names: Seq<Seq<char>>,
    rows: Seq<RowView>,
    base: Keyspace,
    now: Keyspace,
) -> bool {
    let row = rows[op.row as int];
    let primary = primary_key(namespace, row.key);
    let meta = meta_key(namespace, row.key);
    &&& op.namespace == namespace
    &&& op.indices == names
    &&& op.rows == rows
    &&& op.well_formed()
    &&& base.sound()
    &&& op.stage != SetStage::Finished ==> op.failure is None
    &&& match op.stage {
        SetStage::CheckMeta => now == base && op.clean == CleanKeyView::start(namespace, row.key),
        SetStage::PreClean => {
            &&& base.holds(meta)
            &&& clean_inv(op.clean, namespace, row.key, base, now)
            &&& op.clean.stage != CleanStage::Finished
        },
        SetStage::WritePrimary => {
            &&& !now.holds(meta)
            &&& forall|physical: Seq<char>|
                physical != primary && physical != meta && physical != META_MISSING@
                    ==> #[trigger] same_at(
                    now,
                    precleaning(base, namespace, row.key, physical),
                    physical,
                )
        },
        SetStage::AddIndex => progress(base, now, namespace, names, row, op.index as int),
        SetStage::WriteMeta => names.len() > 0 && progress(
            base,
            now,
            namespace,
            names,
            row,
            names.len() as int,
        ),
        SetStage::Finished => op.failure matches Some(error) ==> error is Store,
    }
}

/// The rows have been stored one after the other: see [`stored`].
pub open spec fn all_stored(
    before: Keyspace,
    after: Keyspace,
    namespace: Seq<char>,
    names: Seq<Seq<char>>,
    rows: Seq<RowView>,
) -> bool
    decreases rows.len(),
{
    if rows.len() == 0 {
        after == before
    } else {
        exists|between: Keyspace| #[trigger]
            stored(before, between, namespace, names, rows[0]) && all_stored(
                between,
                after,
                namespace,
                names,
                rows.drop_first(),
            )
    }
}

/// One step of a write keeps the store as the stage says. Where the step is
/// the last of a row, the row has been stored, and the store as it is then is
/// where the next row begins.
pub proof fn write_step(
    op: SetIndexedView,
    namespace: Seq<char>,
    names: Seq<Seq<char>>,
    rows: Seq<RowView>,
    base: Keyspace,
    now: Keyspace,
    reply: ReplyView,
)
    requires
        plain(namespace),
        names.no_duplicates(),
        write_inv(op, namespace, names, rows, base, now),
        now.sound(),
        op.pending() matches ActionView::Call(command) && now.admits(command, reply),
    ensures
        ({
            let next = op.after(reply);
            let then = now.effect(op.pending()->Call_0, reply);
            if next.failure is Some {
                next.stage == SetStage::Finished && next.failure->0 is Store
            } else if next.row == op.row {
                write_inv(next, namespace, names, rows, base, then)
            } else {
                &&& next.row == op.row + 1
                &&& stored(base, then, namespace, names, rows[op.row as int])
                &&& write_inv(next, namespace, names, rows, then, then)
            }
        }),
{
    let row = rows[op.row as int];
    let key = row.key;
    let values = row.index_values;
    let primary = primary_key(namespace, key);
    let meta = meta_key(namespace, key);
    let next = op.after(reply);
    let then = now.effect(op.pending()->Call_0, reply);
    primary_is_not_meta(namespace, key);
    counter_is_plain();
    plain_is_no_key(META_MISSING@, namespace, key, key);
    effect_keeps_sound(now, op.pending()->Call_0, reply);
    assert(values.len() == names.len());
    match op.stage {
        SetStage::CheckMeta => {
            if next.stage == SetStage::WritePrimary {
                assert forall|physical: Seq<char>|
                    physical != primary && physical != meta && physical
                        != META_MISSING@ implies #[trigger] same_at(
                    then,
                    precleaning(base, namespace, key, physical),
                    physical,
                ) by {}
            }
        },
        SetStage::PreClean => {
            clean_step(op.clean, namespace, key, base, now, reply);
            if next.stage == SetStage::WritePrimary {
                assert(cleaned(base, then, namespace, key));
                assert forall|physical: Seq<char>|
                    physical != primary && physical != meta && physical
                        != META_MISSING@ implies #[trigger] same_at(
                    then,
                    precleaning(base, namespace, key, physical),
                    physical,
                ) by {
                    assert(same_at(then, unindexing(base, namespace, key, physical), physical));
                }
            }
        },
        SetStage::WritePrimary => {
            if !(reply is Error) {
                assert forall|physical: Seq<char>|
                    physical != primary && physical != meta && physical
                        != META_MISSING@ implies #[trigger] same_at(
                    then,
                    indexing(
                        precleaning(base, namespace, key, physical),
                        namespace,
                        key,
                        names,
                        values,
                        0,
                        physical,
                    ),
                    physical,
                ) by {
                    assert(same_at(now, precleaning(base, namespace, key, physical), physical));
                }
                if names.len() == 0 {
                    assert(stored(base, then, namespace, names, row));
                } else {
                    assert(progress(base, then, namespace, names, row, 0));
                }
            }
        },
        SetStage::AddIndex => {
            if !(reply is Error) {
                let j = op.index as int;
                let target = index_key(namespace, names[j], values[j]);
                primary_is_not_index(namespace, key, names[j], values[j]);
                meta_is_not_index(namespace, key, namespace, names[j], values[j]);
                assert forall|physical: Seq<char>|
                    physical != primary && physical != meta && physical
                        != META_MISSING@ implies #[trigger] same_at(
                    then,
                    indexing(
                        precleaning(base, namespace, key, physical),
                        namespace,
                        key,
                        names,
                        values,
                        j + 1,
                        physical,
                    ),
                    physical,
                ) by {
                    let cleaned_base = precleaning(base, namespace, key, physical);
                    assert(same_at(
                        now,
                        indexing(cleaned_base, namespace, key, names, values, j, physical),
                        physical,
                    ));
                    if physical == target {
                        assert(index_key(namespace, names[j], values[j]) == physical);
                        assert(among_indices(namespace, names, values, j + 1, physical));
                        if among_indices(namespace, names, values, j, physical) {
                            assert(cleaned_base.members(physical).insert(key).insert(key)
                                =~= cleaned_base.members(physical).insert(key));
                        }
                    } else {
                        if among_indices(namespace, names, values, j + 1, physical) {
                            let i = choose|i: int|
                                0 <= i < j + 1 && #[trigger] index_key(
                                    namespace,
                                    names[i],
                                    values[i],
                                ) == physical;
                            assert(i < j);
                        }
                        if among_indices(namespace, names, values, j, physical) {
                            let i = choose|i: int|
                                0 <= i < j && #[trigger] index_key(namespace, names[i], values[i])
                                    == physical;
                            assert(index_key(namespace, names[i], values[i]) == physical);
                        }
                    }
                }
                assert(progress(base, then, namespace, names, row, j + 1));
            }
        },
        SetStage::WriteMeta => {
            if !(reply is Error) {
                written_interleaved(Map::empty(), names, values);
                assert(now.hash(meta) =~= Map::empty());
                let hash = written(Map::empty(), interleaved(names, values));
                assert(then.hash(meta) == hash);
                assert(records(hash, names, values));
                assert forall|physical: Seq<char>|
                    physical != primary && physical != meta && physical
                        != META_MISSING@ implies #[trigger] same_at(
                    then,
                    indexing(
                        precleaning(base, namespace, key, physical),
                        namespace,
                        key,
                        names,
                        values,
                        names.len() as int,
                        physical,
                    ),
                    physical,
                ) by {
                    assert(same_at(
                        now,
                        indexing(
                            precleaning(base, namespace, key, physical),
                            namespace,
                            key,
                            names,
                            values,
                            names.len() as int,
                            physical,
                        ),
                        physical,
                    ));
                }
                assert(stored(base, then, namespace, names, row));
            }
        },
        SetStage::Finished => {},
    }
}

/// Whatever the store answers, as long as it answers as the model allows: a
/// write that ends well has stored the current row and the rows behind it,
/// one after the other; and a write that fails hands on an error of the
/// store.
pub proof fn write_run(
    op: SetIndexedView,
    namespace: Seq<char>,
    names: Seq<Seq<char>>,
    rows: Seq<RowView>,
    base: Keyspace,
    now: Keyspace,
    replies: Seq<ReplyView>,
)
    requires
        plain(namespace),
        names.no_duplicates(),
        op.stage != SetStage::Finished,
        write_inv(op, namespace, names, rows, base, now),
        now.sound(),
        faithful(op, now, replies),
    ensures
        ({
            let end = run(op, now, replies);
            &&& end.0.pending().succeeded() ==> exists|between: Keyspace| #[trigger]
                stored(base, between, namespace, names, rows[op.row as int]) && all_stored(
                    between,
                    end.1,
                    namespace,
                    names,
                    rows.skip(op.row as int + 1),
                )
            &&& end.0.pending() matches ActionView::Done(Err(error)) ==> error is Store
        }),
    decreases replies.len(),
{
    let end = run(op, now, replies);
    if replies.len() > 0 {
        match op.pending() {
            ActionView::Call(command) => {
                let reply = replies[0];
                let next = op.after(reply);
                let then = now.effect(command, reply);
                let rest = replies.drop_first();
                let later = rows.skip(op.row as int + 1);
                write_step(op, namespace, names, rows, base, now, reply);
                effect_keeps_sound(now, command, reply);
                assert(end == run(next, then, rest));
                if next.failure is Some {
                } else if next.stage == SetStage::Finished {
                    assert(end == (next, then));
                    assert(later.len() == 0);
                    assert(stored(base, then, namespace, names, rows[op.row as int]) && all_stored(
                        then,
                        then,
                        namespace,
                        names,
                        later,
                    ));
                } else if next.row == op.row {
                    write_run(next, namespace, names, rows, base, then, rest);
                } else {
                    write_run(next, namespace, names, rows, then, then, rest);
                    if end.0.pending().succeeded() {
                        assert(later[0] == rows[next.row as int]);
                        assert(later.drop_first() =~= rows.skip(next.row as int + 1));
                        assert(all_stored(then, end.1, namespace, names, later));
                        assert(stored(base, then, namespace, names, rows[op.row as int])
                            && all_stored(then, end.1, namespace, names, later));
                    }
                }
            },
            ActionView::Schedule { .. } => {
                assert(op.stage == SetStage::PreClean);
            },
            ActionView::Done(_) => {
                assert(op.stage == SetStage::PreClean);
            },
        }
    }
}

/// An indexed write that has ended well has stored its rows, one after the
/// other: see [`stored`]. A write that fails hands on an error of the store:
/// it raises none of its own.
pub proof fn write_stores_the_rows(
    namespace: Seq<char>,
    expiry: Seq<char>,
    names: Seq<Seq<char>>,
    rows: Seq<RowView>,
    store: Keyspace,
    replies: Seq<ReplyView>,
)
    requires
        store.sound(),
        plain(namespace),
        names.no_duplicates(),
        forall|r: int| 0 <= r < rows.len() ==> (#[trigger] rows[r]).index_values.len() == names.len(),
        faithful(SetIndexedView::start(namespace, expiry, names, rows), store, replies),
    ensures
        ({
            let end = run(SetIndexedView::start(namespace, expiry, names, rows), store, replies);
            &&& end.0.pending().succeeded() ==> all_stored(store, end.1, namespace, names, rows)
            &&& end.0.pending() matches ActionView::Done(Err(error)) ==> error is Store
        }),
{
    let start = SetIndexedView::start(namespace, expiry, names, rows);
    if rows.len() > 0 {
        write_run(start, namespace, names, rows, store, store, replies);
        assert(rows.skip(1) =~= rows.drop_first());
    } else {
        assert(start.stage == SetStage::Finished);
        if replies.len() > 0 {
            assert(run(start, store, replies) == (start, store));
        }
    }
}

/// An indexed write of one row that has ended well has stored the row: see
/// [`stored`].
pub proof fn write_stores_the_row(
    namespace: Seq<char>,
    expiry: Seq<char>,
    names: Seq<Seq<char>>,
    row: RowView,
    store: Keyspace,
    replies: Seq<ReplyView>,
)
    requires
        store.sound(),
        plain(namespace),
        names.no_duplicates(),
        row.index_values.len() == names.len(),
        faithful(SetIndexedView::start(namespace, expiry, names, seq![row]), store, replies),
        run(
            SetIndexedView::start(namespace, expiry, names, seq![row]),
            store,
            replies,
        ).0.pending().succeeded(),
    ensures
        stored(
            store,
            run(SetIndexedView::start(namespace, expiry, names, seq![row]), store, replies).1,
            namespace,
            names,
            row,
        ),
{
    let rows = seq![row];
    assert(rows[0] == row);
    write_stores_the_rows(namespace, expiry, names, rows, store, replies);
    let end = run(SetIndexedView::start(namespace, expiry, names, rows), store, replies);
    assert(all_stored(store, end.1, namespace, names, rows));
    let between = choose|between: Keyspace| #[trigger]
        stored(store, between, namespace, names, rows[0]) && all_stored(
            between,
            end.1,
            namespace,
            names,
            rows.drop_first(),
        );
    assert(rows.drop_first().len() == 0);
    assert(between == end.1);
}

} // verus!
