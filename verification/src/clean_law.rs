//! What the clean operation does to the store.
use crate::action::{ActionView, Machine};
use crate::clean::{CleanKeyView, CleanStage, META_MISSING};
use crate::layout::{index_key, meta_key, plain, plain_is_no_key, primary_is_not_meta, primary_key};
use crate::model::{faithful, lists_hash, run, same_at, Keyspace};
use crate::reply::ReplyView;
use vstd::prelude::*;

verus! {

/// `physical` is the key of an index set that the metadata `hash` names: of
/// one of its fields with the field's value.
pub open spec fn indexed_under(
    hash: Map<Seq<char>, Seq<char>>,
    namespace: Seq<char>,
    physical: Seq<char>,
) -> bool {
    exists|name: Seq<char>|
        hash.dom().contains(name) && physical == #[trigger] index_key(namespace, name, hash[name])
}

/// A store that holds under `physical` what is to be there after `key` has
/// been cleaned: what was there before, without `key` where `physical` is the
/// key of an index set that the metadata of `key` named.
pub open spec fn unindexing(
    before: Keyspace,
    namespace: Seq<char>,
    key: Seq<char>,
    physical: Seq<char>,
) -> Keyspace {
    if indexed_under(before.hash(meta_key(namespace, key)), namespace, physical) {
        before.without_member(physical, key)
    } else {
        before
    }
}

/// What the clean operation on `key` has made of the store `before`, where it
/// ended well: the primary entry and the metadata are gone; in each index set
/// that the metadata named, `key` is no member any more; and everything else
/// is as it was, but for the counter of missing metadata.
pub open spec fn cleaned(
    before: Keyspace,
    after: Keyspace,
    namespace: Seq<char>,
    key: Seq<char>,
) -> bool {
    let primary = primary_key(namespace, key);
    let meta = meta_key(namespace, key);
    &&& !after.holds(primary)
    &&& !after.holds(meta)
    &&& forall|physical: Seq<char>|
        physical != primary && physical != meta && physical != META_MISSING@ ==> #[trigger] same_at(
            after,
            unindexing(before, namespace, key, physical),
            physical,
        )
}

/// The key of the index set of pair number `i` of a listing of metadata.
pub open spec fn pair_key(namespace: Seq<char>, listing: Seq<Seq<char>>, i: int) -> Seq<char> {
    index_key(namespace, listing[2 * i], listing[2 * i + 1])
}

/// The store after `key` has left the index sets of the first `n` pairs of a
/// listing of metadata.
pub open spec fn unindexed(
    store: Keyspace,
    namespace: Seq<char>,
    key: Seq<char>,
    listing: Seq<Seq<char>>,
    n: int,
) -> Keyspace
    decreases n,
{
    if n <= 0 {
        store
    } else {
        unindexed(store, namespace, key, listing, n - 1).without_member(
            pair_key(namespace, listing, n - 1),
            key,
        )
    }
}

/// `physical` is the key of the index set of one of the first `n` pairs.
pub open spec fn among_pairs(
    namespace: Seq<char>,
    listing: Seq<Seq<char>>,
    n: int,
    physical: Seq<char>,
) -> bool {
    exists|j: int| 0 <= j < n && #[trigger] pair_key(namespace, listing, j) == physical
}

/// Under each key, the store after the first `n` pairs holds what the store
/// before them held, without `key` where the key is that of one of the pairs.
proof fn unindexed_at(
    store: Keyspace,
    namespace: Seq<char>,
    key: Seq<char>,
    listing: Seq<Seq<char>>,
    n: int,
    physical: Seq<char>,
)
    requires
        0 <= n,
    ensures
        same_at(
            unindexed(store, namespace, key, listing, n),
            if among_pairs(namespace, listing, n, physical) {
                store.without_member(physical, key)
            } else {
                store
            },
            physical,
        ),
    decreases n,
{
    if n > 0 {
        unindexed_at(store, namespace, key, listing, n - 1, physical);
        let earlier = unindexed(store, namespace, key, listing, n - 1);
        let last = pair_key(namespace, listing, n - 1);
        if among_pairs(namespace, listing, n - 1, physical) {
            let j = choose|j: int|
                0 <= j < n - 1 && #[trigger] pair_key(namespace, listing, j) == physical;
            assert(pair_key(namespace, listing, j) == physical);
        }
        if last == physical {
            if store.holds(physical) && store.entries[physical] is Members {
                let set = store.entries[physical]->Members_0;
                assert(set.remove(key).remove(key) =~= set.remove(key));
            }
        } else if among_pairs(namespace, listing, n, physical) {
            let j = choose|j: int|
                0 <= j < n && #[trigger] pair_key(namespace, listing, j) == physical;
            assert(j < n - 1);
        }
    }
}

/// How the store stands to the store before the operation began, at each
/// stage of a clean operation.
pub open spec fn clean_inv(
    op: CleanKeyView,
    namespace: Seq<char>,
    key: Seq<char>,
    before: Keyspace,
    now: Keyspace,
) -> bool {
    let meta = meta_key(namespace, key);
    let base = before.without(primary_key(namespace, key));
    &&& op.namespace == namespace
    &&& op.key == key
    &&& op.well_formed()
    &&& op.stage != CleanStage::Finished ==> op.failure is None
    &&& match op.stage {
        CleanStage::DeletePrimary => now == before,
        CleanStage::ReadMeta => now == base,
        CleanStage::Unindex => lists_hash(op.meta, base.hash(meta)) && now == unindexed(
            base,
            namespace,
            key,
            op.meta,
            op.at as int,
        ),
        CleanStage::DeleteMeta => lists_hash(op.meta, base.hash(meta)) && now == unindexed(
            base,
            namespace,
            key,
            op.meta,
            op.pairs() as int,
        ),
        CleanStage::CountMissing => !base.holds(meta) && now == base,
        CleanStage::Finished => match op.failure {
            None => cleaned(before, now, namespace, key),
            Some(error) => error is Store,
        },
    }
}

/// The name of the counter of missing metadata holds no separator.
pub proof fn counter_is_plain()
    ensures
        plain(META_MISSING@),
{
    reveal_strlit("meta_missing");
    let name = META_MISSING@;
    assert forall|i: int| 0 <= i < name.len() implies name[i] != ':' by {}
}

/// With the last pair done and the metadata deleted, the store is cleaned.
proof fn cleaned_with_meta(
    before: Keyspace,
    namespace: Seq<char>,
    key: Seq<char>,
    listing: Seq<Seq<char>>,
)
    requires
        lists_hash(listing, before.without(primary_key(namespace, key)).hash(meta_key(namespace, key))),
    ensures
        cleaned(
            before,
            unindexed(
                before.without(primary_key(namespace, key)),
                namespace,
                key,
                listing,
                listing.len() as int / 2,
            ).without(meta_key(namespace, key)),
            namespace,
            key,
        ),
{
    let primary = primary_key(namespace, key);
    let meta = meta_key(namespace, key);
    let base = before.without(primary);
    let n = listing.len() as int / 2;
    let done = unindexed(base, namespace, key, listing, n);
    let after = done.without(meta);
    primary_is_not_meta(namespace, key);
    assert(base.hash(meta) == before.hash(meta));
    let hash = before.hash(meta);
    unindexed_at(base, namespace, key, listing, n, primary);
    assert forall|physical: Seq<char>|
        physical != primary && physical != meta && physical != META_MISSING@ implies #[trigger] same_at(
        after,
        unindexing(before, namespace, key, physical),
        physical,
    ) by {
        unindexed_at(base, namespace, key, listing, n, physical);
        if among_pairs(namespace, listing, n, physical) {
            let j = choose|j: int|
                0 <= j < n && #[trigger] pair_key(namespace, listing, j) == physical;
            assert(hash.dom().contains(listing[2 * j]));
            assert(physical == index_key(namespace, listing[2 * j], hash[listing[2 * j]]));
        }
        if indexed_under(hash, namespace, physical) {
            let name = choose|name: Seq<char>|
                hash.dom().contains(name) && physical == #[trigger] index_key(
                    namespace,
                    name,
                    hash[name],
                );
            let i = choose|i: int| 0 <= i < listing.len() / 2 && #[trigger] listing[2 * i] == name;
            assert(pair_key(namespace, listing, i) == physical);
        }
    }
}

/// One step of a clean operation keeps the store as the stage says.
pub proof fn clean_step(
    op: CleanKeyView,
    namespace: Seq<char>,
    key: Seq<char>,
    before: Keyspace,
    now: Keyspace,
    reply: ReplyView,
)
    requires
        before.sound(),
        clean_inv(op, namespace, key, before, now),
        op.pending() matches ActionView::Call(command) && now.admits(command, reply),
    ensures
        clean_inv(op.after(reply), namespace, key, before, now.effect(op.pending()->Call_0, reply)),
{
    let primary = primary_key(namespace, key);
    let meta = meta_key(namespace, key);
    let base = before.without(primary);
    let next = op.after(reply);
    let then = now.effect(op.pending()->Call_0, reply);
    if reply is Error {
    } else {
        match op.stage {
            CleanStage::DeletePrimary => {},
            CleanStage::ReadMeta => {
                if op.after(reply).stage == CleanStage::CountMissing {
                    if base.holds(meta) {
                        assert(before.holds(meta));
                        let field = choose|field: Seq<char>|
                            base.hash(meta).dom().contains(field);
                        assert(base.hash(meta).dom().contains(field));
                    }
                }
            },
            CleanStage::Unindex => {
                assert(then == unindexed(base, namespace, key, op.meta, op.at as int + 1));
            },
            CleanStage::DeleteMeta => {
                cleaned_with_meta(before, namespace, key, op.meta);
            },
            CleanStage::CountMissing => {
                counter_is_plain();
                plain_is_no_key(META_MISSING@, namespace, key, key);
                primary_is_not_meta(namespace, key);
                assert(before.hash(meta) =~= Map::empty());
                assert forall|physical: Seq<char>|
                    physical != primary && physical != meta && physical
                        != META_MISSING@ implies #[trigger] same_at(
                    then,
                    unindexing(before, namespace, key, physical),
                    physical,
                ) by {}
            },
            CleanStage::Finished => {},
        }
    }
}

/// Whatever the store answers, as long as it answers as the model allows, the
/// store stays as the stage of the clean operation says.
pub proof fn clean_run(
    op: CleanKeyView,
    namespace: Seq<char>,
    key: Seq<char>,
    before: Keyspace,
    now: Keyspace,
    replies: Seq<ReplyView>,
)
    requires
        before.sound(),
        clean_inv(op, namespace, key, before, now),
        faithful(op, now, replies),
    ensures
        clean_inv(run(op, now, replies).0, namespace, key, before, run(op, now, replies).1),
    decreases replies.len(),
{
    if replies.len() > 0 {
        match op.pending() {
            ActionView::Call(command) => {
                clean_step(op, namespace, key, before, now, replies[0]);
                clean_run(
                    op.after(replies[0]),
                    namespace,
                    key,
                    before,
                    now.effect(command, replies[0]),
                    replies.drop_first(),
                );
            },
            _ => {},
        }
    }
}

/// A clean operation that has ended well has removed the primary entry and
/// the metadata of its key, and the key from every index set that the
/// metadata named; it has changed nothing else, but for the counter of
/// missing metadata.
pub proof fn clean_removes_all_traces(
    namespace: Seq<char>,
    key: Seq<char>,
    store: Keyspace,
    replies: Seq<ReplyView>,
)
    requires
        store.sound(),
        faithful(CleanKeyView::start(namespace, key), store, replies),
        run(CleanKeyView::start(namespace, key), store, replies).0.pending().succeeded(),
    ensures
        cleaned(store, run(CleanKeyView::start(namespace, key), store, replies).1, namespace, key),
{
    clean_run(CleanKeyView::start(namespace, key), namespace, key, store, store, replies);
}

/// A clean operation raises no error of its own: where it fails, the store
/// has answered with an error, and the operation hands that error on.
pub proof fn clean_fails_only_with_the_store(
    namespace: Seq<char>,
    key: Seq<char>,
    store: Keyspace,
    replies: Seq<ReplyView>,
)
    requires
        store.sound(),
        faithful(CleanKeyView::start(namespace, key), store, replies),
    ensures
        run(CleanKeyView::start(namespace, key), store, replies).0.pending() matches ActionView::Done(
            Err(error),
        ) ==> error is Store,
{
    clean_run(CleanKeyView::start(namespace, key), namespace, key, store, store, replies);
}

/// How the store stands while a key is cleaned of which nothing is left: as
/// it was, but for the counter of missing metadata.
pub open spec fn idle_inv(
    op: CleanKeyView,
    namespace: Seq<char>,
    key: Seq<char>,
    before: Keyspace,
    now: Keyspace,
) -> bool {
    &&& op.namespace == namespace
    &&& op.key == key
    &&& now.same_but(before, META_MISSING@)
    &&& !now.holds(primary_key(namespace, key))
    &&& !now.holds(meta_key(namespace, key))
    &&& op.stage == CleanStage::DeletePrimary || op.stage == CleanStage::ReadMeta || op.stage
        == CleanStage::CountMissing || op.stage == CleanStage::Finished
    &&& op.failure matches Some(error) ==> error is Store
}

/// Whatever the store answers, as long as it answers as the model allows,
/// cleaning a key of which nothing is left changes nothing but the counter.
pub proof fn idle_run(
    op: CleanKeyView,
    namespace: Seq<char>,
    key: Seq<char>,
    before: Keyspace,
    now: Keyspace,
    replies: Seq<ReplyView>,
)
    requires
        idle_inv(op, namespace, key, before, now),
        faithful(op, now, replies),
    ensures
        idle_inv(run(op, now, replies).0, namespace, key, before, run(op, now, replies).1),
    decreases replies.len(),
{
    if replies.len() > 0 {
        match op.pending() {
            ActionView::Call(command) => {
                let reply = replies[0];
                let then = now.effect(command, reply);
                counter_is_plain();
                plain_is_no_key(META_MISSING@, namespace, key, key);
                if op.stage == CleanStage::DeletePrimary && !(reply is Error) {
                    assert(then.entries =~= now.entries);
                }
                if op.stage == CleanStage::ReadMeta && !(reply is Error) {
                    let listing = op.after(reply).meta;
                    if listing.len() >= 2 {
                        assert(now.hash(meta_key(namespace, key)).dom().contains(listing[2 * 0int]));
                    }
                }
                let next = op.after(reply);
                assert forall|any: Seq<char>| any != META_MISSING@ implies #[trigger] same_at(
                    then,
                    before,
                    any,
                ) by {
                    assert(same_at(now, before, any));
                }
                assert(!then.holds(primary_key(namespace, key)));
                assert(!then.holds(meta_key(namespace, key)));
                assert(next.stage == CleanStage::DeletePrimary || next.stage == CleanStage::ReadMeta
                    || next.stage == CleanStage::CountMissing || next.stage
                    == CleanStage::Finished);
                assert(next.failure matches Some(error) ==> error is Store);
                idle_run(op.after(reply), namespace, key, before, then, replies.drop_first());
            },
            _ => {},
        }
    }
}

/// The clean operation is idempotent: after a clean operation on a key that
/// ended well, a second one on the same key leaves the store as the first
/// left it, but for the counter of missing metadata, and raises no error of
/// its own.
pub proof fn clean_twice_is_clean_once(
    namespace: Seq<char>,
    key: Seq<char>,
    store: Keyspace,
    first: Seq<ReplyView>,
    second: Seq<ReplyView>,
)
    requires
        store.sound(),
        faithful(CleanKeyView::start(namespace, key), store, first),
        run(CleanKeyView::start(namespace, key), store, first).0.pending().succeeded(),
        faithful(
            CleanKeyView::start(namespace, key),
            run(CleanKeyView::start(namespace, key), store, first).1,
            second,
        ),
    ensures
        ({
            let once = run(CleanKeyView::start(namespace, key), store, first).1;
            let again = run(CleanKeyView::start(namespace, key), once, second);
            &&& again.1.same_but(once, META_MISSING@)
            &&& again.0.pending() matches ActionView::Done(Err(error)) ==> error is Store
        }),
{
    let start = CleanKeyView::start(namespace, key);
    clean_removes_all_traces(namespace, key, store, first);
    let once = run(start, store, first).1;
    idle_run(start, namespace, key, once, once, second);
}

} // verus!
