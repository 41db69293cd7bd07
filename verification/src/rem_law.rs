//! What the removals do to the store.
use crate::action::{ActionView, Machine};
use crate::clean::CleanStage;
use crate::clean_law::{clean_inv, clean_step, cleaned};
use crate::layout::index_key;
use crate::model::{effect_keeps_sound, faithful, lists_set, run, Keyspace};
use crate::rem::RemoveView;
use crate::rem_by_index::RemoveByIndexView;
use crate::reply::{count_of, texts_of, ReplyView};
use vstd::prelude::*;

verus! {

/// The keys have been cleaned one after the other: see [`cleaned`].
pub open spec fn all_cleaned(
    before: Keyspace,
    after: Keyspace,
    namespace: Seq<char>,
    keys: Seq<Seq<char>>,
) -> bool
    decreases keys.len(),
{
    if keys.len() == 0 {
        after == before
    } else {
        exists|between: Keyspace| #[trigger]
            cleaned(before, between, namespace, keys[0]) && all_cleaned(
                between,
                after,
                namespace,
                keys.drop_first(),
            )
    }
}

/// How the store stands to the store at the beginning of the clean operation
/// for the current key of a removal.
pub open spec fn remove_inv(
    op: RemoveView,
    namespace: Seq<char>,
    keys: Seq<Seq<char>>,
    base: Keyspace,
    now: Keyspace,
) -> bool {
    &&& op.namespace == namespace
    &&& op.keys == keys
    &&& base.sound()
    &&& match op.failure {
        Some(error) => error is Store,
        None => op.at < keys.len() ==> clean_inv(
            op.clean,
            namespace,
            keys[op.at as int],
            base,
            now,
        ) && op.clean.stage != CleanStage::Finished,
    }
}

/// Whatever the store answers, as long as it answers as the model allows: a
/// removal that ends well has cleaned the current key and the keys behind
/// it, one after the other, and says how many keys it was given; and a
/// removal that fails hands on an error of the store.
pub proof fn remove_run(
    op: RemoveView,
    namespace: Seq<char>,
    keys: Seq<Seq<char>>,
    base: Keyspace,
    now: Keyspace,
    replies: Seq<ReplyView>,
)
    requires
        op.failure is None,
        op.at < keys.len(),
        remove_inv(op, namespace, keys, base, now),
        now.sound(),
        faithful(op, now, replies),
    ensures
        ({
            let end = run(op, now, replies);
            match end.0.pending() {
                ActionView::Done(Ok(reply)) => {
                    &&& reply == ReplyView::Integer(count_of(keys.len()))
                    &&& exists|between: Keyspace| #[trigger]
                        cleaned(base, between, namespace, keys[op.at as int]) && all_cleaned(
                            between,
                            end.1,
                            namespace,
                            keys.skip(op.at as int + 1),
                        )
                },
                ActionView::Done(Err(error)) => error is Store,
                _ => true,
            }
        }),
    decreases replies.len(),
{
    let end = run(op, now, replies);
    if replies.len() > 0 {
        match op.pending() {
            ActionView::Call(command) => {
                let reply = replies[0];
                let next = op.after(reply);
                let then = now.effect(command, reply);
                let rest = replies.drop_first();
                let later = keys.skip(op.at as int + 1);
                clean_step(op.clean, namespace, keys[op.at as int], base, now, reply);
                effect_keeps_sound(now, command, reply);
                assert(end == run(next, then, rest));
                if next.failure is Some {
                    assert(next.pending() == ActionView::Done(Err(next.failure->0)));
                } else if next.at == op.at {
                    remove_run(next, namespace, keys, base, then, rest);
                } else if next.at >= keys.len() {
                    assert(end == (next, then));
                    assert(later.len() == 0);
                    assert(cleaned(base, then, namespace, keys[op.at as int]) && all_cleaned(
                        then,
                        then,
                        namespace,
                        later,
                    ));
                } else {
                    remove_run(next, namespace, keys, then, then, rest);
                    if end.0.pending().succeeded() {
                        assert(later[0] == keys[next.at as int]);
                        assert(later.drop_first() =~= keys.skip(next.at as int + 1));
                        assert(all_cleaned(then, end.1, namespace, later));
                        assert(cleaned(base, then, namespace, keys[op.at as int]) && all_cleaned(
                            then,
                            end.1,
                            namespace,
                            later,
                        ));
                    }
                }
            },
            ActionView::Schedule { .. } => {},
            ActionView::Done(_) => {},
        }
    }
}

/// A removal that has ended well has cleaned its keys, one after the other,
/// and says how many keys it was given. A removal that fails hands on an
/// error of the store: it raises none of its own.
pub proof fn remove_cleans_the_keys(
    namespace: Seq<char>,
    keys: Seq<Seq<char>>,
    store: Keyspace,
    replies: Seq<ReplyView>,
)
    requires
        store.sound(),
        faithful(RemoveView::start(namespace, keys), store, replies),
    ensures
        ({
            let end = run(RemoveView::start(namespace, keys), store, replies);
            match end.0.pending() {
                ActionView::Done(Ok(reply)) => reply == ReplyView::Integer(count_of(keys.len()))
                    && all_cleaned(store, end.1, namespace, keys),
                ActionView::Done(Err(error)) => error is Store,
                _ => true,
            }
        }),
{
    let start = RemoveView::start(namespace, keys);
    if keys.len() > 0 {
        remove_run(start, namespace, keys, store, store, replies);
        assert(keys.skip(1) =~= keys.drop_first());
    } else if replies.len() > 0 {
        assert(run(start, store, replies) == (start, store));
    }
}

/// The removal of one key that has ended well has cleaned the key, and says
/// that it has handled one key. Where it fails, it hands on an error of the
/// store.
pub proof fn remove_cleans_the_key(
    namespace: Seq<char>,
    key: Seq<char>,
    store: Keyspace,
    replies: Seq<ReplyView>,
)
    requires
        store.sound(),
        faithful(RemoveView::start(namespace, seq![key]), store, replies),
    ensures
        ({
            let end = run(RemoveView::start(namespace, seq![key]), store, replies);
            match end.0.pending() {
                ActionView::Done(Ok(reply)) => reply == ReplyView::Integer(1) && cleaned(
                    store,
                    end.1,
                    namespace,
                    key,
                ),
                ActionView::Done(Err(error)) => error is Store,
                _ => true,
            }
        }),
{
    let keys = seq![key];
    assert(keys[0] == key);
    remove_cleans_the_keys(namespace, keys, store, replies);
    let end = run(RemoveView::start(namespace, keys), store, replies);
    if end.0.pending().succeeded() {
        let between = choose|between: Keyspace| #[trigger]
            cleaned(store, between, namespace, keys[0]) && all_cleaned(
                between,
                end.1,
                namespace,
                keys.drop_first(),
            );
        assert(keys.drop_first().len() == 0);
        assert(between == end.1);
    }
}

/// A removal by index that has read its keys runs as the removal of those
/// keys does.
pub proof fn removal_runs_within(op: RemoveByIndexView, now: Keyspace, replies: Seq<ReplyView>)
    requires
        !op.reading,
        op.outcome is None,
    ensures
        run(op, now, replies).1 == run(op.removal, now, replies).1,
        run(op, now, replies).0 == (RemoveByIndexView {
            removal: run(op.removal, now, replies).0,
            ..op
        }),
        faithful(op, now, replies) == faithful(op.removal, now, replies),
    decreases replies.len(),
{
    if replies.len() > 0 {
        match op.pending() {
            ActionView::Call(command) => {
                removal_runs_within(
                    op.after(replies[0]),
                    now.effect(command, replies[0]),
                    replies.drop_first(),
                );
            },
            ActionView::Schedule { .. } => {
                removal_runs_within(op.after(replies[0]), now, replies.drop_first());
            },
            ActionView::Done(_) => {},
        }
    }
}

/// What a removal by index that ended well has done and answered: there is a
/// listing of the members of the index set, each once; the members have been
/// cleaned in the order of the listing, and the answer is their number. Where
/// the set held no key, nothing has happened and the answer is zero.
pub open spec fn index_removed(
    before: Keyspace,
    after: Keyspace,
    namespace: Seq<char>,
    idx: Seq<char>,
    idx_val: Seq<char>,
    reply: ReplyView,
) -> bool {
    exists|keys: Seq<Seq<char>>| #[trigger]
        lists_set(keys, before.members(index_key(namespace, idx, idx_val))) && all_cleaned(
            before,
            after,
            namespace,
            keys,
        ) && reply == ReplyView::Integer(count_of(keys.len()))
}

/// A removal by index that has ended well has cleaned every key that the
/// index set held, and says how many there were. A removal that fails hands
/// on an error of the store: it raises none of its own.
pub proof fn removal_by_index_cleans_the_members(
    namespace: Seq<char>,
    idx: Seq<char>,
    idx_val: Seq<char>,
    store: Keyspace,
    replies: Seq<ReplyView>,
)
    requires
        store.sound(),
        faithful(RemoveByIndexView::start(namespace, idx, idx_val), store, replies),
    ensures
        ({
            let end = run(RemoveByIndexView::start(namespace, idx, idx_val), store, replies);
            match end.0.pending() {
                ActionView::Done(Ok(reply)) => index_removed(
                    store,
                    end.1,
                    namespace,
                    idx,
                    idx_val,
                    reply,
                ),
                ActionView::Done(Err(error)) => error is Store,
                _ => true,
            }
        }),
{
    let start = RemoveByIndexView::start(namespace, idx, idx_val);
    let end = run(start, store, replies);
    if replies.len() > 0 {
        let reply = replies[0];
        let next = start.after(reply);
        let rest = replies.drop_first();
        assert(end == run(next, store, rest));
        if reply is Error {
            assert(end == (next, store));
        } else {
            let keys = texts_of(reply->Array_0);
            assert(lists_set(keys, store.members(index_key(namespace, idx, idx_val))));
            removal_runs_within(next, store, rest);
            remove_cleans_the_keys(namespace, keys, store, rest);
            if end.0.pending().succeeded() {
                let answer = end.0.pending()->Done_0->Ok_0;
                assert(lists_set(keys, store.members(index_key(namespace, idx, idx_val)))
                    && all_cleaned(store, end.1, namespace, keys) && answer
                    == ReplyView::Integer(count_of(keys.len())));
            }
        }
    }
}

/// A removal by index from an index set that holds no key answers with zero
/// and leaves the store as it is.
pub proof fn removal_by_an_empty_index_counts_none(
    namespace: Seq<char>,
    idx: Seq<char>,
    idx_val: Seq<char>,
    store: Keyspace,
    replies: Seq<ReplyView>,
)
    requires
        store.sound(),
        forall|member: Seq<char>| !store.members(index_key(namespace, idx, idx_val)).contains(member),
        faithful(RemoveByIndexView::start(namespace, idx, idx_val), store, replies),
        run(
            RemoveByIndexView::start(namespace, idx, idx_val),
            store,
            replies,
        ).0.pending().succeeded(),
    ensures
        ({
            let end = run(RemoveByIndexView::start(namespace, idx, idx_val), store, replies);
            &&& end.0.pending() == ActionView::Done(Ok(ReplyView::Integer(0)))
            &&& end.1 == store
        }),
{
    removal_by_index_cleans_the_members(namespace, idx, idx_val, store, replies);
    let end = run(RemoveByIndexView::start(namespace, idx, idx_val), store, replies);
    let answer = end.0.pending()->Done_0->Ok_0;
    let keys = choose|keys: Seq<Seq<char>>| #[trigger]
        lists_set(keys, store.members(index_key(namespace, idx, idx_val))) && all_cleaned(
            store,
            end.1,
            namespace,
            keys,
        ) && answer == ReplyView::Integer(count_of(keys.len()));
    if keys.len() > 0 {
        assert(keys.contains(keys[0]));
    }
}

} // verus!
