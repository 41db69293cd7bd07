//! What a read by index answers.
use crate::action::{ActionView, Machine};
use crate::get::{primary_keys, GetStage, GetView};
use crate::layout::{index_key, primary_key};
use crate::model::{faithful, lists_set, run, Keyspace};
use crate::error::ErrorView;
use crate::reply::{present, present_of_few, texts_of, ReplyView};
use vstd::prelude::*;

verus! {

/// `reply` holds the values of the members of the index set that have one,
/// each member once, in some order. A member without a value adds nothing.
pub open spec fn answers_index(
    store: Keyspace,
    namespace: Seq<char>,
    idx: Seq<char>,
    idx_val: Seq<char>,
    reply: ReplyView,
) -> bool {
    exists|keys: Seq<Seq<char>>|
        lists_set(keys, store.members(index_key(namespace, idx, idx_val))) && reply
            == ReplyView::Array(present(store.values(#[trigger] primary_keys(namespace, keys))))
}

/// How a read by index stands to the store: it changes nothing, and what it
/// has read is what the store holds.
pub open spec fn get_inv(op: GetView, start: GetView, store: Keyspace, now: Keyspace) -> bool {
    &&& now == store
    &&& op.namespace == start.namespace
    &&& op.idx == start.idx
    &&& op.idx_val == start.idx_val
    &&& match op.stage {
        GetStage::ReadMembers => true,
        GetStage::ReadValues => lists_set(
            op.keys,
            store.members(index_key(op.namespace, op.idx, op.idx_val)),
        ),
        GetStage::Finished => match op.outcome {
            Ok(reply) => answers_index(store, op.namespace, op.idx, op.idx_val, reply),
            Err(error) => error is Store,
        },
    }
}

/// Whatever the store answers, as long as it answers as the model allows, a
/// read by index stays as its stage says.
pub proof fn get_run(
    op: GetView,
    start: GetView,
    store: Keyspace,
    now: Keyspace,
    replies: Seq<ReplyView>,
)
    requires
        get_inv(op, start, store, now),
        faithful(op, now, replies),
    ensures
        get_inv(run(op, now, replies).0, start, store, run(op, now, replies).1),
    decreases replies.len(),
{
    if replies.len() > 0 {
        match op.pending() {
            ActionView::Call(command) => {
                let reply = replies[0];
                let next = op.after(reply);
                if !(reply is Error) {
                    let index = index_key(op.namespace, op.idx, op.idx_val);
                    match op.stage {
                        GetStage::ReadMembers => {
                            if next.stage == GetStage::Finished && next.outcome is Ok {
                                let none = Seq::<Seq<char>>::empty();
                                let listing = texts_of(reply->Array_0);
                                assert(listing =~= none);
                                assert(store.values(primary_keys(op.namespace, none))
                                    =~= Seq::<ReplyView>::empty());
                                present_of_few(ReplyView::Nil);
                            }
                        },
                        GetStage::ReadValues => {
                            assert(reply == ReplyView::Array(
                                store.values(primary_keys(op.namespace, op.keys)),
                            ));
                            assert(next.outcome == Ok::<ReplyView, ErrorView>(
                                ReplyView::Array(
                                    present(store.values(primary_keys(op.namespace, op.keys))),
                                ),
                            ));
                        },
                        GetStage::Finished => {},
                    }
                }
                assert(get_inv(next, start, store, now.effect(command, reply)));
                get_run(next, start, store, now.effect(command, reply), replies.drop_first());
            },
            _ => {},
        }
    }
}

/// A read by index changes nothing in the store. Where it has ended well, it
/// answers with the values of the keys that the index set holds; where it
/// fails, it hands on an error of the store.
pub proof fn get_reads_the_index(
    namespace: Seq<char>,
    idx: Seq<char>,
    idx_val: Seq<char>,
    store: Keyspace,
    replies: Seq<ReplyView>,
)
    requires
        faithful(GetView::start(namespace, idx, idx_val), store, replies),
    ensures
        run(GetView::start(namespace, idx, idx_val), store, replies).1 == store,
        run(GetView::start(namespace, idx, idx_val), store, replies).0.pending() matches ActionView::Done(
            Ok(reply),
        ) ==> answers_index(store, namespace, idx, idx_val, reply),
        run(GetView::start(namespace, idx, idx_val), store, replies).0.pending() matches ActionView::Done(
            Err(error),
        ) ==> error is Store,
{
    let start = GetView::start(namespace, idx, idx_val);
    get_run(start, start, store, store, replies);
}

/// A list that holds one thing, once, and nothing else, is the list of that
/// thing.
pub proof fn listing_of_one(keys: Seq<Seq<char>>, key: Seq<char>)
    requires
        lists_set(keys, set![key]),
    ensures
        keys == seq![key],
{
    assert(set![key].contains(key));
    assert(keys.contains(key));
    if keys.len() >= 2 {
        assert(keys.contains(keys[0]));
        assert(keys.contains(keys[1]));
        assert(keys[0] == keys[1]);
    }
    assert(keys.contains(keys[0]));
    assert(keys =~= seq![key]);
}

/// `item` is the value of a member of the index set that has one.
pub open spec fn value_of_a_member(
    store: Keyspace,
    namespace: Seq<char>,
    index: Seq<char>,
    item: ReplyView,
) -> bool {
    exists|member: Seq<char>| #[trigger]
        store.members(index).contains(member) && store.holds(primary_key(namespace, member))
            && item is Bulk && item == store.value(primary_key(namespace, member))
}

/// An answer to a read by index holds values only, each the value of a
/// member of the index set, and it holds the value of every member that has
/// one. A member without a value adds nothing, so that the answer has fewer
/// items than the set has members.
pub proof fn answer_holds_values_of_members(
    store: Keyspace,
    namespace: Seq<char>,
    idx: Seq<char>,
    idx_val: Seq<char>,
    reply: ReplyView,
)
    requires
        answers_index(store, namespace, idx, idx_val, reply),
    ensures
        reply is Array,
        forall|i: int|
            0 <= i < reply->Array_0.len() ==> value_of_a_member(
                store,
                namespace,
                index_key(namespace, idx, idx_val),
                #[trigger] reply->Array_0[i],
            ),
        forall|member: Seq<char>| #[trigger]
            store.members(index_key(namespace, idx, idx_val)).contains(member) && store.value(
                primary_key(namespace, member),
            ) is Bulk ==> reply->Array_0.contains(store.value(primary_key(namespace, member))),
{
    let index = index_key(namespace, idx, idx_val);
    let keys = choose|keys: Seq<Seq<char>>|
        lists_set(keys, store.members(index)) && reply == ReplyView::Array(
            present(store.values(#[trigger] primary_keys(namespace, keys))),
        );
    let all = store.values(primary_keys(namespace, keys));
    let items = reply->Array_0;
    assert(items == present(all));
    assert forall|i: int| 0 <= i < items.len() implies value_of_a_member(
        store,
        namespace,
        index,
        #[trigger] items[i],
    ) by {
        let keep = |item: ReplyView| !(item is Nil);
        all.lemma_filter_pred(keep, i);
        assert(all.filter(keep).contains(items[i]));
        all.lemma_filter_contains_rev(keep, items[i]);
        let j = choose|j: int| 0 <= j < all.len() && all[j] == items[i];
        let member = keys[j];
        assert(keys.contains(member));
        assert(all[j] == store.value(primary_key(namespace, member)));
        assert(store.members(index).contains(member));
    }
    assert forall|member: Seq<char>| #[trigger]
        store.members(index).contains(member) && store.value(
            primary_key(namespace, member),
        ) is Bulk implies items.contains(store.value(primary_key(namespace, member))) by {
        let keep = |item: ReplyView| !(item is Nil);
        assert(keys.contains(member));
        let j = choose|j: int| 0 <= j < keys.len() && keys[j] == member;
        assert(all[j] == store.value(primary_key(namespace, member)));
        all.lemma_filter_contains(keep, j);
    }
}

/// Where no member of the index set has a primary entry, and so where the set
/// holds no key at all, a read by index answers with an empty list.
pub proof fn read_of_the_dead_is_empty(
    store: Keyspace,
    namespace: Seq<char>,
    idx: Seq<char>,
    idx_val: Seq<char>,
    reply: ReplyView,
)
    requires
        answers_index(store, namespace, idx, idx_val, reply),
        forall|member: Seq<char>| #[trigger]
            store.members(index_key(namespace, idx, idx_val)).contains(member) ==> !store.holds(
                primary_key(namespace, member),
            ),
    ensures
        reply == ReplyView::Array(Seq::empty()),
{
    answer_holds_values_of_members(store, namespace, idx, idx_val, reply);
    let items = reply->Array_0;
    if items.len() > 0 {
        assert(value_of_a_member(store, namespace, index_key(namespace, idx, idx_val), items[0]));
    }
    assert(items =~= Seq::empty());
}

} // verus!
