//! What the groomers do to the store.
use crate::action::{ActionView, Machine};
use crate::clean::{CleanKeyView, CleanStage, META_MISSING};
use crate::clean_law::{clean_inv, clean_step, cleaned, counter_is_plain, indexed_under, unindexing};
use crate::groom::{EventGroomView, EventStage};
use crate::init::{EVENTS, KEYS_EXPIRED};
use crate::layout::{
    index_key, meta_is_not_index, meta_key, plain, plain_is_no_key, primary_is_not_index,
    primary_is_not_meta, primary_key, PhysicalKeyView,
};
use crate::model::{
    counted_keeps_sound, faithful, run, run_keeps_sound, same_at, samples, without_keeps_sound,
    Keyspace,
};
use crate::periodic::{GroomIndexView, GroomStage, BATCH_SIZE};
use crate::reply::ReplyView;
use crate::set::{RowView, SetIndexedView};
use crate::set_law::write_stores_the_row;
use vstd::prelude::*;

verus! {

/// The store after a notification has been counted.
pub open spec fn notified(store: Keyspace) -> Keyspace {
    store.counted(EVENTS@).counted(KEYS_EXPIRED@)
}

/// The names of the two counters of notifications hold no separator.
pub proof fn event_counters_are_plain()
    ensures
        plain(EVENTS@),
        plain(KEYS_EXPIRED@),
{
    reveal_strlit("events");
    reveal_strlit("keys_expired");
    let events = EVENTS@;
    let expired = KEYS_EXPIRED@;
    assert forall|i: int| 0 <= i < events.len() implies events[i] != ':' by {}
    assert forall|i: int| 0 <= i < expired.len() implies expired[i] != ':' by {}
}

/// How the store stands to the store before the handling of a notification
/// began.
pub open spec fn event_inv(
    op: EventGroomView,
    namespace: Seq<char>,
    key: Seq<char>,
    before: Keyspace,
    now: Keyspace,
) -> bool {
    &&& op.namespace == namespace
    &&& op.key == key
    &&& op.stage != EventStage::Finished ==> op.failure is None
    &&& match op.stage {
        EventStage::CountEvent => now == before && op.clean == CleanKeyView::start(namespace, key),
        EventStage::CountExpired => now == before.counted(EVENTS@) && op.clean
            == CleanKeyView::start(namespace, key),
        EventStage::CheckPrimary => now == notified(before) && op.clean == CleanKeyView::start(
            namespace,
            key,
        ),
        EventStage::Schedule => now == notified(before) && op.clean == CleanKeyView::start(
            namespace,
            key,
        ),
        EventStage::Clean => clean_inv(op.clean, namespace, key, notified(before), now)
            && op.clean.stage != CleanStage::Finished,
        EventStage::Finished => match op.failure {
            None => cleaned(notified(before), now, namespace, key),
            Some(error) => error is Store,
        },
    }
}

/// Whatever the store answers, as long as it answers as the model allows, the
/// store stays as the stage of the handling says.
pub proof fn event_run(
    op: EventGroomView,
    namespace: Seq<char>,
    key: Seq<char>,
    before: Keyspace,
    now: Keyspace,
    replies: Seq<ReplyView>,
)
    requires
        before.sound(),
        event_inv(op, namespace, key, before, now),
        faithful(op, now, replies),
    ensures
        event_inv(run(op, now, replies).0, namespace, key, before, run(op, now, replies).1),
    decreases replies.len(),
{
    counted_keeps_sound(before, EVENTS@);
    counted_keeps_sound(before.counted(EVENTS@), KEYS_EXPIRED@);
    if replies.len() > 0 {
        let reply = replies[0];
        match op.pending() {
            ActionView::Call(command) => {
                if op.stage == EventStage::Clean {
                    clean_step(op.clean, namespace, key, notified(before), now, reply);
                }
                event_run(
                    op.after(reply),
                    namespace,
                    key,
                    before,
                    now.effect(command, reply),
                    replies.drop_first(),
                );
            },
            ActionView::Schedule { .. } => {
                event_run(op.after(reply), namespace, key, before, now, replies.drop_first());
            },
            ActionView::Done(_) => {},
        }
    }
}

/// The handling of a notification that has ended well has counted the
/// notification and cleaned the logical key, whichever of its two entries
/// the notification was for. Where it fails, it hands on an error of the
/// store.
pub proof fn reactive_groomer_cleans(
    named: PhysicalKeyView,
    store: Keyspace,
    replies: Seq<ReplyView>,
)
    requires
        store.sound(),
        faithful(EventGroomView::start(named), store, replies),
    ensures
        run(EventGroomView::start(named), store, replies).0.pending().succeeded() ==> cleaned(
            notified(store),
            run(EventGroomView::start(named), store, replies).1,
            EventGroomView::start(named).namespace,
            EventGroomView::start(named).key,
        ),
        run(EventGroomView::start(named), store, replies).0.pending() matches ActionView::Done(
            Err(error),
        ) ==> error is Store,
{
    let start = EventGroomView::start(named);
    event_run(start, start.namespace, start.key, store, store, replies);
}

/// Expiry cascade: when the primary entry of a key that was written with
/// indices has gone and the store's notification has been handled, the
/// metadata of the key is gone too, and the key is in none of the index sets
/// of the pairs it was written with.
pub proof fn expiry_cascade(
    namespace: Seq<char>,
    key: Seq<char>,
    expiry: Seq<char>,
    names: Seq<Seq<char>>,
    value: Seq<char>,
    values: Seq<Seq<char>>,
    store: Keyspace,
    writing: Seq<ReplyView>,
    grooming: Seq<ReplyView>,
)
    requires
        store.sound(),
        plain(namespace),
        names.no_duplicates(),
        names.len() == values.len(),
        ({
            let write = SetIndexedView::start(
                namespace,
                expiry,
                names,
                seq![RowView { key, value, index_values: values }],
            );
            let expired = run(write, store, writing).1.without(primary_key(namespace, key));
            let groom = EventGroomView::start(PhysicalKeyView::Primary { namespace, key });
            &&& faithful(write, store, writing)
            &&& run(write, store, writing).0.pending().succeeded()
            &&& faithful(groom, expired, grooming)
            &&& run(groom, expired, grooming).0.pending().succeeded()
        }),
    ensures
        ({
            let write = SetIndexedView::start(
                namespace,
                expiry,
                names,
                seq![RowView { key, value, index_values: values }],
            );
            let expired = run(write, store, writing).1.without(primary_key(namespace, key));
            let groom = EventGroomView::start(PhysicalKeyView::Primary { namespace, key });
            let end = run(groom, expired, grooming).1;
            &&& !end.holds(primary_key(namespace, key))
            &&& !end.holds(meta_key(namespace, key))
            &&& forall|i: int|
                0 <= i < names.len() ==> !end.members(
                    #[trigger] index_key(namespace, names[i], values[i]),
                ).contains(key)
        }),
{
    let row = RowView { key, value, index_values: values };
    let write = SetIndexedView::start(namespace, expiry, names, seq![row]);
    let mid = run(write, store, writing).1;
    let primary = primary_key(namespace, key);
    let meta = meta_key(namespace, key);
    let expired = mid.without(primary);
    let groom = EventGroomView::start(PhysicalKeyView::Primary { namespace, key });
    let end = run(groom, expired, grooming).1;
    write_stores_the_row(namespace, expiry, names, row, store, writing);
    run_keeps_sound(write, store, writing);
    without_keeps_sound(mid, primary);
    reactive_groomer_cleans(PhysicalKeyView::Primary { namespace, key }, expired, grooming);
    let base = notified(expired);
    event_counters_are_plain();
    counter_is_plain();
    primary_is_not_meta(namespace, key);
    plain_is_no_key(EVENTS@, namespace, key, key);
    plain_is_no_key(KEYS_EXPIRED@, namespace, key, key);
    assert(base.hash(meta) == mid.hash(meta));
    assert forall|i: int| 0 <= i < names.len() implies !end.members(
        #[trigger] index_key(namespace, names[i], values[i]),
    ).contains(key) by {
        let physical = index_key(namespace, names[i], values[i]);
        primary_is_not_index(namespace, key, names[i], values[i]);
        meta_is_not_index(namespace, key, namespace, names[i], values[i]);
        plain_is_no_key(META_MISSING@, namespace, names[i], values[i]);
        plain_is_no_key(EVENTS@, namespace, names[i], values[i]);
        plain_is_no_key(KEYS_EXPIRED@, namespace, names[i], values[i]);
        assert(mid.hash(meta).dom().contains(names[i]));
        assert(indexed_under(base.hash(meta), namespace, physical));
        assert(same_at(end, unindexing(base, namespace, key, physical), physical));
        let left = base.without_member(physical, key);
        assert(!left.members(physical).contains(key));
    }
}

/// Of the first `n` keys of the sample, those that are still members of the
/// index set have a primary entry.
pub open spec fn checked(
    store: Keyspace,
    namespace: Seq<char>,
    index: Seq<char>,
    sample: Seq<Seq<char>>,
    n: int,
) -> bool {
    forall|j: int|
        0 <= j < n && store.members(index).contains(#[trigger] sample[j]) ==> store.holds(
            primary_key(namespace, sample[j]),
        )
}

/// The store now holds what it held before under every key but that of the
/// index set; the index set has lost members only, and none that had a
/// primary entry under another key than that of the set.
pub open spec fn groomed(
    before: Keyspace,
    now: Keyspace,
    namespace: Seq<char>,
    index: Seq<char>,
) -> bool {
    &&& forall|physical: Seq<char>| physical != index ==> #[trigger] same_at(now, before, physical)
    &&& forall|member: Seq<char>| #[trigger]
        now.members(index).contains(member) ==> before.members(index).contains(member)
    &&& forall|member: Seq<char>| #[trigger]
        before.members(index).contains(member) && before.holds(primary_key(namespace, member))
            && primary_key(namespace, member) != index ==> now.members(index).contains(member)
}

/// How the store stands to the store before the grooming of an index set
/// began.
pub open spec fn groom_inv(
    op: GroomIndexView,
    namespace: Seq<char>,
    index: Seq<char>,
    before: Keyspace,
    now: Keyspace,
) -> bool {
    &&& op.namespace == namespace
    &&& op.index == index
    &&& op.well_formed()
    &&& op.stage != GroomStage::Finished ==> op.failure is None
    &&& groomed(before, now, namespace, index)
    &&& match op.stage {
        GroomStage::Sample => now == before && op.keys.len() == 0,
        GroomStage::Check => {
            &&& samples(op.keys, before.members(index), BATCH_SIZE as int)
            &&& checked(now, namespace, index, op.keys, op.at as int)
        },
        GroomStage::Drop => {
            &&& samples(op.keys, before.members(index), BATCH_SIZE as int)
            &&& checked(now, namespace, index, op.keys, op.at as int)
            &&& !now.holds(primary_key(namespace, op.keys[op.at as int]))
        },
        GroomStage::Finished => match op.failure {
            None => {
                &&& samples(op.keys, before.members(index), BATCH_SIZE as int)
                &&& checked(now, namespace, index, op.keys, op.keys.len() as int)
            },
            Some(error) => error is Store,
        },
    }
}

/// One step of the grooming of an index set keeps the store as the stage
/// says.
pub proof fn groom_step(
    op: GroomIndexView,
    namespace: Seq<char>,
    index: Seq<char>,
    before: Keyspace,
    now: Keyspace,
    reply: ReplyView,
)
    requires
        groom_inv(op, namespace, index, before, now),
        op.pending() matches ActionView::Call(command) && now.admits(command, reply),
    ensures
        groom_inv(op.after(reply), namespace, index, before, now.effect(op.pending()->Call_0, reply)),
{
    let next = op.after(reply);
    let then = now.effect(op.pending()->Call_0, reply);
    if !(reply is Error) {
        match op.stage {
            GroomStage::Sample => {
                assert(groomed(before, then, namespace, index));
            },
            GroomStage::Check => {
                assert(then == now);
                if next.stage == GroomStage::Check || next.stage == GroomStage::Finished {
                    assert(checked(then, namespace, index, op.keys, op.at as int + 1));
                }
            },
            GroomStage::Drop => {
                let gone = op.keys[op.at as int];
                assert(then == now.without_member(index, gone));
                assert forall|physical: Seq<char>| physical != index implies #[trigger] same_at(
                    then,
                    before,
                    physical,
                ) by {
                    assert(same_at(now, before, physical));
                }
                assert forall|member: Seq<char>| #[trigger]
                    then.members(index).contains(member) implies now.members(index).contains(
                    member,
                ) && member != gone by {}
                assert forall|member: Seq<char>| #[trigger]
                    before.members(index).contains(member) && before.holds(
                        primary_key(namespace, member),
                    ) && primary_key(namespace, member) != index implies then.members(
                    index,
                ).contains(member) by {
                    assert(now.members(index).contains(member));
                    assert(same_at(now, before, primary_key(namespace, member)));
                    assert(member != gone);
                }
                assert forall|j: int|
                    0 <= j < op.at + 1 && then.members(index).contains(
                        #[trigger] op.keys[j],
                    ) implies then.holds(primary_key(namespace, op.keys[j])) by {
                    assert(now.members(index).contains(op.keys[j]));
                    assert(then.holds(index));
                }
                assert(checked(then, namespace, index, op.keys, op.at as int + 1));
            },
            GroomStage::Finished => {},
        }
    }
}

/// Whatever the store answers, as long as it answers as the model allows, the
/// store stays as the stage of the grooming says.
pub proof fn groom_run(
    op: GroomIndexView,
    namespace: Seq<char>,
    index: Seq<char>,
    before: Keyspace,
    now: Keyspace,
    replies: Seq<ReplyView>,
)
    requires
        groom_inv(op, namespace, index, before, now),
        faithful(op, now, replies),
    ensures
        groom_inv(run(op, now, replies).0, namespace, index, before, run(op, now, replies).1),
    decreases replies.len(),
{
    if replies.len() > 0 {
        match op.pending() {
            ActionView::Call(command) => {
                groom_step(op, namespace, index, before, now, replies[0]);
                groom_run(
                    op.after(replies[0]),
                    namespace,
                    index,
                    before,
                    now.effect(command, replies[0]),
                    replies.drop_first(),
                );
            },
            _ => {},
        }
    }
}

/// The grooming of an index set touches nothing but the set, and removes no
/// member that has a primary entry. Where it has ended well, it has left no
/// member of its sample in the set that has no primary entry; and where the
/// set had no more members than a sample may hold, no member without a
/// primary entry is left at all. Where it fails, it hands on an error of the
/// store.
pub proof fn groomer_drops_the_dead(
    namespace: Seq<char>,
    index: Seq<char>,
    store: Keyspace,
    replies: Seq<ReplyView>,
)
    requires
        faithful(GroomIndexView::start(namespace, index), store, replies),
    ensures
        ({
            let end = run(GroomIndexView::start(namespace, index), store, replies);
            &&& groomed(store, end.1, namespace, index)
            &&& end.0.pending() matches ActionView::Done(Err(error)) ==> error is Store
            &&& end.0.pending().succeeded() ==> {
                &&& samples(end.0.keys, store.members(index), BATCH_SIZE as int)
                &&& checked(end.1, namespace, index, end.0.keys, end.0.keys.len() as int)
                &&& end.0.keys.len() < BATCH_SIZE || (store.members(index).finite()
                    && store.members(index).len() <= BATCH_SIZE) ==> forall|member: Seq<char>| #[trigger]
                    end.1.members(index).contains(member) ==> end.1.holds(
                        primary_key(namespace, member),
                    )
            }
        }),
{
    let start = GroomIndexView::start(namespace, index);
    assert(groomed(store, store, namespace, index));
    groom_run(start, namespace, index, store, store, replies);
    let end = run(start, store, replies);
    if end.0.pending().succeeded() && (end.0.keys.len() < BATCH_SIZE || (store.members(
        index,
    ).finite() && store.members(index).len() <= BATCH_SIZE)) {
        assert forall|member: Seq<char>| #[trigger]
            end.1.members(index).contains(member) implies end.1.holds(
            primary_key(namespace, member),
        ) by {
            assert(store.members(index).contains(member));
            assert(end.0.keys.contains(member));
            let j = choose|j: int| 0 <= j < end.0.keys.len() && end.0.keys[j] == member;
            assert(end.1.members(index).contains(end.0.keys[j]));
        }
    }
}

} // verus!
