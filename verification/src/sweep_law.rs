//! What the two sweeps do to the store: the targeted groomer, which takes one
//! key out of the index sets of its namespace, and the periodic groomer, which
//! goes through all index sets.
use crate::action::{ActionView, Machine};
use crate::layout::{all_indices, namespace_of_index, primary_key};
use crate::model::{faithful, run, same_at, samples, whole_cycle, Keyspace};
use crate::periodic::{GroomIndexView, GroomStage, PeriodicGroomView, SweepStage, BATCH_SIZE};
use crate::command::CommandView;
use crate::reply::{scan_in, texts_of, ReplyView};
use crate::targeted::{TargetStage, TargetedGroomView};
use vstd::prelude::*;

verus! {

/// Between `before` and `now`, sets have lost members and nothing else has
/// happened: what is no set is as it was, no entry has come, and no set has
/// a member that it did not have.
pub open spec fn only_members_left(before: Keyspace, now: Keyspace) -> bool {
    &&& forall|physical: Seq<char>| #[trigger]
        now.holds(physical) ==> before.holds(physical)
    &&& forall|physical: Seq<char>| #[trigger]
        before.holds(physical) && !(before.entries[physical] is Members) ==> same_at(
            now,
            before,
            physical,
        )
    &&& forall|physical: Seq<char>, member: Seq<char>| #[trigger]
        now.members(physical).contains(member) ==> before.members(physical).contains(member)
}

/// Taking a member out of a set lets members leave and nothing else.
pub proof fn member_left(before: Keyspace, now: Keyspace, physical: Seq<char>, member: Seq<char>)
    requires
        only_members_left(before, now),
    ensures
        only_members_left(before, now.without_member(physical, member)),
{
    let then = now.without_member(physical, member);
    assert forall|any: Seq<char>| #[trigger] then.holds(any) implies before.holds(any) by {
        assert(now.holds(any));
    }
    assert forall|any: Seq<char>| #[trigger]
        before.holds(any) && !(before.entries[any] is Members) implies same_at(
        then,
        before,
        any,
    ) by {
        assert(same_at(now, before, any));
    }
    assert forall|any: Seq<char>, other: Seq<char>| #[trigger]
        then.members(any).contains(other) implies before.members(any).contains(other) by {
        assert(now.members(any).contains(other));
    }
}

/// The index sets that a targeted sweep has yet to handle of the batch it
/// holds.
pub open spec fn waiting(op: TargetedGroomView) -> Set<Seq<char>> {
    let later = Set::new(
        |physical: Seq<char>|
            exists|j: int| op.taken <= j < op.batch.len() && #[trigger] op.batch[j] == physical,
    );
    match op.stage {
        TargetStage::Check => later.insert(op.current),
        TargetStage::Drop => later.insert(op.current),
        _ => Set::empty(),
    }
}

/// The index sets that the store lists to a targeted sweep while it runs on
/// `replies`.
pub open spec fn listed(op: TargetedGroomView, replies: Seq<ReplyView>) -> Set<Seq<char>>
    decreases replies.len(),
{
    if replies.len() == 0 || op.stage == TargetStage::Finished {
        Set::empty()
    } else {
        let later = listed(op.after(replies[0]), replies.drop_first());
        match scan_in(replies[0]) {
            Ok((_, batch)) => if op.stage == TargetStage::Scanning {
                later.union(batch.to_set())
            } else {
                later
            },
            Err(_) => later,
        }
    }
}

/// How a targeted sweep stands to the store before it began.
pub open spec fn target_inv(op: TargetedGroomView, before: Keyspace, now: Keyspace) -> bool {
    let primary = primary_key(op.namespace, op.key);
    &&& only_members_left(before, now)
    &&& before.holds(primary) ==> now == before
    &&& !before.holds(primary) ==> !now.holds(primary)
    &&& forall|physical: Seq<char>, member: Seq<char>| #[trigger]
        before.members(physical).contains(member) && member != op.key ==> now.members(
            physical,
        ).contains(member)
    &&& op.stage == TargetStage::Drop ==> !now.holds(primary)
    &&& op.stage != TargetStage::Finished ==> op.failure is None
    &&& op.failure matches Some(error) ==> error is Store
    &&& op.stage == TargetStage::Scanning || op.stage == TargetStage::Finished ==> op.taken
        >= op.batch.len() || op.failure is Some
}

/// One step of a targeted sweep keeps the store as the stage says.
pub proof fn target_step(
    op: TargetedGroomView,
    before: Keyspace,
    now: Keyspace,
    reply: ReplyView,
)
    requires
        target_inv(op, before, now),
        op.pending() matches ActionView::Call(command) && now.admits(command, reply),
    ensures
        target_inv(op.after(reply), before, now.effect(op.pending()->Call_0, reply)),
        op.after(reply).namespace == op.namespace,
        op.after(reply).key == op.key,
{
    let next = op.after(reply);
    let then = now.effect(op.pending()->Call_0, reply);
    if !(reply is Error) {
        match op.stage {
            TargetStage::Drop => {
                member_left(before, now, op.current, op.key);
                assert forall|physical: Seq<char>, member: Seq<char>| #[trigger]
                    before.members(physical).contains(member) && member
                        != op.key implies then.members(physical).contains(member) by {
                    assert(now.members(physical).contains(member));
                }
            },
            _ => {
                assert(then == now);
            },
        }
    }
}

/// Whatever the store answers, as long as it answers as the model allows, a
/// targeted sweep keeps the store as its stage says; and where it ends well
/// and the key has no primary entry, the key is in none of the index sets
/// that it had yet to handle or that the store listed to it.
pub proof fn target_run(
    op: TargetedGroomView,
    before: Keyspace,
    now: Keyspace,
    replies: Seq<ReplyView>,
)
    requires
        target_inv(op, before, now),
        faithful(op, now, replies),
    ensures
        target_inv(run(op, now, replies).0, before, run(op, now, replies).1),
        run(op, now, replies).0.namespace == op.namespace,
        run(op, now, replies).0.key == op.key,
        only_members_left(now, run(op, now, replies).1),
        run(op, now, replies).0.pending().succeeded() && !before.holds(
            primary_key(op.namespace, op.key),
        ) ==> forall|physical: Seq<char>| #[trigger]
            waiting(op).union(listed(op, replies)).contains(physical) ==> !run(
                op,
                now,
                replies,
            ).1.members(physical).contains(op.key),
    decreases replies.len(),
{
    let end = run(op, now, replies);
    if replies.len() > 0 {
        match op.pending() {
            ActionView::Call(command) => {
                let reply = replies[0];
                let next = op.after(reply);
                let then = now.effect(command, reply);
                let rest = replies.drop_first();
                target_step(op, before, now, reply);
                target_run(next, before, then, rest);
                assert(only_members_left(now, then)) by {
                    if !(reply is Error) && op.stage == TargetStage::Drop {
                        assert(only_members_left(now, now));
                        member_left(now, now, op.current, op.key);
                    }
                }
                assert(only_members_left(now, end.1)) by {
                    assert forall|physical: Seq<char>| #[trigger]
                        end.1.holds(physical) implies now.holds(physical) by {
                        assert(then.holds(physical));
                    }
                    assert forall|physical: Seq<char>| #[trigger]
                        now.holds(physical) && !(now.entries[physical] is Members) implies same_at(
                        end.1,
                        now,
                        physical,
                    ) by {
                        assert(same_at(then, now, physical));
                        assert(same_at(end.1, then, physical));
                    }
                    assert forall|physical: Seq<char>, member: Seq<char>| #[trigger]
                        end.1.members(physical).contains(member) implies now.members(
                        physical,
                    ).contains(member) by {
                        assert(then.members(physical).contains(member));
                    }
                }
                if end.0.pending().succeeded() && !before.holds(primary_key(op.namespace, op.key)) {
                    assert forall|physical: Seq<char>| #[trigger]
                        waiting(op).union(listed(op, replies)).contains(
                            physical,
                        ) implies !end.1.members(physical).contains(op.key) by {
                        if waiting(next).union(listed(next, rest)).contains(physical) {
                        } else {
                            match op.stage {
                                TargetStage::Scanning => {
                                    let batch = scan_in(reply)->Ok_0.1;
                                    assert(batch.to_set().contains(physical));
                                    let j = choose|j: int|
                                        0 <= j < batch.len() && batch[j] == physical;
                                    assert(next.batch[j] == physical);
                                    assert(waiting(next).contains(physical));
                                },
                                TargetStage::Check => {
                                    assert(waiting(next).contains(physical));
                                },
                                TargetStage::Drop => {
                                    if physical == op.current {
                                        assert(!then.members(physical).contains(op.key));
                                        assert(!end.1.members(physical).contains(op.key));
                                    } else {
                                        let j = choose|j: int|
                                            op.taken <= j < op.batch.len() && #[trigger] op.batch[j]
                                                == physical;
                                        assert(next.batch[j] == physical);
                                        assert(waiting(next).contains(physical));
                                    }
                                },
                                TargetStage::Finished => {},
                            }
                        }
                    }
                }
            },
            ActionView::Schedule { .. } => {},
            ActionView::Done(_) => {
                assert(only_members_left(now, now));
            },
        }
    } else {
        assert(only_members_left(now, now));
    }
}

/// A targeted sweep takes nothing but its key out of sets, and nothing at all
/// while the key has a primary entry: a key that was written again is left
/// where it is. Where the key has no primary entry and the sweep has ended
/// well, the key is in none of the index sets that the store listed to it.
/// Where the sweep fails, it hands on an error of the store.
pub proof fn targeted_groomer_clears_the_key(
    namespace: Seq<char>,
    key: Seq<char>,
    store: Keyspace,
    replies: Seq<ReplyView>,
)
    requires
        faithful(TargetedGroomView::start(namespace, key), store, replies),
    ensures
        ({
            let start = TargetedGroomView::start(namespace, key);
            let end = run(start, store, replies);
            &&& only_members_left(store, end.1)
            &&& forall|physical: Seq<char>, member: Seq<char>| #[trigger]
                store.members(physical).contains(member) && member != key ==> end.1.members(
                    physical,
                ).contains(member)
            &&& store.holds(primary_key(namespace, key)) ==> end.1 == store
            &&& end.0.pending().succeeded() && !store.holds(primary_key(namespace, key))
                ==> forall|physical: Seq<char>| #[trigger]
                listed(start, replies).contains(physical) ==> !end.1.members(physical).contains(key)
            &&& end.0.pending() matches ActionView::Done(Err(error)) ==> error is Store
        }),
{
    let start = TargetedGroomView::start(namespace, key);
    assert(only_members_left(store, store));
    target_run(start, store, store, replies);
    let end = run(start, store, replies);
    if end.0.pending().succeeded() && !store.holds(primary_key(namespace, key)) {
        assert forall|physical: Seq<char>| #[trigger]
            listed(start, replies).contains(physical) implies !end.1.members(physical).contains(
            key,
        ) by {
            assert(waiting(start).union(listed(start, replies)).contains(physical));
        }
    }
}

/// How a sweep over all index sets stands to the store before it began: sets
/// have lost members only, and none that has a primary entry.
pub open spec fn sweep_inv(op: PeriodicGroomView, before: Keyspace, now: Keyspace) -> bool {
    &&& only_members_left(before, now)
    &&& forall|physical: Seq<char>, member: Seq<char>| #[trigger]
        before.members(physical).contains(member) && !now.members(physical).contains(member)
            ==> dead(before, physical, member)
    &&& op.stage != SweepStage::Finished ==> op.failure is None
    &&& op.failure matches Some(error) ==> error is Store || error is BadScan
    &&& op.stage == SweepStage::Grooming ==> {
        &&& namespace_of_index(op.groom.index) == Some(op.groom.namespace)
        &&& op.groom.well_formed()
        &&& op.groom.stage != GroomStage::Finished
        &&& op.groom.failure is None
        &&& op.groom.stage == GroomStage::Drop ==> !now.holds(
            primary_key(op.groom.namespace, op.groom.keys[op.groom.at as int]),
        )
    }
}

/// In the store `before`, the member of the index set has no primary entry
/// that is a string or a hash: the key of the set is that of an index set,
/// and under the primary key of its namespace and the member there is
/// nothing, or a set.
pub open spec fn dead(before: Keyspace, physical: Seq<char>, member: Seq<char>) -> bool {
    &&& namespace_of_index(physical) matches Some(namespace)
    &&& before.holds(primary_key(namespace, member)) ==> before.entries[primary_key(
        namespace,
        member,
    )] is Members
}

/// One step of a sweep over index sets removes only a member without a
/// primary entry.
pub proof fn sweep_step(op: PeriodicGroomView, before: Keyspace, now: Keyspace, reply: ReplyView)
    requires
        sweep_inv(op, before, now),
        op.pending() matches ActionView::Call(command) && now.admits(command, reply),
    ensures
        sweep_inv(op.after(reply), before, now.effect(op.pending()->Call_0, reply)),
        only_members_left(now, now.effect(op.pending()->Call_0, reply)),
{
    let then = now.effect(op.pending()->Call_0, reply);
    assert(only_members_left(now, now));
    if !(reply is Error) {
        if op.stage == SweepStage::Grooming && op.groom.stage == GroomStage::Drop {
            let gone = op.groom.keys[op.groom.at as int];
            let index = op.groom.index;
            member_left(before, now, index, gone);
            member_left(now, now, index, gone);
            assert forall|physical: Seq<char>, member: Seq<char>| #[trigger]
                before.members(physical).contains(member) && !then.members(physical).contains(
                    member,
                ) implies dead(before, physical, member) by {
                if now.members(physical).contains(member) {
                    assert(physical == index && member == gone);
                    let primary = primary_key(op.groom.namespace, gone);
                    if before.holds(primary) && !(before.entries[primary] is Members) {
                        assert(same_at(now, before, primary));
                    }
                }
            }
        } else {
            assert(then == now);
        }
    }
}

/// Losing members, and then losing more, is losing members.
pub proof fn members_left_twice(before: Keyspace, between: Keyspace, after: Keyspace)
    requires
        only_members_left(before, between),
        only_members_left(between, after),
    ensures
        only_members_left(before, after),
{
    assert forall|physical: Seq<char>| #[trigger] after.holds(physical) implies before.holds(
        physical,
    ) by {
        assert(between.holds(physical));
    }
    assert forall|physical: Seq<char>| #[trigger]
        before.holds(physical) && !(before.entries[physical] is Members) implies same_at(
        after,
        before,
        physical,
    ) by {
        assert(same_at(between, before, physical));
        assert(same_at(after, between, physical));
    }
    assert forall|physical: Seq<char>, member: Seq<char>| #[trigger]
        after.members(physical).contains(member) implies before.members(physical).contains(
        member,
    ) by {
        assert(between.members(physical).contains(member));
    }
}

/// Whatever the store answers, as long as it answers as the model allows, a
/// sweep over all index sets removes only members without a primary entry.
pub proof fn sweep_run(
    op: PeriodicGroomView,
    before: Keyspace,
    now: Keyspace,
    replies: Seq<ReplyView>,
)
    requires
        sweep_inv(op, before, now),
        faithful(op, now, replies),
    ensures
        sweep_inv(run(op, now, replies).0, before, run(op, now, replies).1),
    decreases replies.len(),
{
    if replies.len() > 0 {
        match op.pending() {
            ActionView::Call(command) => {
                let reply = replies[0];
                sweep_step(op, before, now, reply);
                sweep_run(op.after(reply), before, now.effect(command, reply), replies.drop_first());
            },
            _ => {},
        }
    }
}

/// A sweep over index sets lets members leave index sets and does nothing
/// else; and no member leaves that has a primary entry. Where the sweep
/// fails, the store has answered with an error or has listed a key that is
/// not the key of an index set.
pub proof fn periodic_groomer_spares_the_living(
    pattern: Seq<char>,
    store: Keyspace,
    replies: Seq<ReplyView>,
)
    requires
        faithful(PeriodicGroomView::matching(pattern), store, replies),
    ensures
        ({
            let end = run(PeriodicGroomView::matching(pattern), store, replies);
            &&& only_members_left(store, end.1)
            &&& forall|physical: Seq<char>, member: Seq<char>| #[trigger]
                store.members(physical).contains(member) && !end.1.members(physical).contains(
                    member,
                ) ==> dead(store, physical, member)
            &&& end.0.pending() matches ActionView::Done(Err(error)) ==> error is Store
                || error is BadScan
        }),
{
    assert(only_members_left(store, store));
    sweep_run(PeriodicGroomView::matching(pattern), store, store, replies);
}

/// The index set has no more members than a sample may hold, so that a
/// sample holds all of them.
pub open spec fn small(store: Keyspace, physical: Seq<char>) -> bool {
    store.members(physical).finite() && store.members(physical).len() <= BATCH_SIZE
}

/// Where the key is still a member of the index set that is groomed, it is
/// among the members of the sample that have yet to be looked at.
pub open spec fn yet_to_check(groom: GroomIndexView, now: Keyspace, key: Seq<char>) -> bool {
    now.members(groom.index).contains(key) ==> exists|j: int|
        groom.at <= j < groom.keys.len() && #[trigger] groom.keys[j] == key
}

/// The index sets that a sweep has yet to finish of the batch it holds.
pub open spec fn in_turn(op: PeriodicGroomView) -> Set<Seq<char>> {
    if op.stage == SweepStage::Grooming {
        Set::new(
            |physical: Seq<char>|
                exists|j: int| op.taken <= j < op.batch.len() && #[trigger] op.batch[j] == physical,
        ).insert(op.groom.index)
    } else {
        Set::empty()
    }
}

/// The index sets that the store lists to a sweep while it runs on
/// `replies`.
pub open spec fn swept(op: PeriodicGroomView, replies: Seq<ReplyView>) -> Set<Seq<char>>
    decreases replies.len(),
{
    if replies.len() == 0 || op.stage == SweepStage::Finished {
        Set::empty()
    } else {
        let later = swept(op.after(replies[0]), replies.drop_first());
        match scan_in(replies[0]) {
            Ok((_, batch)) => if op.stage == SweepStage::Scanning {
                later.union(batch.to_set())
            } else {
                later
            },
            Err(_) => later,
        }
    }
}

/// How a sweep stands to a key of `namespace` that has no primary entry.
pub open spec fn pass_inv(
    op: PeriodicGroomView,
    namespace: Seq<char>,
    key: Seq<char>,
    before: Keyspace,
    now: Keyspace,
) -> bool {
    &&& sweep_inv(op, before, now)
    &&& !now.holds(primary_key(namespace, key))
    &&& op.stage != SweepStage::Grooming && op.failure is None ==> op.taken >= op.batch.len()
    &&& op.stage == SweepStage::Grooming && op.groom.namespace == namespace && small(
        before,
        op.groom.index,
    ) && op.groom.stage != GroomStage::Sample ==> yet_to_check(op.groom, now, key)
}

/// A sample of a small set holds all of the set.
pub proof fn sample_of_small_set(texts: Seq<Seq<char>>, set: Set<Seq<char>>, whole: Set<Seq<char>>)
    requires
        samples(texts, set, BATCH_SIZE as int),
        set.subset_of(whole),
        whole.finite(),
        whole.len() <= BATCH_SIZE,
    ensures
        forall|member: Seq<char>| set.contains(member) ==> texts.contains(member),
{
    vstd::set_lib::lemma_len_subset(set, whole);
}

/// One step of a sweep keeps the sweep as it stands to the key. Where the
/// step ends the grooming of a small index set of the namespace, the key is
/// no member of the set any more.
pub proof fn pass_step(
    op: PeriodicGroomView,
    namespace: Seq<char>,
    key: Seq<char>,
    before: Keyspace,
    now: Keyspace,
    reply: ReplyView,
)
    requires
        pass_inv(op, namespace, key, before, now),
        op.pending() matches ActionView::Call(command) && now.admits(command, reply),
    ensures
        ({
            let next = op.after(reply);
            let then = now.effect(op.pending()->Call_0, reply);
            &&& pass_inv(next, namespace, key, before, then)
            &&& only_members_left(now, then)
            &&& op.stage == SweepStage::Grooming && next.failure is None && op.groom.after(
                reply,
            ).stage == GroomStage::Finished && op.groom.namespace == namespace && small(
                before,
                op.groom.index,
            ) ==> !then.members(op.groom.index).contains(key)
        }),
{
    let next = op.after(reply);
    let then = now.effect(op.pending()->Call_0, reply);
    let primary = primary_key(namespace, key);
    sweep_step(op, before, now, reply);
    assert(!then.holds(primary)) by {
        if then.holds(primary) {
            assert(now.holds(primary));
        }
    }
    if op.stage == SweepStage::Grooming && !(reply is Error) && op.groom.namespace == namespace
        && small(before, op.groom.index) {
        let groom = op.groom;
        let index = groom.index;
        let stepped = groom.after(reply);
        match groom.stage {
            GroomStage::Sample => {
                assert(op.pending() == ActionView::Call(
                    CommandView::SRandMember { key: index, count: BATCH_SIZE },
                ));
                assert(reply is Array);
                let texts = texts_of(reply->Array_0);
                assert(samples(texts, now.members(index), BATCH_SIZE as int));
                if texts.len() == 0 {
                    if now.members(index).contains(key) {
                        assert(texts.contains(key));
                    }
                } else {
                    assert(stepped.keys == texts);
                    assert(now.members(index).subset_of(before.members(index)));
                    sample_of_small_set(texts, now.members(index), before.members(index));
                    if now.members(index).contains(key) {
                        assert(texts.contains(key));
                        let j = choose|j: int| 0 <= j < texts.len() && texts[j] == key;
                        assert(stepped.keys[j] == key);
                    }
                    assert(yet_to_check(stepped, then, key));
                }
            },
            GroomStage::Check => {
                assert(then == now);
                if now.members(index).contains(key) {
                    let j = choose|j: int|
                        groom.at <= j < groom.keys.len() && #[trigger] groom.keys[j] == key;
                    assert(groom.keys[j] == key);
                    if j == groom.at {
                        assert(stepped.stage == GroomStage::Drop);
                    } else {
                        assert(groom.at + 1 <= j);
                    }
                }
            },
            GroomStage::Drop => {
                let dropped = groom.keys[groom.at as int];
                assert(then == now.without_member(index, dropped));
                if then.members(index).contains(key) {
                    assert(now.members(index).contains(key));
                    let j = choose|j: int|
                        groom.at <= j < groom.keys.len() && #[trigger] groom.keys[j] == key;
                    assert(groom.keys[j] == key);
                    assert(j != groom.at);
                }
            },
            GroomStage::Finished => {},
        }
    }
}

/// Whatever the store answers, as long as it answers as the model allows: a
/// sweep that ends well leaves a key without a primary entry in none of the
/// small index sets of its namespace that the sweep had in turn or that the
/// store listed to it.
pub proof fn pass_run(
    op: PeriodicGroomView,
    namespace: Seq<char>,
    key: Seq<char>,
    before: Keyspace,
    now: Keyspace,
    replies: Seq<ReplyView>,
)
    requires
        pass_inv(op, namespace, key, before, now),
        faithful(op, now, replies),
    ensures
        only_members_left(now, run(op, now, replies).1),
        run(op, now, replies).0.pending().succeeded() ==> forall|physical: Seq<char>| #[trigger]
            in_turn(op).union(swept(op, replies)).contains(physical) && namespace_of_index(physical)
                == Some(namespace) && small(before, physical) ==> !run(op, now, replies).1.members(
                physical,
            ).contains(key),
    decreases replies.len(),
{
    let end = run(op, now, replies);
    assert(only_members_left(now, now));
    if replies.len() > 0 {
        match op.pending() {
            ActionView::Call(command) => {
                let reply = replies[0];
                let next = op.after(reply);
                let then = now.effect(command, reply);
                let rest = replies.drop_first();
                pass_step(op, namespace, key, before, now, reply);
                pass_run(next, namespace, key, before, then, rest);
                members_left_twice(now, then, end.1);
                if end.0.pending().succeeded() {
                    assert(next.failure is None) by {
                        if next.failure is Some {
                            assert(next.stage == SweepStage::Finished);
                        }
                    }
                    assert forall|physical: Seq<char>| #[trigger]
                        in_turn(op).union(swept(op, replies)).contains(physical)
                            && namespace_of_index(physical) == Some(namespace) && small(
                            before,
                            physical,
                        ) implies !end.1.members(physical).contains(key) by {
                        if in_turn(next).union(swept(next, rest)).contains(physical) {
                        } else {
                            match op.stage {
                                SweepStage::Scanning => {
                                    let batch = scan_in(reply)->Ok_0.1;
                                    assert(batch.to_set().contains(physical));
                                    let j = choose|j: int|
                                        0 <= j < batch.len() && batch[j] == physical;
                                    if j == 0 {
                                        assert(next.groom.index == physical);
                                    } else {
                                        assert(next.batch[j] == physical);
                                    }
                                    assert(in_turn(next).contains(physical));
                                },
                                SweepStage::Grooming => {
                                    if physical == op.groom.index {
                                        assert(op.groom.namespace == namespace);
                                        assert(op.groom.after(reply).stage == GroomStage::Finished);
                                        assert(!then.members(physical).contains(key));
                                    } else {
                                        let j = choose|j: int|
                                            op.taken <= j < op.batch.len() && #[trigger] op.batch[j]
                                                == physical;
                                        assert(op.groom.after(reply).stage == GroomStage::Finished);
                                        if j == op.taken {
                                            assert(next.groom.index == physical);
                                        } else {
                                            assert(next.batch[j] == physical);
                                        }
                                        assert(in_turn(next).contains(physical));
                                    }
                                },
                                SweepStage::Finished => {},
                            }
                        }
                    }
                }
            },
            _ => {},
        }
    }
}

/// Expiry cascade by a sweep: where a key has no primary entry and the sweep
/// has ended well, the key is a member of none of the index sets of its
/// namespace that the store listed to the sweep and that had no more members
/// than a sample may hold. Where the store lists every index set that holds
/// the key, as a full cycle of its cursor does, no index set holds the key
/// any more.
pub proof fn periodic_groomer_clears_the_dead(
    pattern: Seq<char>,
    namespace: Seq<char>,
    key: Seq<char>,
    store: Keyspace,
    replies: Seq<ReplyView>,
)
    requires
        !store.holds(primary_key(namespace, key)),
        faithful(PeriodicGroomView::matching(pattern), store, replies),
        run(PeriodicGroomView::matching(pattern), store, replies).0.pending().succeeded(),
    ensures
        ({
            let start = PeriodicGroomView::matching(pattern);
            let end = run(start, store, replies).1;
            &&& forall|physical: Seq<char>| #[trigger]
                swept(start, replies).contains(physical) && namespace_of_index(physical) == Some(
                    namespace,
                ) && small(store, physical) ==> !end.members(physical).contains(key)
            &&& (forall|physical: Seq<char>| #[trigger]
                store.members(physical).contains(key) ==> swept(start, replies).contains(physical)
                    && namespace_of_index(physical) == Some(namespace) && small(store, physical))
                ==> forall|physical: Seq<char>| !(#[trigger] end.members(physical).contains(key))
        }),
{
    let start = PeriodicGroomView::matching(pattern);
    let end = run(start, store, replies).1;
    assert(only_members_left(store, store));
    pass_run(start, namespace, key, store, store, replies);
    assert forall|physical: Seq<char>| #[trigger]
        swept(start, replies).contains(physical) && namespace_of_index(physical) == Some(namespace)
            && small(store, physical) implies !end.members(physical).contains(key) by {
        assert(in_turn(start).union(swept(start, replies)).contains(physical));
    }
    if forall|physical: Seq<char>| #[trigger]
        store.members(physical).contains(key) ==> swept(start, replies).contains(physical)
            && namespace_of_index(physical) == Some(namespace) && small(store, physical) {
        assert forall|physical: Seq<char>| !(#[trigger] end.members(physical).contains(key)) by {
            if end.members(physical).contains(key) {
                assert(store.members(physical).contains(key));
            }
        }
    }
}

/// Expiry cascade by a full sweep: where a key has no primary entry, the
/// sweep over all index sets has ended well, and the cursor has made a whole
/// cycle, the key is a member of no index set of its namespace, provided that
/// the index sets that held the key had no more members than a sample may
/// hold.
pub proof fn full_sweep_clears_the_dead(
    namespace: Seq<char>,
    key: Seq<char>,
    store: Keyspace,
    replies: Seq<ReplyView>,
)
    requires
        !store.holds(primary_key(namespace, key)),
        faithful(PeriodicGroomView::start(), store, replies),
        run(PeriodicGroomView::start(), store, replies).0.pending().succeeded(),
        whole_cycle(
            swept(PeriodicGroomView::start(), replies),
            store,
            run(PeriodicGroomView::start(), store, replies).1,
        ),
        forall|physical: Seq<char>| #[trigger]
            store.members(physical).contains(key) && namespace_of_index(physical) == Some(namespace)
                ==> small(store, physical),
    ensures
        forall|physical: Seq<char>|
            namespace_of_index(physical) == Some(namespace) ==> !(#[trigger] run(
                PeriodicGroomView::start(),
                store,
                replies,
            ).1.members(physical).contains(key)),
{
    let start = PeriodicGroomView::start();
    let end = run(start, store, replies).1;
    assert(only_members_left(store, store));
    pass_run(start, namespace, key, store, store, replies);
    periodic_groomer_clears_the_dead(all_indices(), namespace, key, store, replies);
    assert forall|physical: Seq<char>| namespace_of_index(physical) == Some(namespace) implies !(
    #[trigger] end.members(physical).contains(key)) by {
        if end.members(physical).contains(key) {
            assert(end.holds(physical));
            assert(store.holds(physical));
            assert(store.members(physical).contains(key));
            assert(swept(start, replies).contains(physical));
        }
    }
}

} // verus!
