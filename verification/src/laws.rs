//! What holds of the registry whatever its content: who is reached by a
//! change, and what dropping a subscriber does to everybody else.

use crate::server::{stream_transition, StreamEvent, StreamState};
use crate::service::{
    at_rest, lemma_found_model_has_the_name, lemma_transition_keeps_wf, settled, ActionView,
    EventView, Phase, ServiceView,
};
use crate::subscription::{
    ids_ordered, match_count, reaches, recipients, refused, without, Delivery,
    SubscribeRequestView, SubscriberView,
};
use vstd::prelude::*;

verus! {

/// A change is counted against a list of filters just when it meets one of
/// them.
pub proof fn lemma_counted_iff_some_filter_matches(
    entries: Seq<SubscribeRequestView>,
    model: Seq<u8>,
    key: Seq<Seq<u8>>,
)
    ensures
        match_count(entries, model, key) <= entries.len(),
        match_count(entries, model, key) > 0 <==> exists|e: int|
            0 <= e < entries.len() && (#[trigger] entries[e]).matches(model, key),
    decreases entries.len(),
{
    if entries.len() > 0 {
        let front = entries.drop_last();
        lemma_counted_iff_some_filter_matches(front, model, key);
        if match_count(entries, model, key) > 0 {
            if entries.last().matches(model, key) {
                assert(entries[entries.len() - 1].matches(model, key));
            } else {
                let e = choose|e: int|
                    0 <= e < front.len() && (#[trigger] front[e]).matches(model, key);
                assert(entries[e].matches(model, key));
            }
        } else {
            assert forall|e: int| 0 <= e < entries.len() implies !(#[trigger] entries[e]).matches(
                model,
                key,
            ) by {
                if e < front.len() {
                    assert(front[e] == entries[e]);
                }
            }
        }
    }
}

/// Every delivery of a change goes to a registered subscriber that has a
/// filter for it, and every such subscriber has a delivery.
pub proof fn lemma_recipients_are_the_matching(
    subscribers: Seq<SubscriberView>,
    model: Seq<u8>,
    key: Seq<Seq<u8>>,
)
    ensures
        forall|j: int|
            0 <= j < recipients(subscribers, model, key).len() ==> exists|i: int|
                0 <= i < subscribers.len() && (#[trigger] subscribers[i]).id == (
                #[trigger] recipients(subscribers, model, key)[j]).id && match_count(
                    subscribers[i].entries,
                    model,
                    key,
                ) > 0,
        forall|i: int|
            0 <= i < subscribers.len() && match_count(
                (#[trigger] subscribers[i]).entries,
                model,
                key,
            ) > 0 ==> reaches(recipients(subscribers, model, key), subscribers[i].id),
    decreases subscribers.len(),
{
    let plan = recipients(subscribers, model, key);
    if subscribers.len() > 0 {
        let front = subscribers.drop_last();
        let last = subscribers.last();
        let before = recipients(front, model, key);
        lemma_recipients_are_the_matching(front, model, key);
        assert forall|j: int| 0 <= j < plan.len() implies exists|i: int|
            0 <= i < subscribers.len() && (#[trigger] subscribers[i]).id == (#[trigger] plan[j]).id
                && match_count(subscribers[i].entries, model, key) > 0 by {
            if j < before.len() {
                assert(plan[j] == before[j]);
                let i = choose|i: int|
                    0 <= i < front.len() && (#[trigger] front[i]).id == before[j].id
                        && match_count(front[i].entries, model, key) > 0;
                assert(subscribers[i] == front[i]);
            } else {
                assert(subscribers[subscribers.len() - 1] == last);
            }
        }
        assert forall|i: int|
            0 <= i < subscribers.len() && match_count(
                (#[trigger] subscribers[i]).entries,
                model,
                key,
            ) > 0 implies reaches(plan, subscribers[i].id) by {
            if i < front.len() {
                assert(front[i] == subscribers[i]);
                let j = choose|j: int|
                    0 <= j < before.len() && (#[trigger] before[j]).id == front[i].id;
                assert(plan[j] == before[j]);
            } else {
                assert(plan[plan.len() - 1].id == last.id);
            }
        }
    }
}

/// A change is delivered to a registered subscriber if and only if one of
/// the subscriber's filters names the change's model and either has no keys
/// or has exactly the entity's key.
pub proof fn lemma_delivered_iff_matching(
    subscribers: Seq<SubscriberView>,
    next: nat,
    model: Seq<u8>,
    key: Seq<Seq<u8>>,
    i: int,
)
    requires
        ids_ordered(subscribers, next),
        0 <= i < subscribers.len(),
    ensures
        reaches(recipients(subscribers, model, key), subscribers[i].id) <==> exists|e: int|
            0 <= e < subscribers[i].entries.len() && (#[trigger] subscribers[i].entries[e]).matches(
                model,
                key,
            ),
{
    let plan = recipients(subscribers, model, key);
    lemma_recipients_are_the_matching(subscribers, model, key);
    lemma_counted_iff_some_filter_matches(subscribers[i].entries, model, key);
    if reaches(plan, subscribers[i].id) {
        let j = choose|j: int| 0 <= j < plan.len() && (#[trigger] plan[j]).id == subscribers[i].id;
        let k = choose|k: int|
            0 <= k < subscribers.len() && (#[trigger] subscribers[k]).id == plan[j].id
                && match_count(subscribers[k].entries, model, key) > 0;
        assert(k == i) by {
            if k < i {
                assert(subscribers[k].id < subscribers[i].id);
            } else if i < k {
                assert(subscribers[i].id < subscribers[k].id);
            }
        }
    }
}

/// The id that a new subscriber gets belongs to nobody in the table, and
/// the table with the new subscriber is in order again: no id is ever
/// given twice.
pub proof fn lemma_new_id_is_fresh(subscribers: Seq<SubscriberView>, next: nat, row: SubscriberView)
    requires
        ids_ordered(subscribers, next),
        row.id == next,
    ensures
        forall|i: int| 0 <= i < subscribers.len() ==> (#[trigger] subscribers[i]).id != row.id,
        ids_ordered(subscribers.push(row), next + 1),
{
}

/// A change is delivered to nobody who is not registered.
pub proof fn lemma_unregistered_is_not_reached(
    subscribers: Seq<SubscriberView>,
    model: Seq<u8>,
    key: Seq<Seq<u8>>,
    id: u64,
)
    requires
        forall|i: int| 0 <= i < subscribers.len() ==> (#[trigger] subscribers[i]).id != id,
    ensures
        !reaches(recipients(subscribers, model, key), id),
{
    lemma_recipients_are_the_matching(subscribers, model, key);
}

/// Once a subscriber is removed, no dispatch on the table that is left
/// delivers to its id.
pub proof fn lemma_removed_is_not_reached(
    subscribers: Seq<SubscriberView>,
    id: u64,
    model: Seq<u8>,
    key: Seq<Seq<u8>>,
)
    ensures
        !reaches(recipients(without(subscribers, set![id]), model, key), id),
{
    let keep = |s: SubscriberView| !set![id].contains(s.id);
    let left = subscribers.filter(keep);
    assert forall|i: int| 0 <= i < left.len() implies (#[trigger] left[i]).id != id by {
        subscribers.lemma_filter_pred(keep, i);
    }
    lemma_unregistered_is_not_reached(left, model, key, id);
}

/// Removing the same subscribers a second time changes nothing.
pub proof fn lemma_remove_twice_is_remove_once(subscribers: Seq<SubscriberView>, ids: Set<u64>)
    ensures
        without(without(subscribers, ids), ids) == without(subscribers, ids),
    decreases subscribers.len(),
{
    let keep = |s: SubscriberView| !ids.contains(s.id);
    if subscribers.len() == 0 {
        reveal(Seq::filter);
    } else {
        let front = subscribers.drop_last();
        let last = subscribers.last();
        lemma_remove_twice_is_remove_once(front, ids);
        assert(subscribers =~= front.push(last));
        front.lemma_filter_push(last, keep);
        if keep(last) {
            front.filter(keep).lemma_filter_push(last, keep);
        }
    }
}

/// Removing an id that is not registered changes nothing.
pub proof fn lemma_remove_unknown_is_noop(subscribers: Seq<SubscriberView>, id: u64)
    requires
        forall|i: int| 0 <= i < subscribers.len() ==> (#[trigger] subscribers[i]).id != id,
    ensures
        without(subscribers, set![id]) == subscribers,
    decreases subscribers.len(),
{
    let keep = |s: SubscriberView| !set![id].contains(s.id);
    if subscribers.len() == 0 {
        reveal(Seq::filter);
    } else {
        let front = subscribers.drop_last();
        let last = subscribers.last();
        assert forall|i: int| 0 <= i < front.len() implies (#[trigger] front[i]).id != id by {
            assert(front[i] == subscribers[i]);
        }
        lemma_remove_unknown_is_noop(front, id);
        assert(subscribers =~= front.push(last));
        front.lemma_filter_push(last, keep);
        assert(subscribers[subscribers.len() - 1].id != id);
    }
}

/// Nobody is dropped by a dispatch but a subscriber that the change was
/// meant for and whose channel did not take every copy; one whose channel
/// took them all stays.
pub proof fn lemma_dropped_are_the_refused(plan: Seq<Delivery>, accepted: Seq<usize>, id: u64)
    requires
        accepted.len() == plan.len(),
    ensures
        refused(plan, accepted).contains(id) <==> exists|j: int|
            0 <= j < plan.len() && (#[trigger] plan[j]).id == id && accepted[j] < plan[j].copies,
    decreases plan.len(),
{
    if plan.len() > 0 {
        let front = plan.drop_last();
        let taken = accepted.drop_last();
        let before = refused(front, taken);
        lemma_dropped_are_the_refused(front, taken, id);
        let last = plan.len() - 1;
        if refused(plan, accepted).contains(id) {
            let k = choose|k: int|
                0 <= k < refused(plan, accepted).len() && refused(plan, accepted)[k] == id;
            if k < before.len() {
                assert(before[k] == id);
                assert(before.contains(id));
                let j = choose|j: int|
                    0 <= j < front.len() && (#[trigger] front[j]).id == id && taken[j]
                        < front[j].copies;
                assert(plan[j].id == id && accepted[j] < plan[j].copies);
            } else {
                assert(plan[last].id == id && accepted[last] < plan[last].copies);
            }
        }
        if exists|j: int|
            0 <= j < plan.len() && (#[trigger] plan[j]).id == id && accepted[j] < plan[j].copies {
            let j = choose|j: int|
                0 <= j < plan.len() && (#[trigger] plan[j]).id == id && accepted[j]
                    < plan[j].copies;
            if j < last {
                assert(front[j].id == id && taken[j] < front[j].copies);
                assert(before.contains(id));
                let k = choose|k: int| 0 <= k < before.len() && before[k] == id;
                assert(refused(plan, accepted)[k] == id);
            } else {
                assert(refused(plan, accepted)[before.len() as int] == id);
            }
        }
    }
}

/// Dropping subscribers, as a dispatch does with those whose channel is
/// full or closed, takes their deliveries out of every later dispatch and
/// leaves the deliveries to all others as they were.
pub proof fn lemma_dropping_leaves_other_deliveries(
    subscribers: Seq<SubscriberView>,
    dropped: Set<u64>,
    model: Seq<u8>,
    key: Seq<Seq<u8>>,
)
    ensures
        recipients(without(subscribers, dropped), model, key) == recipients(
            subscribers,
            model,
            key,
        ).filter(|d: Delivery| !dropped.contains(d.id)),
    decreases subscribers.len(),
{
    let keep = |s: SubscriberView| !dropped.contains(s.id);
    let stays = |d: Delivery| !dropped.contains(d.id);
    if subscribers.len() == 0 {
        reveal(Seq::filter);
    } else {
        let front = subscribers.drop_last();
        let last = subscribers.last();
        lemma_dropping_leaves_other_deliveries(front, dropped, model, key);
        assert(subscribers =~= front.push(last));
        front.lemma_filter_push(last, keep);
        let copies = match_count(last.entries, model, key);
        let delivery = Delivery { id: last.id, copies: copies as usize };
        if copies > 0 {
            recipients(front, model, key).lemma_filter_push(delivery, stays);
        }
        if keep(last) {
            assert(front.filter(keep).push(last).drop_last() =~= front.filter(keep));
        }
    }
}

/// A stream never goes back to being merely registered, a stream that is
/// over stays as it is, and the removal of its subscriber is asked for
/// exactly when a live stream ends.
pub proof fn lemma_stream_ends_once(state: StreamState, event: StreamEvent)
    ensures
        !(stream_transition(state, event).0 is Registered),
        state is Cancelled || state is Closed ==> stream_transition(state, event) == (state, false),
        stream_transition(state, event).1 <==> (state is Registered || state is Streaming) && !(
        event is Delivered),
{
}

/// The notifications of a block are all dispatched before the next block
/// is taken up: while the service resolves a block, looks up a model or
/// dispatches a change, a block number that arrives changes nothing, and
/// the service asks again for what it waits upon.
pub proof fn lemma_block_is_finished_first(state: ServiceView, block: u64)
    requires
        state.wf(),
        state.phase is Resolving || state.phase is AwaitingModel || state.phase is Dispatching,
    ensures
        state.transition(EventView::BlockArrived(block)) == (state, state.awaited()),
{
}

/// The service asks for the next block only when nothing of the current
/// one is left to dispatch.
pub proof fn lemma_next_block_only_at_rest(state: ServiceView, event: EventView)
    requires
        state.wf(),
        state.transition(event).1 is AwaitBlock,
    ensures
        state.transition(event).0 == at_rest(Phase::Idle, state.transition(event).0.block),
{
}

/// Once every dispatch that can be made at once is made, what is left to
/// do is never a dispatch; and where it is to wait for the next block,
/// nothing of the current block is left.
pub proof fn lemma_settled_leaves_no_dispatch(state: ServiceView, action: ActionView)
    requires
        state.wf(),
        action is Dispatch ==> state.phase is Dispatching,
        action is AwaitBlock ==> state == at_rest(Phase::Idle, state.block),
    ensures
        !(settled(state, action).1 is Dispatch),
        settled(state, action).0.wf(),
        settled(state, action).1 is AwaitBlock ==> settled(state, action).0 == at_rest(
            Phase::Idle,
            settled(state, action).0.block,
        ),
    decreases state.changes.len() - state.position,
{
    if action is Dispatch {
        let next = state.transition(EventView::Dispatched);
        lemma_transition_keeps_wf(state, EventView::Dispatched);
        lemma_settled_leaves_no_dispatch(next.0, next.1);
    }
}

/// The notifications of a block are all dispatched before the service
/// waits for the next block, whatever event it handles.
pub proof fn lemma_all_dispatched_before_next_block(state: ServiceView, event: EventView)
    requires
        state.wf(),
    ensures
        ({
            let first = state.transition(event);
            let end = settled(first.0, first.1);
            &&& !(end.1 is Dispatch)
            &&& end.1 is AwaitBlock ==> end.0 == at_rest(Phase::Idle, end.0.block)
        }),
{
    let first = state.transition(event);
    lemma_transition_keeps_wf(state, event);
    lemma_first_action_fits_the_state(state, event);
    lemma_settled_leaves_no_dispatch(first.0, first.1);
}

proof fn lemma_first_action_fits_the_state(state: ServiceView, event: EventView)
    requires
        state.wf(),
    ensures
        state.transition(event).1 is Dispatch ==> state.transition(event).0.phase is Dispatching,
        state.transition(event).1 is AwaitBlock ==> state.transition(event).0 == at_rest(
            Phase::Idle,
            state.transition(event).0.block,
        ),
{
}

/// Nothing but the closing of the feed stops the service: a block that
/// cannot be resolved, or a model that cannot be looked up, leaves it
/// waiting for the next block.
pub proof fn lemma_only_a_closed_feed_stops(state: ServiceView, event: EventView)
    requires
        state.wf(),
        !(state.phase is Stopped),
    ensures
        state.transition(event).0.phase is Stopped <==> event is FeedClosed,
        event is FeedClosed ==> state.transition(event).1 is Stop,
        event is ResolutionFailed && state.phase is Resolving ==> state.transition(event) == (
            at_rest(Phase::Idle, state.block),
            ActionView::AwaitBlock,
        ),
        event is ModelFailed && state.phase is AwaitingModel ==> state.transition(event) == (
            at_rest(Phase::Idle, state.block),
            ActionView::AwaitBlock,
        ),
{
}

/// What is dispatched is the change at hand, under its own model's name.
pub proof fn lemma_dispatch_is_of_the_change_at_hand(state: ServiceView, event: EventView)
    requires
        state.wf(),
    ensures
        state.transition(event).1 matches ActionView::Dispatch(notification) ==> {
            let after = state.transition(event).0;
            &&& after.phase is Dispatching
            &&& after.position < after.changes.len()
            &&& notification.model.name == after.changes[after.position as int].model
            &&& notification.entity_key == after.changes[after.position as int].entity_key
            &&& notification.payload == after.changes[after.position as int].payload
        },
{
    let after = state.transition(event).0;
    if state.transition(event).1 is Dispatch {
        lemma_transition_keeps_wf(state, event);
        lemma_found_model_has_the_name(
            after.known,
            after.changes[after.position as int].model,
        );
        if state.phase is AwaitingModel && event is ModelResolved {
        } else if state.phase is Dispatching && event is Dispatched {
        } else if state.phase is Resolving && event is ChangesResolved {
        } else {
            assert(state.phase is Dispatching);
            assert(after == state);
        }
    }
}

} // verus!
