//! The registry of live subscribers: who asked for which entities, and who
//! is handed a change.

use crate::felt::{felts_view, Felt};
use tokio::sync::mpsc::{Receiver, Sender};
use vstd::prelude::*;

verus! {

/// The sending half of a bounded channel of `tokio`.
#[verifier::external_type_specification]
#[verifier::external_body]
#[verifier::reject_recursive_types(T)]
pub struct ExSender<T>(Sender<T>);

/// The receiving half of a bounded channel of `tokio`.
#[verifier::external_type_specification]
#[verifier::external_body]
#[verifier::reject_recursive_types(T)]
pub struct ExReceiver<T>(Receiver<T>);

/// The largest number of messages a channel may be made to hold.
pub const MAX_CHANNEL_CAPACITY: usize = usize::MAX / 8;

/// How many unread notifications a subscriber's channel holds where nothing
/// else is asked for.
pub const DEFAULT_CHANNEL_CAPACITY: usize = 1;

/// Which model a filter or a change concerns, and how many storage words
/// one packed instance of it takes.
#[derive(Clone, Copy, Debug, PartialEq, Eq)]
pub struct ModelMetadata {
    pub name: Felt,
    pub packed_size: usize,
}

/// One filter of a subscriber: a model and the key an entity must have.
/// No keys at all stand for any entity of the model.
#[derive(Clone, Debug, PartialEq, Eq)]
pub struct SubscribeRequest {
    pub keys: Vec<Felt>,
    pub model: ModelMetadata,
}

/// A model's metadata as a value.
pub struct ModelMetadataView {
    pub name: Seq<u8>,
    pub packed_size: usize,
}

/// A filter as a value.
pub struct SubscribeRequestView {
    pub keys: Seq<Seq<u8>>,
    pub model: ModelMetadataView,
}

/// A change of one entity, as it is handed to a subscriber.
#[derive(Clone, Debug, PartialEq, Eq)]
pub struct Notification {
    pub model: ModelMetadata,
    pub entity_key: Vec<Felt>,
    pub payload: Vec<u8>,
}

/// A notification as a value.
pub struct NotificationView {
    pub model: ModelMetadataView,
    pub entity_key: Seq<Seq<u8>>,
    pub payload: Seq<u8>,
}

/// A registered subscriber as a value: its id, its filters in the order
/// they were given, and the sending end of its channel.
pub struct SubscriberView {
    pub id: u64,
    pub entries: Seq<SubscribeRequestView>,
    pub channel: Sender<Notification>,
}

/// A subscriber to whom a change goes, and in how many copies: one for each
/// of its filters that the change meets.
#[derive(Clone, Copy, Debug, PartialEq, Eq, Structural)]
pub struct Delivery {
    pub id: u64,
    pub copies: usize,
}

/// What one dispatch did: to whom it tried to hand the change, how many
/// copies the channel of each of them took, and whom it dropped because
/// the channel, full or closed, did not take them all.
#[derive(Clone, Debug, PartialEq, Eq)]
pub struct DispatchReport {
    pub attempted: Vec<Delivery>,
    pub accepted: Vec<usize>,
    pub dropped: Vec<u64>,
}

/// What a new subscriber holds: its id, and the end of the channel on which
/// its notifications arrive.
pub struct Subscription {
    pub id: u64,
    pub receiver: Receiver<Notification>,
}

struct Subscriber {
    id: u64,
    entries: Vec<SubscribeRequest>,
    sender: Sender<Notification>,
}

/// The table of live subscribers, oldest first.
pub struct SubscriberManager {
    subscribers: Vec<Subscriber>,
    next_id: u64,
    capacity: usize,
}

impl View for ModelMetadata {
    type V = ModelMetadataView;

    open spec fn view(&self) -> ModelMetadataView {
        ModelMetadataView { name: self.name@, packed_size: self.packed_size }
    }
}

impl View for Notification {
    type V = NotificationView;

    open spec fn view(&self) -> NotificationView {
        NotificationView {
            model: self.model@,
            entity_key: felts_view(self.entity_key@),
            payload: self.payload@,
        }
    }
}

impl View for SubscribeRequest {
    type V = SubscribeRequestView;

    open spec fn view(&self) -> SubscribeRequestView {
        SubscribeRequestView { keys: felts_view(self.keys@), model: self.model@ }
    }
}

impl View for Subscriber {
    type V = SubscriberView;

    closed spec fn view(&self) -> SubscriberView {
        SubscriberView {
            id: self.id,
            entries: requests_view(self.entries@),
            channel: self.sender,
        }
    }
}

/// A list of filters as values.
pub open spec fn requests_view(requests: Seq<SubscribeRequest>) -> Seq<SubscribeRequestView> {
    requests.map_values(|r: SubscribeRequest| r@)
}

impl SubscribeRequestView {
    /// Whether a change of the entity `key` of `model` meets this filter:
    /// the model's name is the filter's, and the filter has no keys or just
    /// the entity's.
    pub open spec fn matches(self, model: Seq<u8>, key: Seq<Seq<u8>>) -> bool {
        self.model.name == model && (self.keys.len() == 0 || self.keys == key)
    }
}

/// How many of `entries` a change of the entity `key` of `model` meets.
pub open spec fn match_count(
    entries: Seq<SubscribeRequestView>,
    model: Seq<u8>,
    key: Seq<Seq<u8>>,
) -> nat
    decreases entries.len(),
{
    if entries.len() == 0 {
        0
    } else {
        match_count(entries.drop_last(), model, key) + if entries.last().matches(model, key) {
            1nat
        } else {
            0nat
        }
    }
}

/// To whom a change of the entity `key` of `model` goes: each subscriber
/// with a filter that it meets, in the table's order.
pub open spec fn recipients(
    subscribers: Seq<SubscriberView>,
    model: Seq<u8>,
    key: Seq<Seq<u8>>,
) -> Seq<Delivery>
    decreases subscribers.len(),
{
    if subscribers.len() == 0 {
        Seq::empty()
    } else {
        let before = recipients(subscribers.drop_last(), model, key);
        let copies = match_count(subscribers.last().entries, model, key);
        if copies > 0 {
            before.push(Delivery { id: subscribers.last().id, copies: copies as usize })
        } else {
            before
        }
    }
}

/// The table without the subscribers whose id is one of `ids`. Those who
/// stay keep their place among each other, their filters and their
/// channel.
pub open spec fn without(subscribers: Seq<SubscriberView>, ids: Set<u64>) -> Seq<SubscriberView> {
    subscribers.filter(|s: SubscriberView| !ids.contains(s.id))
}

/// The ids of a table rise from the oldest subscriber to the newest, and
/// all lie below `next`.
pub open spec fn ids_ordered(subscribers: Seq<SubscriberView>, next: nat) -> bool {
    &&& forall|i: int, j: int|
        0 <= i < j < subscribers.len() ==> subscribers[i].id < subscribers[j].id
    &&& forall|i: int| 0 <= i < subscribers.len() ==> (#[trigger] subscribers[i]).id < next
}

/// Whom a dispatch drops: those of `plan` whose channel took fewer copies
/// than were theirs, in the plan's order. `accepted` holds the number of
/// copies taken for each delivery of the plan.
pub open spec fn refused(plan: Seq<Delivery>, accepted: Seq<usize>) -> Seq<u64>
    decreases plan.len(),
{
    if plan.len() == 0 || accepted.len() != plan.len() {
        Seq::empty()
    } else {
        let before = refused(plan.drop_last(), accepted.drop_last());
        if accepted.last() < plan.last().copies {
            before.push(plan.last().id)
        } else {
            before
        }
    }
}

/// Whether `report` tells of a dispatch of `note` on `table`: the change
/// was offered to those it was meant for, no channel took more copies than
/// were offered to it, and those were dropped whose channel took fewer.
pub open spec fn report_of(
    table: Seq<SubscriberView>,
    note: NotificationView,
    report: DispatchReport,
) -> bool {
    &&& report.attempted@ == recipients(table, note.model.name, note.entity_key)
    &&& report.accepted.len() == report.attempted.len()
    &&& forall|j: int|
        0 <= j < report.accepted.len() ==> report.accepted@[j] <= (
        #[trigger] report.attempted@[j]).copies
    &&& report.dropped@ == refused(report.attempted@, report.accepted@)
}

/// The table after the dispatches that `reports` tell of, one after the
/// other: without all those that they dropped.
pub open spec fn table_after(table: Seq<SubscriberView>, reports: Seq<DispatchReport>) -> Seq<
    SubscriberView,
>
    decreases reports.len(),
{
    if reports.len() == 0 {
        table
    } else {
        without(table_after(table, reports.drop_last()), reports.last().dropped@.to_set())
    }
}

/// Whether some delivery of `plan` goes to `id`.
pub open spec fn reaches(plan: Seq<Delivery>, id: u64) -> bool {
    exists|j: int| 0 <= j < plan.len() && (#[trigger] plan[j]).id == id
}

/// `tokio::sync::mpsc::channel`: a bounded channel that holds up to
/// `capacity` messages. The outside function panics on a capacity of zero
/// or above the largest it accepts.
#[verifier::external_body]
fn open_channel(capacity: usize) -> (ends: (Sender<Notification>, Receiver<Notification>))
    requires
        0 < capacity <= MAX_CHANNEL_CAPACITY,
{
    tokio::sync::mpsc::channel(capacity)
}

/// `Sender::try_send` of `tokio::sync::mpsc`: hands `message` over without
/// waiting. Whether it is accepted depends on the channel, which may be
/// full or closed, so nothing is claimed of the answer.
#[verifier::external_body]
fn offer(sender: &Sender<Notification>, message: Notification) -> (accepted: bool) {
    sender.try_send(message).is_ok()
}

/// Whether two keys are the same sequence of elements.
pub fn keys_equal(a: &Vec<Felt>, b: &Vec<Felt>) -> (r: bool)
    ensures
        r == (felts_view(a@) == felts_view(b@)),
{
    if a.len() != b.len() {
        assert(felts_view(a@).len() != felts_view(b@).len());
        return false;
    }
    let mut i: usize = 0;
    while i < a.len()
        invariant
            i <= a.len(),
            a.len() == b.len(),
            forall|j: int| 0 <= j < i ==> a@[j]@ == b@[j]@,
        decreases a.len() - i,
    {
        if !a[i].same(&b[i]) {
            assert(felts_view(a@)[i as int] != felts_view(b@)[i as int]);
            return false;
        }
        i += 1;
    }
    assert(felts_view(a@) =~= felts_view(b@));
    true
}

impl Notification {
    /// The notification of a change of the entity `entity_key` of `model`.
    pub fn new(
        model: &ModelMetadata,
        entity_key: &Vec<Felt>,
        payload: &Vec<u8>,
    ) -> (r: Notification)
        ensures
            r@ == (NotificationView {
                model: model@,
                entity_key: felts_view(entity_key@),
                payload: payload@,
            }),
    {
        Notification { model: *model, entity_key: entity_key.clone(), payload: payload.clone() }
    }
}

impl SubscribeRequest {
    /// Whether a change of the entity `key` of `model` meets this filter.
    pub fn matches(&self, model: &ModelMetadata, key: &Vec<Felt>) -> (r: bool)
        ensures
            r == self@.matches(model.name@, felts_view(key@)),
    {
        self.model.name.same(&model.name) && (self.keys.len() == 0 || keys_equal(&self.keys, key))
    }
}

/// How many of `entries` a change of the entity `key` of `model` meets.
pub fn count_matches(
    entries: &Vec<SubscribeRequest>,
    model: &ModelMetadata,
    key: &Vec<Felt>,
) -> (n: usize)
    ensures
        n == match_count(requests_view(entries@), model.name@, felts_view(key@)),
{
    let ghost views = requests_view(entries@);
    let mut n: usize = 0;
    let mut i: usize = 0;
    while i < entries.len()
        invariant
            i <= entries.len(),
            views == requests_view(entries@),
            n <= i,
            n == match_count(views.take(i as int), model.name@, felts_view(key@)),
        decreases entries.len() - i,
    {
        proof {
            assert(views.take(i + 1).drop_last() =~= views.take(i as int));
            assert(views.take(i + 1).last() == entries@[i as int]@);
        }
        if entries[i].matches(model, key) {
            n += 1;
        }
        i += 1;
    }
    proof {
        assert(views.take(i as int) =~= views);
    }
    n
}

fn contains_id(ids: &Vec<u64>, id: u64) -> (r: bool)
    ensures
        r == ids@.contains(id),
{
    let mut i: usize = 0;
    while i < ids.len()
        invariant
            i <= ids.len(),
            forall|j: int| 0 <= j < i ==> ids@[j] != id,
        decreases ids.len() - i,
    {
        if ids[i] == id {
            return true;
        }
        i += 1;
    }
    false
}

impl Subscriber {
    /// Offers a change of the entity `entity_key` of `model` to this
    /// subscriber, on its own channel: one copy for each of its filters that
    /// the change meets, until the channel refuses one. Gives the delivery
    /// that was due and the number of copies the channel took, or nothing
    /// where no filter is met.
    fn deliver(
        &self,
        model: &ModelMetadata,
        entity_key: &Vec<Felt>,
        payload: &Vec<u8>,
    ) -> (r: Option<(Delivery, usize)>)
        ensures
            r is None <==> match_count(self@.entries, model.name@, felts_view(entity_key@)) == 0,
            r matches Some((delivery, taken)) ==> {
                &&& delivery.id == self@.id
                &&& delivery.copies == match_count(
                    self@.entries,
                    model.name@,
                    felts_view(entity_key@),
                )
                &&& taken <= delivery.copies
            },
    {
        let copies: usize = count_matches(&self.entries, model, entity_key);
        if copies == 0 {
            return None;
        }
        let mut open = true;
        let mut taken: usize = 0;
        while open && taken < copies
            invariant
                taken <= copies,
            decreases copies - taken + if open { 1int } else { 0int },
        {
            let message = Notification::new(model, entity_key, payload);
            if offer(&self.sender, message) {
                taken += 1;
            } else {
                open = false;
            }
        }
        Some((Delivery { id: self.id, copies }, taken))
    }
}

impl Default for SubscriberManager {
    /// An empty registry whose channels hold one unread notification.
    fn default() -> (r: SubscriberManager)
        ensures
            r.wf(),
            r.subscribers() == Seq::<SubscriberView>::empty(),
            r.next_id() == 0,
            r.capacity() == DEFAULT_CHANNEL_CAPACITY,
    {
        SubscriberManager::with_capacity(DEFAULT_CHANNEL_CAPACITY)
    }
}

/// The table's rows as values.
spec fn rows(subscribers: Seq<Subscriber>) -> Seq<SubscriberView> {
    subscribers.map_values(|s: Subscriber| s@)
}

impl SubscriberManager {
    /// The registered subscribers as values, oldest first.
    pub closed spec fn subscribers(&self) -> Seq<SubscriberView> {
        rows(self.subscribers@)
    }

    /// The id that the next subscriber gets.
    pub closed spec fn next_id(&self) -> nat {
        self.next_id as nat
    }

    /// How many notifications a subscriber's channel holds unread.
    pub closed spec fn capacity(&self) -> nat {
        self.capacity as nat
    }

    /// What holds of every registry: no id occurs twice nor will be given
    /// again, and channels can be made with its capacity.
    pub open spec fn wf(&self) -> bool {
        &&& ids_ordered(self.subscribers(), self.next_id())
        &&& 0 < self.capacity() <= MAX_CHANNEL_CAPACITY
    }

    /// An empty registry whose channels hold `capacity` notifications.
    pub fn with_capacity(capacity: usize) -> (r: SubscriberManager)
        requires
            0 < capacity <= MAX_CHANNEL_CAPACITY,
        ensures
            r.wf(),
            r.subscribers() == Seq::<SubscriberView>::empty(),
            r.next_id() == 0,
            r.capacity() == capacity,
    {
        let r = SubscriberManager { subscribers: Vec::new(), next_id: 0, capacity };
        assert(rows(r.subscribers@) =~= Seq::<SubscriberView>::empty());
        r
    }

    /// How many subscribers are registered.
    pub fn len(&self) -> (n: usize)
        ensures
            n == self.subscribers().len(),
    {
        self.subscribers.len()
    }

    /// Whether `id` is the id of a registered subscriber.
    pub fn contains(&self, id: u64) -> (r: bool)
        ensures
            r == (exists|i: int|
                0 <= i < self.subscribers().len() && (#[trigger] self.subscribers()[i]).id == id),
    {
        let mut i: usize = 0;
        while i < self.subscribers.len()
            invariant
                i <= self.subscribers.len(),
                forall|j: int| 0 <= j < i ==> (#[trigger] self.subscribers()[j]).id != id,
            decreases self.subscribers.len() - i,
        {
            if self.subscribers[i].id == id {
                assert(self.subscribers()[i as int].id == id);
                return true;
            }
            i += 1;
        }
        false
    }

    /// Whether another subscriber can still be given an id.
    pub fn has_free_id(&self) -> (r: bool)
        ensures
            r == (self.next_id() < u64::MAX),
    {
        self.next_id < u64::MAX
    }

    /// Registers a subscriber with the given filters under a fresh id, and
    /// returns that id with the receiving end of its channel. Those who
    /// were registered stay as they were.
    pub fn add_subscriber(&mut self, requests: Vec<SubscribeRequest>) -> (r: Subscription)
        requires
            old(self).wf(),
            old(self).next_id() < u64::MAX,
        ensures
            final(self).wf(),
            r.id == old(self).next_id(),
            final(self).next_id() == old(self).next_id() + 1,
            final(self).capacity() == old(self).capacity(),
            final(self).subscribers().len() == old(self).subscribers().len() + 1,
            final(self).subscribers().drop_last() == old(self).subscribers(),
            final(self).subscribers().last().id == r.id,
            final(self).subscribers().last().entries == requests_view(requests@),
    {
        let id: u64 = self.next_id;
        let (sender, receiver) = open_channel(self.capacity);
        let subscriber = Subscriber { id, entries: requests, sender };
        self.subscribers.push(subscriber);
        self.next_id = id + 1;
        proof {
            assert(rows(self.subscribers@) =~= rows(old(self).subscribers@).push(subscriber@));
            assert(self.subscribers().drop_last() =~= old(self).subscribers());
        }
        Subscription { id, receiver }
    }

    /// Forgets the subscribers whose id is one of `ids`; the others stay, in
    /// their order.
    pub fn remove_subscribers(&mut self, ids: &Vec<u64>)
        requires
            old(self).wf(),
        ensures
            final(self).wf(),
            final(self).next_id() == old(self).next_id(),
            final(self).capacity() == old(self).capacity(),
            final(self).subscribers() == without(old(self).subscribers(), ids@.to_set()),
    {
        let ghost before = self.subscribers();
        let ghost gone = ids@.to_set();
        let ghost keep = |s: SubscriberView| !gone.contains(s.id);
        let ghost mut seen: int = 0;
        let mut i: usize = 0;
        while i < self.subscribers.len()
            invariant
                0 <= seen <= before.len(),
                i <= self.subscribers.len(),
                i == before.take(seen).filter(keep).len(),
                self.subscribers.len() - i == before.len() - seen,
                self.subscribers() == before.take(seen).filter(keep) + before.skip(seen),
                self.next_id == old(self).next_id,
                self.capacity == old(self).capacity,
                gone == ids@.to_set(),
                keep == |s: SubscriberView| !gone.contains(s.id),
            decreases before.len() - seen,
        {
            let ghost current = self.subscribers();
            let ghost head = before.take(seen);
            proof {
                assert(before.take(seen + 1) =~= head.push(before[seen]));
                head.lemma_filter_push(before[seen], keep);
                assert(current[i as int] == before[seen]);
                assert(current[i as int].id == self.subscribers@[i as int].id);
            }
            if contains_id(ids, self.subscribers[i].id) {
                self.subscribers.remove(i);
                proof {
                    assert(rows(self.subscribers@) =~= current.remove(i as int));
                    assert(current.remove(i as int) =~= head.filter(keep) + before.skip(seen + 1));
                }
            } else {
                proof {
                    assert(current =~= head.filter(keep).push(before[seen]) + before.skip(
                        seen + 1,
                    ));
                }
                i += 1;
            }
            proof {
                seen = seen + 1;
            }
        }
        proof {
            assert(before.take(seen) =~= before);
            assert(self.subscribers() =~= before.filter(keep));
            lemma_without_ordered(before, gone, self.next_id as nat);
        }
    }

    /// To whom a change of the entity `key` of `model` would go now.
    pub fn recipients(&self, model: &ModelMetadata, key: &Vec<Felt>) -> (plan: Vec<Delivery>)
        ensures
            plan@ == recipients(self.subscribers(), model.name@, felts_view(key@)),
    {
        let ghost table = self.subscribers();
        let mut plan: Vec<Delivery> = Vec::new();
        let mut i: usize = 0;
        while i < self.subscribers.len()
            invariant
                i <= self.subscribers.len(),
                table == self.subscribers(),
                plan@ == recipients(table.take(i as int), model.name@, felts_view(key@)),
            decreases self.subscribers.len() - i,
        {
            proof {
                assert(table.take(i + 1).drop_last() =~= table.take(i as int));
                assert(table.take(i + 1).last() == self.subscribers@[i as int]@);
            }
            let copies: usize = count_matches(&self.subscribers[i].entries, model, key);
            if copies > 0 {
                plan.push(Delivery { id: self.subscribers[i].id, copies });
            }
            i += 1;
        }
        proof {
            assert(table.take(i as int) =~= table);
        }
        plan
    }

    /// Hands a change of the entity `entity_key` of `model` to every
    /// subscriber with a filter that it meets, one copy for each such
    /// filter, without waiting for any of them. A subscriber whose channel
    /// refuses a copy gets no further one and is dropped from the table;
    /// the others stay as they were. How many copies each channel took is
    /// the channel's answer; everything else follows from the table.
    pub fn dispatch(
        &mut self,
        model: &ModelMetadata,
        entity_key: &Vec<Felt>,
        payload: &Vec<u8>,
    ) -> (report: DispatchReport)
        requires
            old(self).wf(),
        ensures
            final(self).wf(),
            final(self).next_id() == old(self).next_id(),
            final(self).capacity() == old(self).capacity(),
            report_of(
                old(self).subscribers(),
                NotificationView {
                    model: model@,
                    entity_key: felts_view(entity_key@),
                    payload: payload@,
                },
                report,
            ),
            final(self).subscribers() == without(
                old(self).subscribers(),
                report.dropped@.to_set(),
            ),
    {
        let ghost table = self.subscribers();
        let mut attempted: Vec<Delivery> = Vec::new();
        let mut accepted: Vec<usize> = Vec::new();
        let mut dropped: Vec<u64> = Vec::new();
        let mut i: usize = 0;
        while i < self.subscribers.len()
            invariant
                i <= self.subscribers.len(),
                *self == *old(self),
                table == self.subscribers(),
                attempted@ == recipients(
                    table.take(i as int),
                    model.name@,
                    felts_view(entity_key@),
                ),
                accepted.len() == attempted.len(),
                forall|j: int|
                    0 <= j < accepted.len() ==> accepted@[j] <= (#[trigger] attempted@[j]).copies,
                dropped@ == refused(attempted@, accepted@),
            decreases self.subscribers.len() - i,
        {
            proof {
                assert(table.take(i + 1).drop_last() =~= table.take(i as int));
                assert(table.take(i + 1).last() == self.subscribers@[i as int]@);
            }
            match self.subscribers[i].deliver(model, entity_key, payload) {
                Some((delivery, taken)) => {
                    let ghost plan_before = attempted@;
                    let ghost accepted_before = accepted@;
                    attempted.push(delivery);
                    accepted.push(taken);
                    if taken < delivery.copies {
                        dropped.push(delivery.id);
                    }
                    proof {
                        assert(attempted@.drop_last() =~= plan_before);
                        assert(accepted@.drop_last() =~= accepted_before);
                    }
                },
                None => {},
            }
            i += 1;
        }
        proof {
            assert(table.take(i as int) =~= table);
        }
        self.remove_subscribers(&dropped);
        DispatchReport { attempted, accepted, dropped }
    }

    /// Forgets the subscriber `id`. Where no such subscriber is registered,
    /// nothing changes.
    pub fn remove_subscriber(&mut self, id: u64)
        requires
            old(self).wf(),
        ensures
            final(self).wf(),
            final(self).next_id() == old(self).next_id(),
            final(self).capacity() == old(self).capacity(),
            final(self).subscribers() == without(old(self).subscribers(), set![id]),
    {
        let mut ids: Vec<u64> = Vec::new();
        ids.push(id);
        proof {
            assert(ids@.to_set() =~= set![id]) by {
                assert(ids@[0] == id);
            }
        }
        self.remove_subscribers(&ids);
    }
}

/// Dropping subscribers leaves the ids of the others in order.
pub proof fn lemma_without_ordered(subscribers: Seq<SubscriberView>, ids: Set<u64>, next: nat)
    requires
        ids_ordered(subscribers, next),
    ensures
        ids_ordered(without(subscribers, ids), next),
    decreases subscribers.len(),
{
    let keep = |s: SubscriberView| !ids.contains(s.id);
    if subscribers.len() == 0 {
        reveal(Seq::filter);
    } else {
        let front = subscribers.drop_last();
        let last = subscribers.last();
        assert(ids_ordered(front, next)) by {
            assert forall|i: int| 0 <= i < front.len() implies (#[trigger] front[i]).id < next by {
                assert(front[i] == subscribers[i]);
            }
        }
        lemma_without_ordered(front, ids, next);
        assert(subscribers =~= front.push(last));
        front.lemma_filter_push(last, keep);
        let kept = front.filter(keep);
        assert forall|i: int| 0 <= i < kept.len() implies (#[trigger] kept[i]).id < last.id by {
            assert(kept.contains(kept[i]));
            front.lemma_filter_contains_rev(keep, kept[i]);
            let k = choose|k: int| 0 <= k < front.len() && front[k] == kept[i];
            assert(subscribers[k] == front[k]);
        }
    }
}

} // verus!
