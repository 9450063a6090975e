//! The notification service: what to do when a block arrives, when its
//! changes are known, and when a model's size is known. The service itself
//! waits for nothing; whoever runs it performs each action and hands back
//! what came of it.

use crate::felt::{felts_view, short_string_of, Felt};
use crate::subscription::{
    report_of, table_after, DispatchReport, ModelMetadata, ModelMetadataView, Notification,
    NotificationView, SubscriberManager,
};
use vstd::prelude::*;

verus! {

/// A change of one entity in a block, before its model's size is known.
#[derive(Clone, Debug, PartialEq, Eq)]
pub struct EntityChange {
    pub model: Felt,
    pub entity_key: Vec<Felt>,
    pub payload: Vec<u8>,
}

/// A change as a value.
pub struct EntityChangeView {
    pub model: Seq<u8>,
    pub entity_key: Seq<Seq<u8>>,
    pub payload: Seq<u8>,
}

/// Where the service stands.
#[derive(Clone, Copy, Debug, PartialEq, Eq, Structural)]
pub enum Phase {
    /// Waiting for the next block number.
    Idle,
    /// Waiting for the changes of the current block.
    Resolving,
    /// Waiting for the size of the model of the current change.
    AwaitingModel,
    /// Waiting for the current change to be dispatched.
    Dispatching,
    /// The feed is closed; nothing more happens.
    Stopped,
}

/// What came of the last action.
#[derive(Clone, Debug, PartialEq, Eq)]
pub enum Event {
    BlockArrived(u64),
    FeedClosed,
    ChangesResolved(Vec<EntityChange>),
    ResolutionFailed,
    ModelResolved(usize),
    ModelFailed,
    Dispatched,
}

/// An event as a value.
pub enum EventView {
    BlockArrived(u64),
    FeedClosed,
    ChangesResolved(Seq<EntityChangeView>),
    ResolutionFailed,
    ModelResolved(usize),
    ModelFailed,
    Dispatched,
}

/// What the runner is to do next.
#[derive(Clone, Debug, PartialEq, Eq)]
pub enum Action {
    /// Wait for the next block number, or for the feed to close.
    AwaitBlock,
    /// Find the entities that changed in this block.
    ResolveChanges(u64),
    /// Look up the stored size of the model of this name.
    LookupModel(String),
    /// Hand this notification to the registry's dispatch.
    Dispatch(Notification),
    /// End the task.
    Stop,
}

/// An action as a value.
pub enum ActionView {
    AwaitBlock,
    ResolveChanges(u64),
    LookupModel(Seq<char>),
    Dispatch(NotificationView),
    Stop,
}

/// The service's state as a value: the phase, the block at hand, its
/// changes, how many of them are dispatched, and the models whose size is
/// known for this block.
pub struct ServiceView {
    pub phase: Phase,
    pub block: u64,
    pub changes: Seq<EntityChangeView>,
    pub position: nat,
    pub known: Seq<ModelMetadataView>,
}

/// The notification service of one world.
pub struct Service {
    phase: Phase,
    block: u64,
    changes: Vec<EntityChange>,
    position: usize,
    known: Vec<ModelMetadata>,
}

impl View for EntityChange {
    type V = EntityChangeView;

    open spec fn view(&self) -> EntityChangeView {
        EntityChangeView {
            model: self.model@,
            entity_key: felts_view(self.entity_key@),
            payload: self.payload@,
        }
    }
}

/// Changes as values.
pub open spec fn changes_view(changes: Seq<EntityChange>) -> Seq<EntityChangeView> {
    changes.map_values(|c: EntityChange| c@)
}

/// Models as values.
pub open spec fn models_view(models: Seq<ModelMetadata>) -> Seq<ModelMetadataView> {
    models.map_values(|m: ModelMetadata| m@)
}

impl View for Event {
    type V = EventView;

    open spec fn view(&self) -> EventView {
        match self {
            Event::BlockArrived(block) => EventView::BlockArrived(*block),
            Event::FeedClosed => EventView::FeedClosed,
            Event::ChangesResolved(changes) => EventView::ChangesResolved(changes_view(changes@)),
            Event::ResolutionFailed => EventView::ResolutionFailed,
            Event::ModelResolved(size) => EventView::ModelResolved(*size),
            Event::ModelFailed => EventView::ModelFailed,
            Event::Dispatched => EventView::Dispatched,
        }
    }
}

impl View for Action {
    type V = ActionView;

    open spec fn view(&self) -> ActionView {
        match self {
            Action::AwaitBlock => ActionView::AwaitBlock,
            Action::ResolveChanges(block) => ActionView::ResolveChanges(*block),
            Action::LookupModel(name) => ActionView::LookupModel(name@),
            Action::Dispatch(notification) => ActionView::Dispatch(notification@),
            Action::Stop => ActionView::Stop,
        }
    }
}

impl View for Service {
    type V = ServiceView;

    closed spec fn view(&self) -> ServiceView {
        ServiceView {
            phase: self.phase,
            block: self.block,
            changes: changes_view(self.changes@),
            position: self.position as nat,
            known: models_view(self.known@),
        }
    }
}

/// The model of the name `name` among those known, if there is one.
pub open spec fn find_model(known: Seq<ModelMetadataView>, name: Seq<u8>) -> Option<
    ModelMetadataView,
>
    decreases known.len(),
{
    if known.len() == 0 {
        None
    } else if known.last().name == name {
        Some(known.last())
    } else {
        find_model(known.drop_last(), name)
    }
}

/// A state in which nothing of a block is at hand.
pub open spec fn at_rest(phase: Phase, block: u64) -> ServiceView {
    ServiceView { phase, block, changes: Seq::empty(), position: 0, known: Seq::empty() }
}

/// Where the service goes once `position` changes of the block are
/// dispatched: to the next block where none is left; else to the dispatch of
/// the next change where its model's size is known, and to the lookup of
/// that size where it is not. A model whose name is no short string cannot
/// be looked up: the block is given up, as for a lookup that failed.
pub open spec fn advance(
    block: u64,
    changes: Seq<EntityChangeView>,
    position: nat,
    known: Seq<ModelMetadataView>,
) -> (ServiceView, ActionView) {
    if position >= changes.len() {
        (at_rest(Phase::Idle, block), ActionView::AwaitBlock)
    } else {
        let change = changes[position as int];
        match find_model(known, change.model) {
            Some(model) => (
                ServiceView { phase: Phase::Dispatching, block, changes, position, known },
                ActionView::Dispatch(
                    NotificationView {
                        model,
                        entity_key: change.entity_key,
                        payload: change.payload,
                    },
                ),
            ),
            None => match short_string_of(change.model) {
                Some(name) => (
                    ServiceView { phase: Phase::AwaitingModel, block, changes, position, known },
                    ActionView::LookupModel(name),
                ),
                None => (at_rest(Phase::Idle, block), ActionView::AwaitBlock),
            },
        }
    }
}

impl ServiceView {
    /// What holds of every state: while a change is looked up or
    /// dispatched there is such a change, and otherwise nothing of a block
    /// is at hand.
    pub open spec fn wf(self) -> bool {
        match self.phase {
            Phase::AwaitingModel => self.position < self.changes.len() && short_string_of(
                self.changes[self.position as int].model,
            ) is Some,
            Phase::Dispatching => self.position < self.changes.len() && find_model(
                self.known,
                self.changes[self.position as int].model,
            ) is Some,
            _ => self == at_rest(self.phase, self.block),
        }
    }

    /// The action that this state waits upon.
    pub open spec fn awaited(self) -> ActionView {
        match self.phase {
            Phase::Idle => ActionView::AwaitBlock,
            Phase::Resolving => ActionView::ResolveChanges(self.block),
            Phase::AwaitingModel => ActionView::LookupModel(
                short_string_of(self.changes[self.position as int].model).unwrap(),
            ),
            Phase::Dispatching => advance(self.block, self.changes, self.position, self.known).1,
            Phase::Stopped => ActionView::Stop,
        }
    }

    /// The state after `event`, and the action to perform next. A closed
    /// feed stops the service. A block number starts the resolution of its
    /// changes; a failure to resolve them, or to look up a model, gives the
    /// block up and waits for the next one. A model's size, once known, is
    /// kept for the rest of the block. An event that the state does not
    /// wait for changes nothing.
    pub open spec fn transition(self, event: EventView) -> (ServiceView, ActionView) {
        match (self.phase, event) {
            (Phase::Stopped, _) => (self, ActionView::Stop),
            (_, EventView::FeedClosed) => (at_rest(Phase::Stopped, self.block), ActionView::Stop),
            (Phase::Idle, EventView::BlockArrived(block)) => (
                at_rest(Phase::Resolving, block),
                ActionView::ResolveChanges(block),
            ),
            (Phase::Resolving, EventView::ChangesResolved(changes)) => advance(
                self.block,
                changes,
                0,
                Seq::empty(),
            ),
            (Phase::Resolving, EventView::ResolutionFailed) => (
                at_rest(Phase::Idle, self.block),
                ActionView::AwaitBlock,
            ),
            (Phase::AwaitingModel, EventView::ModelResolved(size)) => advance(
                self.block,
                self.changes,
                self.position,
                self.known.push(
                    ModelMetadataView {
                        name: self.changes[self.position as int].model,
                        packed_size: size,
                    },
                ),
            ),
            (Phase::AwaitingModel, EventView::ModelFailed) => (
                at_rest(Phase::Idle, self.block),
                ActionView::AwaitBlock,
            ),
            (Phase::Dispatching, EventView::Dispatched) => advance(
                self.block,
                self.changes,
                self.position + 1,
                self.known,
            ),
            _ => (self, self.awaited()),
        }
    }
}

/// Where a state and the action it asks for lead once every dispatch that
/// can be made at once is made: the state and the action then, and the
/// notifications dispatched on the way, in order. The changes of a block
/// are dispatched one after the other until none is left or the size of a
/// model has to be looked up.
pub open spec fn settled(state: ServiceView, action: ActionView) -> (
    ServiceView,
    ActionView,
    Seq<NotificationView>,
)
    decreases state.changes.len() - state.position,
{
    match action {
        ActionView::Dispatch(note) => if state.phase is Dispatching && state.position
            < state.changes.len() {
            let next = state.transition(EventView::Dispatched);
            let rest = settled(next.0, next.1);
            (rest.0, rest.1, seq![note] + rest.2)
        } else {
            (state, action, Seq::empty())
        },
        _ => (state, action, Seq::empty()),
    }
}

/// What handling an event came to: the action to perform next, and the
/// report of each dispatch that was made, in order.
pub struct Handled {
    pub action: Action,
    pub reports: Vec<DispatchReport>,
}

impl Service {
    /// What holds of every service: its state is one of those above.
    pub open spec fn wf(&self) -> bool {
        self@.wf()
    }

    /// A service that waits for its first block.
    pub fn new() -> (r: Service)
        ensures
            r.wf(),
            r@ == at_rest(Phase::Idle, 0),
    {
        let r = Service {
            phase: Phase::Idle,
            block: 0,
            changes: Vec::new(),
            position: 0,
            known: Vec::new(),
        };
        proof {
            assert(r@.changes =~= Seq::empty());
            assert(r@.known =~= Seq::empty());
        }
        r
    }

    /// Where the service stands.
    pub fn phase(&self) -> (r: Phase)
        ensures
            r == self@.phase,
    {
        self.phase
    }

    fn lookup(&self, name: &Felt) -> (r: Option<ModelMetadata>)
        ensures
            match r {
                Some(model) => find_model(self@.known, name@) == Some(model@),
                None => find_model(self@.known, name@) is None,
            },
    {
        let ghost known = models_view(self.known@);
        let mut i: usize = self.known.len();
        proof {
            assert(known.take(i as int) =~= known);
        }
        while i > 0
            invariant
                i <= self.known.len(),
                known == models_view(self.known@),
                find_model(known, name@) == find_model(known.take(i as int), name@),
            decreases i,
        {
            i -= 1;
            proof {
                assert(known.take(i + 1).drop_last() =~= known.take(i as int));
                assert(known.take(i + 1).last() == self.known@[i as int]@);
            }
            if self.known[i].name.same(name) {
                return Some(self.known[i]);
            }
        }
        None
    }

    fn rest(&mut self, phase: Phase)
        ensures
            final(self)@ == at_rest(phase, old(self).block),
    {
        self.phase = phase;
        self.changes = Vec::new();
        self.position = 0;
        self.known = Vec::new();
        proof {
            assert(self@.changes =~= Seq::empty());
            assert(self@.known =~= Seq::empty());
        }
    }

    fn advance(&mut self) -> (action: Action)
        ensures
            (final(self)@, action@) == advance(
                old(self)@.block,
                old(self)@.changes,
                old(self)@.position,
                old(self)@.known,
            ),
    {
        if self.position >= self.changes.len() {
            self.rest(Phase::Idle);
            return Action::AwaitBlock;
        }
        let name = self.changes[self.position].model;
        match self.lookup(&name) {
            Some(model) => {
                self.phase = Phase::Dispatching;
                Action::Dispatch(
                    Notification::new(
                        &model,
                        &self.changes[self.position].entity_key,
                        &self.changes[self.position].payload,
                    ),
                )
            },
            None => match name.to_short_string() {
                Some(text) => {
                    self.phase = Phase::AwaitingModel;
                    Action::LookupModel(text)
                },
                None => {
                    self.rest(Phase::Idle);
                    Action::AwaitBlock
                },
            },
        }
    }

    fn awaited(&self) -> (action: Action)
        requires
            self.wf(),
        ensures
            action@ == self@.awaited(),
    {
        match self.phase {
            Phase::Idle => Action::AwaitBlock,
            Phase::Resolving => Action::ResolveChanges(self.block),
            Phase::AwaitingModel => Action::LookupModel(
                self.changes[self.position].model.to_short_string().unwrap(),
            ),
            Phase::Dispatching => {
                let change = &self.changes[self.position];
                let model = self.lookup(&change.model).unwrap();
                Action::Dispatch(Notification::new(&model, &change.entity_key, &change.payload))
            },
            Phase::Stopped => Action::Stop,
        }
    }

    /// Takes in what came of the last action, and says what to do next.
    pub fn step(&mut self, event: Event) -> (action: Action)
        requires
            old(self).wf(),
        ensures
            final(self).wf(),
            (final(self)@, action@) == old(self)@.transition(event@),
    {
        proof {
            lemma_transition_keeps_wf(self@, event@);
        }
        match (self.phase, event) {
            (Phase::Stopped, _) => Action::Stop,
            (_, Event::FeedClosed) => {
                self.rest(Phase::Stopped);
                Action::Stop
            },
            (Phase::Idle, Event::BlockArrived(block)) => {
                self.block = block;
                self.rest(Phase::Resolving);
                Action::ResolveChanges(block)
            },
            (Phase::Resolving, Event::ChangesResolved(changes)) => {
                self.changes = changes;
                self.advance()
            },
            (Phase::Resolving, Event::ResolutionFailed) => {
                self.rest(Phase::Idle);
                Action::AwaitBlock
            },
            (Phase::AwaitingModel, Event::ModelResolved(size)) => {
                let ghost before = self.known@;
                let model = ModelMetadata {
                    name: self.changes[self.position].model,
                    packed_size: size,
                };
                self.known.push(model);
                proof {
                    assert(models_view(self.known@) =~= models_view(before).push(model@));
                }
                self.advance()
            },
            (Phase::AwaitingModel, Event::ModelFailed) => {
                self.rest(Phase::Idle);
                Action::AwaitBlock
            },
            (Phase::Dispatching, Event::Dispatched) => {
                assert(self.position < self.changes.len());
                self.position = self.position + 1;
                self.advance()
            },
            _ => self.awaited(),
        }
    }
}

impl Service {
    /// Takes in what came of the last action, dispatches on `registry`
    /// every change that can be dispatched at once, and says what to do
    /// next: never a dispatch. Each notification is dispatched on the table
    /// as the dispatches before it left it.
    pub fn handle(&mut self, registry: &mut SubscriberManager, event: Event) -> (r: Handled)
        requires
            old(self).wf(),
            old(registry).wf(),
        ensures
            final(self).wf(),
            final(registry).wf(),
            final(registry).next_id() == old(registry).next_id(),
            final(registry).capacity() == old(registry).capacity(),
            !(r.action@ is Dispatch),
            ({
                let first = old(self)@.transition(event@);
                let end = settled(first.0, first.1);
                &&& final(self)@ == end.0
                &&& r.action@ == end.1
                &&& r.reports.len() == end.2.len()
                &&& forall|k: int|
                    0 <= k < r.reports.len() ==> report_of(
                        table_after(old(registry).subscribers(), r.reports@.take(k)),
                        end.2[k],
                        #[trigger] r.reports@[k],
                    )
            }),
            final(registry).subscribers() == table_after(
                old(registry).subscribers(),
                r.reports@,
            ),
    {
        let ghost table = registry.subscribers();
        let ghost first = self@.transition(event@);
        let ghost end = settled(first.0, first.1);
        let ghost mut notes: Seq<NotificationView> = Seq::empty();
        let mut action = self.step(event);
        let mut reports: Vec<DispatchReport> = Vec::new();
        let mut done = false;
        proof {
            assert(notes + settled(self@, action@).2 =~= end.2);
        }
        while !done
            invariant
                self.wf(),
                registry.wf(),
                registry.next_id() == old(registry).next_id(),
                registry.capacity() == old(registry).capacity(),
                table == old(registry).subscribers(),
                end == settled(first.0, first.1),
                settled(self@, action@).0 == end.0,
                settled(self@, action@).1 == end.1,
                notes + settled(self@, action@).2 == end.2,
                action@ is Dispatch ==> self@.phase is Dispatching && self@.position
                    < self@.changes.len(),
                done ==> !(action@ is Dispatch),
                reports.len() == notes.len(),
                forall|k: int|
                    0 <= k < reports.len() ==> report_of(
                        table_after(table, reports@.take(k)),
                        notes[k],
                        #[trigger] reports@[k],
                    ),
                registry.subscribers() == table_after(table, reports@),
            decreases
                    if done {
                        0
                    } else if action@ is Dispatch {
                        self@.changes.len() - self@.position + 1
                    } else {
                        1
                    },
        {
            match &action {
                Action::Dispatch(note) => {
                    let ghost state = self@;
                    let ghost sent = note@;
                    let ghost earlier = reports@;
                    let report = registry.dispatch(&note.model, &note.entity_key, &note.payload);
                    reports.push(report);
                    proof {
                        notes = notes.push(sent);
                        assert(reports@.drop_last() =~= earlier);
                        assert forall|k: int| 0 <= k < reports.len() implies report_of(
                            table_after(table, reports@.take(k)),
                            notes[k],
                            #[trigger] reports@[k],
                        ) by {
                            if k < earlier.len() {
                                assert(reports@.take(k) =~= earlier.take(k));
                            } else {
                                assert(reports@.take(k) =~= earlier);
                            }
                        }
                        lemma_transition_keeps_wf(state, EventView::Dispatched);
                    }
                    action = self.step(Event::Dispatched);
                    proof {
                        assert(notes + settled(self@, action@).2 =~= end.2);
                    }
                },
                _ => {
                    done = true;
                },
            }
        }
        proof {
            assert(notes =~= end.2);
        }
        Handled { action, reports }
    }
}

/// A model that is found among those known has the name that was asked
/// for.
pub proof fn lemma_found_model_has_the_name(known: Seq<ModelMetadataView>, name: Seq<u8>)
    ensures
        find_model(known, name) matches Some(model) ==> model.name == name,
    decreases known.len(),
{
    if known.len() > 0 && known.last().name != name {
        lemma_found_model_has_the_name(known.drop_last(), name);
    }
}

/// Every event leaves the state in order.
pub proof fn lemma_transition_keeps_wf(state: ServiceView, event: EventView)
    requires
        state.wf(),
    ensures
        state.transition(event).0.wf(),
{
}

} // verus!
