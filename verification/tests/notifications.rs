use dojo_torii::felt::Felt;
use dojo_torii::service::{Action, EntityChange, Event, Phase, Service};
use dojo_torii::subscription::{
    Delivery, ModelMetadata, Notification, SubscribeRequest, SubscriberManager,
};
use tokio::sync::mpsc::error::TryRecvError;

fn felt(value: u8) -> Felt {
    let mut bytes = [0u8; 32];
    bytes[31] = value;
    Felt { bytes }
}

fn short(text: &str) -> Felt {
    let mut bytes = [0u8; 32];
    bytes[32 - text.len()..].copy_from_slice(text.as_bytes());
    Felt { bytes }
}

fn name(model: u8) -> Felt {
    match model {
        10 => short("Position"),
        20 => short("Moves"),
        other => felt(other),
    }
}

fn lookup(text: &str) -> Action {
    Action::LookupModel(text.to_string())
}

fn change(model: u8, key: u8, payload: u8) -> EntityChange {
    EntityChange { model: name(model), entity_key: vec![felt(key)], payload: vec![payload] }
}

fn notice(model: u8, size: usize, key: u8, payload: u8) -> Notification {
    Notification {
        model: ModelMetadata { name: name(model), packed_size: size },
        entity_key: vec![felt(key)],
        payload: vec![payload],
    }
}

#[test]
fn service_starts_idle_and_resolves_the_block_that_arrives() {
    let mut service = Service::new();
    assert_eq!(service.phase(), Phase::Idle);
    assert_eq!(service.step(Event::BlockArrived(7)), Action::ResolveChanges(7));
    assert_eq!(service.phase(), Phase::Resolving);
}

#[test]
fn block_without_changes_waits_for_the_next_block() {
    let mut service = Service::new();
    service.step(Event::BlockArrived(1));
    assert_eq!(service.step(Event::ChangesResolved(vec![])), Action::AwaitBlock);
    assert_eq!(service.phase(), Phase::Idle);
    assert_eq!(service.step(Event::BlockArrived(2)), Action::ResolveChanges(2));
}

#[test]
fn each_model_is_looked_up_once_in_a_block() {
    let mut service = Service::new();
    service.step(Event::BlockArrived(1));
    let changes = vec![change(10, 1, 1), change(10, 2, 2), change(20, 3, 3), change(10, 4, 4)];
    assert_eq!(service.step(Event::ChangesResolved(changes)), lookup("Position"));
    assert_eq!(service.phase(), Phase::AwaitingModel);
    assert_eq!(service.step(Event::ModelResolved(5)), Action::Dispatch(notice(10, 5, 1, 1)));
    assert_eq!(service.phase(), Phase::Dispatching);
    assert_eq!(service.step(Event::Dispatched), Action::Dispatch(notice(10, 5, 2, 2)));
    assert_eq!(service.step(Event::Dispatched), lookup("Moves"));
    assert_eq!(service.step(Event::ModelResolved(9)), Action::Dispatch(notice(20, 9, 3, 3)));
    assert_eq!(service.step(Event::Dispatched), Action::Dispatch(notice(10, 5, 4, 4)));
    assert_eq!(service.step(Event::Dispatched), Action::AwaitBlock);
    assert_eq!(service.phase(), Phase::Idle);
}

#[test]
fn known_sizes_are_forgotten_with_the_block() {
    let mut service = Service::new();
    service.step(Event::BlockArrived(1));
    service.step(Event::ChangesResolved(vec![change(10, 1, 1)]));
    service.step(Event::ModelResolved(5));
    assert_eq!(service.step(Event::Dispatched), Action::AwaitBlock);
    service.step(Event::BlockArrived(2));
    assert_eq!(
        service.step(Event::ChangesResolved(vec![change(10, 1, 1)])),
        lookup("Position")
    );
    assert_eq!(service.step(Event::ModelResolved(6)), Action::Dispatch(notice(10, 6, 1, 1)));
}

#[test]
fn failure_to_resolve_a_block_is_not_fatal() {
    let mut service = Service::new();
    service.step(Event::BlockArrived(1));
    assert_eq!(service.step(Event::ResolutionFailed), Action::AwaitBlock);
    assert_eq!(service.phase(), Phase::Idle);
    assert_eq!(service.step(Event::BlockArrived(2)), Action::ResolveChanges(2));
}

#[test]
fn failure_to_look_up_a_model_gives_the_block_up() {
    let mut service = Service::new();
    service.step(Event::BlockArrived(1));
    service.step(Event::ChangesResolved(vec![change(10, 1, 1), change(20, 2, 2)]));
    service.step(Event::ModelResolved(5));
    assert_eq!(service.step(Event::Dispatched), lookup("Moves"));
    assert_eq!(service.step(Event::ModelFailed), Action::AwaitBlock);
    assert_eq!(service.phase(), Phase::Idle);
    assert_eq!(service.step(Event::BlockArrived(2)), Action::ResolveChanges(2));
}

#[test]
fn closed_feed_stops_the_service_for_good() {
    let mut service = Service::new();
    assert_eq!(service.step(Event::FeedClosed), Action::Stop);
    assert_eq!(service.phase(), Phase::Stopped);
    assert_eq!(service.step(Event::BlockArrived(3)), Action::Stop);
    assert_eq!(service.step(Event::Dispatched), Action::Stop);
    assert_eq!(service.phase(), Phase::Stopped);

    let mut busy = Service::new();
    busy.step(Event::BlockArrived(1));
    busy.step(Event::ChangesResolved(vec![change(10, 1, 1)]));
    assert_eq!(busy.step(Event::FeedClosed), Action::Stop);
    assert_eq!(busy.phase(), Phase::Stopped);
}

#[test]
fn event_that_is_not_waited_for_changes_nothing() {
    let mut service = Service::new();
    assert_eq!(service.step(Event::Dispatched), Action::AwaitBlock);
    assert_eq!(service.step(Event::ModelResolved(1)), Action::AwaitBlock);
    assert_eq!(service.phase(), Phase::Idle);

    service.step(Event::BlockArrived(4));
    assert_eq!(service.step(Event::BlockArrived(5)), Action::ResolveChanges(4));
    assert_eq!(service.step(Event::ModelFailed), Action::ResolveChanges(4));

    service.step(Event::ChangesResolved(vec![change(10, 1, 1), change(10, 2, 2)]));
    assert_eq!(service.step(Event::BlockArrived(5)), lookup("Position"));
    assert_eq!(service.step(Event::Dispatched), lookup("Position"));
    assert_eq!(service.step(Event::ModelResolved(3)), Action::Dispatch(notice(10, 3, 1, 1)));
    assert_eq!(service.step(Event::BlockArrived(5)), Action::Dispatch(notice(10, 3, 1, 1)));
    assert_eq!(service.step(Event::ModelResolved(8)), Action::Dispatch(notice(10, 3, 1, 1)));
    assert_eq!(service.step(Event::ResolutionFailed), Action::Dispatch(notice(10, 3, 1, 1)));
    assert_eq!(service.step(Event::Dispatched), Action::Dispatch(notice(10, 3, 2, 2)));
    assert_eq!(service.step(Event::Dispatched), Action::AwaitBlock);
}

#[test]
fn block_touching_two_keys_notifies_each_subscriber_once() {
    let mut manager = SubscriberManager::default();
    let model = ModelMetadata { name: name(10), packed_size: 5 };
    let mut first =
        manager.add_subscriber(vec![SubscribeRequest { keys: vec![felt(1)], model }]);
    let mut second =
        manager.add_subscriber(vec![SubscribeRequest { keys: vec![felt(2)], model }]);

    let mut service = Service::new();
    let mut action = service.step(Event::BlockArrived(1));
    let mut dispatched = Vec::new();
    loop {
        let event = match action {
            Action::ResolveChanges(1) => {
                Event::ChangesResolved(vec![change(10, 1, 11), change(10, 2, 22)])
            }
            Action::LookupModel(model) => {
                assert_eq!(model, "Position");
                Event::ModelResolved(5)
            }
            Action::Dispatch(n) => {
                let report = manager.dispatch(&n.model, &n.entity_key, &n.payload);
                assert_eq!(report.dropped, Vec::<u64>::new());
                dispatched.extend(report.attempted);
                Event::Dispatched
            }
            Action::AwaitBlock => break,
            other => panic!("the feed is open and the block is the first: {:?}", other),
        };
        action = service.step(event);
    }

    assert_eq!(dispatched, vec![Delivery { id: 0, copies: 1 }, Delivery { id: 1, copies: 1 }]);
    assert_eq!(first.receiver.try_recv(), Ok(notice(10, 5, 1, 11)));
    assert_eq!(first.receiver.try_recv(), Err(TryRecvError::Empty));
    assert_eq!(second.receiver.try_recv(), Ok(notice(10, 5, 2, 22)));
    assert_eq!(second.receiver.try_recv(), Err(TryRecvError::Empty));
}

#[test]
fn handling_dispatches_by_itself_until_a_lookup_or_the_end() {
    let mut manager = SubscriberManager::default();
    let model = ModelMetadata { name: name(10), packed_size: 5 };
    let mut all = manager.add_subscriber(vec![SubscribeRequest { keys: vec![], model }]);
    let mut one = manager.add_subscriber(vec![SubscribeRequest { keys: vec![felt(2)], model }]);

    let mut service = Service::new();
    let handled = service.handle(&mut manager, Event::BlockArrived(9));
    assert_eq!(handled.action, Action::ResolveChanges(9));
    assert_eq!(handled.reports, vec![]);

    let changes = vec![change(10, 1, 11), change(10, 2, 22), change(20, 3, 33)];
    let handled = service.handle(&mut manager, Event::ChangesResolved(changes));
    assert_eq!(handled.action, lookup("Position"));
    assert_eq!(handled.reports, vec![]);

    let handled = service.handle(&mut manager, Event::ModelResolved(5));
    assert_eq!(handled.action, lookup("Moves"));
    assert_eq!(handled.reports.len(), 2);
    assert_eq!(handled.reports[0].attempted, vec![Delivery { id: 0, copies: 1 }]);
    assert_eq!(handled.reports[0].accepted, vec![1]);
    assert_eq!(handled.reports[0].dropped, Vec::<u64>::new());
    assert_eq!(
        handled.reports[1].attempted,
        vec![Delivery { id: 0, copies: 1 }, Delivery { id: 1, copies: 1 }]
    );
    assert_eq!(handled.reports[1].accepted, vec![0, 1]);
    assert_eq!(handled.reports[1].dropped, vec![0]);
    assert_eq!(manager.len(), 1);
    assert_eq!(service.phase(), Phase::AwaitingModel);

    let handled = service.handle(&mut manager, Event::ModelResolved(7));
    assert_eq!(handled.action, Action::AwaitBlock);
    assert_eq!(handled.reports.len(), 1);
    assert_eq!(handled.reports[0].attempted, Vec::<Delivery>::new());
    assert_eq!(service.phase(), Phase::Idle);

    assert_eq!(all.receiver.try_recv(), Ok(notice(10, 5, 1, 11)));
    assert_eq!(all.receiver.try_recv(), Err(TryRecvError::Disconnected));
    assert_eq!(one.receiver.try_recv(), Ok(notice(10, 5, 2, 22)));
    assert_eq!(one.receiver.try_recv(), Err(TryRecvError::Empty));

    let handled = service.handle(&mut manager, Event::FeedClosed);
    assert_eq!(handled.action, Action::Stop);
    assert_eq!(service.handle(&mut manager, Event::BlockArrived(10)).action, Action::Stop);
}

#[test]
fn handling_a_failed_block_touches_nobody() {
    let mut manager = SubscriberManager::default();
    let model = ModelMetadata { name: name(10), packed_size: 5 };
    let mut all = manager.add_subscriber(vec![SubscribeRequest { keys: vec![], model }]);
    let mut service = Service::new();
    service.handle(&mut manager, Event::BlockArrived(1));
    let handled = service.handle(&mut manager, Event::ResolutionFailed);
    assert_eq!(handled.action, Action::AwaitBlock);
    assert_eq!(handled.reports, vec![]);
    service.handle(&mut manager, Event::BlockArrived(2));
    service.handle(&mut manager, Event::ChangesResolved(vec![change(10, 1, 1)]));
    let handled = service.handle(&mut manager, Event::ModelFailed);
    assert_eq!(handled.action, Action::AwaitBlock);
    assert_eq!(handled.reports, vec![]);
    assert_eq!(all.receiver.try_recv(), Err(TryRecvError::Empty));
    assert_eq!(manager.len(), 1);
}

#[test]
fn model_is_looked_up_by_the_text_its_name_spells() {
    let mut service = Service::new();
    service.step(Event::BlockArrived(1));
    let spelled = EntityChange { model: short("a b"), entity_key: vec![], payload: vec![] };
    assert_eq!(service.step(Event::ChangesResolved(vec![spelled])), lookup("a b"));
    assert_eq!(service.step(Event::ModelFailed), Action::AwaitBlock);

    service.step(Event::BlockArrived(2));
    let nameless = EntityChange { model: felt(0), entity_key: vec![], payload: vec![] };
    assert_eq!(service.step(Event::ChangesResolved(vec![nameless])), lookup(""));
    assert_eq!(service.step(Event::ModelFailed), Action::AwaitBlock);

    service.step(Event::BlockArrived(3));
    let latin = EntityChange { model: felt(0xe9), entity_key: vec![], payload: vec![] };
    assert_eq!(service.step(Event::ChangesResolved(vec![latin])), lookup("\u{e9}"));
}

#[test]
fn change_of_a_model_whose_name_is_no_short_string_gives_the_block_up() {
    let mut high = [0u8; 32];
    high[0] = 1;
    high[31] = b'a';
    let mut gap = [0u8; 32];
    gap[29] = b'a';
    gap[31] = b'b';
    for bytes in [high, gap, [0xff; 32]] {
        let mut service = Service::new();
        service.step(Event::BlockArrived(1));
        let changes = vec![
            EntityChange { model: Felt { bytes }, entity_key: vec![], payload: vec![] },
            change(10, 1, 1),
        ];
        assert_eq!(service.step(Event::ChangesResolved(changes)), Action::AwaitBlock);
        assert_eq!(service.phase(), Phase::Idle);
        assert_eq!(service.step(Event::BlockArrived(2)), Action::ResolveChanges(2));
    }
}
