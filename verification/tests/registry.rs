use dojo_torii::felt::Felt;
use dojo_torii::subscription::{
    count_matches, keys_equal, Delivery, ModelMetadata, Notification, SubscribeRequest,
    SubscriberManager, DEFAULT_CHANNEL_CAPACITY, MAX_CHANNEL_CAPACITY,
};
use tokio::sync::mpsc::error::TryRecvError;

fn felt(value: u8) -> Felt {
    let mut bytes = [0u8; 32];
    bytes[31] = value;
    Felt { bytes }
}

fn short(text: &str) -> Felt {
    let mut bytes = [0u8; 32];
    bytes[32 - text.len()..].copy_from_slice(text.as_bytes());
    Felt { bytes }
}

fn model(text: &str) -> ModelMetadata {
    ModelMetadata { name: short(text), packed_size: 2 }
}

fn filter(text: &str, keys: Vec<Felt>) -> SubscribeRequest {
    SubscribeRequest { keys, model: model(text) }
}

fn change(text: &str, keys: Vec<Felt>, payload: Vec<u8>) -> Notification {
    Notification { model: model(text), entity_key: keys, payload }
}

#[test]
fn empty_filter_receives_every_entity_of_the_model() {
    let mut manager = SubscriberManager::default();
    let mut subscription = manager.add_subscriber(vec![filter("Position", vec![])]);
    assert_eq!(subscription.id, 0);

    let report = manager.dispatch(&model("Position"), &vec![felt(1), felt(2)], &vec![9, 9]);
    assert_eq!(report.attempted, vec![Delivery { id: 0, copies: 1 }]);
    assert_eq!(report.accepted, vec![1]);
    assert_eq!(report.dropped, Vec::<u64>::new());
    assert_eq!(
        subscription.receiver.try_recv(),
        Ok(change("Position", vec![felt(1), felt(2)], vec![9, 9]))
    );

    let report = manager.dispatch(&model("Position"), &vec![felt(200)], &vec![]);
    assert_eq!(report.attempted, vec![Delivery { id: 0, copies: 1 }]);
    assert_eq!(subscription.receiver.try_recv(), Ok(change("Position", vec![felt(200)], vec![])));

    let report = manager.dispatch(&model("Position"), &vec![], &vec![1]);
    assert_eq!(report.attempted, vec![Delivery { id: 0, copies: 1 }]);
    assert_eq!(subscription.receiver.try_recv(), Ok(change("Position", vec![], vec![1])));
}

#[test]
fn key_filter_receives_only_the_exact_key() {
    let mut manager = SubscriberManager::default();
    let mut subscription =
        manager.add_subscriber(vec![filter("Position", vec![felt(1), felt(2)])]);

    let report = manager.dispatch(&model("Position"), &vec![felt(1), felt(3)], &vec![5]);
    assert_eq!(report.attempted, Vec::<Delivery>::new());
    assert_eq!(report.dropped, Vec::<u64>::new());
    assert_eq!(subscription.receiver.try_recv(), Err(TryRecvError::Empty));

    let report = manager.dispatch(&model("Position"), &vec![felt(1), felt(2)], &vec![5]);
    assert_eq!(report.attempted, vec![Delivery { id: subscription.id, copies: 1 }]);
    assert_eq!(
        subscription.receiver.try_recv(),
        Ok(change("Position", vec![felt(1), felt(2)], vec![5]))
    );
    assert_eq!(subscription.receiver.try_recv(), Err(TryRecvError::Empty));
}

#[test]
fn key_filter_is_no_prefix_match() {
    let mut manager = SubscriberManager::default();
    let mut subscription = manager.add_subscriber(vec![filter("Position", vec![felt(1)])]);

    let report = manager.dispatch(&model("Position"), &vec![felt(1), felt(2)], &vec![]);
    assert_eq!(report.attempted, Vec::<Delivery>::new());
    let report = manager.dispatch(&model("Position"), &vec![], &vec![]);
    assert_eq!(report.attempted, Vec::<Delivery>::new());
    assert_eq!(subscription.receiver.try_recv(), Err(TryRecvError::Empty));
}

#[test]
fn other_model_is_not_delivered() {
    let mut manager = SubscriberManager::default();
    let mut subscription = manager.add_subscriber(vec![filter("Position", vec![])]);

    let report = manager.dispatch(&model("Moves"), &vec![felt(1)], &vec![1]);
    assert_eq!(report.attempted, Vec::<Delivery>::new());
    assert_eq!(subscription.receiver.try_recv(), Err(TryRecvError::Empty));
    assert!(manager.contains(subscription.id));
}

#[test]
fn model_is_matched_by_name_alone() {
    let mut manager = SubscriberManager::default();
    let mut subscription = manager.add_subscriber(vec![filter("Position", vec![])]);
    let other_size = ModelMetadata { name: short("Position"), packed_size: 77 };

    let report = manager.dispatch(&other_size, &vec![felt(1)], &vec![1]);
    assert_eq!(report.attempted, vec![Delivery { id: 0, copies: 1 }]);
    assert_eq!(
        subscription.receiver.try_recv(),
        Ok(Notification { model: other_size, entity_key: vec![felt(1)], payload: vec![1] })
    );
}

#[test]
fn two_subscribers_with_different_keys_are_not_cross_delivered() {
    let mut manager = SubscriberManager::default();
    let mut first = manager.add_subscriber(vec![filter("Position", vec![felt(1)])]);
    let mut second = manager.add_subscriber(vec![filter("Position", vec![felt(2)])]);
    assert_eq!((first.id, second.id), (0, 1));

    let report = manager.dispatch(&model("Position"), &vec![felt(1)], &vec![10]);
    assert_eq!(report.attempted, vec![Delivery { id: 0, copies: 1 }]);
    let report = manager.dispatch(&model("Position"), &vec![felt(2)], &vec![20]);
    assert_eq!(report.attempted, vec![Delivery { id: 1, copies: 1 }]);

    assert_eq!(first.receiver.try_recv(), Ok(change("Position", vec![felt(1)], vec![10])));
    assert_eq!(first.receiver.try_recv(), Err(TryRecvError::Empty));
    assert_eq!(second.receiver.try_recv(), Ok(change("Position", vec![felt(2)], vec![20])));
    assert_eq!(second.receiver.try_recv(), Err(TryRecvError::Empty));
    assert_eq!(manager.len(), 2);
}

#[test]
fn removed_subscriber_is_never_delivered_to() {
    let mut manager = SubscriberManager::default();
    let mut first = manager.add_subscriber(vec![filter("Position", vec![])]);
    let mut second = manager.add_subscriber(vec![filter("Position", vec![])]);

    manager.remove_subscriber(first.id);
    assert!(!manager.contains(first.id));
    assert!(manager.contains(second.id));

    let report = manager.dispatch(&model("Position"), &vec![felt(4)], &vec![]);
    assert_eq!(report.attempted, vec![Delivery { id: second.id, copies: 1 }]);
    assert_eq!(first.receiver.try_recv(), Err(TryRecvError::Disconnected));
    assert_eq!(second.receiver.try_recv(), Ok(change("Position", vec![felt(4)], vec![])));
}

#[test]
fn removing_twice_or_an_unknown_id_changes_nothing() {
    let mut manager = SubscriberManager::default();
    let first = manager.add_subscriber(vec![filter("Position", vec![])]);
    let second = manager.add_subscriber(vec![filter("Moves", vec![])]);

    manager.remove_subscriber(first.id);
    assert_eq!(manager.len(), 1);
    manager.remove_subscriber(first.id);
    assert_eq!(manager.len(), 1);
    manager.remove_subscriber(12345);
    assert_eq!(manager.len(), 1);
    assert!(manager.contains(second.id));
    assert_eq!(
        manager.recipients(&model("Moves"), &vec![]),
        vec![Delivery { id: second.id, copies: 1 }]
    );
}

#[test]
fn ids_are_fresh_and_never_given_again() {
    let mut manager = SubscriberManager::default();
    let a = manager.add_subscriber(vec![]);
    let b = manager.add_subscriber(vec![]);
    manager.remove_subscriber(b.id);
    manager.remove_subscriber(a.id);
    let c = manager.add_subscriber(vec![]);
    assert_eq!((a.id, b.id, c.id), (0, 1, 2));
    assert!(manager.has_free_id());
    assert_eq!(manager.len(), 1);
}

#[test]
fn subscriber_that_never_reads_is_dropped_and_others_go_on() {
    let mut manager = SubscriberManager::default();
    let mut idle = manager.add_subscriber(vec![filter("Position", vec![])]);
    let mut reader = manager.add_subscriber(vec![filter("Position", vec![])]);

    let report = manager.dispatch(&model("Position"), &vec![felt(1)], &vec![1]);
    assert_eq!(
        report.attempted,
        vec![Delivery { id: idle.id, copies: 1 }, Delivery { id: reader.id, copies: 1 }]
    );
    assert_eq!(report.dropped, Vec::<u64>::new());
    assert_eq!(reader.receiver.try_recv(), Ok(change("Position", vec![felt(1)], vec![1])));

    let report = manager.dispatch(&model("Position"), &vec![felt(2)], &vec![2]);
    assert_eq!(
        report.attempted,
        vec![Delivery { id: idle.id, copies: 1 }, Delivery { id: reader.id, copies: 1 }]
    );
    assert_eq!(report.accepted, vec![0, 1]);
    assert_eq!(report.dropped, vec![idle.id]);
    assert_eq!(reader.receiver.try_recv(), Ok(change("Position", vec![felt(2)], vec![2])));
    assert!(!manager.contains(idle.id));
    assert!(manager.contains(reader.id));

    let report = manager.dispatch(&model("Position"), &vec![felt(3)], &vec![3]);
    assert_eq!(report.attempted, vec![Delivery { id: reader.id, copies: 1 }]);
    assert_eq!(report.dropped, Vec::<u64>::new());
    assert_eq!(reader.receiver.try_recv(), Ok(change("Position", vec![felt(3)], vec![3])));

    assert_eq!(idle.receiver.try_recv(), Ok(change("Position", vec![felt(1)], vec![1])));
    assert_eq!(idle.receiver.try_recv(), Err(TryRecvError::Disconnected));
}

#[test]
fn subscriber_whose_stream_is_gone_is_dropped() {
    let mut manager = SubscriberManager::default();
    let gone = manager.add_subscriber(vec![filter("Position", vec![])]);
    let mut stays = manager.add_subscriber(vec![filter("Position", vec![felt(1)])]);
    let gone_id = gone.id;
    drop(gone);

    let report = manager.dispatch(&model("Position"), &vec![felt(1)], &vec![]);
    assert_eq!(
        report.attempted,
        vec![Delivery { id: gone_id, copies: 1 }, Delivery { id: stays.id, copies: 1 }]
    );
    assert_eq!(report.accepted, vec![0, 1]);
    assert_eq!(report.dropped, vec![gone_id]);
    assert_eq!(manager.len(), 1);
    assert_eq!(stays.receiver.try_recv(), Ok(change("Position", vec![felt(1)], vec![])));
}

#[test]
fn each_matching_filter_gets_its_own_copy() {
    let mut manager = SubscriberManager::with_capacity(4);
    let mut subscription = manager.add_subscriber(vec![
        filter("Position", vec![]),
        filter("Moves", vec![]),
        filter("Position", vec![felt(1), felt(2)]),
        filter("Position", vec![felt(1), felt(3)]),
    ]);

    let report = manager.dispatch(&model("Position"), &vec![felt(1), felt(2)], &vec![7]);
    assert_eq!(report.attempted, vec![Delivery { id: 0, copies: 2 }]);
    assert_eq!(report.accepted, vec![2]);
    assert_eq!(report.dropped, Vec::<u64>::new());
    let expected = change("Position", vec![felt(1), felt(2)], vec![7]);
    assert_eq!(subscription.receiver.try_recv(), Ok(expected.clone()));
    assert_eq!(subscription.receiver.try_recv(), Ok(expected));
    assert_eq!(subscription.receiver.try_recv(), Err(TryRecvError::Empty));
}

#[test]
fn second_copy_into_a_full_channel_drops_the_subscriber() {
    let mut manager = SubscriberManager::default();
    let mut subscription = manager.add_subscriber(vec![
        filter("Position", vec![]),
        filter("Position", vec![felt(1)]),
    ]);

    let report = manager.dispatch(&model("Position"), &vec![felt(1)], &vec![]);
    assert_eq!(report.attempted, vec![Delivery { id: 0, copies: 2 }]);
    assert_eq!(report.accepted, vec![1]);
    assert_eq!(report.dropped, vec![0]);
    assert_eq!(manager.len(), 0);
    assert_eq!(subscription.receiver.try_recv(), Ok(change("Position", vec![felt(1)], vec![])));
    assert_eq!(subscription.receiver.try_recv(), Err(TryRecvError::Disconnected));
}

#[test]
fn subscriber_without_filters_hears_nothing() {
    let mut manager = SubscriberManager::default();
    let mut subscription = manager.add_subscriber(vec![]);
    let report = manager.dispatch(&model("Position"), &vec![], &vec![]);
    assert_eq!(report.attempted, Vec::<Delivery>::new());
    assert_eq!(subscription.receiver.try_recv(), Err(TryRecvError::Empty));
    assert_eq!(manager.len(), 1);
}

#[test]
fn recipients_lists_matching_subscribers_oldest_first() {
    let mut manager = SubscriberManager::with_capacity(8);
    let _a = manager.add_subscriber(vec![filter("Moves", vec![])]);
    let _b = manager.add_subscriber(vec![filter("Position", vec![felt(9)])]);
    let _c = manager
        .add_subscriber(vec![filter("Position", vec![]), filter("Position", vec![felt(9)])]);

    assert_eq!(
        manager.recipients(&model("Position"), &vec![felt(9)]),
        vec![Delivery { id: 1, copies: 1 }, Delivery { id: 2, copies: 2 }]
    );
    assert_eq!(
        manager.recipients(&model("Position"), &vec![felt(8)]),
        vec![Delivery { id: 2, copies: 1 }]
    );
    assert_eq!(manager.recipients(&model("Health"), &vec![]), Vec::<Delivery>::new());
    assert_eq!(manager.len(), 3);
}

#[test]
fn filter_matching_follows_name_and_keys() {
    let request = filter("Position", vec![felt(1), felt(2)]);
    assert!(request.matches(&model("Position"), &vec![felt(1), felt(2)]));
    assert!(!request.matches(&model("Position"), &vec![felt(2), felt(1)]));
    assert!(!request.matches(&model("Position"), &vec![felt(1)]));
    assert!(!request.matches(&model("Position"), &vec![felt(1), felt(2), felt(3)]));
    assert!(!request.matches(&model("Moves"), &vec![felt(1), felt(2)]));
    let any = filter("Position", vec![]);
    assert!(any.matches(&model("Position"), &vec![felt(1), felt(2)]));
    assert!(any.matches(&model("Position"), &vec![]));
    assert!(!any.matches(&model("position"), &vec![]));
}

#[test]
fn counting_and_comparing_keys() {
    let entries = vec![
        filter("Position", vec![]),
        filter("Position", vec![felt(1)]),
        filter("Moves", vec![felt(1)]),
    ];
    assert_eq!(count_matches(&entries, &model("Position"), &vec![felt(1)]), 2);
    assert_eq!(count_matches(&entries, &model("Position"), &vec![felt(2)]), 1);
    assert_eq!(count_matches(&entries, &model("Moves"), &vec![felt(2)]), 0);
    assert_eq!(count_matches(&vec![], &model("Moves"), &vec![]), 0);

    assert!(keys_equal(&vec![], &vec![]));
    assert!(keys_equal(&vec![felt(1), felt(2)], &vec![felt(1), felt(2)]));
    assert!(!keys_equal(&vec![felt(1), felt(2)], &vec![felt(1)]));
    assert!(!keys_equal(&vec![felt(1)], &vec![felt(2)]));
    let mut high = [0u8; 32];
    high[0] = 1;
    assert!(!felt(0).same(&Felt { bytes: high }));
    assert!(Felt { bytes: high }.same(&Felt { bytes: high }));
}

#[test]
fn capacity_bounds() {
    assert_eq!(DEFAULT_CHANNEL_CAPACITY, 1);
    assert_eq!(MAX_CHANNEL_CAPACITY, usize::MAX >> 3);
    let mut manager = SubscriberManager::with_capacity(3);
    let mut subscription = manager.add_subscriber(vec![filter("Position", vec![])]);
    for round in 0..3u8 {
        let report = manager.dispatch(&model("Position"), &vec![], &vec![round]);
        assert_eq!(report.dropped, Vec::<u64>::new());
    }
    let report = manager.dispatch(&model("Position"), &vec![], &vec![3]);
    assert_eq!(report.dropped, vec![0]);
    assert_eq!(subscription.receiver.try_recv(), Ok(change("Position", vec![], vec![0])));
}

#[test]
fn removing_several_subscribers_keeps_the_others_in_order() {
    let mut manager = SubscriberManager::with_capacity(2);
    let _a = manager.add_subscriber(vec![filter("Position", vec![])]);
    let _b = manager.add_subscriber(vec![filter("Position", vec![])]);
    let _c = manager.add_subscriber(vec![filter("Position", vec![])]);
    let _d = manager.add_subscriber(vec![filter("Position", vec![])]);

    manager.remove_subscribers(&vec![2, 0, 2, 99]);
    assert_eq!(manager.len(), 2);
    assert_eq!(
        manager.recipients(&model("Position"), &vec![]),
        vec![Delivery { id: 1, copies: 1 }, Delivery { id: 3, copies: 1 }]
    );
    manager.remove_subscribers(&vec![]);
    assert_eq!(manager.len(), 2);
    manager.remove_subscribers(&vec![1, 3]);
    assert_eq!(manager.len(), 0);
    assert_eq!(manager.recipients(&model("Position"), &vec![]), Vec::<Delivery>::new());
}

#[test]
fn notification_carries_the_change_as_given() {
    let made = Notification::new(&model("Moves"), &vec![felt(3), felt(4)], &vec![1, 2, 3]);
    assert_eq!(made, change("Moves", vec![felt(3), felt(4)], vec![1, 2, 3]));
    assert_eq!(
        Notification::new(&model("Moves"), &vec![], &vec![]),
        change("Moves", vec![], vec![])
    );
}
