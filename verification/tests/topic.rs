use aiueos::topic::TopicBus;

#[test]
fn publish_sets_latest_and_counts() {
    let mut bus = TopicBus::new();
    assert_eq!(bus.latest(1), None);
    assert_eq!(bus.count(1), 0);

    bus.publish(1, 10);
    bus.publish(1, 20);
    assert_eq!(bus.latest(1), Some(20), "last write wins");
    assert_eq!(bus.count(1), 2);
}

#[test]
fn topics_are_independent() {
    let mut bus = TopicBus::new();
    bus.publish(1, 100);
    bus.publish(2, 200);
    assert_eq!(bus.latest(1), Some(100));
    assert_eq!(bus.latest(2), Some(200));
    assert_eq!(bus.latest(3), None);
    let mut ts: Vec<_> = bus.topics();
    ts.sort();
    assert_eq!(ts, vec![1, 2]);
}

#[test]
fn topics_come_out_in_increasing_order() {
    let mut bus = TopicBus::new();
    bus.publish(30, 1);
    bus.publish(-4, 2);
    bus.publish(7, 3);
    bus.publish(30, 4);
    assert_eq!(bus.topics(), vec![-4, 7, 30]);
}

#[test]
fn fresh_bus_has_no_topics() {
    let bus = TopicBus::new();
    assert!(bus.topics().is_empty());
    assert_eq!(bus.count(i32::MIN), 0);
    assert_eq!(bus.latest(i32::MAX), None);
}

#[test]
fn publishing_one_topic_leaves_another_alone() {
    let mut bus = TopicBus::new();
    bus.publish(5, -1);
    bus.publish(6, 9);
    bus.publish(6, 10);
    bus.publish(6, 11);
    assert_eq!(bus.latest(5), Some(-1));
    assert_eq!(bus.count(5), 1);
    assert_eq!(bus.latest(6), Some(11));
    assert_eq!(bus.count(6), 3);
}

#[test]
fn a_cloned_bus_does_not_follow_later_publishes() {
    let mut bus = TopicBus::default();
    bus.publish(1, 5);
    let copy = bus.clone();
    bus.publish(1, 6);
    assert_eq!(copy.latest(1), Some(5));
    assert_eq!(copy.count(1), 1);
    assert_eq!(bus.latest(1), Some(6));
    assert_eq!(bus.count(1), 2);
}
