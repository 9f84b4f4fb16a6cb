use ekilox::bus::{BroadcastBus, Delivery};
use ekilox::message::Message;

fn say(text: &str) -> Message {
    Message::new("65f0aa10c3d2e4b5a6978812", text, 10, 10)
}

fn expect_event(d: Delivery) -> Message {
    match d {
        Delivery::Event(m) => m,
        other => panic!("expected an event, got {:?}", other),
    }
}

#[test]
fn subscriber_reads_in_publish_order() {
    let mut bus = BroadcastBus::new(4);
    let mut sub = bus.subscribe();
    assert_eq!(bus.publish(say("one")), Ok(2));
    assert_eq!(bus.publish(say("two")), Ok(2));
    assert_eq!(expect_event(sub.poll(&bus)).content, "one");
    assert_eq!(expect_event(sub.poll(&bus)).content, "two");
    assert!(matches!(sub.poll(&bus), Delivery::Empty));
    assert_eq!(bus.published(), 2);
}

#[test]
fn two_subscribers_see_the_same_order() {
    let mut bus = BroadcastBus::new(8);
    let mut a = bus.subscribe();
    let mut b = bus.subscribe();
    for text in ["m1", "m2", "m3"] {
        assert_eq!(bus.publish(say(text)), Ok(3));
    }
    for text in ["m1", "m2", "m3"] {
        assert_eq!(expect_event(a.poll(&bus)).content, text);
    }
    for text in ["m1", "m2", "m3"] {
        assert_eq!(expect_event(b.poll(&bus)).content, text);
    }
}

#[test]
fn subscriber_sees_only_what_is_published_after_it_subscribed() {
    let mut bus = BroadcastBus::new(4);
    bus.publish(say("before")).unwrap();
    let mut sub = bus.subscribe();
    assert!(matches!(sub.poll(&bus), Delivery::Empty));
    bus.publish(say("after")).unwrap();
    assert_eq!(expect_event(sub.poll(&bus)).content, "after");
}

#[test]
fn slow_subscriber_is_told_of_the_gap_and_resumes_after_it() {
    let mut bus = BroadcastBus::new(4);
    let mut sub = bus.subscribe();
    for n in 0..7 {
        bus.publish(say(&format!("m{}", n))).unwrap();
    }
    assert!(matches!(sub.poll(&bus), Delivery::Lagged(3)));
    for n in 3..7 {
        assert_eq!(expect_event(sub.poll(&bus)).content, format!("m{}", n));
    }
    assert!(matches!(sub.poll(&bus), Delivery::Empty));
}

#[test]
fn capacity_is_rounded_up_to_a_power_of_two() {
    let mut bus = BroadcastBus::new(3);
    let mut sub = bus.subscribe();
    for n in 0..4 {
        bus.publish(say(&format!("m{}", n))).unwrap();
    }
    assert_eq!(expect_event(sub.poll(&bus)).content, "m0");
    bus.publish(say("m4")).unwrap();
    bus.publish(say("m5")).unwrap();
    assert!(matches!(sub.poll(&bus), Delivery::Lagged(1)));
    assert_eq!(expect_event(sub.poll(&bus)).content, "m2");
}

#[test]
fn default_backlog_retains_one_hundred_and_twenty_eight() {
    assert_eq!(BroadcastBus::DEFAULT_CAPACITY, 100);
    let mut bus = BroadcastBus::new(BroadcastBus::DEFAULT_CAPACITY);
    let mut sub = bus.subscribe();
    for n in 0..128 {
        bus.publish(say(&format!("m{}", n))).unwrap();
    }
    assert_eq!(expect_event(sub.poll(&bus)).content, "m0");
    let mut late = bus.subscribe();
    for n in 128..258 {
        bus.publish(say(&format!("m{}", n))).unwrap();
    }
    assert!(matches!(late.poll(&bus), Delivery::Lagged(2)));
    assert_eq!(expect_event(late.poll(&bus)).content, "m130");
}

#[test]
fn publishing_never_waits_for_a_slow_subscriber() {
    let mut bus = BroadcastBus::new(1);
    let mut sub = bus.subscribe();
    for n in 0..1000 {
        assert_eq!(bus.publish(say(&format!("m{}", n))), Ok(2));
    }
    assert_eq!(bus.published(), 1000);
    assert!(matches!(sub.poll(&bus), Delivery::Lagged(999)));
    assert_eq!(expect_event(sub.poll(&bus)).content, "m999");
}

#[test]
fn bus_stays_open_with_nobody_subscribed() {
    let mut bus = BroadcastBus::new(4);
    assert_eq!(bus.publish(say("into the void")), Ok(1));
    let sub = bus.subscribe();
    drop(sub);
    assert_eq!(bus.publish(say("again")), Ok(1));
}

#[test]
fn handle_of_another_bus_reads_nothing() {
    let mut one = BroadcastBus::new(4);
    let other = BroadcastBus::new(4);
    let mut sub = other.subscribe();
    one.publish(say("here")).unwrap();
    assert!(matches!(sub.poll(&one), Delivery::Closed));
    assert!(matches!(sub.poll(&other), Delivery::Empty));
}

#[test]
fn received_event_keeps_author_content_and_times() {
    let mut bus = BroadcastBus::new(4);
    let mut sub = bus.subscribe();
    bus.publish(Message::new("0123456789abcdef01234567", "hello", 5, 6)).unwrap();
    let m = expect_event(sub.poll(&bus));
    assert_eq!(m.user_id, "0123456789abcdef01234567");
    assert_eq!(m.content, "hello");
    assert_eq!(m.created_at, 5);
    assert_eq!(m.updated_at, 6);
}

#[test]
fn draining_gives_all_that_is_retained_in_order() {
    let mut bus = BroadcastBus::new(4);
    let mut sub = bus.subscribe();
    let (none, lost) = sub.drain(&bus);
    assert!(none.is_empty());
    assert_eq!(lost, 0);
    for n in 0..3 {
        bus.publish(say(&format!("m{}", n))).unwrap();
    }
    let (events, lost) = sub.drain(&bus);
    let texts: Vec<&str> = events.iter().map(|m| m.content.as_str()).collect();
    assert_eq!(texts, vec!["m0", "m1", "m2"]);
    assert_eq!(lost, 0);
    for n in 3..10 {
        bus.publish(say(&format!("m{}", n))).unwrap();
    }
    let (events, lost) = sub.drain(&bus);
    let texts: Vec<&str> = events.iter().map(|m| m.content.as_str()).collect();
    assert_eq!(texts, vec!["m6", "m7", "m8", "m9"]);
    assert_eq!(lost, 3);
    assert!(matches!(sub.poll(&bus), Delivery::Empty));
    let other = BroadcastBus::new(4);
    let (events, lost) = sub.drain(&other);
    assert!(events.is_empty());
    assert_eq!(lost, 0);
}
