use retro_chat::hub::{Delivery, Hub};

fn text(s: &str) -> Delivery {
    Delivery::Text(s.to_string())
}

#[test]
fn hub_rounds_its_capacity_up_to_a_power_of_two() {
    assert_eq!(Hub::new(1).unwrap().capacity(), 1);
    assert_eq!(Hub::new(2).unwrap().capacity(), 2);
    assert_eq!(Hub::new(3).unwrap().capacity(), 4);
    assert_eq!(Hub::new(4).unwrap().capacity(), 4);
    assert_eq!(Hub::new(5).unwrap().capacity(), 8);
    assert_eq!(Hub::new(100).unwrap().capacity(), 128);
}

#[test]
fn hub_refuses_a_capacity_of_zero_or_too_large() {
    assert!(Hub::new(0).is_none());
    assert!(Hub::new(usize::MAX / 2 + 1).is_none());
    assert!(Hub::new(usize::MAX).is_none());
}

#[test]
fn new_hub_is_empty() {
    let hub = Hub::new(16).unwrap();
    assert_eq!(hub.subscriber_count(), 0);
    assert_eq!(hub.published(), 0);
}

#[test]
fn subscribers_are_numbered_in_order() {
    let mut hub = Hub::new(16).unwrap();
    assert_eq!(hub.subscribe(), Some(0));
    assert_eq!(hub.subscribe(), Some(1));
    assert_eq!(hub.subscribe(), Some(2));
    assert_eq!(hub.subscriber_count(), 3);
    assert!(hub.unsubscribe(1));
    assert_eq!(hub.subscribe(), Some(3));
    assert_eq!(hub.subscriber_count(), 3);
}

#[test]
fn message_reaches_every_other_subscriber() {
    let mut hub = Hub::new(16).unwrap();
    let a = hub.subscribe().unwrap();
    let b = hub.subscribe().unwrap();
    let c = hub.subscribe().unwrap();
    let d = hub.subscribe().unwrap();
    assert_eq!(hub.publish(a, "hello".to_string()), 4);
    assert_eq!(hub.receive(b), text("hello"));
    assert_eq!(hub.receive(c), text("hello"));
    assert_eq!(hub.receive(d), text("hello"));
    assert_eq!(hub.receive(b), Delivery::Idle);
    assert_eq!(hub.receive(c), Delivery::Idle);
    assert_eq!(hub.receive(d), Delivery::Idle);
}

#[test]
fn sender_gets_no_echo() {
    let mut hub = Hub::new(16).unwrap();
    let a = hub.subscribe().unwrap();
    let b = hub.subscribe().unwrap();
    hub.publish(a, "one".to_string());
    hub.publish(b, "two".to_string());
    hub.publish(a, "three".to_string());
    assert_eq!(hub.receive(a), text("two"));
    assert_eq!(hub.receive(a), Delivery::Idle);
    assert_eq!(hub.receive(b), text("one"));
    assert_eq!(hub.receive(b), text("three"));
    assert_eq!(hub.receive(b), Delivery::Idle);
}

#[test]
fn lone_sender_reads_nothing() {
    let mut hub = Hub::new(4).unwrap();
    let a = hub.subscribe().unwrap();
    assert_eq!(hub.publish(a, "x".to_string()), 1);
    assert_eq!(hub.publish(a, "y".to_string()), 1);
    assert_eq!(hub.published(), 2);
    assert_eq!(hub.receive(a), Delivery::Idle);
    assert_eq!(hub.receive(a), Delivery::Idle);
}

#[test]
fn messages_of_one_sender_arrive_in_order() {
    let mut hub = Hub::new(16).unwrap();
    let a = hub.subscribe().unwrap();
    let b = hub.subscribe().unwrap();
    let c = hub.subscribe().unwrap();
    hub.publish(a, "m1".to_string());
    hub.publish(a, "m2".to_string());
    assert_eq!(hub.receive(b), text("m1"));
    hub.publish(a, "m3".to_string());
    assert_eq!(hub.receive(b), text("m2"));
    assert_eq!(hub.receive(b), text("m3"));
    assert_eq!(hub.receive(c), text("m1"));
    assert_eq!(hub.receive(c), text("m2"));
    assert_eq!(hub.receive(c), text("m3"));
    assert_eq!(hub.receive(c), Delivery::Idle);
}

#[test]
fn subscriber_sees_only_what_comes_after_it() {
    let mut hub = Hub::new(16).unwrap();
    let a = hub.subscribe().unwrap();
    hub.publish(a, "early".to_string());
    let b = hub.subscribe().unwrap();
    assert_eq!(hub.receive(b), Delivery::Idle);
    hub.publish(a, "late".to_string());
    assert_eq!(hub.receive(b), text("late"));
}

#[test]
fn message_without_a_subscriber_is_not_taken() {
    let mut hub = Hub::new(16).unwrap();
    assert_eq!(hub.publish(7, "nobody listens".to_string()), 0);
    assert_eq!(hub.published(), 0);
    let a = hub.subscribe().unwrap();
    assert_eq!(hub.receive(a), Delivery::Idle);
    assert_eq!(hub.publish(7, "somebody listens".to_string()), 1);
    assert_eq!(hub.published(), 1);
    assert_eq!(hub.receive(a), text("somebody listens"));
}

#[test]
fn slow_subscriber_is_told_what_it_missed() {
    let mut hub = Hub::new(4).unwrap();
    let a = hub.subscribe().unwrap();
    let b = hub.subscribe().unwrap();
    for i in 0..6 {
        hub.publish(a, format!("m{}", i));
    }
    assert_eq!(hub.receive(b), Delivery::Missed(2));
    assert_eq!(hub.receive(b), text("m2"));
    assert_eq!(hub.receive(b), text("m3"));
    assert_eq!(hub.receive(b), text("m4"));
    assert_eq!(hub.receive(b), text("m5"));
    assert_eq!(hub.receive(b), Delivery::Idle);
}

#[test]
fn overflow_is_counted_from_the_rounded_capacity() {
    let mut hub = Hub::new(3).unwrap();
    let a = hub.subscribe().unwrap();
    let b = hub.subscribe().unwrap();
    for i in 0..4 {
        hub.publish(a, format!("m{}", i));
    }
    assert_eq!(hub.receive(b), text("m0"));
    for i in 4..9 {
        hub.publish(a, format!("m{}", i));
    }
    assert_eq!(hub.receive(b), Delivery::Missed(4));
    assert_eq!(hub.receive(b), text("m5"));
}

#[test]
fn subscriber_at_the_limit_has_missed_nothing() {
    let mut hub = Hub::new(4).unwrap();
    let a = hub.subscribe().unwrap();
    let b = hub.subscribe().unwrap();
    for i in 0..4 {
        hub.publish(a, format!("m{}", i));
    }
    assert_eq!(hub.receive(b), text("m0"));
    assert_eq!(hub.receive(b), text("m1"));
    assert_eq!(hub.receive(b), text("m2"));
    assert_eq!(hub.receive(b), text("m3"));
    assert_eq!(hub.receive(b), Delivery::Idle);
}

#[test]
fn sender_that_lags_is_told_too() {
    let mut hub = Hub::new(2).unwrap();
    let a = hub.subscribe().unwrap();
    let _b = hub.subscribe().unwrap();
    for i in 0..5 {
        hub.publish(a, format!("m{}", i));
    }
    assert_eq!(hub.receive(a), Delivery::Missed(3));
    assert_eq!(hub.receive(a), Delivery::Idle);
}

#[test]
fn slow_subscriber_does_not_hold_back_the_others() {
    let mut hub = Hub::new(2).unwrap();
    let a = hub.subscribe().unwrap();
    let slow = hub.subscribe().unwrap();
    let quick = hub.subscribe().unwrap();
    for i in 0..10 {
        assert_eq!(hub.publish(a, format!("m{}", i)), 3);
        assert_eq!(hub.receive(quick), text(&format!("m{}", i)));
    }
    assert_eq!(hub.receive(slow), Delivery::Missed(8));
    assert_eq!(hub.receive(slow), text("m8"));
    assert_eq!(hub.receive(slow), text("m9"));
    assert_eq!(hub.receive(slow), Delivery::Idle);
}

#[test]
fn unknown_subscriber_gets_nothing() {
    let mut hub = Hub::new(4).unwrap();
    let a = hub.subscribe().unwrap();
    assert_eq!(hub.receive(a + 1), Delivery::Unknown);
    assert!(!hub.unsubscribe(a + 1));
    assert!(hub.unsubscribe(a));
    assert!(!hub.unsubscribe(a));
    assert_eq!(hub.receive(a), Delivery::Unknown);
    assert_eq!(hub.subscriber_count(), 0);
}

#[test]
fn leaving_does_not_disturb_the_others() {
    let mut hub = Hub::new(8).unwrap();
    let a = hub.subscribe().unwrap();
    let b = hub.subscribe().unwrap();
    let c = hub.subscribe().unwrap();
    hub.publish(a, "before".to_string());
    assert!(hub.unsubscribe(b));
    assert_eq!(hub.publish(a, "after".to_string()), 2);
    assert_eq!(hub.receive(c), text("before"));
    assert_eq!(hub.receive(c), text("after"));
    assert_eq!(hub.receive(c), Delivery::Idle);
    assert_eq!(hub.receive(a), Delivery::Idle);
}

#[test]
fn hub_takes_messages_again_after_everyone_left() {
    let mut hub = Hub::new(4).unwrap();
    let a = hub.subscribe().unwrap();
    hub.publish(a, "x".to_string());
    assert!(hub.unsubscribe(a));
    assert_eq!(hub.publish(a, "lost".to_string()), 0);
    let b = hub.subscribe().unwrap();
    let c = hub.subscribe().unwrap();
    assert_eq!(hub.publish(b, "again".to_string()), 2);
    assert_eq!(hub.receive(c), text("again"));
    assert_eq!(hub.published(), 2);
}
