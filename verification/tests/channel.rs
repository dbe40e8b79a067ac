use simplebar::channel::Channel;

#[test]
fn current_returns_latest_publish() {
    let mut c: Channel<u32> = Channel::new(1);
    assert_eq!(*c.current(), 1);
    c.publish(2);
    c.publish(3);
    assert_eq!(*c.current(), 3);
}

#[test]
fn subscribe_after_n_publishes_sees_n_then_n_plus_one() {
    let mut c: Channel<u32> = Channel::new(10);
    c.publish(11);
    c.publish(12);
    // A reader subscribing now sees publish N as current...
    let mut r = c.subscribe();
    assert_eq!(*c.current(), 12);
    // ...nothing new before publish N+1...
    assert!(c.poll(&mut r).is_none());
    // ...and exactly the value of publish N+1 next.
    c.publish(13);
    assert_eq!(c.poll(&mut r).copied(), Some(13));
    assert!(c.poll(&mut r).is_none());
}

#[test]
fn slow_reader_skips_to_latest_value() {
    let mut c: Channel<u32> = Channel::new(0);
    let mut r = c.subscribe();
    c.publish(1);
    c.publish(2);
    c.publish(3);
    // Intermediate values are skipped, never fabricated.
    assert_eq!(c.poll(&mut r).copied(), Some(3));
    assert!(c.poll(&mut r).is_none());
}

#[test]
fn publish_with_zero_readers_is_a_no_op_not_an_error() {
    let mut c: Channel<u32> = Channel::new(0);
    // No reader exists; publishing must simply succeed.
    c.publish(7);
    c.publish(8);
    assert_eq!(*c.current(), 8);
    // A reader subscribing afterwards still works normally.
    let mut r = c.subscribe();
    assert!(c.poll(&mut r).is_none());
    c.publish(9);
    assert_eq!(c.poll(&mut r).copied(), Some(9));
}

#[test]
fn independent_readers_each_see_updates_after_their_subscription() {
    let mut c: Channel<&'static str> = Channel::new("a");
    let mut r1 = c.subscribe();
    c.publish("b");
    let mut r2 = c.subscribe();
    assert_eq!(c.poll(&mut r1).copied(), Some("b"));
    assert!(c.poll(&mut r2).is_none());
    c.publish("c");
    assert_eq!(c.poll(&mut r1).copied(), Some("c"));
    assert_eq!(c.poll(&mut r2).copied(), Some("c"));
}
