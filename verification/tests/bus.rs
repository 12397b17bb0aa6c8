use moomoot::bus::Bus;

#[test]
fn slots_follow_every_publish() {
    let mut bus = Bus::new("volume", 2i64);
    let recv = bus.sub();
    assert_eq!(recv.value(&bus), 2);
    bus.publish(15);
    assert_eq!(recv.value(&bus), 15);

    // a later subscriber starts from the last published value
    let late = bus.sub();
    assert_eq!(late.value(&bus), 15);
    bus.publish(-3);
    assert_eq!(recv.value(&bus), -3);
    assert_eq!(late.value(&bus), -3);
}

#[test]
fn counts_shrink_only_when_handles_return() {
    let mut bus = Bus::new("pan", 0.5f64);
    assert_eq!(bus.subscriber_count(), 0);
    let r1 = bus.sub();
    let r2 = bus.sub();
    assert_eq!(bus.subscriber_count(), 2);
    bus.unsubscribe(r2);
    assert_eq!(bus.subscriber_count(), 1);
    bus.publish(0.25);
    assert_eq!(bus.subscriber_count(), 1);
    assert_eq!(r1.value(&bus), 0.25);
}
