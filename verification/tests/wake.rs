use std::cell::Cell;

use starcom::wake_flag::WakeFlag;

#[test]
fn a_burst_posts_one_notification() {
    let mut flag = WakeFlag::default();
    let count = Cell::new(0);
    for _ in 0..100 {
        flag.post(|| {
            count.set(count.get() + 1);
            true
        });
    }
    assert_eq!(count.get(), 1);
    flag.acknowledge();
    flag.post(|| {
        count.set(count.get() + 1);
        true
    });
    assert_eq!(count.get(), 2);
}

#[test]
fn failed_delivery_does_not_latch_the_flag() {
    let mut flag = WakeFlag::default();
    flag.post(|| false);
    let delivered = Cell::new(false);
    flag.post(|| {
        delivered.set(true);
        true
    });
    assert!(delivered.get());
}

#[test]
fn producers_after_acknowledgement_can_wake_the_consumer() {
    let mut flag = WakeFlag::default();
    flag.post(|| true);
    flag.acknowledge();
    let delivered = Cell::new(false);
    flag.post(|| {
        delivered.set(true);
        true
    });
    assert!(delivered.get());
}
