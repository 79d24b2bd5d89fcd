use splitrc::Notify;
use std::cell::Cell;

struct Unit;

impl Notify for Unit {}

#[derive(Default)]
struct TrackNotify {
    tx_did_drop: Cell<bool>,
    rx_did_drop: Cell<bool>,
}

impl Notify for TrackNotify {
    fn last_tx_did_drop(&self) {
        self.tx_did_drop.set(true);
    }
    fn last_rx_did_drop(&self) {
        self.rx_did_drop.set(true);
    }
}

#[derive(Default)]
struct MustPin {
    v: u32,
    tx_did_drop: Cell<bool>,
    rx_did_drop: Cell<bool>,
}

impl Notify for MustPin {
    fn last_tx_did_drop_pinned(&self) {
        self.tx_did_drop.set(true);
    }
    fn last_rx_did_drop_pinned(&self) {
        self.rx_did_drop.set(true);
    }
}

#[derive(Default)]
struct CountNotify {
    fired: Cell<u64>,
}

impl Notify for CountNotify {
    fn last_tx_did_drop(&self) {
        self.fired.set(self.fired.get() + 1);
    }
    fn last_rx_did_drop(&self) {
        self.fired.set(self.fired.get() + 1);
    }
}

#[test]
fn tests_new_and_delete() {
    let mut s = splitrc::new(Unit);
    s.drop_tx();
    s.drop_rx();
}

#[test]
fn tests_drop_rx_notifies() {
    let mut s = splitrc::new(TrackNotify::default());
    s.clone_rx().unwrap();
    s.drop_rx();
    s.drop_rx();
    assert!(!s.payload().tx_did_drop.get());
    assert!(s.payload().rx_did_drop.get());
}

#[test]
fn tests_drop_tx_notifies() {
    let mut s = splitrc::new(TrackNotify::default());
    s.clone_tx().unwrap();
    s.drop_tx();
    s.drop_tx();
    assert!(s.payload().tx_did_drop.get());
    assert!(!s.payload().rx_did_drop.get());
}

#[test]
fn loom_new_and_delete() {
    let mut s = splitrc::new(Unit);
    s.drop_tx();
    s.drop_rx();
}

#[test]
fn loom_drop_rx_notifies() {
    let mut s = splitrc::new(TrackNotify::default());
    s.clone_rx().unwrap();
    s.drop_rx();
    s.drop_rx();
    assert!(!s.payload().tx_did_drop.get());
    assert!(s.payload().rx_did_drop.get());
}

#[test]
fn loom_drop_tx_notifies() {
    let mut s = splitrc::new(TrackNotify::default());
    s.clone_tx().unwrap();
    s.drop_tx();
    s.drop_tx();
    assert!(s.payload().tx_did_drop.get());
    assert!(!s.payload().rx_did_drop.get());
}

// The last write handle and the last read handle go down back to
// back, in both orders: whichever half crosses zero first announces
// itself, the other half finds nobody left to tell, and the payload
// is destroyed exactly once.
#[test]
fn racing_drop() {
    let mut s = splitrc::new(TrackNotify::default());
    s.drop_tx();
    assert!(s.payload().tx_did_drop.get());
    assert!(!s.payload().rx_did_drop.get());
    s.drop_rx();
    assert!(!s.is_alive());

    let mut s = splitrc::new(TrackNotify::default());
    s.drop_rx();
    assert!(s.payload().rx_did_drop.get());
    assert!(!s.payload().tx_did_drop.get());
    s.drop_tx();
    assert!(!s.is_alive());
}

#[test]
fn racing_drop_two_tx() {
    let mut s = splitrc::new(TrackNotify::default());
    s.clone_tx().unwrap();
    s.drop_rx();
    assert!(s.payload().rx_did_drop.get());
    s.drop_tx();
    assert!(s.is_alive());
    s.drop_tx();
    assert!(!s.is_alive());
}

#[test]
fn racing_drop_two_rx() {
    let mut s = splitrc::new(TrackNotify::default());
    s.clone_rx().unwrap();
    s.drop_tx();
    assert!(s.payload().tx_did_drop.get());
    s.drop_rx();
    assert!(s.is_alive());
    s.drop_rx();
    assert!(!s.is_alive());
}

#[test]
fn alloc_pinned() {
    let p = splitrc::pin(MustPin::default());
    assert_eq!(0, p.payload().v);
    assert_eq!(0, p.payload().v);
}

#[test]
fn drop_tx_pinned() {
    let mut p = splitrc::pin(MustPin::default());
    assert_eq!(false, p.payload().tx_did_drop.get());
    p.drop_tx();
    assert_eq!(true, p.payload().tx_did_drop.get());
}

#[test]
fn drop_rx_pinned() {
    let mut p = splitrc::pin(MustPin::default());
    assert_eq!(false, p.payload().rx_did_drop.get());
    p.drop_rx();
    assert_eq!(true, p.payload().rx_did_drop.get());
}

// Allocate with a payload, clone the write handle once (two writes,
// one read), drop both write handles: the "last write dropped"
// callback fires once. Drop the read handle: the payload is
// destroyed and no second callback fires.
#[test]
fn scenario_clone_write_then_teardown() {
    let mut s = splitrc::new(CountNotify::default());
    s.clone_tx().unwrap();
    s.drop_tx();
    assert_eq!(0, s.payload().fired.get());
    s.drop_tx();
    assert_eq!(1, s.payload().fired.get());
    let fired = s.payload().fired.get();
    s.drop_rx();
    assert!(!s.is_alive());
    assert_eq!(1, fired);
}

// Allocate, drop the write handle (one write to zero, one read
// alive): "last write dropped" fires. Drop the read handle right
// after: the payload is destroyed and "last read dropped" does not
// fire, there being no other side alive to receive it.
#[test]
fn scenario_write_then_read_teardown() {
    let mut s = splitrc::new(TrackNotify::default());
    s.drop_tx();
    assert!(s.payload().tx_did_drop.get());
    assert!(!s.payload().rx_did_drop.get());
    let rx_fired_before_teardown = s.payload().rx_did_drop.get();
    s.drop_rx();
    assert!(!s.is_alive());
    assert_eq!(false, rx_fired_before_teardown);
}

// Cloning then dropping a handle many times leaves the sub-counts
// exactly where they started and triggers no callback and no
// teardown, as long as the original handles are held.
#[test]
fn clone_drop_rounds_keep_counts() {
    let mut s = splitrc::new(CountNotify::default());
    for _ in 0..100 {
        s.clone_tx().unwrap();
        s.drop_tx();
        s.clone_rx().unwrap();
        s.drop_rx();
    }
    let word = s.count_word();
    assert_eq!(1, splitrc::tx_count(word));
    assert_eq!(1, splitrc::rx_count(word));
    assert_eq!(0, splitrc::drop_count(word));
    assert_eq!(0, s.payload().fired.get());
    assert!(s.is_alive());
}

// 256 rounds of cloning-then-dropping on each side, then the original
// pair goes down: the number of notification side effects equals the
// number of kind-transitions-to-zero that found a survivor, which is
// exactly one.
#[test]
fn stress_clone_drop_rounds() {
    let mut s = splitrc::new(CountNotify::default());
    for _ in 0..256 {
        s.clone_tx().unwrap();
        s.drop_tx();
    }
    for _ in 0..256 {
        s.clone_rx().unwrap();
        s.drop_rx();
    }
    s.drop_tx();
    let fired = s.payload().fired.get();
    assert_eq!(1, fired);
    s.drop_rx();
    assert!(!s.is_alive());
    assert_eq!(1, fired);
}

// Many records are torn down, each in a different handle order; every
// payload sees exactly one callback.
#[test]
fn stress_dealloc_orders() {
    let mut total: u64 = 0;
    for i in 0..64 {
        let mut s = splitrc::new(CountNotify::default());
        if i % 2 == 0 {
            s.drop_tx();
            total += s.payload().fired.get();
            s.drop_rx();
        } else {
            s.drop_rx();
            total += s.payload().fired.get();
            s.drop_tx();
        }
        assert!(!s.is_alive());
    }
    assert_eq!(64, total);
}

#[test]
fn payload_reads_through_either_side() {
    let mut s = splitrc::new(MustPin {
        v: 7,
        ..MustPin::default()
    });
    assert_eq!(7, s.payload().v);
    s.drop_tx();
    assert_eq!(7, s.payload().v);
}

#[test]
fn pinned_clone_and_counts() {
    let mut p = splitrc::pin(MustPin::default());
    p.clone_tx().unwrap();
    p.clone_rx().unwrap();
    p.drop_tx();
    p.drop_tx();
    assert!(p.payload().tx_did_drop.get());
    p.drop_rx();
    assert!(p.is_alive());
    p.drop_rx();
    assert!(!p.is_alive());
}
