use splitrc::count::dec_rx_word;
use splitrc::count::dec_tx_word;
use splitrc::count::overflow_stage;
use splitrc::count::DecrementAction;
use splitrc::count::OverflowStage;
use splitrc::count::SplitCount;
use splitrc::count::OVERFLOW_ABORT;
use splitrc::count::OVERFLOW_PANIC;
use splitrc::count::RC_INIT;
use splitrc::drop_count;
use splitrc::rx_count;
use splitrc::tx_count;

#[test]
fn fresh_word_counts() {
    assert_eq!(1, tx_count(RC_INIT));
    assert_eq!(1, rx_count(RC_INIT));
    assert_eq!(0, drop_count(RC_INIT));
    let c = SplitCount::new();
    assert_eq!(RC_INIT, c.load());
}

#[test]
fn packing_round_trip() {
    let c = SplitCount::from_counts(12345, 678, 2);
    let word = c.load();
    assert_eq!(12345, tx_count(word));
    assert_eq!(678, rx_count(word));
    assert_eq!(2, drop_count(word));
}

#[test]
fn increments_and_decrements_move_one_field() {
    let mut c = SplitCount::new();
    c.inc_tx().unwrap();
    c.inc_tx().unwrap();
    c.inc_rx().unwrap();
    let word = c.load();
    assert_eq!(3, tx_count(word));
    assert_eq!(2, rx_count(word));
    assert_eq!(0, drop_count(word));
    let a = c.dec_tx();
    assert_eq!(DecrementAction::Nothing, a);
    let word = c.load();
    assert_eq!(2, tx_count(word));
    assert_eq!(2, rx_count(word));
}

#[test]
fn dec_tx_word_classifies_crossings() {
    // Other write handles remain.
    let c = SplitCount::from_counts(2, 1, 0).load();
    let (word, action) = dec_tx_word(c);
    assert_eq!(DecrementAction::Nothing, action);
    assert_eq!(1, tx_count(word));
    assert_eq!(0, drop_count(word));

    // Last write handle, read handles alive: notify.
    let c = SplitCount::from_counts(1, 3, 0).load();
    let (word, action) = dec_tx_word(c);
    assert_eq!(DecrementAction::Notify, action);
    assert_eq!(0, tx_count(word));
    assert_eq!(3, rx_count(word));
    assert_eq!(0, drop_count(word));

    // Last write handle, read half gone but still mid-notification:
    // bump the finalize count and leave the free to it.
    let c = SplitCount::from_counts(1, 0, 0).load();
    let (word, action) = dec_tx_word(c);
    assert_eq!(DecrementAction::Nothing, action);
    assert_eq!(1, drop_count(word));

    // Last write handle, read half fully retired: free now.
    let c = SplitCount::from_counts(1, 0, 1).load();
    let (word, action) = dec_tx_word(c);
    assert_eq!(DecrementAction::Drop, action);
    assert_eq!(2, drop_count(word));
}

#[test]
fn dec_rx_word_classifies_crossings() {
    let c = SplitCount::from_counts(1, 2, 0).load();
    let (word, action) = dec_rx_word(c);
    assert_eq!(DecrementAction::Nothing, action);
    assert_eq!(1, rx_count(word));

    let c = SplitCount::from_counts(4, 1, 0).load();
    let (word, action) = dec_rx_word(c);
    assert_eq!(DecrementAction::Notify, action);
    assert_eq!(0, rx_count(word));
    assert_eq!(4, tx_count(word));

    let c = SplitCount::from_counts(0, 1, 0).load();
    let (word, action) = dec_rx_word(c);
    assert_eq!(DecrementAction::Nothing, action);
    assert_eq!(1, drop_count(word));

    let c = SplitCount::from_counts(0, 1, 1).load();
    let (word, action) = dec_rx_word(c);
    assert_eq!(DecrementAction::Drop, action);
    assert_eq!(2, drop_count(word));
}

#[test]
fn inc_drop_count_hands_off_the_free() {
    let mut c = SplitCount::from_counts(0, 0, 0);
    assert_eq!(false, c.inc_drop_count());
    assert_eq!(1, drop_count(c.load()));
    assert_eq!(true, c.inc_drop_count());
    assert_eq!(2, drop_count(c.load()));
}

#[test]
fn tx_overflow_reported() {
    let mut c = SplitCount::from_counts(OVERFLOW_PANIC, 1, 0);
    let r = c.inc_tx();
    assert!(r.is_err());
    let word = c.load();
    assert_eq!(OVERFLOW_PANIC, tx_count(word));
    assert_eq!(1, rx_count(word));
    assert_eq!(0, drop_count(word));
}

#[test]
fn rx_overflow_reported() {
    let mut c = SplitCount::from_counts(1, OVERFLOW_PANIC, 0);
    let r = c.inc_rx();
    assert!(r.is_err());
    let word = c.load();
    assert_eq!(1, tx_count(word));
    assert_eq!(OVERFLOW_PANIC, rx_count(word));
}

// A run of clones that are never dropped is eventually refused: the
// last increment below the mark succeeds, the next is rolled back and
// reported, and every later attempt keeps being reported.
#[test]
fn overflow_is_inevitable() {
    let mut c = SplitCount::from_counts(OVERFLOW_PANIC - 2, 1, 0);
    assert!(c.inc_tx().is_ok());
    assert!(c.inc_tx().is_ok());
    assert!(c.inc_tx().is_err());
    assert!(c.inc_tx().is_err());
    assert_eq!(OVERFLOW_PANIC, tx_count(c.load()));
}

#[test]
fn overflow_stages() {
    assert_eq!(OverflowStage::Safe, overflow_stage(0));
    assert_eq!(OverflowStage::Safe, overflow_stage(OVERFLOW_PANIC - 1));
    assert_eq!(OverflowStage::Reject, overflow_stage(OVERFLOW_PANIC));
    assert_eq!(OverflowStage::Reject, overflow_stage(OVERFLOW_ABORT - 1));
    assert_eq!(OverflowStage::Abort, overflow_stage(OVERFLOW_ABORT));
    assert_eq!(OverflowStage::Abort, overflow_stage(u32::MAX));
}
