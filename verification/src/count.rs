//! The packed counter word at the heart of the split reference count.
//!
//! One 64-bit word holds three sub-counts, big-endian:
//!
//! * bits 33..64: the 31-bit write (tx) handle count,
//! * bits 2..33: the 31-bit read (rx) handle count,
//! * bits 0..2: the 2-bit finalize (drop) count; 2 means the record
//!   may be freed.
//!
//! 31 bits is plenty for reasonable use: two billion live references
//! to a single object is almost certainly a leak. The finalize count
//! lets a notification on one half and a drop on the other race
//! without corruption: the last half to finish frees the record.

use vstd::prelude::*;

verus! {

pub const TX_SHIFT: u64 = 33;
pub const RX_SHIFT: u64 = 2;
pub const DC_SHIFT: u64 = 0;

pub const TX_MASK: u32 = 0x7FFF_FFFF;
pub const RX_MASK: u32 = 0x7FFF_FFFF;
pub const DC_MASK: u8 = 3;

pub const TX_INC: u64 = 0x2_0000_0000;
pub const RX_INC: u64 = 0x4;
pub const DC_INC: u64 = 0x1;

/// The word of a fresh record: one write handle, one read handle,
/// nothing finalized.
pub const RC_INIT: u64 = 0x2_0000_0004;

/// The write-handle count of a packed word.
pub open spec fn spec_tx_count(c: u64) -> u32 {
    ((c >> TX_SHIFT) & (TX_MASK as u64)) as u32
}

/// The read-handle count of a packed word.
pub open spec fn spec_rx_count(c: u64) -> u32 {
    ((c >> RX_SHIFT) & (RX_MASK as u64)) as u32
}

/// The finalize count of a packed word.
pub open spec fn spec_drop_count(c: u64) -> u8 {
    ((c >> DC_SHIFT) & (DC_MASK as u64)) as u8
}

/// Extracts the write-handle count from a packed word.
#[verifier::when_used_as_spec(spec_tx_count)]
pub fn tx_count(c: u64) -> (n: u32)
    ensures
        n == spec_tx_count(c),
{
    proof {
        assert(((c >> 33) & 0x7FFF_FFFFu64) <= 0x7FFF_FFFF) by (bit_vector);
    }
    ((c >> TX_SHIFT) & (TX_MASK as u64)) as u32
}

/// Extracts the read-handle count from a packed word.
#[verifier::when_used_as_spec(spec_rx_count)]
pub fn rx_count(c: u64) -> (n: u32)
    ensures
        n == spec_rx_count(c),
{
    proof {
        assert(((c >> 2) & 0x7FFF_FFFFu64) <= 0x7FFF_FFFF) by (bit_vector);
    }
    ((c >> RX_SHIFT) & (RX_MASK as u64)) as u32
}

/// Extracts the finalize count from a packed word.
#[verifier::when_used_as_spec(spec_drop_count)]
pub fn drop_count(c: u64) -> (n: u8)
    ensures
        n == spec_drop_count(c),
{
    proof {
        assert(((c >> 0) & 3u64) <= 3) by (bit_vector);
    }
    ((c >> DC_SHIFT) & (DC_MASK as u64)) as u8
}

/// A fresh word holds one write handle, one read handle and a zero
/// finalize count.
pub proof fn lemma_init_counts()
    by (bit_vector)
    ensures
        spec_tx_count(RC_INIT) == 1,
        spec_rx_count(RC_INIT) == 1,
        spec_drop_count(RC_INIT) == 0,
{
}

/// Adding `TX_INC` to a word whose write count is below the field
/// maximum increments that count and leaves the other two alone.
pub proof fn lemma_word_inc_tx(c: u64, d: u64)
    by (bit_vector)
    requires
        spec_tx_count(c) < TX_MASK,
        d == c + TX_INC,
    ensures
        spec_tx_count(d) == spec_tx_count(c) + 1,
        spec_rx_count(d) == spec_rx_count(c),
        spec_drop_count(d) == spec_drop_count(c),
{
}

/// A word whose write count is below the field maximum has room for
/// `TX_INC` without wrapping.
pub proof fn lemma_word_inc_tx_fits(c: u64)
    by (bit_vector)
    requires
        spec_tx_count(c) < TX_MASK,
    ensures
        c + TX_INC <= 0xFFFF_FFFF_FFFF_FFFFu64,
{
}

/// Subtracting `TX_INC` from a word with a live write count
/// decrements that count and leaves the other two alone.
pub proof fn lemma_word_dec_tx(c: u64, d: u64)
    by (bit_vector)
    requires
        spec_tx_count(c) >= 1,
        d == c - TX_INC,
    ensures
        spec_tx_count(d) == spec_tx_count(c) - 1,
        spec_rx_count(d) == spec_rx_count(c),
        spec_drop_count(d) == spec_drop_count(c),
{
}

/// A word with a live write count is at least `TX_INC`.
pub proof fn lemma_word_dec_tx_fits(c: u64)
    by (bit_vector)
    requires
        spec_tx_count(c) >= 1,
    ensures
        c >= TX_INC,
{
}

/// Adding `RX_INC` to a word whose read count is below the field
/// maximum increments that count and leaves the other two alone.
pub proof fn lemma_word_inc_rx(c: u64, d: u64)
    by (bit_vector)
    requires
        spec_rx_count(c) < RX_MASK,
        d == c + RX_INC,
    ensures
        spec_tx_count(d) == spec_tx_count(c),
        spec_rx_count(d) == spec_rx_count(c) + 1,
        spec_drop_count(d) == spec_drop_count(c),
{
}

/// A word whose read count is below the field maximum has room for
/// `RX_INC` without wrapping.
pub proof fn lemma_word_inc_rx_fits(c: u64)
    by (bit_vector)
    requires
        spec_rx_count(c) < RX_MASK,
    ensures
        c + RX_INC <= 0xFFFF_FFFF_FFFF_FFFFu64,
{
}

/// Subtracting `RX_INC` from a word with a live read count
/// decrements that count and leaves the other two alone.
pub proof fn lemma_word_dec_rx(c: u64, d: u64)
    by (bit_vector)
    requires
        spec_rx_count(c) >= 1,
        d == c - RX_INC,
    ensures
        spec_tx_count(d) == spec_tx_count(c),
        spec_rx_count(d) == spec_rx_count(c) - 1,
        spec_drop_count(d) == spec_drop_count(c),
{
}

/// A word with a live read count is at least `RX_INC`.
pub proof fn lemma_word_dec_rx_fits(c: u64)
    by (bit_vector)
    requires
        spec_rx_count(c) >= 1,
    ensures
        c >= RX_INC,
{
}

/// Adding `DC_INC` to a word whose finalize count is below its field
/// maximum increments that count and leaves the other two alone.
pub proof fn lemma_word_inc_dc(c: u64, d: u64)
    by (bit_vector)
    requires
        spec_drop_count(c) < DC_MASK,
        d == c + DC_INC,
    ensures
        spec_tx_count(d) == spec_tx_count(c),
        spec_rx_count(d) == spec_rx_count(c),
        spec_drop_count(d) == spec_drop_count(c) + 1,
{
}

/// A word whose finalize count is below its field maximum has room
/// for `DC_INC` without wrapping.
pub proof fn lemma_word_inc_dc_fits(c: u64)
    by (bit_vector)
    requires
        spec_drop_count(c) < DC_MASK,
    ensures
        c + DC_INC <= 0xFFFF_FFFF_FFFF_FFFFu64,
{
}

// Runaway cloning (a forgotten handle in a tight loop, a
// two-billion-entry Vec of clones) must be caught before a sub-count
// wraps and frees a record that is still referenced. Two thresholds
// stage the response: an increment whose old count is at or past
// OVERFLOW_PANIC is undone and reported as a recoverable Overflow;
// OVERFLOW_ABORT marks the range where a count could only mean
// corruption. A 31-bit sub-count stays strictly below 1 << 31 by
// construction and so never reaches OVERFLOW_ABORT; the constant
// documents where recovery would have to stop if the field were ever
// widened.

pub const OVERFLOW_PANIC: u32 = 0x4000_0000;
pub const OVERFLOW_ABORT: u32 = 0xFFFE_FFFF;

/// A clone pushed a sub-count past its high-water mark. The clone was
/// rolled back; every existing handle remains valid.
#[derive(Clone, Copy, Debug, PartialEq, Eq, Structural)]
pub struct Overflow;

/// How far into the overflow staging a sub-count has run.
#[derive(Clone, Copy, Debug, PartialEq, Eq, Structural)]
pub enum OverflowStage {
    /// Below every threshold: increments proceed normally.
    Safe,
    /// At or past the high-water mark but short of the corruption
    /// range: an increment here is undone and reported as [Overflow].
    Reject,
    /// A count this large means the word was corrupted; no recovery
    /// is sound past this point.
    Abort,
}

/// Classifies a sub-count against the two overflow thresholds.
pub fn overflow_stage(count: u32) -> (s: OverflowStage)
    ensures
        count < OVERFLOW_PANIC ==> s == OverflowStage::Safe,
        OVERFLOW_PANIC <= count < OVERFLOW_ABORT ==> s == OverflowStage::Reject,
        count >= OVERFLOW_ABORT ==> s == OverflowStage::Abort,
{
    if count < OVERFLOW_PANIC {
        OverflowStage::Safe
    } else if count < OVERFLOW_ABORT {
        OverflowStage::Reject
    } else {
        OverflowStage::Abort
    }
}

/// What the caller of a decrement must do next.
#[derive(Clone, Copy, Debug, PartialEq, Eq, Structural)]
pub enum DecrementAction {
    /// Either other handles of this kind remain, or the other half is
    /// mid-notification and will free the record itself.
    Nothing,
    /// This was the last handle of its kind and the other kind is
    /// still alive: run the matching callback, then record the
    /// finalization.
    Notify,
    /// Both kinds are gone and the other half has already finished:
    /// free the record now.
    Drop,
}

/// The packed tri-field counter. The three sub-counts move only
/// through the operations below, which mirror single atomic
/// read-modify-write transactions on the word: each call is one
/// indivisible transition of the counter's state machine.
pub struct SplitCount {
    word: u64,
}

impl SplitCount {
    /// The raw packed word.
    pub closed spec fn raw(self) -> u64 {
        self.word
    }

    /// The live write-handle count.
    pub open spec fn tx(self) -> u32 {
        spec_tx_count(self.raw())
    }

    /// The live read-handle count.
    pub open spec fn rx(self) -> u32 {
        spec_rx_count(self.raw())
    }

    /// The finalize count.
    pub open spec fn dc(self) -> u8 {
        spec_drop_count(self.raw())
    }

    /// A counter for a fresh record: one write handle, one read
    /// handle, nothing finalized.
    pub fn new() -> (s: SplitCount)
        ensures
            s.tx() == 1,
            s.rx() == 1,
            s.dc() == 0,
    {
        proof {
            lemma_init_counts();
        }
        SplitCount { word: RC_INIT }
    }

    /// A counter with the given sub-counts, for exercising the
    /// operations from an arbitrary starting state.
    pub fn from_counts(tx: u32, rx: u32, dc: u8) -> (s: SplitCount)
        requires
            tx <= TX_MASK,
            rx <= RX_MASK,
            dc <= DC_MASK,
        ensures
            s.tx() == tx,
            s.rx() == rx,
            s.dc() == dc,
    {
        let word = ((tx as u64) << TX_SHIFT) | ((rx as u64) << RX_SHIFT) | (dc as u64);
        proof {
            lemma_word_from_counts(tx, rx, dc, word);
        }
        SplitCount { word }
    }

    /// The packed word as last stored.
    pub fn load(&self) -> (c: u64)
        ensures
            c == self.raw(),
    {
        self.word
    }

    /// Adds one write handle. Mirrors a relaxed atomic add: an
    /// increment always runs on behalf of an existing handle, so no
    /// stronger ordering is needed. An increment from the high-water
    /// mark is undone and reported instead of being allowed to creep
    /// toward wraparound.
    pub fn inc_tx(&mut self) -> (r: Result<(), Overflow>)
        requires
            old(self).tx() < TX_MASK,
        ensures
            final(self).rx() == old(self).rx(),
            final(self).dc() == old(self).dc(),
            old(self).tx() < OVERFLOW_PANIC ==> r is Ok && final(self).tx() == old(self).tx()
                + 1,
            old(self).tx() >= OVERFLOW_PANIC ==> r is Err && final(self).tx() == old(self).tx(),
    {
        let old_word = self.word;
        proof {
            lemma_word_inc_tx_fits(old_word);
        }
        self.word = self.word + TX_INC;
        proof {
            lemma_word_inc_tx(old_word, self.word);
        }
        if tx_count(old_word) < OVERFLOW_PANIC {
            return Ok(());
        }
        self.inc_tx_overflow(old_word)
    }

    /// The cold half of [SplitCount::inc_tx]: undoes the increment
    /// and reports the overflow. The corruption range past
    /// [OVERFLOW_ABORT], where the process would have to be torn
    /// down, is unreachable while the count lives in a 31-bit field.
    fn inc_tx_overflow(&mut self, old_word: u64) -> (r: Result<(), Overflow>)
        requires
            old(self).raw() == old_word + TX_INC,
            spec_tx_count(old_word) >= OVERFLOW_PANIC,
            spec_tx_count(old_word) < TX_MASK,
        ensures
            final(self).raw() == old_word,
            r is Err,
    {
        proof {
            lemma_word_inc_tx(old_word, old(self).raw());
            lemma_word_dec_tx(old(self).raw(), old_word);
        }
        self.word = self.word - TX_INC;
        Err(Overflow)
    }

    /// Adds one read handle; the staging is as for
    /// [SplitCount::inc_tx].
    pub fn inc_rx(&mut self) -> (r: Result<(), Overflow>)
        requires
            old(self).rx() < RX_MASK,
        ensures
            final(self).tx() == old(self).tx(),
            final(self).dc() == old(self).dc(),
            old(self).rx() < OVERFLOW_PANIC ==> r is Ok && final(self).rx() == old(self).rx()
                + 1,
            old(self).rx() >= OVERFLOW_PANIC ==> r is Err && final(self).rx() == old(self).rx(),
    {
        let old_word = self.word;
        proof {
            lemma_word_inc_rx_fits(old_word);
        }
        self.word = self.word + RX_INC;
        proof {
            lemma_word_inc_rx(old_word, self.word);
        }
        if rx_count(old_word) < OVERFLOW_PANIC {
            return Ok(());
        }
        self.inc_rx_overflow(old_word)
    }

    /// The cold half of [SplitCount::inc_rx]: undoes the increment
    /// and reports the overflow.
    fn inc_rx_overflow(&mut self, old_word: u64) -> (r: Result<(), Overflow>)
        requires
            old(self).raw() == old_word + RX_INC,
            spec_rx_count(old_word) >= OVERFLOW_PANIC,
            spec_rx_count(old_word) < RX_MASK,
        ensures
            final(self).raw() == old_word,
            r is Err,
    {
        proof {
            lemma_word_inc_rx(old_word, old(self).raw());
            lemma_word_dec_rx(old(self).raw(), old_word);
        }
        self.word = self.word - RX_INC;
        Err(Overflow)
    }

    /// Removes one write handle and classifies the crossing. Mirrors
    /// one atomic compare-and-swap transaction: the decrement, the
    /// reading of the other half, and any finalize-count bump are
    /// inseparable, so two halves racing on opposite sub-counts can
    /// never both conclude they must notify, nor both free.
    pub fn dec_tx(&mut self) -> (a: DecrementAction)
        requires
            old(self).tx() >= 1,
            old(self).tx() == 1 && old(self).rx() == 0 ==> old(self).dc() <= 1,
        ensures
            final(self).tx() == old(self).tx() - 1,
            final(self).rx() == old(self).rx(),
            old(self).tx() > 1 ==> a == DecrementAction::Nothing && final(self).dc() == old(self).dc(),
            old(self).tx() == 1 && old(self).rx() >= 1 ==> a == DecrementAction::Notify && final(self).dc() == old(self).dc(),
            old(self).tx() == 1 && old(self).rx() == 0 ==> final(self).dc() == old(self).dc() + 1
                && (old(self).dc() == 0 ==> a == DecrementAction::Nothing) && (old(self).dc() == 1
                ==> a == DecrementAction::Drop),
    {
        let (word, action) = dec_tx_word(self.word);
        self.word = word;
        action
    }

    /// Removes one read handle and classifies the crossing, the
    /// mirror image of [SplitCount::dec_tx].
    pub fn dec_rx(&mut self) -> (a: DecrementAction)
        requires
            old(self).rx() >= 1,
            old(self).rx() == 1 && old(self).tx() == 0 ==> old(self).dc() <= 1,
        ensures
            final(self).rx() == old(self).rx() - 1,
            final(self).tx() == old(self).tx(),
            old(self).rx() > 1 ==> a == DecrementAction::Nothing && final(self).dc() == old(self).dc(),
            old(self).rx() == 1 && old(self).tx() >= 1 ==> a == DecrementAction::Notify && final(self).dc() == old(self).dc(),
            old(self).rx() == 1 && old(self).tx() == 0 ==> final(self).dc() == old(self).dc() + 1
                && (old(self).dc() == 0 ==> a == DecrementAction::Nothing) && (old(self).dc() == 1
                ==> a == DecrementAction::Drop),
    {
        let (word, action) = dec_rx_word(self.word);
        self.word = word;
        action
    }

    /// Records that one half has finished its last-handle teardown,
    /// after its notification callback returned. Mirrors an atomic
    /// add with two-way ordering. Returns true exactly when the other
    /// half had already finished, in which case the caller must free
    /// the record.
    pub fn inc_drop_count(&mut self) -> (last: bool)
        requires
            old(self).dc() <= 1,
        ensures
            final(self).tx() == old(self).tx(),
            final(self).rx() == old(self).rx(),
            final(self).dc() == old(self).dc() + 1,
            last == (old(self).dc() == 1),
    {
        proof {
            lemma_word_inc_dc_fits(self.word);
            lemma_word_inc_dc(self.word, (self.word + DC_INC) as u64);
        }
        let old_word = self.word;
        self.word = self.word + DC_INC;
        drop_count(old_word) == 1
    }
}

/// One write-handle decrement as a pure transition on the packed
/// word: the body a compare-and-swap retry loop would apply. Returns
/// the new word and what the dropping caller must do next.
pub fn dec_tx_word(c: u64) -> (r: (u64, DecrementAction))
    requires
        spec_tx_count(c) >= 1,
        spec_tx_count(c) == 1 && spec_rx_count(c) == 0 ==> spec_drop_count(c) <= 1,
    ensures
        spec_tx_count(r.0) == spec_tx_count(c) - 1,
        spec_rx_count(r.0) == spec_rx_count(c),
        spec_tx_count(c) > 1 ==> r.1 == DecrementAction::Nothing && spec_drop_count(r.0)
            == spec_drop_count(c),
        spec_tx_count(c) == 1 && spec_rx_count(c) >= 1 ==> r.1 == DecrementAction::Notify
            && spec_drop_count(r.0) == spec_drop_count(c),
        spec_tx_count(c) == 1 && spec_rx_count(c) == 0 ==> spec_drop_count(r.0) == spec_drop_count(
            c,
        ) + 1 && (spec_drop_count(c) == 0 ==> r.1 == DecrementAction::Nothing) && (spec_drop_count(
            c,
        ) == 1 ==> r.1 == DecrementAction::Drop),
{
    proof {
        lemma_word_dec_tx_fits(c);
    }
    let mut current = c - TX_INC;
    proof {
        lemma_word_dec_tx(c, current);
    }
    let action: DecrementAction;
    if tx_count(current) == 0 {
        // This was the last write handle. Notify, or free?
        if rx_count(current) == 0 {
            proof {
                lemma_word_inc_dc_fits(current);
                lemma_word_inc_dc(current, (current + DC_INC) as u64);
            }
            current = current + DC_INC;
            if drop_count(current) == 1 {
                // The finalize count was zero: the other half is
                // mid-notification and will free the record.
                action = DecrementAction::Nothing;
            } else {
                // The finalize count was one: this half finishes
                // last and frees.
                action = DecrementAction::Drop;
            }
        } else {
            action = DecrementAction::Notify;
        }
    } else {
        // Other write handles remain; no conflicting transition can
        // raise the write count back from zero later.
        action = DecrementAction::Nothing;
    }
    (current, action)
}

/// One read-handle decrement as a pure transition on the packed word,
/// the mirror image of [dec_tx_word].
pub fn dec_rx_word(c: u64) -> (r: (u64, DecrementAction))
    requires
        spec_rx_count(c) >= 1,
        spec_rx_count(c) == 1 && spec_tx_count(c) == 0 ==> spec_drop_count(c) <= 1,
    ensures
        spec_rx_count(r.0) == spec_rx_count(c) - 1,
        spec_tx_count(r.0) == spec_tx_count(c),
        spec_rx_count(c) > 1 ==> r.1 == DecrementAction::Nothing && spec_drop_count(r.0)
            == spec_drop_count(c),
        spec_rx_count(c) == 1 && spec_tx_count(c) >= 1 ==> r.1 == DecrementAction::Notify
            && spec_drop_count(r.0) == spec_drop_count(c),
        spec_rx_count(c) == 1 && spec_tx_count(c) == 0 ==> spec_drop_count(r.0) == spec_drop_count(
            c,
        ) + 1 && (spec_drop_count(c) == 0 ==> r.1 == DecrementAction::Nothing) && (spec_drop_count(
            c,
        ) == 1 ==> r.1 == DecrementAction::Drop),
{
    proof {
        lemma_word_dec_rx_fits(c);
    }
    let mut current = c - RX_INC;
    proof {
        lemma_word_dec_rx(c, current);
    }
    let action: DecrementAction;
    if rx_count(current) == 0 {
        // This was the last read handle. Notify, or free?
        if tx_count(current) == 0 {
            proof {
                lemma_word_inc_dc_fits(current);
                lemma_word_inc_dc(current, (current + DC_INC) as u64);
            }
            current = current + DC_INC;
            if drop_count(current) == 1 {
                action = DecrementAction::Nothing;
            } else {
                action = DecrementAction::Drop;
            }
        } else {
            action = DecrementAction::Notify;
        }
    } else {
        action = DecrementAction::Nothing;
    }
    (current, action)
}

/// Packing three in-range sub-counts into a word is inverted by the
/// three extractors.
proof fn lemma_word_from_counts(tx: u32, rx: u32, dc: u8, word: u64)
    by (bit_vector)
    requires
        tx <= TX_MASK,
        rx <= RX_MASK,
        dc <= DC_MASK,
        word == ((tx as u64) << TX_SHIFT) | ((rx as u64) << RX_SHIFT) | (dc as u64),
    ensures
        spec_tx_count(word) == tx,
        spec_rx_count(word) == rx,
        spec_drop_count(word) == dc,
{
}

} // verus!
