//! A split reference count: one heap-allocated payload shared between
//! two kinds of cloneable handles, a write half and a read half, each
//! counted independently in a single packed word. The payload learns,
//! through the [Notify] callbacks, when the last handle of one kind
//! goes away while the other kind is still alive, and it is destroyed
//! exactly once, after the last handle of both kinds is gone.

pub mod count;
pub mod protocol;

pub use count::drop_count;
pub use count::rx_count;
pub use count::tx_count;

use count::DecrementAction;
use count::Overflow;
use count::SplitCount;
use count::OVERFLOW_PANIC;
use count::spec_drop_count;
use count::spec_rx_count;
use count::spec_tx_count;
use protocol::Phase;
use protocol::Protocol;
use protocol::Side;
use vstd::prelude::*;

verus! {

/// Lets the reference-counted payload learn when the last write
/// handle or the last read handle is dropped.
///
/// Over a record's whole lifetime exactly one of the two events
/// fires: the side whose handles run out first is the one announced,
/// and the side that runs out last finds nobody left to tell.
pub trait Notify {
    /// Called when the last write handle is dropped. The payload's
    /// storage never moves, so the receiver may rely on its own
    /// address being stable. By default, delegates to
    /// [Notify::last_tx_did_drop].
    fn last_tx_did_drop_pinned(&self) {
        self.last_tx_did_drop()
    }

    /// Called when the last write handle is dropped.
    ///
    /// Only called if there are live read handles.
    fn last_tx_did_drop(&self) {
    }

    /// Called when the last read handle is dropped. The payload's
    /// storage never moves, so the receiver may rely on its own
    /// address being stable. By default, delegates to
    /// [Notify::last_rx_did_drop].
    fn last_rx_did_drop_pinned(&self) {
        self.last_rx_did_drop()
    }

    /// Called when the last read handle is dropped.
    ///
    /// Only called if there are live write handles.
    fn last_rx_did_drop(&self) {
    }
}

/// Destroys the payload and releases the record's storage: the one
/// and only teardown of an allocation, taken when the counter proves
/// that both halves are finished.
fn deallocate<T: Notify>(data: &mut Option<T>)
    ensures
        *final(data) is None,
{
    *data = None;
}

/// One shared allocation record: the payload together with the packed
/// counter that arbitrates its lifetime. No single handle owns the
/// record; it is owned jointly by all the write handles and read
/// handles its counter tracks, and the operations below are what a
/// handle's clone and drop perform on it.
pub struct Shared<T: Notify> {
    data: Option<T>,
    count: SplitCount,
    tx_notified: Ghost<bool>,
    rx_notified: Ghost<bool>,
}

impl<T: Notify> Shared<T> {
    /// The number of live write handles.
    pub closed spec fn tx(self) -> u32 {
        self.count.tx()
    }

    /// The number of live read handles.
    pub closed spec fn rx(self) -> u32 {
        self.count.rx()
    }

    /// The finalize count.
    pub closed spec fn dc(self) -> u8 {
        self.count.dc()
    }

    /// Whether the payload still exists.
    pub closed spec fn alive(self) -> bool {
        self.data is Some
    }

    /// The payload, while it exists.
    pub closed spec fn payload_value(self) -> T {
        self.data->0
    }

    /// Whether the "last write handle dropped" callback has been
    /// invoked.
    pub closed spec fn tx_has_notified(self) -> bool {
        self.tx_notified@
    }

    /// Whether the "last read handle dropped" callback has been
    /// invoked.
    pub closed spec fn rx_has_notified(self) -> bool {
        self.rx_notified@
    }

    /// The record's place in the lifecycle state machine of
    /// [protocol]. Between calls a half is never mid-notification:
    /// each side is either still counting or fully retired.
    pub closed spec fn abs(self) -> Protocol {
        Protocol {
            tx: self.tx() as nat,
            rx: self.rx() as nat,
            dc: self.dc() as nat,
            tx_phase: if self.tx() >= 1 {
                Phase::Counting
            } else {
                Phase::Retired
            },
            rx_phase: if self.rx() >= 1 {
                Phase::Counting
            } else {
                Phase::Retired
            },
            tx_notified: self.tx_has_notified(),
            rx_notified: self.rx_has_notified(),
            freed: if self.alive() {
                0nat
            } else {
                1nat
            },
        }
    }

    /// Well-formedness: the sub-counts respect the overflow
    /// high-water mark, and the record's state is one the lifecycle
    /// state machine can reach.
    pub closed spec fn wf(self) -> bool {
        &&& self.tx() <= OVERFLOW_PANIC
        &&& self.rx() <= OVERFLOW_PANIC
        &&& protocol::inv(self.abs())
    }

    /// Whether the payload still exists.
    pub fn is_alive(&self) -> (b: bool)
        ensures
            b == self.alive(),
    {
        self.data.is_some()
    }

    /// The packed counter word, for inspection through [tx_count],
    /// [rx_count] and [drop_count].
    pub fn count_word(&self) -> (c: u64)
        ensures
            spec_tx_count(c) == self.tx(),
            spec_rx_count(c) == self.rx(),
            spec_drop_count(c) == self.dc(),
    {
        self.count.load()
    }

    /// Clones a write handle: the caller holds one, so the write
    /// count is positive and rises by one. Fails with [Overflow],
    /// leaving every count unchanged, when the write count stands at
    /// the high-water mark; nothing else about the record moves
    /// either way.
    pub fn clone_tx(&mut self) -> (r: Result<(), Overflow>)
        requires
            old(self).wf(),
            old(self).tx() >= 1,
        ensures
            final(self).wf(),
            final(self).rx() == old(self).rx(),
            final(self).dc() == old(self).dc(),
            final(self).alive() == old(self).alive(),
            final(self).payload_value() == old(self).payload_value(),
            final(self).tx_has_notified() == old(self).tx_has_notified(),
            final(self).rx_has_notified() == old(self).rx_has_notified(),
            old(self).tx() < OVERFLOW_PANIC ==> r is Ok && final(self).tx() == old(self).tx() + 1
                && protocol::step_clone(old(self).abs(), final(self).abs(), Side::Write),
            old(self).tx() == OVERFLOW_PANIC ==> r is Err && final(self).tx() == old(self).tx(),
    {
        let r = self.count.inc_tx();
        proof {
            if old(self).tx() < OVERFLOW_PANIC {
                assert(self.abs() == protocol::with_count(
                    old(self).abs(),
                    Side::Write,
                    protocol::count(old(self).abs(), Side::Write) + 1,
                ));
            }
        }
        r
    }

    /// Clones a read handle, the mirror image of
    /// [Shared::clone_tx].
    pub fn clone_rx(&mut self) -> (r: Result<(), Overflow>)
        requires
            old(self).wf(),
            old(self).rx() >= 1,
        ensures
            final(self).wf(),
            final(self).tx() == old(self).tx(),
            final(self).dc() == old(self).dc(),
            final(self).alive() == old(self).alive(),
            final(self).payload_value() == old(self).payload_value(),
            final(self).tx_has_notified() == old(self).tx_has_notified(),
            final(self).rx_has_notified() == old(self).rx_has_notified(),
            old(self).rx() < OVERFLOW_PANIC ==> r is Ok && final(self).rx() == old(self).rx() + 1
                && protocol::step_clone(old(self).abs(), final(self).abs(), Side::Read),
            old(self).rx() == OVERFLOW_PANIC ==> r is Err && final(self).rx() == old(self).rx(),
    {
        let r = self.count.inc_rx();
        proof {
            if old(self).rx() < OVERFLOW_PANIC {
                assert(self.abs() == protocol::with_count(
                    old(self).abs(),
                    Side::Read,
                    protocol::count(old(self).abs(), Side::Read) + 1,
                ));
            }
        }
        r
    }

    /// Drops a write handle: decrements the write count and carries
    /// out whatever the crossing demands. If other write handles
    /// remain, nothing else happens. If this was the last one and
    /// read handles survive, the payload's "last write handle
    /// dropped" callback is invoked exactly now, while the payload is
    /// fully valid, and the write half retires. If both counts are
    /// gone, the payload is destroyed, with no callback: the read
    /// half already had its say.
    pub fn drop_tx(&mut self)
        requires
            old(self).wf(),
            old(self).tx() >= 1,
        ensures
            final(self).wf(),
            final(self).tx() == old(self).tx() - 1,
            final(self).rx() == old(self).rx(),
            final(self).rx_has_notified() == old(self).rx_has_notified(),
            old(self).tx() > 1 ==> final(self).dc() == old(self).dc() && final(self).alive()
                == old(self).alive() && final(self).payload_value() == old(self).payload_value()
                && final(self).tx_has_notified() == old(self).tx_has_notified(),
            old(self).tx() == 1 && old(self).rx() >= 1 ==> final(self).tx_has_notified() && final(self).dc() == 1 && final(self).alive() && final(self).payload_value() == old(self).payload_value(),
            old(self).tx() == 1 && old(self).rx() == 0 ==> !final(self).alive() && final(self).dc()
                == 2 && final(self).tx_has_notified() == old(self).tx_has_notified(),
            old(self).tx() > 1 ==> protocol::step_drop(old(self).abs(), final(self).abs(), Side::Write),
            old(self).tx() == 1 && old(self).rx() >= 1 ==> exists|m1: Protocol, m2: Protocol|
                protocol::step_drop_last_notify(old(self).abs(), m1, Side::Write)
                    && #[trigger] protocol::step_notify_return(m1, m2, Side::Write)
                    && protocol::step_finalize(m2, final(self).abs(), Side::Write),
            old(self).tx() == 1 && old(self).rx() == 0 ==> protocol::step_drop_last_quiet(
                old(self).abs(),
                final(self).abs(),
                Side::Write,
            ),
    {
        match self.count.dec_tx() {
            DecrementAction::Nothing => {
            },
            DecrementAction::Notify => {
                self.data.as_ref().unwrap().last_tx_did_drop_pinned();
                self.tx_notified = Ghost(true);
                if self.count.inc_drop_count() {
                    deallocate(&mut self.data);
                }
                proof {
                    let a0 = old(self).abs();
                    let m1 = protocol::with_notified(
                        protocol::with_phase(
                            protocol::with_count(a0, Side::Write, 0),
                            Side::Write,
                            Phase::Notifying,
                        ),
                        Side::Write,
                    );
                    let m2 = protocol::with_phase(m1, Side::Write, Phase::Notified);
                    assert(protocol::step_drop_last_notify(a0, m1, Side::Write));
                    assert(protocol::step_notify_return(m1, m2, Side::Write));
                    assert(self.abs() == protocol::with_finalize(m2, Side::Write));
                }
            },
            DecrementAction::Drop => {
                deallocate(&mut self.data);
                proof {
                    let a0 = old(self).abs();
                    assert(self.abs() == protocol::with_finalize(
                        protocol::with_count(a0, Side::Write, 0),
                        Side::Write,
                    ));
                }
            },
        }
    }

    /// Drops a read handle, the mirror image of [Shared::drop_tx]:
    /// on the last read handle's drop the payload's "last read handle
    /// dropped" callback fires if write handles survive, and the
    /// payload is destroyed if not.
    pub fn drop_rx(&mut self)
        requires
            old(self).wf(),
            old(self).rx() >= 1,
        ensures
            final(self).wf(),
            final(self).rx() == old(self).rx() - 1,
            final(self).tx() == old(self).tx(),
            final(self).tx_has_notified() == old(self).tx_has_notified(),
            old(self).rx() > 1 ==> final(self).dc() == old(self).dc() && final(self).alive()
                == old(self).alive() && final(self).payload_value() == old(self).payload_value()
                && final(self).rx_has_notified() == old(self).rx_has_notified(),
            old(self).rx() == 1 && old(self).tx() >= 1 ==> final(self).rx_has_notified() && final(self).dc() == 1 && final(self).alive() && final(self).payload_value() == old(self).payload_value(),
            old(self).rx() == 1 && old(self).tx() == 0 ==> !final(self).alive() && final(self).dc()
                == 2 && final(self).rx_has_notified() == old(self).rx_has_notified(),
            old(self).rx() > 1 ==> protocol::step_drop(old(self).abs(), final(self).abs(), Side::Read),
            old(self).rx() == 1 && old(self).tx() >= 1 ==> exists|m1: Protocol, m2: Protocol|
                protocol::step_drop_last_notify(old(self).abs(), m1, Side::Read)
                    && #[trigger] protocol::step_notify_return(m1, m2, Side::Read)
                    && protocol::step_finalize(m2, final(self).abs(), Side::Read),
            old(self).rx() == 1 && old(self).tx() == 0 ==> protocol::step_drop_last_quiet(
                old(self).abs(),
                final(self).abs(),
                Side::Read,
            ),
    {
        match self.count.dec_rx() {
            DecrementAction::Nothing => {
            },
            DecrementAction::Notify => {
                self.data.as_ref().unwrap().last_rx_did_drop_pinned();
                self.rx_notified = Ghost(true);
                if self.count.inc_drop_count() {
                    deallocate(&mut self.data);
                }
                proof {
                    let a0 = old(self).abs();
                    let m1 = protocol::with_notified(
                        protocol::with_phase(
                            protocol::with_count(a0, Side::Read, 0),
                            Side::Read,
                            Phase::Notifying,
                        ),
                        Side::Read,
                    );
                    let m2 = protocol::with_phase(m1, Side::Read, Phase::Notified);
                    assert(protocol::step_drop_last_notify(a0, m1, Side::Read));
                    assert(protocol::step_notify_return(m1, m2, Side::Read));
                    assert(self.abs() == protocol::with_finalize(m2, Side::Read));
                }
            },
            DecrementAction::Drop => {
                deallocate(&mut self.data);
                proof {
                    let a0 = old(self).abs();
                    assert(self.abs() == protocol::with_finalize(
                        protocol::with_count(a0, Side::Read, 0),
                        Side::Read,
                    ));
                }
            },
        }
    }

    /// Read access to the payload. Any live handle of either kind
    /// grants it: the counter invariants rule out deallocation while
    /// one exists.
    pub fn payload(&self) -> (r: &T)
        requires
            self.wf(),
            self.tx() >= 1 || self.rx() >= 1,
        ensures
            r == self.payload_value(),
    {
        self.data.as_ref().unwrap()
    }
}

/// Allocates a record holding `data` and returns it with its counter
/// primed at one write handle and one read handle.
///
/// `T` implements [Notify] to learn when the last handle of one kind
/// is dropped while the other kind survives. The payload is destroyed
/// when both kinds' counts reach zero.
pub fn new<T: Notify>(data: T) -> (s: Shared<T>)
    ensures
        s.wf(),
        s.tx() == 1,
        s.rx() == 1,
        s.dc() == 0,
        s.alive(),
        s.payload_value() == data,
        !s.tx_has_notified(),
        !s.rx_has_notified(),
        protocol::init(s.abs()),
{
    Shared {
        data: Some(data),
        count: SplitCount::new(),
        tx_notified: Ghost(false),
        rx_notified: Ghost(false),
    }
}

/// A record whose payload's storage address is additionally
/// guaranteed stable for the allocation's whole lifetime: no
/// operation that would move or replace the payload is exposed, and
/// teardown runs through the pinned-reference callbacks. The counting
/// behaviour is exactly that of [Shared].
pub struct Pinned<T: Notify> {
    inner: Shared<T>,
}

impl<T: Notify> Pinned<T> {
    /// The number of live write handles.
    pub closed spec fn tx(self) -> u32 {
        self.inner.tx()
    }

    /// The number of live read handles.
    pub closed spec fn rx(self) -> u32 {
        self.inner.rx()
    }

    /// The finalize count.
    pub closed spec fn dc(self) -> u8 {
        self.inner.dc()
    }

    /// Whether the payload still exists.
    pub closed spec fn alive(self) -> bool {
        self.inner.alive()
    }

    /// The payload, while it exists.
    pub closed spec fn payload_value(self) -> T {
        self.inner.payload_value()
    }

    /// Whether the "last write handle dropped" callback has been
    /// invoked.
    pub closed spec fn tx_has_notified(self) -> bool {
        self.inner.tx_has_notified()
    }

    /// Whether the "last read handle dropped" callback has been
    /// invoked.
    pub closed spec fn rx_has_notified(self) -> bool {
        self.inner.rx_has_notified()
    }

    /// Well-formedness of the underlying record.
    pub closed spec fn wf(self) -> bool {
        self.inner.wf()
    }

    /// Whether the payload still exists.
    pub fn is_alive(&self) -> (b: bool)
        ensures
            b == self.alive(),
    {
        self.inner.is_alive()
    }

    /// Clones a write handle, as [Shared::clone_tx].
    pub fn clone_tx(&mut self) -> (r: Result<(), Overflow>)
        requires
            old(self).wf(),
            old(self).tx() >= 1,
        ensures
            final(self).wf(),
            final(self).rx() == old(self).rx(),
            final(self).dc() == old(self).dc(),
            final(self).alive() == old(self).alive(),
            final(self).payload_value() == old(self).payload_value(),
            final(self).tx_has_notified() == old(self).tx_has_notified(),
            final(self).rx_has_notified() == old(self).rx_has_notified(),
            old(self).tx() < OVERFLOW_PANIC ==> r is Ok && final(self).tx() == old(self).tx() + 1,
            old(self).tx() == OVERFLOW_PANIC ==> r is Err && final(self).tx() == old(self).tx(),
    {
        self.inner.clone_tx()
    }

    /// Clones a read handle, as [Shared::clone_rx].
    pub fn clone_rx(&mut self) -> (r: Result<(), Overflow>)
        requires
            old(self).wf(),
            old(self).rx() >= 1,
        ensures
            final(self).wf(),
            final(self).tx() == old(self).tx(),
            final(self).dc() == old(self).dc(),
            final(self).alive() == old(self).alive(),
            final(self).payload_value() == old(self).payload_value(),
            final(self).tx_has_notified() == old(self).tx_has_notified(),
            final(self).rx_has_notified() == old(self).rx_has_notified(),
            old(self).rx() < OVERFLOW_PANIC ==> r is Ok && final(self).rx() == old(self).rx() + 1,
            old(self).rx() == OVERFLOW_PANIC ==> r is Err && final(self).rx() == old(self).rx(),
    {
        self.inner.clone_rx()
    }

    /// Drops a write handle, as [Shared::drop_tx].
    pub fn drop_tx(&mut self)
        requires
            old(self).wf(),
            old(self).tx() >= 1,
        ensures
            final(self).wf(),
            final(self).tx() == old(self).tx() - 1,
            final(self).rx() == old(self).rx(),
            final(self).rx_has_notified() == old(self).rx_has_notified(),
            old(self).tx() > 1 ==> final(self).dc() == old(self).dc() && final(self).alive()
                == old(self).alive() && final(self).payload_value() == old(self).payload_value()
                && final(self).tx_has_notified() == old(self).tx_has_notified(),
            old(self).tx() == 1 && old(self).rx() >= 1 ==> final(self).tx_has_notified() && final(self).dc()
                == 1 && final(self).alive() && final(self).payload_value() == old(self).payload_value(),
            old(self).tx() == 1 && old(self).rx() == 0 ==> !final(self).alive() && final(self).dc()
                == 2 && final(self).tx_has_notified() == old(self).tx_has_notified(),
    {
        self.inner.drop_tx()
    }

    /// Drops a read handle, as [Shared::drop_rx].
    pub fn drop_rx(&mut self)
        requires
            old(self).wf(),
            old(self).rx() >= 1,
        ensures
            final(self).wf(),
            final(self).rx() == old(self).rx() - 1,
            final(self).tx() == old(self).tx(),
            final(self).tx_has_notified() == old(self).tx_has_notified(),
            old(self).rx() > 1 ==> final(self).dc() == old(self).dc() && final(self).alive()
                == old(self).alive() && final(self).payload_value() == old(self).payload_value()
                && final(self).rx_has_notified() == old(self).rx_has_notified(),
            old(self).rx() == 1 && old(self).tx() >= 1 ==> final(self).rx_has_notified() && final(self).dc()
                == 1 && final(self).alive() && final(self).payload_value() == old(self).payload_value(),
            old(self).rx() == 1 && old(self).tx() == 0 ==> !final(self).alive() && final(self).dc()
                == 2 && final(self).rx_has_notified() == old(self).rx_has_notified(),
    {
        self.inner.drop_rx()
    }

    /// Read access to the payload, as [Shared::payload].
    pub fn payload(&self) -> (r: &T)
        requires
            self.wf(),
            self.tx() >= 1 || self.rx() >= 1,
        ensures
            r == self.payload_value(),
    {
        self.inner.payload()
    }
}

/// Allocates a record holding `data`, as [new], with the additional
/// guarantee that the payload's memory is pinned in place and never
/// moved again.
pub fn pin<T: Notify>(data: T) -> (p: Pinned<T>)
    ensures
        p.wf(),
        p.tx() == 1,
        p.rx() == 1,
        p.dc() == 0,
        p.alive(),
        p.payload_value() == data,
        !p.tx_has_notified(),
        !p.rx_has_notified(),
{
    Pinned { inner: new(data) }
}

/// What the counter invariants promise of every well-formed record,
/// at any moment of its life: the payload exists exactly as long as
/// any handle of either kind does; a side with live handles has never
/// been announced as gone; at most one of the two callbacks is ever
/// invoked; and once both counts are gone the record is torn down,
/// its finalize count at two and exactly one side announced.
pub proof fn lemma_record_lifecycle<T: Notify>(s: Shared<T>)
    requires
        s.wf(),
    ensures
        s.alive() <==> !(s.tx() == 0 && s.rx() == 0),
        s.tx() >= 1 ==> !s.tx_has_notified(),
        s.rx() >= 1 ==> !s.rx_has_notified(),
        !(s.tx_has_notified() && s.rx_has_notified()),
        s.tx() == 0 && s.rx() >= 1 ==> s.tx_has_notified(),
        s.rx() == 0 && s.tx() >= 1 ==> s.rx_has_notified(),
        s.tx() == 0 && s.rx() == 0 ==> s.dc() == 2 && (s.tx_has_notified()
            != s.rx_has_notified()),
        s.tx() <= OVERFLOW_PANIC,
        s.rx() <= OVERFLOW_PANIC,
{
}

/// The relation one successful write-handle clone leaves between the
/// old record and the new: one more write handle, everything else
/// untouched.
pub open spec fn tx_clone_ok<T: Notify>(a: Shared<T>, b: Shared<T>) -> bool {
    &&& b.wf()
    &&& b.tx() == a.tx() + 1
    &&& b.rx() == a.rx()
    &&& b.dc() == a.dc()
    &&& b.alive() == a.alive()
    &&& b.payload_value() == a.payload_value()
    &&& b.tx_has_notified() == a.tx_has_notified()
    &&& b.rx_has_notified() == a.rx_has_notified()
}

/// `n` successful write-handle clones in a row.
pub open spec fn tx_clones_ok<T: Notify>(a: Shared<T>, b: Shared<T>, n: nat) -> bool
    decreases n,
{
    if n == 0 {
        a == b
    } else {
        exists|m: Shared<T>| #[trigger] tx_clone_ok(a, m) && tx_clones_ok(m, b, (n - 1) as nat)
    }
}

/// Overflow cannot be outrun: a run of clones that are never dropped
/// succeeds at most as often as the write count has headroom below
/// the high-water mark, and a clone attempted with the mark reached
/// is reported as [Overflow] by [Shared::clone_tx] rather than let
/// wrap the counter.
pub proof fn lemma_unmatched_clones_hit_overflow<T: Notify>(a: Shared<T>, b: Shared<T>, n: nat)
    requires
        tx_clones_ok(a, b, n),
    ensures
        b.tx() == a.tx() + n,
        n >= 1 ==> b.wf() && a.tx() + n <= OVERFLOW_PANIC,
    decreases n,
{
    if n > 0 {
        let m = choose|m: Shared<T>| #[trigger] tx_clone_ok(a, m) && tx_clones_ok(
            m,
            b,
            (n - 1) as nat,
        );
        lemma_unmatched_clones_hit_overflow(m, b, (n - 1) as nat);
        lemma_record_lifecycle(b);
    }
}

} // verus!
