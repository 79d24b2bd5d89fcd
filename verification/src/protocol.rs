//! The concurrent lifecycle of one shared record, as a state machine.
//!
//! Every mutation of the packed counter word is a single atomic
//! read-modify-write, so a concurrent history of handle operations —
//! however many threads take part — is exactly an interleaving of the
//! transitions below: one transition per atomic step, plus one for a
//! notification callback returning, which touches no shared state but
//! orders the finalize bump that follows it. The lemmas at the end
//! hold over every such interleaving; they are the crate's statement
//! of what racing clones and drops can and cannot do.

use vstd::prelude::*;

verus! {

/// Which half of the split count a transition acts on.
pub enum Side {
    /// The write-handle half.
    Write,
    /// The read-handle half.
    Read,
}

/// Where one half stands in its lifecycle.
pub enum Phase {
    /// Handles of this kind are still alive; the count is positive.
    Counting,
    /// The last handle of this kind is gone, the other kind was alive
    /// at the crossing, and this half's callback is running.
    Notifying,
    /// This half's callback has returned; the finalize bump that
    /// announces it has not happened yet.
    Notified,
    /// This half has finished entirely and raised the finalize count.
    Retired,
}

/// The state of one record: the three sub-counts of the packed word,
/// each half's position in its teardown, whether each half's callback
/// has been invoked, and how many times the record has been freed.
pub struct Protocol {
    /// Live write handles.
    pub tx: nat,
    /// Live read handles.
    pub rx: nat,
    /// The finalize count.
    pub dc: nat,
    /// The write half's position in its lifecycle.
    pub tx_phase: Phase,
    /// The read half's position in its lifecycle.
    pub rx_phase: Phase,
    /// Whether the "last write handle dropped" callback was invoked.
    pub tx_notified: bool,
    /// Whether the "last read handle dropped" callback was invoked.
    pub rx_notified: bool,
    /// How many times the record has been freed. Staying at most one,
    /// and reaching one, is the point of the whole design.
    pub freed: nat,
}

/// The state a record is born in: one handle of each kind, nothing
/// finalized, nothing notified, nothing freed.
pub open spec fn init(s: Protocol) -> bool {
    &&& s.tx == 1
    &&& s.rx == 1
    &&& s.dc == 0
    &&& s.tx_phase == Phase::Counting
    &&& s.rx_phase == Phase::Counting
    &&& !s.tx_notified
    &&& !s.rx_notified
    &&& s.freed == 0
}

/// The live-handle count of one side.
pub open spec fn count(s: Protocol, k: Side) -> nat {
    match k {
        Side::Write => s.tx,
        Side::Read => s.rx,
    }
}

/// The phase of one side.
pub open spec fn phase(s: Protocol, k: Side) -> Phase {
    match k {
        Side::Write => s.tx_phase,
        Side::Read => s.rx_phase,
    }
}

/// Whether one side's callback has been invoked.
pub open spec fn notified(s: Protocol, k: Side) -> bool {
    match k {
        Side::Write => s.tx_notified,
        Side::Read => s.rx_notified,
    }
}

/// The opposite side.
pub open spec fn other(k: Side) -> Side {
    match k {
        Side::Write => Side::Read,
        Side::Read => Side::Write,
    }
}

/// The state with one side's count replaced.
pub open spec fn with_count(s: Protocol, k: Side, n: nat) -> Protocol {
    match k {
        Side::Write => (Protocol { tx: n, ..s }),
        Side::Read => (Protocol { rx: n, ..s }),
    }
}

/// The state with one side's phase replaced.
pub open spec fn with_phase(s: Protocol, k: Side, p: Phase) -> Protocol {
    match k {
        Side::Write => (Protocol { tx_phase: p, ..s }),
        Side::Read => (Protocol { rx_phase: p, ..s }),
    }
}

/// The state with one side's callback recorded as invoked.
pub open spec fn with_notified(s: Protocol, k: Side) -> Protocol {
    match k {
        Side::Write => (Protocol { tx_notified: true, ..s }),
        Side::Read => (Protocol { rx_notified: true, ..s }),
    }
}

/// The state after a finalize bump: the side retires, the finalize
/// count rises, and whoever raises it from one to two frees the
/// record.
pub open spec fn with_finalize(s: Protocol, k: Side) -> Protocol {
    Protocol {
        dc: s.dc + 1,
        freed: if s.dc == 1 {
            s.freed + 1
        } else {
            s.freed
        },
        ..with_phase(s, k, Phase::Retired)
    }
}

/// Cloning a handle of side `k`: some handle of that kind is held, so
/// the count is positive, and the relaxed atomic add raises it by
/// one. (A clone rejected for overflow changes nothing and is no
/// transition at all.)
pub open spec fn step_clone(pre: Protocol, post: Protocol, k: Side) -> bool {
    &&& count(pre, k) >= 1
    &&& post == with_count(pre, k, count(pre, k) + 1)
}

/// Dropping a handle of side `k` that is not the last of its kind.
pub open spec fn step_drop(pre: Protocol, post: Protocol, k: Side) -> bool {
    &&& count(pre, k) >= 2
    &&& post == with_count(pre, k, (count(pre, k) - 1) as nat)
}

/// Dropping the last handle of side `k` while the other side is
/// alive: the decrement observes the other count nonzero in the same
/// atomic transaction, so this side must notify. The callback is
/// invoked on the spot; the finalize bump waits until it returns.
pub open spec fn step_drop_last_notify(pre: Protocol, post: Protocol, k: Side) -> bool {
    &&& count(pre, k) == 1
    &&& count(pre, other(k)) >= 1
    &&& post == with_notified(with_phase(with_count(pre, k, 0), k, Phase::Notifying), k)
}

/// Side `k`'s notification callback returns.
pub open spec fn step_notify_return(pre: Protocol, post: Protocol, k: Side) -> bool {
    &&& phase(pre, k) == Phase::Notifying
    &&& post == with_phase(pre, k, Phase::Notified)
}

/// After its callback has returned, side `k` atomically raises the
/// finalize count; if the other side had already finished, this side
/// observed the one-to-two crossing and frees the record.
pub open spec fn step_finalize(pre: Protocol, post: Protocol, k: Side) -> bool {
    &&& phase(pre, k) == Phase::Notified
    &&& post == with_finalize(pre, k)
}

/// Dropping the last handle of side `k` while the other side is
/// already gone: no callback fires, and the decrement raises the
/// finalize count in the same atomic transaction. If the other side
/// had already finished its own bump, this drop frees the record;
/// otherwise the other side is mid-notification and will free it.
pub open spec fn step_drop_last_quiet(pre: Protocol, post: Protocol, k: Side) -> bool {
    &&& count(pre, k) == 1
    &&& count(pre, other(k)) == 0
    &&& post == with_finalize(with_count(pre, k, 0), k)
}

/// Any one transition taken by side `k`.
pub open spec fn side_step(pre: Protocol, post: Protocol, k: Side) -> bool {
    ||| step_clone(pre, post, k)
    ||| step_drop(pre, post, k)
    ||| step_drop_last_notify(pre, post, k)
    ||| step_notify_return(pre, post, k)
    ||| step_finalize(pre, post, k)
    ||| step_drop_last_quiet(pre, post, k)
}

/// Any one transition.
pub open spec fn step(pre: Protocol, post: Protocol) -> bool {
    exists|k: Side| side_step(pre, post, k)
}

/// One where a phase is Retired, zero otherwise.
pub open spec fn retired_one(p: Phase) -> nat {
    if p == Phase::Retired {
        1
    } else {
        0
    }
}

/// The inductive invariant of one record's lifecycle: what is true of
/// every state any interleaving of transitions can reach.
pub open spec fn inv(s: Protocol) -> bool {
    &&& (s.tx_phase == Phase::Counting <==> s.tx >= 1)
    &&& (s.rx_phase == Phase::Counting <==> s.rx >= 1)
    &&& (s.tx_notified ==> s.tx_phase != Phase::Counting)
    &&& (s.rx_notified ==> s.rx_phase != Phase::Counting)
    &&& (s.tx_phase == Phase::Notifying || s.tx_phase == Phase::Notified ==> s.tx_notified)
    &&& (s.rx_phase == Phase::Notifying || s.rx_phase == Phase::Notified ==> s.rx_notified)
    &&& !(s.tx_notified && s.rx_notified)
    &&& (s.tx_phase != Phase::Counting && s.rx_phase == Phase::Counting ==> s.tx_notified)
    &&& (s.rx_phase != Phase::Counting && s.tx_phase == Phase::Counting ==> s.rx_notified)
    &&& (s.tx_phase != Phase::Counting && s.rx_phase != Phase::Counting ==> s.tx_notified
        || s.rx_notified)
    &&& s.dc == retired_one(s.tx_phase) + retired_one(s.rx_phase)
    &&& s.freed == (if s.dc == 2 {
        1nat
    } else {
        0nat
    })
}

/// A record that has been torn down completely: no handles of either
/// kind, both halves retired.
pub open spec fn complete(s: Protocol) -> bool {
    &&& s.tx == 0
    &&& s.rx == 0
    &&& s.tx_phase == Phase::Retired
    &&& s.rx_phase == Phase::Retired
}

/// The initial state satisfies the invariant.
pub proof fn lemma_init_inv(s: Protocol)
    requires
        init(s),
    ensures
        inv(s),
{
}

/// Every transition preserves the invariant.
pub proof fn lemma_step_inv(pre: Protocol, post: Protocol)
    requires
        inv(pre),
        step(pre, post),
    ensures
        inv(post),
{
    let k = choose|k: Side| side_step(pre, post, k);
    match k {
        Side::Write => {
            assert(inv(post));
        },
        Side::Read => {
            assert(inv(post));
        },
    }
}

/// Cloning a handle and then dropping the clone returns the record
/// to exactly the state it was in: no count moves on balance, no
/// callback fires, nothing is freed.
pub proof fn lemma_clone_then_drop_is_identity(s1: Protocol, s2: Protocol, s3: Protocol, k: Side)
    requires
        step_clone(s1, s2, k),
        step_drop(s2, s3, k),
    ensures
        s3 == s1,
{
    match k {
        Side::Write => {
            assert(s3 == s1);
        },
        Side::Read => {
            assert(s3 == s1);
        },
    }
}

/// `n` rounds of clone-then-drop on side `k`, back to back.
pub open spec fn clone_drop_rounds(a: Protocol, b: Protocol, k: Side, n: nat) -> bool
    decreases n,
{
    if n == 0 {
        a == b
    } else {
        exists|m1: Protocol, m2: Protocol|
            step_clone(a, m1, k) && #[trigger] step_drop(m1, m2, k) && clone_drop_rounds(
                m2,
                b,
                k,
                (n - 1) as nat,
            )
    }
}

/// Cloning then dropping a handle any number of times leaves the
/// record exactly where it started — in particular the sub-counts are
/// unchanged and no callback or teardown is triggered — as long as
/// the original handle of that kind is still held to clone from.
pub proof fn lemma_clone_drop_rounds_are_identity(a: Protocol, b: Protocol, k: Side, n: nat)
    requires
        clone_drop_rounds(a, b, k, n),
    ensures
        b == a,
    decreases n,
{
    if n > 0 {
        let (m1, m2) = choose|m1: Protocol, m2: Protocol|
            step_clone(a, m1, k) && #[trigger] step_drop(m1, m2, k) && clone_drop_rounds(
                m2,
                b,
                k,
                (n - 1) as nat,
            );
        lemma_clone_then_drop_is_identity(a, m1, m2, k);
        lemma_clone_drop_rounds_are_identity(m2, b, k, (n - 1) as nat);
    }
}

/// A last drop that observes the other side already gone always
/// finds that the other side has been announced: the two last drops
/// of a record cannot both see an empty counterpart, so "neither
/// callback fires" never happens — the quiet path only ever closes a
/// teardown the other side's callback opened.
pub proof fn lemma_quiet_drop_follows_notify(pre: Protocol, post: Protocol, k: Side)
    requires
        inv(pre),
        step_drop_last_quiet(pre, post, k),
    ensures
        notified(pre, other(k)),
        !notified(pre, k),
        notified(post, other(k)) != notified(post, k),
{
    match k {
        Side::Write => {
            assert(notified(pre, other(k)));
        },
        Side::Read => {
            assert(notified(pre, other(k)));
        },
    }
}

/// An interleaving of transitions, as the sequence of states it
/// visits: it starts at the initial state and every adjacent pair is
/// one transition. Threads do not appear: however the transitions are
/// distributed over threads, the history seen by the shared word is
/// one such sequence.
pub open spec fn step_at(t: Seq<Protocol>, i: int) -> bool {
    step(t[i], t[i + 1])
}

pub open spec fn execution(t: Seq<Protocol>) -> bool {
    &&& t.len() >= 1
    &&& init(t[0])
    &&& forall|i: int| 0 <= i && i + 1 < t.len() ==> #[trigger] step_at(t, i)
}

/// Every state of every execution satisfies the invariant.
pub proof fn lemma_execution_inv(t: Seq<Protocol>, i: int)
    requires
        execution(t),
        0 <= i < t.len(),
    ensures
        inv(t[i]),
    decreases i,
{
    if i == 0 {
        lemma_init_inv(t[0]);
    } else {
        lemma_execution_inv(t, i - 1);
        assert(step_at(t, i - 1));
        lemma_step_inv(t[i - 1], t[i]);
    }
}

/// The headline theorem, over whole histories: in any interleaving
/// of clones and drops that tears the record down completely, the
/// record was freed exactly once — not zero times, not twice — and
/// exactly one of the two callbacks was invoked.
pub proof fn lemma_execution_complete_teardown(t: Seq<Protocol>, i: int)
    requires
        execution(t),
        0 <= i < t.len(),
        complete(t[i]),
    ensures
        t[i].freed == 1,
        t[i].tx_notified != t[i].rx_notified,
{
    lemma_execution_inv(t, i);
    lemma_complete_teardown(t[i]);
}

/// The record is freed at most once, whatever the interleaving; and
/// it is freed only once both counts have reached zero and both
/// halves have finished their teardown: never while any clone of any
/// handle of either kind is still alive.
pub proof fn lemma_freed_at_most_once_and_only_after_teardown(s: Protocol)
    requires
        inv(s),
    ensures
        s.freed <= 1,
        s.freed == 1 ==> s.tx == 0 && s.rx == 0 && s.tx_phase == Phase::Retired && s.rx_phase
            == Phase::Retired,
{
}

/// While a handle of either kind is alive the record has not been
/// freed, and the side with the live handle has had no callback: a
/// held original keeps its whole half untouched, however many clones
/// of it come and go.
pub proof fn lemma_live_handle_holds_record(s: Protocol)
    requires
        inv(s),
    ensures
        s.tx >= 1 ==> s.freed == 0 && !s.tx_notified,
        s.rx >= 1 ==> s.freed == 0 && !s.rx_notified,
{
}

/// A record torn down completely was freed exactly once — not zero
/// times, not twice — and exactly one of the two callbacks was
/// invoked along the way: the half that emptied first announced
/// itself to the survivor, and the half that emptied last found
/// nobody to tell.
pub proof fn lemma_complete_teardown(s: Protocol)
    requires
        inv(s),
        complete(s),
    ensures
        s.freed == 1,
        s.tx_notified != s.rx_notified,
{
}

/// A callback is invoked only at the instant its own kind runs out
/// while the other kind is observably alive, and only if the other
/// side's callback has not been and never will be invoked.
pub proof fn lemma_notify_sees_live_other(pre: Protocol, post: Protocol, k: Side)
    requires
        inv(pre),
        step_drop_last_notify(pre, post, k),
    ensures
        count(pre, other(k)) >= 1,
        !notified(pre, k),
        !notified(pre, other(k)),
        !notified(post, other(k)),
{
}

/// Notification is exclusive over the whole history: once one side's
/// callback has been invoked, the other side's callback has not been
/// invoked at any earlier point and will not be at any later one —
/// the survivor's own last drop finds its counterpart already gone
/// and takes the quiet path.
pub proof fn lemma_notify_is_exclusive(t: Seq<Protocol>, k: Side, i: int, j: int)
    requires
        execution(t),
        0 <= i,
        i + 1 < t.len(),
        step_drop_last_notify(t[i], t[i + 1], k),
        0 <= j < t.len(),
    ensures
        !notified(t[j], other(k)),
{
    if notified(t[j], other(k)) {
        if j <= i {
            // The record would still be on the books when side k
            // notifies, though k sees the other side's count alive.
            lemma_notified_is_monotone(t, other(k), j, i);
            lemma_execution_inv(t, i);
            match k {
                Side::Write => {
                    assert(!notified(t[i], other(k)));
                },
                Side::Read => {
                    assert(!notified(t[i], other(k)));
                },
            }
        } else {
            // Both flags would be set at j, which the invariant
            // rules out.
            lemma_notified_is_monotone(t, k, i + 1, j);
            lemma_execution_inv(t, j);
            match k {
                Side::Write => {
                    assert(!notified(t[j], other(k)));
                },
                Side::Read => {
                    assert(!notified(t[j], other(k)));
                },
            }
        }
    }
}

/// The record is never freed while a callback is still running: the
/// freeing transition happens with neither half mid-notification.
pub proof fn lemma_no_free_during_callback(pre: Protocol, post: Protocol)
    requires
        inv(pre),
        step(pre, post),
        post.freed > pre.freed,
    ensures
        pre.tx_phase != Phase::Notifying,
        pre.rx_phase != Phase::Notifying,
        post.tx_phase == Phase::Retired,
        post.rx_phase == Phase::Retired,
{
    let k = choose|k: Side| side_step(pre, post, k);
    match k {
        Side::Write => {
            assert(pre.tx_phase != Phase::Notifying);
        },
        Side::Read => {
            assert(pre.rx_phase != Phase::Notifying);
        },
    }
}

/// Once a side's count has reached zero it stays zero: no transition
/// can resurrect an emptied half.
pub proof fn lemma_emptied_stays_empty(t: Seq<Protocol>, k: Side, i: int, j: int)
    requires
        execution(t),
        0 <= i <= j < t.len(),
        count(t[i], k) == 0,
    ensures
        count(t[j], k) == 0,
    decreases j - i,
{
    if j > i {
        lemma_emptied_stays_empty(t, k, i, j - 1);
        assert(step_at(t, j - 1));
        let a = t[j - 1];
        let b = t[j];
        let m = choose|m: Side| side_step(a, b, m);
        match m {
            Side::Write => {
                assert(count(t[j], k) == 0);
            },
            Side::Read => {
                assert(count(t[j], k) == 0);
            },
        }
    }
}

/// A callback, once invoked, stays on record.
pub proof fn lemma_notified_is_monotone(t: Seq<Protocol>, k: Side, i: int, j: int)
    requires
        execution(t),
        0 <= i <= j < t.len(),
        notified(t[i], k),
    ensures
        notified(t[j], k),
    decreases j - i,
{
    if j > i {
        lemma_notified_is_monotone(t, k, i, j - 1);
        assert(step_at(t, j - 1));
        let a = t[j - 1];
        let b = t[j];
        let m = choose|m: Side| side_step(a, b, m);
        match m {
            Side::Write => {
                assert(notified(t[j], k));
            },
            Side::Read => {
                assert(notified(t[j], k));
            },
        }
    }
}

/// Each side's callback is invoked at most once per execution: two
/// notifying transitions of the same side are the same transition.
pub proof fn lemma_notify_at_most_once(t: Seq<Protocol>, k: Side, i: int, j: int)
    requires
        execution(t),
        0 <= i,
        i + 1 < t.len(),
        0 <= j,
        j + 1 < t.len(),
        step_drop_last_notify(t[i], t[i + 1], k),
        step_drop_last_notify(t[j], t[j + 1], k),
    ensures
        i == j,
{
    if i < j {
        lemma_notified_is_monotone(t, k, i + 1, j);
        lemma_execution_inv(t, j);
        assert(count(t[j], k) == 0);
    }
    if j < i {
        lemma_notified_is_monotone(t, k, j + 1, i);
        lemma_execution_inv(t, i);
        assert(count(t[i], k) == 0);
    }
}

/// The record is freed by at most one transition of an execution, and
/// a freed record stays freed.
pub proof fn lemma_freed_is_monotone(t: Seq<Protocol>, i: int, j: int)
    requires
        execution(t),
        0 <= i <= j < t.len(),
    ensures
        t[i].freed <= t[j].freed,
    decreases j - i,
{
    if j > i {
        lemma_freed_is_monotone(t, i, j - 1);
        assert(step_at(t, j - 1));
        let a = t[j - 1];
        let b = t[j];
        let m = choose|m: Side| side_step(a, b, m);
        match m {
            Side::Write => {
                assert(t[j - 1].freed <= t[j].freed);
            },
            Side::Read => {
                assert(t[j - 1].freed <= t[j].freed);
            },
        }
    }
}

} // verus!
