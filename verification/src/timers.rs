//! The timer wheel: a deadline-ordered list of pending timers plus a
//! "zombie" overflow list for timers that elapsed before their owning
//! task deposited a wake notifier.
//!
//! Instants are plain integers on a monotonic clock (the caller supplies
//! `now`); a deadline is `now + duration` on that clock.  The wheel is
//! kept sorted by deadline, ties broken by insertion order.

use vstd::prelude::*;
use crate::oneshot::{ChannelStatus, Mailbox, TryRecvError};
use crate::rt::{Poll, Runtime};

verus! {

/// Keeps track of when a timer is due, as well as the consumer end of the
/// mailbox that will later carry the wake notifier of the suspended task.
pub struct TimerTracker {
    /// Absolute deadline on the monotonic clock.
    pub due: u64,
    /// Slot of the waker mailbox whose consumer end this entry owns.
    pub waker_rx: usize,
}

/// The timer subsystem's state: pending deadlines and zombie receivers.
pub struct TimerWheel {
    /// Pending entries, sorted by `due` ascending, ties in insertion order.
    pub timers: Vec<TimerTracker>,
    /// Waker-mailbox slots whose deadline elapsed before a notifier arrived.
    pub zombies: Vec<usize>,
}

/// The wheel's entries are sorted by deadline, ascending.
pub open spec fn timers_sorted(ts: Seq<TimerTracker>) -> bool {
    forall|i: int, j: int| 0 <= i < j < ts.len() ==> ts[i].due <= ts[j].due
}

/// Where a new entry with deadline `d` lands in the wheel: after every
/// entry already due at or before `d`, so ties fire in insertion order.
pub open spec fn insert_pos(ts: Seq<TimerTracker>, d: u64) -> int
    decreases ts.len(),
{
    if ts.len() == 0 {
        0
    } else if ts[0].due <= d {
        1 + insert_pos(ts.skip(1), d)
    } else {
        0
    }
}

proof fn lemma_insert_pos_at(ts: Seq<TimerTracker>, d: u64, i: int)
    requires
        0 <= i <= ts.len(),
        forall|j: int| 0 <= j < i ==> ts[j].due <= d,
        i < ts.len() ==> ts[i].due > d,
    ensures
        insert_pos(ts, d) == i,
    decreases i,
{
    if i == 0 {
    } else {
        assert(ts[0].due <= d);
        lemma_insert_pos_at(ts.skip(1), d, i - 1);
    }
}

/// How many leading entries of the wheel are due at or before `now`: the
/// drain pops entries from the front and stops at the first one still in
/// the future.  On a sorted wheel this is every elapsed entry.
pub open spec fn due_count(ts: Seq<TimerTracker>, now: u64) -> int {
    insert_pos(ts, now)
}

/// One delivery pass over waker-mailbox slots, front to back: an `Active`
/// mailbox fires (its notifier's identifier is collected, the mailbox is
/// consumed), a `Pending` one is kept for a later pass, a closed or
/// already consumed one is discarded.  Yields the waker store after the
/// pass, the identifiers woken, and the slots kept, in order.
pub open spec fn drain_wakers(wakers: Seq<Mailbox<usize>>, slots: Seq<usize>) -> (
    Seq<Mailbox<usize>>,
    Seq<usize>,
    Seq<usize>,
)
    decreases slots.len(),
{
    if slots.len() == 0 {
        (wakers, Seq::<usize>::empty(), Seq::<usize>::empty())
    } else {
        let s = slots[0];
        if s < wakers.len() {
            match wakers[s as int].status {
                ChannelStatus::Active(v) => {
                    let rest = drain_wakers(
                        wakers.update(s as int, (Mailbox { status: ChannelStatus::Consumed })),
                        slots.skip(1),
                    );
                    (rest.0, seq![v] + rest.1, rest.2)
                },
                ChannelStatus::Pending => {
                    let rest = drain_wakers(wakers, slots.skip(1));
                    (rest.0, rest.1, seq![s] + rest.2)
                },
                _ => drain_wakers(wakers, slots.skip(1)),
            }
        } else {
            drain_wakers(wakers, slots.skip(1))
        }
    }
}

proof fn lemma_drain_step(wakers: Seq<Mailbox<usize>>, slots: Seq<usize>, i: int)
    requires
        0 <= i < slots.len(),
        slots[i] < wakers.len(),
    ensures
        wakers[slots[i] as int].status matches ChannelStatus::Active(v) ==> drain_wakers(
            wakers,
            slots.skip(i),
        ) == ({
            let rest = drain_wakers(
                wakers.update(slots[i] as int, (Mailbox { status: ChannelStatus::Consumed })),
                slots.skip(i + 1),
            );
            (rest.0, seq![v] + rest.1, rest.2)
        }),
        wakers[slots[i] as int].status is Pending ==> drain_wakers(wakers, slots.skip(i))
            == ({
            let rest = drain_wakers(wakers, slots.skip(i + 1));
            (rest.0, rest.1, seq![slots[i]] + rest.2)
        }),
        wakers[slots[i] as int].status is Closed || wakers[slots[i] as int].status is Consumed
            ==> drain_wakers(wakers, slots.skip(i)) == drain_wakers(wakers, slots.skip(i + 1)),
{
    assert(slots.skip(i).len() == slots.len() - i);
    assert(slots.skip(i)[0] == slots[i]);
    assert(slots.skip(i).skip(1) =~= slots.skip(i + 1));
}

/// A tick fires no timer early: on a sorted wheel, the entries a tick at
/// instant `now` pops and delivers are exactly the leading ones whose
/// deadline has elapsed, and every entry still in the future stays in
/// the wheel.  Together with the deadline `now + dur` that registration
/// fixes, a notifier is delivered only at or after its deadline.
pub proof fn lemma_tick_fires_only_elapsed(ts: Seq<TimerTracker>, now: u64)
    requires
        timers_sorted(ts),
    ensures
        0 <= due_count(ts, now) <= ts.len(),
        forall|j: int| 0 <= j < due_count(ts, now) ==> ts[j].due <= now,
        forall|j: int| due_count(ts, now) <= j < ts.len() ==> ts[j].due > now,
    decreases ts.len(),
{
    if ts.len() == 0 {
    } else if ts[0].due <= now {
        assert(timers_sorted(ts.skip(1))) by {
            assert forall|a: int, b: int|
                0 <= a < b < ts.skip(1).len() implies ts.skip(1)[a].due <= ts.skip(
                1,
            )[b].due by {
                assert(ts.skip(1)[a] == ts[a + 1]);
                assert(ts.skip(1)[b] == ts[b + 1]);
            }
        }
        lemma_tick_fires_only_elapsed(ts.skip(1), now);
        assert(due_count(ts, now) == 1 + due_count(ts.skip(1), now));
        assert forall|j: int| 0 <= j < due_count(ts, now) implies ts[j].due <= now by {
            if j > 0 {
                assert(ts[j] == ts.skip(1)[j - 1]);
            }
        }
        assert forall|j: int| due_count(ts, now) <= j < ts.len() implies ts[j].due > now by {
            assert(ts[j] == ts.skip(1)[j - 1]);
        }
    } else {
        assert forall|j: int| 0 <= j < ts.len() implies ts[j].due > now by {
            if j > 0 {
                assert(ts[0].due <= ts[j].due);
            }
        }
    }
}

/// A cancelled timer is discarded, never fired: once a sleep handle's
/// drop has closed its waker mailbox, no delivery pass ever keeps that
/// slot on the zombie list, and the mailbox stays closed, so no stale
/// notifier can come out of it.
pub proof fn lemma_closed_slot_discarded(
    wakers: Seq<Mailbox<usize>>,
    slots: Seq<usize>,
    s: usize,
)
    requires
        s < wakers.len(),
        wakers[s as int].status is Closed,
    ensures
        !drain_wakers(wakers, slots).2.contains(s),
        drain_wakers(wakers, slots).0.len() == wakers.len(),
        drain_wakers(wakers, slots).0[s as int].status is Closed,
    decreases slots.len(),
{
    if slots.len() == 0 {
    } else {
        let t = slots[0];
        if t < wakers.len() {
            match wakers[t as int].status {
                ChannelStatus::Active(v) => {
                    let w2 = wakers.update(
                        t as int,
                        (Mailbox { status: ChannelStatus::Consumed }),
                    );
                    assert(t != s);
                    assert(w2[s as int].status is Closed);
                    lemma_closed_slot_discarded(w2, slots.skip(1), s);
                },
                ChannelStatus::Pending => {
                    assert(t != s);
                    lemma_closed_slot_discarded(wakers, slots.skip(1), s);
                    let rest = drain_wakers(wakers, slots.skip(1));
                    assert forall|i: int|
                        0 <= i < (seq![t] + rest.2).len() implies (seq![t] + rest.2)[i]
                        != s by {
                        if i > 0 {
                            assert((seq![t] + rest.2)[i] == rest.2[i - 1]);
                            if rest.2[i - 1] == s {
                                assert(rest.2.contains(s));
                            }
                        }
                    }
                    assert(!(seq![t] + rest.2).contains(s));
                },
                _ => {
                    lemma_closed_slot_discarded(wakers, slots.skip(1), s);
                },
            }
        } else {
            lemma_closed_slot_discarded(wakers, slots.skip(1), s);
        }
    }
}

/// A delivery pass leaves every slot it was not given untouched.  A tick
/// at instant `now` hands its passes only the slots of elapsed entries
/// and of zombies (whose deadlines elapsed at an earlier tick), so the
/// mailbox of a timer still in the future keeps its status: its notifier
/// can become consumed no earlier than its deadline, and a sleep handle
/// that resolves on observing `Consumed` resolves no earlier either.
pub proof fn lemma_drain_untouched_slot(
    wakers: Seq<Mailbox<usize>>,
    slots: Seq<usize>,
    s: usize,
)
    requires
        s < wakers.len(),
        !slots.contains(s),
    ensures
        drain_wakers(wakers, slots).0.len() == wakers.len(),
        drain_wakers(wakers, slots).0[s as int] == wakers[s as int],
    decreases slots.len(),
{
    if slots.len() == 0 {
    } else {
        let t = slots[0];
        assert(t != s);
        assert forall|i: int| 0 <= i < slots.skip(1).len() implies slots.skip(1)[i] != s by {
            assert(slots.skip(1)[i] == slots[i + 1]);
            if slots[i + 1] == s {
                assert(slots.contains(s));
            }
        }
        assert(!slots.skip(1).contains(s));
        if t < wakers.len() {
            match wakers[t as int].status {
                ChannelStatus::Active(v) => {
                    let w2 = wakers.update(
                        t as int,
                        (Mailbox { status: ChannelStatus::Consumed }),
                    );
                    lemma_drain_untouched_slot(w2, slots.skip(1), s);
                },
                ChannelStatus::Pending => {
                    lemma_drain_untouched_slot(wakers, slots.skip(1), s);
                },
                _ => {
                    lemma_drain_untouched_slot(wakers, slots.skip(1), s);
                },
            }
        } else {
            lemma_drain_untouched_slot(wakers, slots.skip(1), s);
        }
    }
}

/// Deliver the waker mailbox at `slot`: invoke an available notifier
/// (enqueue the identifier it carries), keep a still-empty mailbox on the
/// zombie list, discard a disconnected one.
fn deliver_waker(rt: &mut Runtime, slot: usize)
    requires
        slot < old(rt).wakers@.len(),
    ensures
        final(rt).next_id == old(rt).next_id,
        final(rt).tasks@ == old(rt).tasks@,
        final(rt).wheel.timers@ == old(rt).wheel.timers@,
        old(rt).wakers@[slot as int].status matches ChannelStatus::Active(v)
            ==> final(rt).wakers@ == old(rt).wakers@.update(
            slot as int,
            (Mailbox { status: ChannelStatus::Consumed }),
        ) && final(rt).queue@ == old(rt).queue@.push(v)
            && final(rt).wheel.zombies@ == old(rt).wheel.zombies@,
        old(rt).wakers@[slot as int].status is Pending ==> final(rt).wakers@ == old(rt).wakers@
            && final(rt).queue@ == old(rt).queue@
            && final(rt).wheel.zombies@ == old(rt).wheel.zombies@.push(slot),
        old(rt).wakers@[slot as int].status is Closed
            || old(rt).wakers@[slot as int].status is Consumed
            ==> final(rt).wakers@ == old(rt).wakers@
            && final(rt).queue@ == old(rt).queue@
            && final(rt).wheel.zombies@ == old(rt).wheel.zombies@,
    {
        let r = rt.wakers[slot].try_recv();
        proof {
            if old(rt).wakers@[slot as int].status matches ChannelStatus::Active(v) {
                assert(rt.wakers@ =~= old(rt).wakers@.update(
                    slot as int,
                    (Mailbox { status: ChannelStatus::Consumed }),
                ));
            } else {
                assert(rt.wakers@ =~= old(rt).wakers@);
            }
        }
        match r {
            Ok(peer) => {
                rt.queue.push(peer);
            },
            Err(TryRecvError::Empty) => {
                rt.wheel.zombies.push(slot);
            },
            Err(TryRecvError::Disconnected) => {},
        }
    }

/// Install an empty timer subsystem: no pending deadline, no zombie.
pub fn init() -> (w: TimerWheel)
    ensures
        w.timers@.len() == 0,
        w.zombies@.len() == 0,
{
    TimerWheel { timers: Vec::new(), zombies: Vec::new() }
}

impl TimerWheel {
    /// The deadline of the wheel's minimum entry, if any; the scheduler
    /// uses it to bound how long it parks when otherwise idle.
    pub fn earliest_deadline(&self) -> (r: Option<u64>)
        requires
            timers_sorted(self.timers@),
        ensures
            self.timers@.len() == 0 ==> r is None,
            self.timers@.len() > 0 ==> (r matches Some(d) && d == self.timers@[0].due
                && forall|i: int| 0 <= i < self.timers@.len() ==> d <= self.timers@[i].due),
    {
        if self.timers.len() == 0 {
            None
        } else {
            Some(self.timers[0].due)
        }
    }
}

/// Run one timer tick at instant `now`.  Elapsed entries are popped in
/// deadline order and their waker mailboxes delivered: an available
/// notifier is invoked, a mailbox whose notifier has not arrived yet
/// moves to the zombie list, a disconnected one is discarded.  The
/// zombie list (old entries first) is then retried once the same way.
/// Returns whether zombies remain, in which case the scheduler must not
/// park indefinitely but schedule another poll soon.
pub fn tick(rt: &mut Runtime, now: u64) -> (zombies_remain: bool)
    requires
        old(rt).wf(),
    ensures
        final(rt).wf(),
        final(rt).next_id == old(rt).next_id,
        final(rt).tasks@ == old(rt).tasks@,
        ({
            let k = due_count(old(rt).wheel.timers@, now);
            let slots1 = old(rt).wheel.timers@.take(k).map_values(|t: TimerTracker| t.waker_rx);
            let pass1 = drain_wakers(old(rt).wakers@, slots1);
            let pass2 = drain_wakers(pass1.0, old(rt).wheel.zombies@ + pass1.2);
            &&& final(rt).wheel.timers@ == old(rt).wheel.timers@.skip(k)
            &&& final(rt).wakers@ == pass2.0
            &&& final(rt).queue@ == old(rt).queue@ + pass1.1 + pass2.1
            &&& final(rt).wheel.zombies@ == pass2.2
            &&& zombies_remain == (pass2.2.len() > 0)
        }),
{
    let ghost ts0 = rt.wheel.timers@;
    let mut k: usize = 0;
    while k < rt.wheel.timers.len() && rt.wheel.timers[k].due <= now
        invariant
            0 <= k <= rt.wheel.timers@.len(),
            rt.wheel.timers@ == ts0,
            forall|j: int| 0 <= j < k ==> ts0[j].due <= now,
        decreases rt.wheel.timers@.len() - k,
    {
        k = k + 1;
    }
    proof {
        lemma_insert_pos_at(ts0, now, k as int);
    }
    let mut tail = rt.wheel.timers.split_off(k);
    core::mem::swap(&mut rt.wheel.timers, &mut tail);
    let due_list = tail;
    let ghost w0 = rt.wakers@;
    let ghost q0 = rt.queue@;
    let ghost z0 = rt.wheel.zombies@;
    let ghost slots1 = due_list@.map_values(|t: TimerTracker| t.waker_rx);
    proof {
        assert(due_list@ =~= ts0.take(k as int));
        assert(rt.wheel.timers@ =~= ts0.skip(k as int));
        assert(slots1.skip(0) =~= slots1);
        assert(rt.queue@.take(q0.len() as int) =~= q0);
        assert(rt.wheel.zombies@.take(z0.len() as int) =~= z0);
        assert(drain_wakers(w0, slots1).1 =~= rt.queue@.skip(q0.len() as int) + drain_wakers(
            rt.wakers@,
            slots1.skip(0),
        ).1);
        assert(drain_wakers(w0, slots1).2 =~= rt.wheel.zombies@.skip(z0.len() as int)
            + drain_wakers(rt.wakers@, slots1.skip(0)).2);
    }
    let mut i: usize = 0;
    while i < due_list.len()
        invariant
            0 <= i <= due_list@.len(),
            slots1 == due_list@.map_values(|t: TimerTracker| t.waker_rx),
            rt.wakers@.len() == w0.len(),
            forall|j: int| 0 <= j < slots1.len() ==> slots1[j] < w0.len(),
            q0.len() <= rt.queue@.len(),
            z0.len() <= rt.wheel.zombies@.len(),
            rt.queue@.take(q0.len() as int) == q0,
            rt.wheel.zombies@.take(z0.len() as int) == z0,
            forall|j: int|
                0 <= j < rt.wheel.zombies@.len() ==> rt.wheel.zombies@[j] < rt.wakers@.len(),
            rt.next_id == old(rt).next_id,
            rt.tasks@ == old(rt).tasks@,
            rt.wheel.timers@ == ts0.skip(k as int),
            ({
                let full = drain_wakers(w0, slots1);
                let cur = drain_wakers(rt.wakers@, slots1.skip(i as int));
                &&& full.0 == cur.0
                &&& full.1 == rt.queue@.skip(q0.len() as int) + cur.1
                &&& full.2 == rt.wheel.zombies@.skip(z0.len() as int) + cur.2
            }),
        decreases due_list@.len() - i,
    {
        let slot = due_list[i].waker_rx;
        let ghost w_pre = rt.wakers@;
        let ghost q_pre = rt.queue@;
        let ghost z_pre = rt.wheel.zombies@;
        proof {
            assert(slots1[i as int] == slot);
        }
        deliver_waker(rt, slot);
        proof {
            lemma_drain_step(w_pre, slots1, i as int);
            assert(slots1.skip(i as int).skip(1) =~= slots1.skip(i as int + 1));
            match w_pre[slot as int].status {
                ChannelStatus::Active(v) => {
                    assert(rt.queue@.skip(q0.len() as int) =~= q_pre.skip(q0.len() as int)
                        + seq![v]);
                    assert(rt.queue@.take(q0.len() as int) =~= q0);
                    assert((q_pre.skip(q0.len() as int) + seq![v]) + drain_wakers(
                        rt.wakers@,
                        slots1.skip(i as int + 1),
                    ).1 =~= q_pre.skip(q0.len() as int) + (seq![v] + drain_wakers(
                        rt.wakers@,
                        slots1.skip(i as int + 1),
                    ).1));
                },
                ChannelStatus::Pending => {
                    assert(rt.wheel.zombies@.skip(z0.len() as int) =~= z_pre.skip(
                        z0.len() as int,
                    ) + seq![slot]);
                    assert(rt.wheel.zombies@.take(z0.len() as int) =~= z0);
                    assert((z_pre.skip(z0.len() as int) + seq![slot]) + drain_wakers(
                        rt.wakers@,
                        slots1.skip(i as int + 1),
                    ).2 =~= z_pre.skip(z0.len() as int) + (seq![slot] + drain_wakers(
                        rt.wakers@,
                        slots1.skip(i as int + 1),
                    ).2));
                },
                ChannelStatus::Closed => {},
                ChannelStatus::Consumed => {},
            }
        }
        i = i + 1;
    }
    proof {
        assert(slots1.skip(due_list@.len() as int) =~= Seq::<usize>::empty());
        let full1 = drain_wakers(w0, slots1);
        assert(full1.1 =~= rt.queue@.skip(q0.len() as int));
        assert(full1.2 =~= rt.wheel.zombies@.skip(z0.len() as int));
        assert(rt.queue@ =~= q0 + full1.1);
        assert(rt.wheel.zombies@ =~= z0 + full1.2);
    }
    let mut zlist: Vec<usize> = Vec::new();
    core::mem::swap(&mut rt.wheel.zombies, &mut zlist);
    let ghost w1 = rt.wakers@;
    let ghost q1 = rt.queue@;
    proof {
        assert(zlist@.skip(0) =~= zlist@);
        assert(rt.queue@.take(q1.len() as int) =~= q1);
        assert(rt.wheel.zombies@ =~= Seq::<usize>::empty());
        assert(drain_wakers(w1, zlist@).1 =~= rt.queue@.skip(q1.len() as int) + drain_wakers(
            rt.wakers@,
            zlist@.skip(0),
        ).1);
        assert(drain_wakers(w1, zlist@).2 =~= rt.wheel.zombies@ + drain_wakers(
            rt.wakers@,
            zlist@.skip(0),
        ).2);
    }
    let mut j: usize = 0;
    while j < zlist.len()
        invariant
            0 <= j <= zlist@.len(),
            rt.wakers@.len() == w1.len(),
            forall|m: int| 0 <= m < zlist@.len() ==> zlist@[m] < w1.len(),
            q1.len() <= rt.queue@.len(),
            rt.queue@.take(q1.len() as int) == q1,
            forall|m: int|
                0 <= m < rt.wheel.zombies@.len() ==> rt.wheel.zombies@[m] < rt.wakers@.len(),
            rt.next_id == old(rt).next_id,
            rt.tasks@ == old(rt).tasks@,
            rt.wheel.timers@ == ts0.skip(k as int),
            ({
                let full = drain_wakers(w1, zlist@);
                let cur = drain_wakers(rt.wakers@, zlist@.skip(j as int));
                &&& full.0 == cur.0
                &&& full.1 == rt.queue@.skip(q1.len() as int) + cur.1
                &&& full.2 == rt.wheel.zombies@ + cur.2
            }),
        decreases zlist@.len() - j,
    {
        let slot = zlist[j];
        let ghost w_pre = rt.wakers@;
        let ghost q_pre = rt.queue@;
        let ghost z_pre = rt.wheel.zombies@;
        deliver_waker(rt, slot);
        proof {
            lemma_drain_step(w_pre, zlist@, j as int);
            assert(zlist@.skip(j as int).skip(1) =~= zlist@.skip(j as int + 1));
            match w_pre[slot as int].status {
                ChannelStatus::Active(v) => {
                    assert(rt.queue@.skip(q1.len() as int) =~= q_pre.skip(q1.len() as int)
                        + seq![v]);
                    assert(rt.queue@.take(q1.len() as int) =~= q1);
                    assert((q_pre.skip(q1.len() as int) + seq![v]) + drain_wakers(
                        rt.wakers@,
                        zlist@.skip(j as int + 1),
                    ).1 =~= q_pre.skip(q1.len() as int) + (seq![v] + drain_wakers(
                        rt.wakers@,
                        zlist@.skip(j as int + 1),
                    ).1));
                },
                ChannelStatus::Pending => {
                    assert((z_pre + seq![slot]) + drain_wakers(
                        rt.wakers@,
                        zlist@.skip(j as int + 1),
                    ).2 =~= z_pre + (seq![slot] + drain_wakers(
                        rt.wakers@,
                        zlist@.skip(j as int + 1),
                    ).2));
                    assert(rt.wheel.zombies@ =~= z_pre + seq![slot]);
                },
                ChannelStatus::Closed => {},
                ChannelStatus::Consumed => {},
            }
        }
        j = j + 1;
    }
    proof {
        assert(zlist@.skip(zlist@.len() as int) =~= Seq::<usize>::empty());
        let full2 = drain_wakers(w1, zlist@);
        assert(full2.1 =~= rt.queue@.skip(q1.len() as int));
        assert(rt.queue@ =~= q1 + full2.1);
        assert(rt.wheel.zombies@ + Seq::<usize>::empty() =~= rt.wheel.zombies@);
        let k_spec = due_count(ts0, now);
        let slots_spec = ts0.take(k_spec).map_values(|t: TimerTracker| t.waker_rx);
        assert(slots_spec =~= slots1);
        let pass1 = drain_wakers(w0, slots1);
        assert(zlist@ =~= z0 + pass1.2);
        assert(rt.queue@ =~= q0 + pass1.1 + full2.1);
        assert forall|a: int, b: int|
            0 <= a < b < rt.wheel.timers@.len() implies rt.wheel.timers@[a].due
            <= rt.wheel.timers@[b].due by {
            assert(rt.wheel.timers@[a] == ts0[a + k]);
            assert(rt.wheel.timers@[b] == ts0[b + k]);
        }
        assert forall|m: int|
            0 <= m < rt.wheel.timers@.len() implies rt.wheel.timers@[m].waker_rx
            < rt.wakers@.len() by {
            assert(rt.wheel.timers@[m] == ts0[m + k]);
        }
    }
    rt.wheel.zombies.len() > 0
}

/// A sleep handle: a lazy computation that resolves to its deadline, and
/// only at a clock at or past it.  Dropping the handle before it
/// deposited a notifier cancels the timer.
pub struct Sleep {
    /// Absolute deadline on the monotonic clock.
    pub due: u64,
    /// Slot of the waker mailbox shared with the wheel entry; the entry
    /// owns the consumer end.
    pub slot: usize,
    /// The handle still holds the producer end: no notifier was
    /// deposited yet and the end was not released.
    pub armed: bool,
}

/// Register a timer due `dur` after `now` and hand back its sleep
/// handle.  A fresh waker mailbox is created; the wheel entry keeps the
/// consumer end, the handle the producer end.  The entry is inserted
/// after all entries due no later, so ties fire in insertion order.
pub fn sleep(rt: &mut Runtime, now: u64, dur: u64) -> (s: Sleep)
    requires
        old(rt).wf(),
        now + dur <= u64::MAX,
    ensures
        final(rt).wf(),
        s.due == now + dur,
        s.slot == old(rt).wakers@.len(),
        s.armed,
        final(rt).wakers@ == old(rt).wakers@.push((Mailbox { status: ChannelStatus::Pending })),
        final(rt).wheel.timers@ == old(rt).wheel.timers@.insert(
            insert_pos(old(rt).wheel.timers@, (now + dur) as u64),
            (TimerTracker { due: (now + dur) as u64, waker_rx: old(rt).wakers@.len() as usize }),
        ),
        final(rt).wheel.zombies@ == old(rt).wheel.zombies@,
        final(rt).queue@ == old(rt).queue@,
        final(rt).tasks@ == old(rt).tasks@,
        final(rt).next_id == old(rt).next_id,
{
    let due = now + dur;
    let slot = rt.wakers.len();
    rt.wakers.push(crate::oneshot::channel());
    let ghost ts0 = rt.wheel.timers@;
    let mut i: usize = 0;
    while i < rt.wheel.timers.len() && rt.wheel.timers[i].due <= due
        invariant
            0 <= i <= rt.wheel.timers@.len(),
            rt.wheel.timers@ == ts0,
            forall|j: int| 0 <= j < i ==> ts0[j].due <= due,
        decreases rt.wheel.timers@.len() - i,
    {
        i = i + 1;
    }
    proof {
        lemma_insert_pos_at(ts0, due, i as int);
    }
    let entry = TimerTracker { due, waker_rx: slot };
    rt.wheel.timers.insert(i, entry);
    proof {
        assert forall|a: int, b: int|
            0 <= a < b < rt.wheel.timers@.len() implies rt.wheel.timers@[a].due
            <= rt.wheel.timers@[b].due by {
            if a < i && b < i {
            } else if a < i && b == i {
            } else if a == i {
                assert(rt.wheel.timers@[b] == ts0[b - 1]);
                assert(ts0[i as int].due > due || i == ts0.len());
            } else if b > i && a > i {
                assert(rt.wheel.timers@[a] == ts0[a - 1]);
                assert(rt.wheel.timers@[b] == ts0[b - 1]);
            } else {
                // a < i, b > i
                assert(rt.wheel.timers@[b] == ts0[b - 1]);
            }
        }
    }
    Sleep { due, slot, armed: true }
}

impl Sleep {
    /// Resume the sleep.  Past the deadline it is done; the producer
    /// end, if still held, is released so the wheel discards the entry.
    /// Before the deadline, a first resumption deposits the context's
    /// wake notifier and suspends; a later resumption observes the
    /// mailbox and is done only once the runtime has taken the notifier
    /// (which a tick does no earlier than the deadline) or the wheel
    /// side is gone, and otherwise stays pending without depositing
    /// anything further.
    pub fn poll(&mut self, rt: &mut Runtime, now: u64, cx_waker: usize) -> (r: Poll<u64>)
        requires
            old(self).slot < old(rt).wakers@.len(),
            old(self).armed ==> !(old(rt).wakers@[old(self).slot as int].status is Active)
                && !(old(rt).wakers@[old(self).slot as int].status is Consumed),
        ensures
            final(self).due == old(self).due,
            final(self).slot == old(self).slot,
            final(rt).next_id == old(rt).next_id,
            final(rt).tasks@ == old(rt).tasks@,
            final(rt).queue@ == old(rt).queue@,
            final(rt).wheel.timers@ == old(rt).wheel.timers@,
            final(rt).wheel.zombies@ == old(rt).wheel.zombies@,
            old(rt).wf() ==> final(rt).wf(),
            r matches Poll::Ready(v) ==> v == old(self).due,
            now > old(self).due ==> (r matches Poll::Ready(v)) && !final(self).armed,
            now > old(self).due ==> (old(self).armed ==> final(rt).wakers@ == old(
                rt,
            ).wakers@.update(
                old(self).slot as int,
                (Mailbox {
                    status: crate::oneshot::status_after_drop(
                        old(rt).wakers@[old(self).slot as int].status,
                    ),
                }),
            )),
            now > old(self).due ==> (!old(self).armed ==> final(rt).wakers@ == old(
                rt,
            ).wakers@),
            now <= old(self).due ==> old(self).armed
                ==> old(rt).wakers@[old(self).slot as int].status is Pending
                ==> r is Pending && !final(self).armed && final(rt).wakers@ == old(
                rt,
            ).wakers@.update(
                old(self).slot as int,
                (Mailbox { status: ChannelStatus::Active(cx_waker) }),
            ),
            now <= old(self).due ==> old(self).armed
                ==> old(rt).wakers@[old(self).slot as int].status is Closed
                ==> (r matches Poll::Ready(v)) && !final(self).armed && final(rt).wakers@
                == old(rt).wakers@,
            now <= old(self).due ==> !old(self).armed ==> final(rt).wakers@ == old(
                rt,
            ).wakers@ && final(self).armed == old(self).armed,
            now <= old(self).due ==> !old(self).armed
                ==> old(rt).wakers@[old(self).slot as int].status is Active ==> r
                is Pending,
            now <= old(self).due ==> !old(self).armed
                ==> old(rt).wakers@[old(self).slot as int].status is Pending ==> r
                is Pending,
            now <= old(self).due ==> !old(self).armed
                ==> (old(rt).wakers@[old(self).slot as int].status is Consumed || old(
                rt,
            ).wakers@[old(self).slot as int].status is Closed) ==> (r matches Poll::Ready(
                v,
            )),
    {
        if now > self.due {
            if self.armed {
                self.armed = false;
                rt.close_waker_sender(self.slot);
            }
            Poll::Ready(self.due)
        } else if self.armed {
            self.armed = false;
            let sent = rt.wakers[self.slot].send(cx_waker);
            proof {
                if old(rt).wakers@[old(self).slot as int].status is Closed {
                    assert(rt.wakers@ =~= old(rt).wakers@);
                }
            }
            match sent {
                Ok(_) => Poll::Pending,
                Err(_) => Poll::Ready(self.due),
            }
        } else {
            match &rt.wakers[self.slot].status {
                ChannelStatus::Active(_) => Poll::Pending,
                ChannelStatus::Pending => Poll::Pending,
                ChannelStatus::Consumed => Poll::Ready(self.due),
                ChannelStatus::Closed => Poll::Ready(self.due),
            }
        }
    }

    /// Record the drop of the handle: release the producer end, which
    /// cancels a timer whose notifier was not yet deposited (the wheel
    /// discards the entry at the next tick that observes it).  A handle
    /// that already deposited its notifier holds nothing to release.
    pub fn cancel(&mut self, rt: &mut Runtime)
        requires
            old(self).armed ==> old(self).slot < old(rt).wakers@.len(),
        ensures
            final(self).due == old(self).due,
            final(self).slot == old(self).slot,
            !final(self).armed,
            final(rt).next_id == old(rt).next_id,
            final(rt).tasks@ == old(rt).tasks@,
            final(rt).queue@ == old(rt).queue@,
            final(rt).wheel.timers@ == old(rt).wheel.timers@,
            final(rt).wheel.zombies@ == old(rt).wheel.zombies@,
            old(rt).wf() ==> final(rt).wf(),
            !old(self).armed ==> final(rt).wakers@ == old(rt).wakers@,
            old(self).armed ==> final(rt).wakers@ == old(rt).wakers@.update(
                old(self).slot as int,
                (Mailbox {
                    status: crate::oneshot::status_after_drop(
                        old(rt).wakers@[old(self).slot as int].status,
                    ),
                }),
            ),
    {
        if self.armed {
            self.armed = false;
            rt.close_waker_sender(self.slot);
        }
    }
}

} // verus!
