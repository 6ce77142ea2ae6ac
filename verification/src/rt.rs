//! The scheduler: the task table, the ready queue, the waker-mailbox
//! store, and the per-step decisions of the poll loop.
//!
//! A wake notifier is modelled by the task identifier it is bound to:
//! invoking a notifier means pushing that identifier onto the ready
//! queue ([`Runtime::wake`]).  Wake notifiers travel between tasks
//! through one-shot mailboxes carrying identifiers; the runtime owns
//! all such mailboxes in one store, and endpoints refer to them by slot.
//!
//! The driver around the kernel polls the actual suspended computations:
//! it drains the ready snapshot ([`Runtime::take_ready`]), resumes each
//! live task once, and reports a completed resumption back through
//! [`Runtime::finish_task`].

use vstd::prelude::*;
use crate::oneshot::{channel, ChannelStatus, Mailbox};
use crate::tasks::TaskMonitor;
use crate::timers::{init, timers_sorted, TimerWheel};

verus! {

/// The outcome of resuming a lazy computation: a value, or not yet.
pub enum Poll<T> {
    /// The computation finished with this value.
    Ready(T),
    /// The computation suspended and arranged to be woken later.
    Pending,
}

/// A live task's bookkeeping entry in the task table.  The suspended
/// computation itself is held by the driver; the kernel records only the
/// consumer end of the mailbox over which a joining peer deposits the
/// wake notifier to be invoked at completion.
pub struct Task {
    /// Slot of the waker mailbox whose consumer end the task owns, if a
    /// join handle was issued for it.
    pub monitor_waker: Option<usize>,
}

/// What the host thread may do between poll iterations.  It parks only
/// when nothing can make progress: the ready queue is empty and no
/// zombie timer is still waiting for its notifier.  With pending timers
/// the park is bounded by the earliest deadline, so an elapsed timer is
/// never overslept.
pub enum ParkDecision {
    /// Work is pending: run another iteration without parking.
    Poll,
    /// Park until the given deadline, or until a notifier unparks earlier.
    ParkUntil(u64),
    /// Park until a wake notifier unparks the thread.
    ParkForever,
}

/// A minimal single-threaded cooperative runtime kernel.
pub struct Runtime {
    /// The next task identifier to assign; identifiers are never recycled.
    pub next_id: usize,
    /// Task table keyed by identifier; completed tasks leave `None`.
    pub tasks: Vec<Option<Task>>,
    /// FIFO of identifiers enqueued by wake notifiers.
    pub queue: Vec<usize>,
    /// Store of the one-shot mailboxes that carry wake notifiers.
    pub wakers: Vec<Mailbox<usize>>,
    /// The timer subsystem.
    pub wheel: TimerWheel,
}

impl Runtime {
    /// Identifier `id` refers to a live task.
    pub open spec fn live(self, id: usize) -> bool {
        id < self.tasks@.len() && self.tasks@[id as int] is Some
    }

    /// Every mailbox slot the structures refer to exists, the table is as
    /// long as the identifiers handed out, and the wheel is sorted.
    pub open spec fn wf(self) -> bool {
        &&& self.tasks@.len() == self.next_id
        &&& forall|i: int|
            0 <= i < self.tasks@.len() ==> (#[trigger] self.tasks@[i] matches Some(t)
                ==> (t.monitor_waker matches Some(w) ==> w < self.wakers@.len()))
        &&& forall|i: int|
            0 <= i < self.wheel.timers@.len() ==> self.wheel.timers@[i].waker_rx
                < self.wakers@.len()
        &&& forall|i: int|
            0 <= i < self.wheel.zombies@.len() ==> self.wheel.zombies@[i] < self.wakers@.len()
        &&& timers_sorted(self.wheel.timers@)
    }

    /// Construct an empty runtime: no task, nothing ready, no timer.
    pub fn new() -> (rt: Runtime)
        ensures
            rt.wf(),
            rt.next_id == 0,
            rt.tasks@.len() == 0,
            rt.queue@ == Seq::<usize>::empty(),
            rt.wakers@.len() == 0,
            rt.wheel.timers@.len() == 0,
            rt.wheel.zombies@.len() == 0,
    {
        Runtime {
            next_id: 0,
            tasks: Vec::new(),
            queue: Vec::new(),
            wakers: Vec::new(),
            wheel: init(),
        }
    }

    /// Invoke a wake notifier bound to `id`: append the identifier to the
    /// ready queue.  The identifier need not refer to a live task; the
    /// poll loop skips obsolete identifiers.
    pub fn wake(&mut self, id: usize)
        ensures
            final(self).queue@ == old(self).queue@.push(id),
            final(self).next_id == old(self).next_id,
            final(self).tasks@ == old(self).tasks@,
            final(self).wakers@ == old(self).wakers@,
            final(self).wheel.timers@ == old(self).wheel.timers@,
            final(self).wheel.zombies@ == old(self).wheel.zombies@,
            old(self).wf() ==> final(self).wf(),
    {
        self.queue.push(id);
    }

    /// Swap the ready queue with an empty buffer and hand back the
    /// snapshot: identifiers enqueued while the snapshot is being drained
    /// are served on the next iteration.
    pub fn take_ready(&mut self) -> (snapshot: Vec<usize>)
        ensures
            snapshot@ == old(self).queue@,
            final(self).queue@ == Seq::<usize>::empty(),
            final(self).next_id == old(self).next_id,
            final(self).tasks@ == old(self).tasks@,
            final(self).wakers@ == old(self).wakers@,
            final(self).wheel.timers@ == old(self).wheel.timers@,
            final(self).wheel.zombies@ == old(self).wheel.zombies@,
            old(self).wf() ==> final(self).wf(),
    {
        let mut snapshot: Vec<usize> = Vec::new();
        core::mem::swap(&mut self.queue, &mut snapshot);
        snapshot
    }

    /// Whether `id` refers to a live task; the poll loop silently skips
    /// identifiers for which this is false.
    pub fn task_is_live(&self, id: usize) -> (r: bool)
        ensures
            r == self.live(id),
    {
        if id < self.tasks.len() {
            match &self.tasks[id] {
                Some(_) => true,
                None => false,
            }
        } else {
            false
        }
    }

    /// Nothing is ready: the queue snapshot the next iteration would
    /// drain is empty.
    pub fn idle(&self) -> (r: bool)
        ensures
            r == (self.queue@.len() == 0),
    {
        self.queue.len() == 0
    }

    /// The mailbox at `slot` exists and would accept a message: sending
    /// into `Active` or `Consumed` is the double-send contract violation.
    pub fn waker_slot_sendable(&self, slot: usize) -> (r: bool)
        ensures
            r == (slot < self.wakers@.len() && !(self.wakers@[slot as int].status is Active)
                && !(self.wakers@[slot as int].status is Consumed)),
    {
        if slot < self.wakers.len() {
            match &self.wakers[slot].status {
                ChannelStatus::Pending => true,
                ChannelStatus::Closed => true,
                ChannelStatus::Active(_) => false,
                ChannelStatus::Consumed => false,
            }
        } else {
            false
        }
    }

    /// Register a task without a join handle (the root computation of
    /// the driver): assign the next identifier and mark it ready once, so
    /// the first iteration polls it.
    pub fn spawn_root(&mut self) -> (id: usize)
        requires
            old(self).wf(),
            old(self).next_id < usize::MAX,
        ensures
            final(self).wf(),
            id == old(self).next_id,
            final(self).live(id),
            final(self).queue@.contains(id),
            final(self).next_id == old(self).next_id + 1,
            final(self).tasks@ == old(self).tasks@.push(Some((Task { monitor_waker: None }))),
            final(self).queue@ == old(self).queue@.push(id),
            final(self).wakers@ == old(self).wakers@,
            final(self).wheel.timers@ == old(self).wheel.timers@,
            final(self).wheel.zombies@ == old(self).wheel.zombies@,
    {
        let id = self.next_id;
        self.next_id = self.next_id + 1;
        self.tasks.push(Some(Task { monitor_waker: None }));
        self.queue.push(id);
        proof {
            assert(self.queue@[self.queue@.len() - 1] == id);
        }
        id
    }

    /// Register a task that a join handle will observe: assign the next
    /// identifier, mark it ready once, and create the waker mailbox over
    /// which the handle will deposit its wake notifier.  The task keeps
    /// the consumer end; the returned handle holds the producer end.
    pub fn spawn(&mut self) -> (r: (usize, TaskMonitor))
        requires
            old(self).wf(),
            old(self).next_id < usize::MAX,
        ensures
            final(self).wf(),
            r.0 == old(self).next_id,
            r.1.waker_tx == Some(old(self).wakers@.len() as usize),
            final(self).live(r.0),
            final(self).queue@.contains(r.0),
            final(self).next_id == old(self).next_id + 1,
            final(self).tasks@ == old(self).tasks@.push(
                Some((Task { monitor_waker: r.1.waker_tx })),
            ),
            final(self).queue@ == old(self).queue@.push(r.0),
            final(self).wakers@ == old(self).wakers@.push(
                (Mailbox { status: ChannelStatus::Pending }),
            ),
            final(self).wheel.timers@ == old(self).wheel.timers@,
            final(self).wheel.zombies@ == old(self).wheel.zombies@,
    {
        let id = self.next_id;
        let slot = self.wakers.len();
        self.next_id = self.next_id + 1;
        self.wakers.push(channel());
        self.tasks.push(Some(Task { monitor_waker: Some(slot) }));
        self.queue.push(id);
        proof {
            assert(self.queue@[self.queue@.len() - 1] == id);
        }
        (id, TaskMonitor { waker_tx: Some(slot) })
    }

    /// A resumption of task `id` signalled "done": deliver the wake
    /// notifier a joining peer may have deposited (then release the
    /// mailbox's consumer end), and remove the task from the table.
    pub fn finish_task(&mut self, id: usize)
        requires
            old(self).wf(),
            old(self).live(id),
        ensures
            final(self).wf(),
            !final(self).live(id),
            final(self).tasks@ == old(self).tasks@.update(id as int, None::<Task>),
            final(self).next_id == old(self).next_id,
            final(self).wheel.timers@ == old(self).wheel.timers@,
            final(self).wheel.zombies@ == old(self).wheel.zombies@,
            old(self).tasks@[id as int] matches Some(t) ==> t.monitor_waker is None ==> (
                final(self).queue@ == old(self).queue@
                && final(self).wakers@ == old(self).wakers@),
            old(self).tasks@[id as int] matches Some(t) ==> t.monitor_waker matches Some(w)
                ==> old(self).wakers@[w as int].status matches ChannelStatus::Active(peer)
                ==> final(self).queue@ == old(self).queue@.push(peer)
                && final(self).wakers@ == old(self).wakers@.update(
                w as int,
                (Mailbox { status: ChannelStatus::Consumed }),
            ),
            old(self).tasks@[id as int] matches Some(t) ==> t.monitor_waker matches Some(w)
                ==> old(self).wakers@[w as int].status matches ChannelStatus::Pending
                ==> final(self).queue@ == old(self).queue@
                && final(self).wakers@ == old(self).wakers@.update(
                w as int,
                (Mailbox { status: ChannelStatus::Closed }),
            ),
            old(self).tasks@[id as int] matches Some(t) ==> t.monitor_waker matches Some(w)
                ==> (old(self).wakers@[w as int].status is Closed
                || old(self).wakers@[w as int].status is Consumed)
                ==> final(self).queue@ == old(self).queue@
                && final(self).wakers@ == old(self).wakers@,
    {
        let mw: Option<usize> = match &self.tasks[id] {
            Some(t) => t.monitor_waker,
            None => None,
        };
        self.tasks.set(id, None);
        match mw {
            Some(w) => {
                match self.wakers[w].try_recv() {
                    Ok(peer) => {
                        self.queue.push(peer);
                    },
                    Err(_) => {},
                }
                self.wakers[w].drop_receiver();
                proof {
                    let ow = old(self).wakers@;
                    if ow[w as int].status is Active {
                        assert(self.wakers@ =~= ow.update(
                            w as int,
                            (Mailbox { status: ChannelStatus::Consumed }),
                        ));
                    }
                    if ow[w as int].status is Pending {
                        assert(self.wakers@ =~= ow.update(
                            w as int,
                            (Mailbox { status: ChannelStatus::Closed }),
                        ));
                    }
                    if ow[w as int].status is Closed {
                        assert(self.wakers@ =~= ow);
                    }
                    if ow[w as int].status is Consumed {
                        assert(self.wakers@ =~= ow);
                    }
                }
            },
            None => {},
        }
    }

    /// What the driver does between poll iterations.
    pub fn park_decision(&self, zombies_remain: bool) -> (r: ParkDecision)
        requires
            self.wf(),
        ensures
            self.queue@.len() > 0 || zombies_remain ==> r is Poll,
            self.queue@.len() == 0 && !zombies_remain && self.wheel.timers@.len() > 0 ==> (
                r matches ParkDecision::ParkUntil(d) && d == self.wheel.timers@[0].due
                && forall|i: int|
                    0 <= i < self.wheel.timers@.len() ==> d <= self.wheel.timers@[i].due),
            self.queue@.len() == 0 && !zombies_remain && self.wheel.timers@.len() == 0
                ==> r is ParkForever,
    {
        if self.queue.len() > 0 || zombies_remain {
            ParkDecision::Poll
        } else {
            match self.wheel.earliest_deadline() {
                Some(d) => ParkDecision::ParkUntil(d),
                None => ParkDecision::ParkForever,
            }
        }
    }

    /// Record the drop of a waker mailbox's producer end (a dropped sleep
    /// handle or join handle): a mailbox still pending closes, which a
    /// later reader observes as a disconnect.
    pub fn close_waker_sender(&mut self, slot: usize)
        requires
            slot < old(self).wakers@.len(),
        ensures
            final(self).wakers@ == old(self).wakers@.update(
                slot as int,
                (Mailbox {
                    status: crate::oneshot::status_after_drop(
                        old(self).wakers@[slot as int].status,
                    ),
                }),
            ),
            final(self).next_id == old(self).next_id,
            final(self).tasks@ == old(self).tasks@,
            final(self).queue@ == old(self).queue@,
            final(self).wheel.timers@ == old(self).wheel.timers@,
            final(self).wheel.zombies@ == old(self).wheel.zombies@,
            old(self).wf() ==> final(self).wf(),
    {
        self.wakers[slot].drop_sender();
    }
}

/// A spawned computation is polled before the scheduler parks:
/// registration left the task's identifier on the ready queue, and a
/// non-empty queue forces the next decision to be another poll
/// iteration, which drains every queued identifier.
pub proof fn lemma_fresh_task_forbids_park(rt: Runtime, id: usize)
    requires
        rt.queue@.contains(id),
    ensures
        rt.queue@.len() > 0,
{
}

/// A removed task is never resumed: whether an identifier refers to a
/// live task is decided by the task table alone, and invoking a wake
/// notifier does not touch the table.  A duplicate wake of a finished
/// task therefore only leaves an identifier in the queue that the poll
/// loop skips; it costs at most one extra queue entry.
pub proof fn lemma_wake_does_not_revive(pre: Runtime, post: Runtime, id: usize)
    requires
        post.tasks@ == pre.tasks@,
        !pre.live(id),
    ensures
        !post.live(id),
{
}

} // verus!
