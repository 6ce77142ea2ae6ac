//! The join handle: a lazy computation that resolves to the output of a
//! spawned task, or to `None` when the task was discarded.
//!
//! The handle owns the consumer end of the result mailbox (passed in by
//! the holder, since its payload type is the task's output) and the
//! producer end of the waker mailbox created at spawn, over which it
//! deposits the holder's wake notifier at its first suspension.

use vstd::prelude::*;
use crate::oneshot::{ChannelStatus, Mailbox, TryRecvError};
use crate::rt::{Poll, Runtime};

verus! {

/// Future that stays pending until the spawned task completes.
pub struct TaskMonitor {
    /// Producer end of the waker mailbox created at spawn; `None` once
    /// the notifier was deposited (it is deposited at most once).
    pub waker_tx: Option<usize>,
}

impl TaskMonitor {
    /// Resume the handle.  `result_rx` is the result mailbox shared with
    /// the completing task; `cx_waker` is the wake notifier of the
    /// resumption context.  An available result resolves the handle; a
    /// disconnect resolves it to `None`; otherwise the notifier is
    /// deposited on first suspension and the handle stays pending.
    pub fn poll<T>(
        &mut self,
        result_rx: &mut Mailbox<T>,
        rt: &mut Runtime,
        cx_waker: usize,
    ) -> (r: Poll<Option<T>>)
        requires
            old(self).waker_tx matches Some(w) ==> w < old(rt).wakers@.len()
                && !(old(rt).wakers@[w as int].status is Active)
                && !(old(rt).wakers@[w as int].status is Consumed),
        ensures
            final(rt).next_id == old(rt).next_id,
            final(rt).tasks@ == old(rt).tasks@,
            final(rt).queue@ == old(rt).queue@,
            final(rt).wheel.timers@ == old(rt).wheel.timers@,
            final(rt).wheel.zombies@ == old(rt).wheel.zombies@,
            old(rt).wf() ==> final(rt).wf(),
            old(result_rx).status matches ChannelStatus::Active(v) ==> (
                r matches Poll::Ready(out) && out == Some(v))
                && final(result_rx).status is Consumed && *final(self) == *old(self)
                && final(rt).wakers@ == old(rt).wakers@,
            old(result_rx).status is Closed || old(result_rx).status is Consumed ==> (r
                matches Poll::Ready(out) && out == None::<T> && final(result_rx).status
                == old(result_rx).status && *final(self) == *old(self) && final(rt).wakers@
                == old(rt).wakers@),
            old(result_rx).status is Pending ==> final(result_rx).status is Pending,
            old(result_rx).status is Pending ==> (old(self).waker_tx is None ==> r is Pending
                && *final(self) == *old(self) && final(rt).wakers@ == old(rt).wakers@),
            old(result_rx).status is Pending ==> (old(self).waker_tx matches Some(w)
                ==> final(self).waker_tx is None),
            old(result_rx).status is Pending ==> (old(self).waker_tx matches Some(w)
                ==> old(rt).wakers@[w as int].status is Pending ==> r is Pending
                && final(rt).wakers@ == old(rt).wakers@.update(
                w as int,
                (Mailbox { status: ChannelStatus::Active(cx_waker) }),
            )),
            old(result_rx).status is Pending ==> (old(self).waker_tx matches Some(w)
                ==> old(rt).wakers@[w as int].status is Closed ==> (r matches Poll::Ready(
                out,
            ) && out == None::<T>) && final(rt).wakers@ == old(rt).wakers@),
    {
        match result_rx.try_recv() {
            Ok(v) => Poll::Ready(Some(v)),
            Err(TryRecvError::Empty) => {
                match self.waker_tx {
                    Some(w) => {
                        self.waker_tx = None;
                        let sent = rt.wakers[w].send(cx_waker);
                        proof {
                            if old(rt).wakers@[w as int].status is Closed {
                                assert(rt.wakers@ =~= old(rt).wakers@);
                            }
                        }
                        match sent {
                            Ok(_) => Poll::Pending,
                            Err(_) => Poll::Ready(None),
                        }
                    },
                    None => Poll::Pending,
                }
            },
            Err(TryRecvError::Disconnected) => Poll::Ready(None),
        }
    }

    /// Record the drop of the handle before it deposited its notifier:
    /// release the producer end of the waker mailbox, so the scheduler
    /// observes the disconnect at task completion.  (The holder of the
    /// handle releases the result mailbox's consumer end itself.)
    pub fn abandon(&mut self, rt: &mut Runtime)
        requires
            old(self).waker_tx matches Some(w) ==> w < old(rt).wakers@.len(),
        ensures
            final(self).waker_tx is None,
            final(rt).next_id == old(rt).next_id,
            final(rt).tasks@ == old(rt).tasks@,
            final(rt).queue@ == old(rt).queue@,
            final(rt).wheel.timers@ == old(rt).wheel.timers@,
            final(rt).wheel.zombies@ == old(rt).wheel.zombies@,
            old(rt).wf() ==> final(rt).wf(),
            old(self).waker_tx is None ==> final(rt).wakers@ == old(rt).wakers@,
            old(self).waker_tx matches Some(w) ==> final(rt).wakers@ == old(
                rt,
            ).wakers@.update(
                w as int,
                (Mailbox {
                    status: crate::oneshot::status_after_drop(
                        old(rt).wakers@[w as int].status,
                    ),
                }),
            ),
    {
        let tx = self.waker_tx.take();
        match tx {
            Some(w) => {
                rt.close_waker_sender(w);
            },
            None => {},
        }
    }
}

} // verus!
