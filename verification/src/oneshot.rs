//! The one-shot mailbox: a single-slot, single-producer, single-consumer
//! rendezvous that observes the drop of either endpoint.
//!
//! The mailbox is modelled as a value holding its status.  The two
//! endpoints of a real channel share one `Mailbox` cell; the producer's
//! operations are [`Mailbox::send`] and [`Mailbox::drop_sender`], the
//! consumer's are [`Mailbox::try_recv`] and [`Mailbox::drop_receiver`].
//! The status moves one way through
//! `Pending -> { Active -> Consumed, Closed }`.

use vstd::prelude::*;

verus! {

/// The status of a one-shot mailbox.
pub enum ChannelStatus<T> {
    /// No message yet; both ends live.
    Pending,
    /// One end was dropped before a message passed.
    Closed,
    /// A message was deposited and not yet taken.
    Active(T),
    /// The message was taken by the consumer.
    Consumed,
}

/// Error type for [`Mailbox::try_recv`].
#[derive(Clone, Copy, Debug, PartialEq, Eq, Structural)]
pub enum TryRecvError {
    /// The producer has not sent anything yet.
    Empty,
    /// The producer was dropped, or the message was already consumed.
    Disconnected,
}

/// A one-shot mailbox cell, shared by a producer and a consumer.
pub struct Mailbox<T> {
    /// Current status of the rendezvous.
    pub status: ChannelStatus<T>,
}

/// The status an endpoint's drop leaves behind: a drop before any message
/// passed closes the mailbox; otherwise the status is untouched.
pub open spec fn status_after_drop<T>(s: ChannelStatus<T>) -> ChannelStatus<T> {
    match s {
        ChannelStatus::Pending => ChannelStatus::Closed,
        _ => s,
    }
}

/// The status a send leaves behind: a pending mailbox becomes active
/// with the message; a closed one is untouched (the message bounces).
pub open spec fn status_after_send<T>(s: ChannelStatus<T>, data: T) -> ChannelStatus<T> {
    match s {
        ChannelStatus::Pending => ChannelStatus::Active(data),
        _ => s,
    }
}

/// What a send returns: success on a pending mailbox, the message handed
/// back on a closed one.
pub open spec fn send_result<T>(s: ChannelStatus<T>, data: T) -> Result<(), T> {
    match s {
        ChannelStatus::Pending => Ok(()),
        _ => Err(data),
    }
}

/// The status a receive attempt leaves behind: an active mailbox is
/// consumed; every other status is untouched.
pub open spec fn status_after_recv<T>(s: ChannelStatus<T>) -> ChannelStatus<T> {
    match s {
        ChannelStatus::Active(_) => ChannelStatus::Consumed,
        _ => s,
    }
}

/// What a receive attempt returns: the message of an active mailbox,
/// `Empty` while the producer has not sent, `Disconnected` once the
/// message is gone or the producer was dropped.
pub open spec fn recv_result<T>(s: ChannelStatus<T>) -> Result<T, TryRecvError> {
    match s {
        ChannelStatus::Active(v) => Ok(v),
        ChannelStatus::Pending => Err(TryRecvError::Empty),
        _ => Err(TryRecvError::Disconnected),
    }
}

/// Create a fresh mailbox in `Pending`, ready for one message.
pub fn channel<T>() -> (m: Mailbox<T>)
    ensures
        m.status is Pending,
{
    Mailbox { status: ChannelStatus::Pending }
}

impl<T> Mailbox<T> {
    /// Deposit a message.  Succeeds on a pending mailbox; on a closed one
    /// the message is handed back so the producer can recover it.
    /// Sending twice is a contract violation, so `Active` and `Consumed`
    /// are excluded.
    pub fn send(&mut self, data: T) -> (r: Result<(), T>)
        requires
            !(old(self).status is Active),
            !(old(self).status is Consumed),
        ensures
            final(self).status == status_after_send(old(self).status, data),
            r == send_result(old(self).status, data),
    {
        let pending = match &self.status {
            ChannelStatus::Pending => true,
            _ => false,
        };
        if pending {
            self.status = ChannelStatus::Active(data);
            Ok(())
        } else {
            Err(data)
        }
    }

    /// Take the message if one is waiting.  `Active` yields the message and
    /// moves to `Consumed`; `Pending` reports `Empty`; `Closed` and
    /// `Consumed` report `Disconnected`.  Nothing else changes.
    pub fn try_recv(&mut self) -> (r: Result<T, TryRecvError>)
        ensures
            final(self).status == status_after_recv(old(self).status),
            r == recv_result(old(self).status),
    {
        let mut taken = ChannelStatus::Consumed;
        core::mem::swap(&mut self.status, &mut taken);
        match taken {
            ChannelStatus::Active(v) => Ok(v),
            ChannelStatus::Pending => {
                self.status = ChannelStatus::Pending;
                Err(TryRecvError::Empty)
            },
            ChannelStatus::Closed => {
                self.status = ChannelStatus::Closed;
                Err(TryRecvError::Disconnected)
            },
            ChannelStatus::Consumed => Err(TryRecvError::Disconnected),
        }
    }

    /// Record the drop of the producer end: a drop before any message
    /// passed closes the mailbox, anything later leaves it untouched.
    pub fn drop_sender(&mut self)
        ensures
            final(self).status == status_after_drop(old(self).status),
    {
        let pending = match &self.status {
            ChannelStatus::Pending => true,
            _ => false,
        };
        if pending {
            self.status = ChannelStatus::Closed;
        }
    }

    /// Record the drop of the consumer end; symmetric to
    /// [`Mailbox::drop_sender`].
    pub fn drop_receiver(&mut self)
        ensures
            final(self).status == status_after_drop(old(self).status),
    {
        let pending = match &self.status {
            ChannelStatus::Pending => true,
            _ => false,
        };
        if pending {
            self.status = ChannelStatus::Closed;
        }
    }
}

/// Round trip: for any value, depositing it in a fresh mailbox succeeds,
/// and the consumer's next receive yields exactly that value, leaving the
/// mailbox consumed.  This is the delivery path of every result a task
/// produces and of every wake notifier handed between tasks.
pub proof fn lemma_mailbox_round_trip<T>(v: T)
    ensures
        send_result(ChannelStatus::<T>::Pending, v) == Ok::<(), T>(()),
        recv_result(status_after_send(ChannelStatus::<T>::Pending, v)) == Ok::<
            T,
            TryRecvError,
        >(v),
        status_after_recv(status_after_send(ChannelStatus::<T>::Pending, v))
            is Consumed,
{
}

/// A message is delivered at most once: after the receive that took an
/// active mailbox's message, every further receive reports
/// `Disconnected`; no second copy can come out.
pub proof fn lemma_mailbox_delivers_once<T>(s: ChannelStatus<T>)
    ensures
        s matches ChannelStatus::Active(v) ==> recv_result(status_after_recv(s))
            == Err::<T, TryRecvError>(TryRecvError::Disconnected),
{
}

} // verus!
