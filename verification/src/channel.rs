//! The dispatch channel: an unbounded FIFO queue of messages with a sending side that
//! can go away.
use crate::message::{Message, PoolError};
use std::collections::VecDeque;
use vstd::prelude::*;

verus! {

/// An unbounded first-in, first-out queue of [`Message`]s.
///
/// `queue()` lists the pending messages, oldest first. `is_open()` says whether the
/// sending side still exists.
pub struct Channel<J> {
    pending: VecDeque<Message<J>>,
    open: bool,
}

impl<J> Channel<J> {
    /// The pending messages, oldest first.
    pub closed spec fn queue(&self) -> Seq<Message<J>> {
        self.pending@
    }

    /// Whether the sending side still exists.
    pub closed spec fn is_open(&self) -> bool {
        self.open
    }

    /// An empty channel with a live sending side.
    pub fn new() -> (channel: Self)
        ensures
            channel.queue() == Seq::<Message<J>>::empty(),
            channel.is_open(),
    {
        Channel { pending: VecDeque::new(), open: true }
    }

    /// Appends `message` to the queue. Never blocks. A message sent after the sending
    /// side was closed is handed back and the queue is unchanged.
    pub fn send(&mut self, message: Message<J>) -> (outcome: Result<(), Message<J>>)
        ensures
            final(self).is_open() == old(self).is_open(),
            match outcome {
                Ok(()) => {
                    &&& old(self).is_open()
                    &&& final(self).queue() == old(self).queue().push(message)
                },
                Err(returned) => {
                    &&& !old(self).is_open()
                    &&& returned == message
                    &&& final(self).queue() == old(self).queue()
                },
            },
    {
        if self.open {
            self.pending.push_back(message);
            Ok(())
        } else {
            Err(message)
        }
    }

    /// Takes the oldest message off the queue.
    ///
    /// Returns `Ok(Some(m))` exactly when a message is pending, `Ok(None)` when the queue
    /// is empty and more may still be sent (the caller should block), and
    /// `Err(ChannelClosed)` when the queue is empty and the sending side is gone.
    pub fn receive(&mut self) -> (outcome: Result<Option<Message<J>>, PoolError>)
        ensures
            final(self).is_open() == old(self).is_open(),
            match outcome {
                Ok(Some(message)) => {
                    &&& old(self).queue().len() > 0
                    &&& message == old(self).queue().first()
                    &&& final(self).queue() == old(self).queue().drop_first()
                },
                Ok(None) => {
                    &&& old(self).queue().len() == 0
                    &&& old(self).is_open()
                    &&& final(self).queue() == old(self).queue()
                },
                Err(error) => {
                    &&& old(self).queue().len() == 0
                    &&& !old(self).is_open()
                    &&& error == PoolError::ChannelClosed
                    &&& final(self).queue() == old(self).queue()
                },
            },
    {
        match self.pending.pop_front() {
            Some(message) => Ok(Some(message)),
            None => {
                if self.open {
                    Ok(None)
                } else {
                    Err(PoolError::ChannelClosed)
                }
            },
        }
    }

    /// Drops the sending side. Messages already queued can still be received.
    pub fn close(&mut self)
        ensures
            !final(self).is_open(),
            final(self).queue() == old(self).queue(),
    {
        self.open = false;
    }

    /// The number of pending messages.
    pub fn len(&self) -> (n: usize)
        ensures
            n == self.queue().len(),
    {
        self.pending.len()
    }

    /// Whether the sending side still exists.
    pub fn open(&self) -> (open: bool)
        ensures
            open == self.is_open(),
    {
        self.open
    }
}

} // verus!
