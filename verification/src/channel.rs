//! A bounded channel that can say the other end is gone.
//!
//! A ring buffer can report *empty*, and a caller that waits for a peer needs *the peer is gone*,
//! which is a different answer: a receiver that could not distinguish a dead client from an idle
//! one would either wait forever or drop the last reply.
//!
//! [`Channel`] is what both ends share, and it is only ever touched under a lock: each operation
//! here is one turn of holding it. An operation that has to wait says so, and the end waits to be
//! woken and tries again; an operation that may let another end go on says whom to wake.
//!
//! One consumer, any number of producers, which is what the accounting below assumes.

use std::collections::VecDeque;

use vstd::prelude::*;

verus! {

/// The value a send could not deliver, handed back rather than dropped.
#[derive(Debug, PartialEq, Eq)]
pub struct SendError<T>(pub T);

/// Every sender is gone and nothing is left queued.
#[derive(Debug, Clone, Copy, PartialEq, Eq, Structural)]
pub struct RecvError;

/// Whom to wake.
#[derive(Debug, Clone, Copy, PartialEq, Eq, Structural)]
pub enum Wake {
    Nobody,
    /// Whoever waits for the queue to gain an item.
    Receiver,
    /// One of those that wait for the queue to lose an item.
    OneSender,
    /// All of those that wait for the queue to lose an item.
    EverySender,
}

/// What a send came to.
pub enum SendStep<T> {
    /// It is queued.
    Sent,
    /// The channel is full; wait, and try again with the value.
    Wait(T),
    /// The receiver is gone.
    Gone(SendError<T>),
}

/// What a receive came to.
pub enum RecvStep<T> {
    /// The next value.
    Got(T),
    /// There is nothing yet; wait, and try again.
    Wait,
    /// There is nothing and nobody left.
    Gone(RecvError),
}

/// What both ends share.
pub struct Channel<T> {
    queue: VecDeque<T>,
    /// How many senders there are. None with an empty queue is what makes a receive end.
    senders: usize,
    /// Whether the receiver is still there. If not, a send fails rather than waits forever against
    /// a queue nobody will drain.
    receiver: bool,
    capacity: usize,
}

/// What both ends share.
#[verifier::ext_equal]
pub struct ChannelView<T> {
    /// What is waiting, the oldest first.
    pub queue: Seq<T>,
    pub senders: nat,
    pub receiver: bool,
    pub capacity: nat,
}

impl<T> View for Channel<T> {
    type V = ChannelView<T>;

    closed spec fn view(&self) -> ChannelView<T> {
        ChannelView {
            queue: self.queue@,
            senders: self.senders as nat,
            receiver: self.receiver,
            capacity: self.capacity as nat,
        }
    }
}

impl<T> ChannelView<T> {
    /// Whether a send would wait.
    pub open spec fn send_waits(self) -> bool {
        self.receiver && self.queue.len() >= self.capacity
    }

    /// Whether a receive would wait.
    pub open spec fn recv_waits(self) -> bool {
        self.queue.len() == 0 && self.senders > 0
    }

    /// The channel after a send.
    pub open spec fn after_send(self, value: T) -> ChannelView<T> {
        if self.receiver && self.queue.len() < self.capacity {
            ChannelView { queue: self.queue.push(value), ..self }
        } else {
            self
        }
    }

    /// The channel after a receive.
    pub open spec fn after_recv(self) -> ChannelView<T> {
        if self.queue.len() > 0 {
            ChannelView { queue: self.queue.drop_first(), ..self }
        } else {
            self
        }
    }

    /// The channel after a sender is gone.
    pub open spec fn after_drop_sender(self) -> ChannelView<T> {
        ChannelView { senders: (self.senders - 1) as nat, ..self }
    }

    /// The channel after the receiver is gone.
    pub open spec fn after_drop_receiver(self) -> ChannelView<T> {
        ChannelView { receiver: false, ..self }
    }

    /// Whom a send wakes.
    pub open spec fn send_wakes(self) -> Wake {
        if self.receiver && self.queue.len() < self.capacity {
            Wake::Receiver
        } else {
            Wake::Nobody
        }
    }

    /// Whom a receive wakes.
    pub open spec fn recv_wakes(self) -> Wake {
        if self.queue.len() > 0 {
            Wake::OneSender
        } else {
            Wake::Nobody
        }
    }

    /// Whom a sender that goes wakes.
    pub open spec fn drop_sender_wakes(self) -> Wake {
        if self.senders == 1 {
            Wake::Receiver
        } else {
            Wake::Nobody
        }
    }
}

/// A channel holding at most `capacity` items, with one sender and the receiver.
///
/// `capacity` is a buffer, not a rendezvous: a send is done as soon as the item is queued, and only
/// waits once `capacity` items are waiting.
pub fn sync_channel<T>(capacity: usize) -> (r: Channel<T>)
    ensures
        r@.queue == Seq::<T>::empty(),
        r@.senders == 1,
        r@.receiver,
        r@.capacity == capacity,
{
    Channel { queue: VecDeque::new(), senders: 1, receiver: true, capacity }
}

impl<T> Channel<T> {
    /// Queue a value.
    ///
    /// A receiver that is gone hands the value back, so a caller that wants to retry elsewhere
    /// still has it.
    pub fn send(&mut self, value: T) -> (r: (SendStep<T>, Wake))
        ensures
            final(self)@ == old(self)@.after_send(value),
            r.1 == old(self)@.send_wakes(),
            r.0 is Sent ==> final(self)@.queue == old(self)@.queue.push(value) && r.1
                == Wake::Receiver,
            !(r.0 is Sent) ==> final(self)@.queue == old(self)@.queue && r.1 == Wake::Nobody,
            r.0 is Wait <==> old(self)@.receiver && old(self)@.queue.len() >= old(self)@.capacity,
            r.0 is Gone <==> !old(self)@.receiver,
            final(self)@.senders == old(self)@.senders,
            final(self)@.receiver == old(self)@.receiver,
            final(self)@.capacity == old(self)@.capacity,
            match r.0 {
                SendStep::Sent => old(self)@.receiver && old(self)@.queue.len() < old(
                    self,
                )@.capacity,
                SendStep::Wait(v) => old(self)@.send_waits() && v == value,
                SendStep::Gone(e) => !old(self)@.receiver && e.0 == value,
            },
    {
        if !self.receiver {
            return (SendStep::Gone(SendError(value)), Wake::Nobody);
        }
        if self.queue.len() < self.capacity {
            self.queue.push_back(value);
            return (SendStep::Sent, Wake::Receiver);
        }
        (SendStep::Wait(value), Wake::Nobody)
    }

    /// Take the next value.
    ///
    /// What is queued is delivered first, so a producer that sends and then exits does not lose its
    /// last message.
    pub fn recv(&mut self) -> (r: (RecvStep<T>, Wake))
        ensures
            final(self)@ == old(self)@.after_recv(),
            r.1 == old(self)@.recv_wakes(),
            r.0 is Got <==> old(self)@.queue.len() > 0,
            r.0 is Got ==> final(self)@.queue == old(self)@.queue.drop_first() && r.1
                == Wake::OneSender,
            !(r.0 is Got) ==> final(self)@.queue == old(self)@.queue && r.1 == Wake::Nobody,
            final(self)@.senders == old(self)@.senders,
            final(self)@.receiver == old(self)@.receiver,
            final(self)@.capacity == old(self)@.capacity,
            r.0 is Wait <==> old(self)@.queue.len() == 0 && old(self)@.senders > 0,
            r.0 is Gone <==> old(self)@.queue.len() == 0 && old(self)@.senders == 0,
            match r.0 {
                RecvStep::Got(v) => old(self)@.queue.len() > 0 && v == old(self)@.queue[0],
                RecvStep::Wait => old(self)@.recv_waits(),
                RecvStep::Gone(_) => old(self)@.queue.len() == 0 && old(self)@.senders == 0,
            },
    {
        match self.queue.pop_front() {
            Some(value) => {
                assert(self.queue@ =~= old(self)@.queue.drop_first());
                (RecvStep::Got(value), Wake::OneSender)
            },
            None => {
                if self.senders == 0 {
                    return (RecvStep::Gone(RecvError), Wake::Nobody);
                }
                (RecvStep::Wait, Wake::Nobody)
            },
        }
    }

    /// Take a value if one is already queued.
    ///
    /// Nothing covers both "nothing yet" and "nobody left"; a caller that needs to tell those apart
    /// wants [`Channel::recv`].
    pub fn try_recv(&mut self) -> (r: (Option<T>, Wake))
        ensures
            final(self)@ == old(self)@.after_recv(),
            r.1 == old(self)@.recv_wakes(),
            r.0 is Some <==> old(self)@.queue.len() > 0,
            r.0 is Some ==> final(self)@.queue == old(self)@.queue.drop_first() && r.1
                == Wake::OneSender,
            !(r.0 is Some) ==> final(self)@.queue == old(self)@.queue && r.1 == Wake::Nobody,
            final(self)@.senders == old(self)@.senders,
            final(self)@.receiver == old(self)@.receiver,
            final(self)@.capacity == old(self)@.capacity,
            match r.0 {
                Some(v) => old(self)@.queue.len() > 0 && v == old(self)@.queue[0],
                None => old(self)@.queue.len() == 0,
            },
    {
        match self.queue.pop_front() {
            Some(value) => {
                assert(self.queue@ =~= old(self)@.queue.drop_first());
                (Some(value), Wake::OneSender)
            },
            None => (None, Wake::Nobody),
        }
    }

    /// One more sender.
    pub fn add_sender(&mut self)
        requires
            old(self)@.senders < usize::MAX,
        ensures
            final(self)@ == (ChannelView { senders: old(self)@.senders + 1, ..old(self)@ }),
    {
        self.senders = self.senders + 1;
    }

    /// One sender fewer. When it was the last one, a receiver that waits is waiting for exactly
    /// this news.
    pub fn drop_sender(&mut self) -> (r: Wake)
        requires
            old(self)@.senders > 0,
        ensures
            final(self)@ == old(self)@.after_drop_sender(),
            r == old(self)@.drop_sender_wakes(),
            final(self)@.senders == old(self)@.senders - 1,
            final(self)@.queue == old(self)@.queue,
            final(self)@.receiver == old(self)@.receiver,
            final(self)@.capacity == old(self)@.capacity,
            old(self)@.senders == 1 ==> r == Wake::Receiver,
            old(self)@.senders > 1 ==> r == Wake::Nobody,
    {
        self.senders = self.senders - 1;
        if self.senders == 0 {
            Wake::Receiver
        } else {
            Wake::Nobody
        }
    }

    /// The receiver is gone. A sender that waits on a full queue would otherwise wait for a drain
    /// that cannot come.
    pub fn drop_receiver(&mut self) -> (r: Wake)
        ensures
            final(self)@ == old(self)@.after_drop_receiver(),
            !final(self)@.receiver,
            final(self)@.queue == old(self)@.queue,
            final(self)@.senders == old(self)@.senders,
            final(self)@.capacity == old(self)@.capacity,
            r == Wake::EverySender,
    {
        self.receiver = false;
        Wake::EverySender
    }
}

/// What was sent is what has been received and then what is queued, in the order it was sent: a
/// send adds at the end of it, and a receive takes from the front of what is queued.
pub proof fn values_arrive_in_order<T>(
    c: ChannelView<T>,
    sent: Seq<T>,
    received: Seq<T>,
    value: T,
)
    requires
        sent == received + c.queue,
    ensures
        c.receiver && c.queue.len() < c.capacity ==> sent.push(value) == received + c.after_send(
            value,
        ).queue,
        !(c.receiver && c.queue.len() < c.capacity) ==> sent == received + c.after_send(value).queue,
        c.queue.len() > 0 ==> sent == received.push(c.queue[0]) + c.after_recv().queue,
        sent == received + c.after_drop_sender().queue,
        sent == received + c.after_drop_receiver().queue,
{
    assert((received + c.queue).push(value) =~= received + c.queue.push(value));
    if c.queue.len() > 0 {
        assert(received + c.queue =~= received.push(c.queue[0]) + c.queue.drop_first());
    }
}

/// A channel never holds more than its capacity.
pub proof fn a_channel_is_bounded<T>(c: ChannelView<T>, value: T)
    requires
        c.queue.len() <= c.capacity,
    ensures
        c.after_send(value).queue.len() <= c.capacity,
        c.after_recv().queue.len() <= c.capacity,
        c.after_send(value).capacity == c.capacity,
        c.after_recv().capacity == c.capacity,
{
}

/// Nobody is left waiting for something that has happened: whatever lets a waiting end go on wakes
/// it.
pub proof fn whoever_can_go_on_is_woken<T>(c: ChannelView<T>, value: T)
    ensures
        c.recv_waits() && !c.after_send(value).recv_waits() ==> c.send_wakes() == Wake::Receiver,
        c.recv_waits() && !c.after_drop_sender().recv_waits() ==> c.drop_sender_wakes()
            == Wake::Receiver,
        c.send_waits() && !c.after_recv().send_waits() ==> c.recv_wakes() == Wake::OneSender,
        !c.after_drop_receiver().send_waits(),
        c.send_waits() ==> c.after_drop_sender().send_waits(),
        c.recv_waits() ==> c.after_drop_receiver().recv_waits(),
{
}

/// A receive ends only once everything that was queued has been delivered.
pub proof fn queued_values_come_before_the_end<T>(c: ChannelView<T>)
    requires
        c.queue.len() > 0,
    ensures
        !c.recv_waits(),
        c.after_drop_sender().queue == c.queue,
        c.after_recv().queue.len() == c.queue.len() - 1,
{
}


/// What each turn changes, and nothing besides: a send adds its value while there is room and
/// somebody to receive it, a receive takes the oldest, and an end that goes is gone.
pub proof fn each_turn_changes_its_part<T>(c: ChannelView<T>, value: T)
    ensures
        c.receiver && c.queue.len() < c.capacity ==> c.after_send(value) == (ChannelView {
            queue: c.queue.push(value),
            senders: c.senders,
            receiver: c.receiver,
            capacity: c.capacity,
        }) && c.send_wakes() == Wake::Receiver,
        !c.receiver || c.queue.len() >= c.capacity ==> c.after_send(value) == c && c.send_wakes()
            == Wake::Nobody,
        c.queue.len() > 0 ==> c.after_recv() == (ChannelView {
            queue: c.queue.drop_first(),
            senders: c.senders,
            receiver: c.receiver,
            capacity: c.capacity,
        }) && c.recv_wakes() == Wake::OneSender,
        c.queue.len() == 0 ==> c.after_recv() == c && c.recv_wakes() == Wake::Nobody,
        c.senders > 0 ==> c.after_drop_sender() == (ChannelView {
            queue: c.queue,
            senders: (c.senders - 1) as nat,
            receiver: c.receiver,
            capacity: c.capacity,
        }),
        c.after_drop_receiver() == (ChannelView {
            queue: c.queue,
            senders: c.senders,
            receiver: false,
            capacity: c.capacity,
        }),
        c.drop_sender_wakes() == (if c.senders == 1 {
            Wake::Receiver
        } else {
            Wake::Nobody
        }),
        c.send_waits() <==> c.receiver && c.queue.len() >= c.capacity,
        c.recv_waits() <==> c.queue.len() == 0 && c.senders > 0,
{
}

} // verus!
