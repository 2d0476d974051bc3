//! The outbound queue: the one place where the workers hand their packets to
//! the writer.
//!
//! Several producers enqueue, one consumer takes. What came first leaves
//! first. The queue knows how many producers may still enqueue, so that the
//! consumer can tell a pause from the end, and whether the consumer still
//! lives, so that a producer can tell when nobody will take its packets.
//! Sharing the queue between threads, and parking the consumer while it is
//! empty, is left to the program.

use crate::error::InternalError;
use crate::packet::{PacketTy, PacketView};
use std::collections::VecDeque;
use vstd::prelude::*;

verus! {

/// The mathematical value of an [`Outbox`].
pub struct OutboxView {
    /// The packets that wait for the consumer, oldest first.
    pub pending: Seq<PacketView>,
    /// How many producers may still enqueue.
    pub producers: nat,
    /// Whether the consumer has ended.
    pub consumer_gone: bool,
}

/// What the consumer gets when it asks for the next packet.
#[derive(Debug, PartialEq, Eq)]
pub enum NextPacket {
    /// The oldest packet in the queue, which has left the queue.
    Packet { packet: PacketTy },
    /// The queue is empty, but a producer may still enqueue: wait.
    Wait,
    /// The queue is empty and every producer has ended: nothing will come.
    Closed,
}

/// The packets of a queue in the order in which they will leave it.
pub open spec fn views_of(queue: Seq<PacketTy>) -> Seq<PacketView> {
    queue.map_values(|p: PacketTy| p@)
}

/// The outbound queue.
pub struct Outbox {
    queue: VecDeque<PacketTy>,
    producers: usize,
    consumer_gone: bool,
}

impl View for Outbox {
    type V = OutboxView;

    closed spec fn view(&self) -> OutboxView {
        OutboxView {
            pending: views_of(self.queue@),
            producers: self.producers as nat,
            consumer_gone: self.consumer_gone,
        }
    }
}

impl Outbox {
    /// An empty queue for this many producers and a consumer that lives.
    pub fn new(producers: usize) -> (outbox: Outbox)
        ensures
            outbox@ == (OutboxView {
                pending: Seq::empty(),
                producers: producers as nat,
                consumer_gone: false,
            }),
    {
        let outbox = Outbox { queue: VecDeque::new(), producers, consumer_gone: false };
        assert(outbox@.pending =~= Seq::<PacketView>::empty());
        outbox
    }

    /// How many packets wait for the consumer.
    pub fn len(&self) -> (n: usize)
        ensures
            n == self@.pending.len(),
    {
        self.queue.len()
    }

    /// Puts a packet at the back of the queue. While the consumer lives the
    /// packet is accepted, behind all that wait already. Once the consumer
    /// has ended the packet is turned away with a channel error and the queue
    /// stays as it is.
    pub fn enqueue(&mut self, packet: PacketTy) -> (r: Result<(), InternalError>)
        ensures
            !old(self)@.consumer_gone ==> r is Ok,
            !old(self)@.consumer_gone ==> final(self)@ == (OutboxView {
                pending: old(self)@.pending.push(packet@),
                ..old(self)@
            }),
            old(self)@.consumer_gone ==> r matches Err(InternalError::ChannelSendError),
            old(self)@.consumer_gone ==> final(self)@ == old(self)@,
    {
        if self.consumer_gone {
            return Err(InternalError::ChannelSendError);
        }
        let ghost before = self.queue@;
        self.queue.push_back(packet);
        assert(views_of(self.queue@) =~= views_of(before).push(packet@));
        Ok(())
    }

    /// Takes the oldest packet from the queue. An empty queue yields no
    /// packet: it asks the consumer to wait while a producer is left, and
    /// tells it that the queue is closed when none is.
    pub fn next(&mut self) -> (next: NextPacket)
        ensures
            old(self)@.pending.len() > 0 ==> (next matches NextPacket::Packet { packet } && packet@
                == old(self)@.pending.first()),
            old(self)@.pending.len() > 0 ==> final(self)@ == (OutboxView {
                pending: old(self)@.pending.drop_first(),
                ..old(self)@
            }),
            old(self)@.pending.len() == 0 ==> final(self)@ == old(self)@,
            old(self)@.pending.len() == 0 && old(self)@.producers > 0 ==> next == NextPacket::Wait,
            old(self)@.pending.len() == 0 && old(self)@.producers == 0 ==> next
                == NextPacket::Closed,
    {
        let ghost before = self.queue@;
        match self.queue.pop_front() {
            Some(packet) => {
                assert(views_of(self.queue@) =~= views_of(before).drop_first());
                NextPacket::Packet { packet }
            },
            None => {
                if self.producers > 0 {
                    NextPacket::Wait
                } else {
                    NextPacket::Closed
                }
            },
        }
    }

    /// Records that one producer has ended. What it enqueued stays.
    pub fn producer_done(&mut self)
        ensures
            final(self)@ == (OutboxView {
                producers: if old(self)@.producers > 0 {
                    (old(self)@.producers - 1) as nat
                } else {
                    0
                },
                ..old(self)@
            }),
    {
        if self.producers > 0 {
            self.producers = self.producers - 1;
        }
    }

    /// Records that the consumer has ended. The packets that still wait will
    /// never be taken: they are dropped, and no further packet is accepted.
    pub fn consumer_done(&mut self)
        ensures
            final(self)@ == (OutboxView {
                pending: Seq::empty(),
                consumer_gone: true,
                ..old(self)@
            }),
    {
        self.queue.clear();
        self.consumer_gone = true;
        assert(self@.pending =~= Seq::<PacketView>::empty());
    }
}

/// What can be done to a queue whose consumer lives: a producer enqueues a
/// packet, or the consumer asks for the next one.
pub enum QueueOp {
    Enqueue { packet: PacketView },
    Next,
}

/// The packets that wait, and the packets that the consumer has been given,
/// in the order in which it was given them, after a run of operations on a
/// queue that held `pending`.
pub open spec fn after_ops(pending: Seq<PacketView>, ops: Seq<QueueOp>) -> (
    Seq<PacketView>,
    Seq<PacketView>,
)
    decreases ops.len(),
{
    if ops.len() == 0 {
        (pending, Seq::empty())
    } else {
        let (waiting, given) = after_ops(pending, ops.drop_last());
        match ops.last() {
            QueueOp::Enqueue { packet } => (waiting.push(packet), given),
            QueueOp::Next => if waiting.len() > 0 {
                (waiting.drop_first(), given.push(waiting.first()))
            } else {
                (waiting, given)
            },
        }
    }
}

/// The packets that a run of operations enqueues, in order.
pub open spec fn enqueued(ops: Seq<QueueOp>) -> Seq<PacketView>
    decreases ops.len(),
{
    if ops.len() == 0 {
        Seq::empty()
    } else {
        match ops.last() {
            QueueOp::Enqueue { packet } => enqueued(ops.drop_last()).push(packet),
            QueueOp::Next => enqueued(ops.drop_last()),
        }
    }
}

/// First in, first out. However enqueuing and taking are interleaved, the
/// packets given to the consumer, followed by those that still wait, are the
/// packets that waited at the start followed by those that were enqueued, in
/// that order: none is lost, none comes twice, and none overtakes another.
pub proof fn lemma_first_in_first_out(pending: Seq<PacketView>, ops: Seq<QueueOp>)
    ensures
        after_ops(pending, ops).1 + after_ops(pending, ops).0 == pending + enqueued(ops),
    decreases ops.len(),
{
    if ops.len() == 0 {
        assert(Seq::<PacketView>::empty() + pending =~= pending + Seq::<PacketView>::empty());
    } else {
        lemma_first_in_first_out(pending, ops.drop_last());
        let (waiting, given) = after_ops(pending, ops.drop_last());
        let sent = enqueued(ops.drop_last());
        match ops.last() {
            QueueOp::Enqueue { packet } => {
                assert(given + waiting.push(packet) =~= (given + waiting).push(packet));
                assert(pending + sent.push(packet) =~= (pending + sent).push(packet));
            },
            QueueOp::Next => {
                if waiting.len() > 0 {
                    assert(given.push(waiting.first()) + waiting.drop_first() =~= given + waiting);
                }
            },
        }
    }
}

/// A queue that is drained gives back what was enqueued: after the packets
/// were enqueued into an empty queue, asking for the next packet as often as
/// packets were enqueued yields them all, oldest first, and leaves the queue
/// empty.
pub proof fn lemma_drain(packets: Seq<PacketView>)
    ensures
        after_ops(
            Seq::empty(),
            Seq::new(packets.len(), |i: int| QueueOp::Enqueue { packet: packets[i] }) + Seq::new(
                packets.len(),
                |i: int| QueueOp::Next,
            ),
        ) == (Seq::<PacketView>::empty(), packets),
{
    let puts = Seq::new(packets.len(), |i: int| QueueOp::Enqueue { packet: packets[i] });
    let takes = Seq::new(packets.len(), |i: int| QueueOp::Next);
    lemma_enqueue_all(packets, packets.len());
    assert(puts.take(packets.len() as int) =~= puts);
    assert(packets.take(packets.len() as int) =~= packets);
    lemma_take_all(packets, puts, packets.len());
    assert(takes.take(packets.len() as int) =~= takes);
    assert(packets.subrange(packets.len() as int, packets.len() as int) =~= Seq::<
        PacketView,
    >::empty());
}

/// Enqueuing into an empty queue lines the packets up in order.
proof fn lemma_enqueue_all(packets: Seq<PacketView>, n: nat)
    requires
        n <= packets.len(),
    ensures
        after_ops(
            Seq::empty(),
            Seq::new(packets.len(), |i: int| QueueOp::Enqueue { packet: packets[i] }).take(
                n as int,
            ),
        ) == (packets.take(n as int), Seq::<PacketView>::empty()),
    decreases n,
{
    let puts = Seq::new(packets.len(), |i: int| QueueOp::Enqueue { packet: packets[i] });
    if n == 0 {
        assert(packets.take(0) =~= Seq::<PacketView>::empty());
    } else {
        lemma_enqueue_all(packets, (n - 1) as nat);
        assert(puts.take(n as int).drop_last() =~= puts.take(n - 1));
        assert(puts.take(n as int).last() == puts[n - 1]);
        assert(packets.take(n - 1).push(packets[n - 1]) =~= packets.take(n as int));
    }
}

/// Taking `n` times from a full queue gives its first `n` packets in order.
proof fn lemma_take_all(packets: Seq<PacketView>, puts: Seq<QueueOp>, n: nat)
    requires
        n <= packets.len(),
        after_ops(Seq::empty(), puts) == (packets, Seq::<PacketView>::empty()),
    ensures
        after_ops(
            Seq::empty(),
            puts + Seq::new(packets.len(), |i: int| QueueOp::Next).take(n as int),
        ) == (packets.subrange(n as int, packets.len() as int), packets.take(n as int)),
    decreases n,
{
    let takes = Seq::new(packets.len(), |i: int| QueueOp::Next);
    if n == 0 {
        assert(puts + takes.take(0) =~= puts);
        assert(packets.subrange(0, packets.len() as int) =~= packets);
        assert(packets.take(0) =~= Seq::<PacketView>::empty());
    } else {
        lemma_take_all(packets, puts, (n - 1) as nat);
        let ops = puts + takes.take(n as int);
        assert(ops.drop_last() =~= puts + takes.take(n - 1));
        assert(ops.last() == takes[n - 1]);
        let waiting = packets.subrange(n - 1, packets.len() as int);
        assert(waiting.drop_first() =~= packets.subrange(n as int, packets.len() as int));
        assert(packets.take(n - 1).push(waiting.first()) =~= packets.take(n as int));
    }
}

} // verus!
