//! Stream adapters: bounded producer/consumer queues that decouple media
//! producers and consumers from the transport workers.
//!
//! An adapter carries `(payload, kind, flags, timestamp)` items in FIFO
//! order. The queue is bounded: when a send overflows it, the oldest item
//! is dropped and the loss counter is bumped, preserving real-time
//! behaviour over completeness. `close` is idempotent and keeps the queued
//! items so a consumer can drain them; `next` returns `None` only once the
//! adapter is closed and drained.

use vstd::prelude::*;

use crate::packet::{PacketInfo, StreamKind};

verus! {

/// Fixed queue depth of an adapter.
pub const ADAPTER_CAPACITY: usize = 16;

/// One queued item, as contracts see it: payload bytes, stream kind,
/// producer flags and producer timestamp.
pub type ItemView = (Seq<u8>, StreamKind, u32, u64);

/// Discriminated view of `PacketInfo` used at the adapter boundary:
/// flags and timestamp, tagged by the stream kind.
#[derive(Debug, Clone, Copy, PartialEq, Eq, Structural)]
pub enum StreamBufferInfo {
    Video(u32, u64),
    Audio(u32, u64),
}

impl StreamBufferInfo {
    /// The same metadata as a `PacketInfo`.
    pub open spec fn spec_packet_info(self) -> PacketInfo {
        match self {
            StreamBufferInfo::Video(flags, timestamp) => PacketInfo {
                kind: StreamKind::Video,
                flags,
                timestamp,
            },
            StreamBufferInfo::Audio(flags, timestamp) => PacketInfo {
                kind: StreamKind::Audio,
                flags,
                timestamp,
            },
        }
    }

    pub fn to_packet_info(self) -> (r: PacketInfo)
        ensures
            r == self.spec_packet_info(),
    {
        match self {
            StreamBufferInfo::Video(flags, timestamp) => PacketInfo {
                kind: StreamKind::Video,
                flags,
                timestamp,
            },
            StreamBufferInfo::Audio(flags, timestamp) => PacketInfo {
                kind: StreamKind::Audio,
                flags,
                timestamp,
            },
        }
    }

    pub fn from_packet_info(info: PacketInfo) -> (r: StreamBufferInfo)
        ensures
            r.spec_packet_info() == info,
    {
        match info.kind {
            StreamKind::Video => StreamBufferInfo::Video(info.flags, info.timestamp),
            StreamKind::Audio => StreamBufferInfo::Audio(info.flags, info.timestamp),
        }
    }
}

/// The counter bump used for packet loss: saturating, so that the count
/// is meaningful for any history.
pub open spec fn sat_inc(x: u64) -> u64 {
    if x < u64::MAX {
        (x + 1) as u64
    } else {
        x
    }
}

/// The queue after accepting one item: appended while there is room, else
/// the oldest item is dropped to make room.
pub open spec fn queue_after_send(items: Seq<ItemView>, it: ItemView) -> Seq<ItemView> {
    if items.len() < ADAPTER_CAPACITY {
        items.push(it)
    } else {
        items.drop_first().push(it)
    }
}

/// Whether accepting one item overflows the queue (drops the oldest and
/// counts a loss).
pub open spec fn send_overflows(items: Seq<ItemView>) -> bool {
    items.len() >= ADAPTER_CAPACITY
}

/// Every item a queue will hand out, in order, by repeatedly taking the
/// front.
pub open spec fn queue_drained(items: Seq<ItemView>) -> Seq<ItemView>
    decreases items.len(),
{
    if items.len() == 0 {
        Seq::empty()
    } else {
        seq![items[0]] + queue_drained(items.drop_first())
    }
}

/// Adapter FIFO: draining a queue front to front yields exactly the items
/// in the order they were accepted. Together with the `send` contracts
/// (which append at the back), this says `next` returns items in the order
/// `send` accepted them.
pub proof fn lemma_adapter_fifo(items: Seq<ItemView>)
    ensures
        queue_drained(items) == items,
    decreases items.len(),
{
    if items.len() == 0 {
        assert(queue_drained(items) =~= items);
    } else {
        lemma_adapter_fifo(items.drop_first());
        assert(seq![items[0]] + items.drop_first() =~= items);
    }
}

/// Two sends with room in the queue preserve producer order: the queue
/// ends with the two items, in send order.
pub proof fn lemma_send_order(items: Seq<ItemView>, x: ItemView, y: ItemView)
    requires
        items.len() + 2 <= ADAPTER_CAPACITY,
    ensures
        queue_after_send(queue_after_send(items, x), y) == items + seq![x, y],
{
    assert(queue_after_send(queue_after_send(items, x), y) =~= items + seq![x, y]);
}

/// The producer-side adapter: the sender worker pulls items from it, and
/// consults its multicast flag on every iteration.
pub struct StreamSenderAdapter {
    queue: Vec<(Vec<u8>, StreamKind, u32, u64)>,
    closed: bool,
    multicast: bool,
    loss: u64,
}

/// The consumer-side adapter: the receiver workers feed decoded payloads
/// into it, and report gaps and unparseable payloads on its loss counter.
pub struct StreamReceiverAdapter {
    queue: Vec<(Vec<u8>, StreamKind, u32, u64)>,
    closed: bool,
    loss: u64,
}

/// Abstract state of a sender adapter.
pub struct SenderAdapterView {
    pub items: Seq<ItemView>,
    pub closed: bool,
    pub multicast: bool,
    pub loss: u64,
}

/// Abstract state of a receiver adapter.
pub struct ReceiverAdapterView {
    pub items: Seq<ItemView>,
    pub closed: bool,
    pub loss: u64,
}

pub open spec fn queue_view(q: Seq<(Vec<u8>, StreamKind, u32, u64)>) -> Seq<ItemView> {
    q.map_values(|it: (Vec<u8>, StreamKind, u32, u64)| (it.0@, it.1, it.2, it.3))
}

impl View for StreamSenderAdapter {
    type V = SenderAdapterView;

    closed spec fn view(&self) -> SenderAdapterView {
        SenderAdapterView {
            items: queue_view(self.queue@),
            closed: self.closed,
            multicast: self.multicast,
            loss: self.loss,
        }
    }
}

impl View for StreamReceiverAdapter {
    type V = ReceiverAdapterView;

    closed spec fn view(&self) -> ReceiverAdapterView {
        ReceiverAdapterView {
            items: queue_view(self.queue@),
            closed: self.closed,
            loss: self.loss,
        }
    }
}

impl StreamSenderAdapter {
    /// A fresh, open, empty adapter with the given multicast routing flag.
    pub fn new(multicast: bool) -> (r: Self)
        ensures
            r@.items.len() == 0,
            !r@.closed,
            r@.multicast == multicast,
            r@.loss == 0,
    {
        let r = StreamSenderAdapter { queue: Vec::new(), closed: false, multicast, loss: 0 };
        proof {
            assert(r@.items =~= Seq::<ItemView>::empty());
        }
        r
    }

    /// Accept one item from the producer. Returns `false`, changing
    /// nothing, iff the adapter is closed. Otherwise the item goes to the
    /// back of the queue; on overflow the oldest item is dropped and the
    /// loss counter bumped.
    pub fn send(&mut self, buf: Vec<u8>, info: StreamBufferInfo) -> (r: bool)
        ensures
            r == !old(self)@.closed,
            old(self)@.closed ==> *final(self) == *old(self),
            !old(self)@.closed ==> final(self)@ == (SenderAdapterView {
                items: queue_after_send(
                    old(self)@.items,
                    (buf@, info.spec_packet_info().kind, info.spec_packet_info().flags,
                    info.spec_packet_info().timestamp),
                ),
                loss: if send_overflows(old(self)@.items) {
                    sat_inc(old(self)@.loss)
                } else {
                    old(self)@.loss
                },
                ..old(self)@
            }),
    {
        if self.closed {
            return false;
        }
        let info = info.to_packet_info();
        if self.queue.len() >= ADAPTER_CAPACITY {
            self.queue.remove(0);
            if self.loss < u64::MAX {
                self.loss = self.loss + 1;
            }
            proof {
                assert(queue_view(self.queue@) =~= queue_view(old(self).queue@).drop_first());
            }
        }
        let ghost mid = queue_view(self.queue@);
        self.queue.push((buf, info.kind, info.flags, info.timestamp));
        proof {
            assert(queue_view(self.queue@) =~= mid.push(
                (buf@, info.kind, info.flags, info.timestamp),
            ));
        }
        true
    }

    /// Take the next item. Blocking is the caller's affair: the call is
    /// made only when an item is queued or the adapter is closed, and
    /// `None` comes back iff the adapter is closed and drained.
    pub fn next(&mut self) -> (r: Option<(Vec<u8>, StreamKind, u32, u64)>)
        requires
            old(self)@.closed || old(self)@.items.len() > 0,
        ensures
            old(self)@.items.len() > 0 ==> {
                &&& r matches Some(it) && (it.0@, it.1, it.2, it.3) == old(self)@.items[0]
                &&& final(self)@ == (SenderAdapterView {
                    items: old(self)@.items.drop_first(),
                    ..old(self)@
                })
            },
            old(self)@.items.len() == 0 ==> r is None && *final(self) == *old(self),
    {
        if self.queue.len() == 0 {
            return None;
        }
        let it = self.queue.remove(0);
        proof {
            assert(queue_view(self.queue@) =~= queue_view(old(self).queue@).drop_first());
        }
        Some(it)
    }

    /// Close the adapter: idempotent; queued items stay for draining; all
    /// later sends return `false`.
    pub fn close(&mut self)
        ensures
            final(self)@ == (SenderAdapterView { closed: true, ..old(self)@ }),
    {
        self.closed = true;
    }

    /// The multicast routing flag, consulted by the sender worker on each
    /// iteration.
    pub fn get_multicast(&self) -> (r: bool)
        ensures
            r == self@.multicast,
    {
        self.multicast
    }

    /// Switch the outbound path between multicast and reliable unicast.
    pub fn set_multicast(&mut self, multicast: bool)
        ensures
            final(self)@ == (SenderAdapterView { multicast, ..old(self)@ }),
    {
        self.multicast = multicast;
    }

    /// Count one lost or undeliverable payload.
    pub fn loss_pkt(&mut self)
        ensures
            final(self)@ == (SenderAdapterView { loss: sat_inc(old(self)@.loss), ..old(self)@ }),
    {
        if self.loss < u64::MAX {
            self.loss = self.loss + 1;
        }
    }

    /// The observable loss count.
    pub fn get_loss(&self) -> (r: u64)
        ensures
            r == self@.loss,
    {
        self.loss
    }

    /// Whether the adapter has been closed.
    pub fn is_closed(&self) -> (r: bool)
        ensures
            r == self@.closed,
    {
        self.closed
    }

    /// How many items are queued.
    pub fn queued(&self) -> (r: usize)
        ensures
            r == self@.items.len(),
    {
        self.queue.len()
    }
}

impl StreamReceiverAdapter {
    /// A fresh, open, empty adapter.
    pub fn new() -> (r: Self)
        ensures
            r@.items.len() == 0,
            !r@.closed,
            r@.loss == 0,
    {
        let r = StreamReceiverAdapter { queue: Vec::new(), closed: false, loss: 0 };
        proof {
            assert(r@.items =~= Seq::<ItemView>::empty());
        }
        r
    }

    /// Hand one decoded payload to the consumer. Returns `false`, changing
    /// nothing, iff the adapter is closed. Otherwise the item goes to the
    /// back of the queue; on overflow the oldest item is dropped and the
    /// loss counter bumped.
    pub fn send(&mut self, buf: Vec<u8>, kind: StreamKind, flags: u32, timestamp: u64) -> (r: bool)
        ensures
            r == !old(self)@.closed,
            old(self)@.closed ==> *final(self) == *old(self),
            !old(self)@.closed ==> final(self)@ == (ReceiverAdapterView {
                items: queue_after_send(old(self)@.items, (buf@, kind, flags, timestamp)),
                loss: if send_overflows(old(self)@.items) {
                    sat_inc(old(self)@.loss)
                } else {
                    old(self)@.loss
                },
                ..old(self)@
            }),
    {
        if self.closed {
            return false;
        }
        if self.queue.len() >= ADAPTER_CAPACITY {
            self.queue.remove(0);
            if self.loss < u64::MAX {
                self.loss = self.loss + 1;
            }
            proof {
                assert(queue_view(self.queue@) =~= queue_view(old(self).queue@).drop_first());
            }
        }
        let ghost mid = queue_view(self.queue@);
        self.queue.push((buf, kind, flags, timestamp));
        proof {
            assert(queue_view(self.queue@) =~= mid.push((buf@, kind, flags, timestamp)));
        }
        true
    }

    /// Take the next item. Blocking is the caller's affair: the call is
    /// made only when an item is queued or the adapter is closed, and
    /// `None` comes back iff the adapter is closed and drained.
    pub fn next(&mut self) -> (r: Option<(Vec<u8>, StreamKind, u32, u64)>)
        requires
            old(self)@.closed || old(self)@.items.len() > 0,
        ensures
            old(self)@.items.len() > 0 ==> {
                &&& r matches Some(it) && (it.0@, it.1, it.2, it.3) == old(self)@.items[0]
                &&& final(self)@ == (ReceiverAdapterView {
                    items: old(self)@.items.drop_first(),
                    ..old(self)@
                })
            },
            old(self)@.items.len() == 0 ==> r is None && *final(self) == *old(self),
    {
        if self.queue.len() == 0 {
            return None;
        }
        let it = self.queue.remove(0);
        proof {
            assert(queue_view(self.queue@) =~= queue_view(old(self).queue@).drop_first());
        }
        Some(it)
    }

    /// Close the adapter: idempotent; queued items stay for draining; all
    /// later sends return `false`.
    pub fn close(&mut self)
        ensures
            final(self)@ == (ReceiverAdapterView { closed: true, ..old(self)@ }),
    {
        self.closed = true;
    }

    /// Count one lost packet: the transport calls this on a sequence gap
    /// or an unparseable payload so the consumer can react.
    pub fn loss_pkt(&mut self)
        ensures
            final(self)@ == (ReceiverAdapterView { loss: sat_inc(old(self)@.loss), ..old(self)@ }),
    {
        if self.loss < u64::MAX {
            self.loss = self.loss + 1;
        }
    }

    /// The observable loss count.
    pub fn get_loss(&self) -> (r: u64)
        ensures
            r == self@.loss,
    {
        self.loss
    }

    /// Whether the adapter has been closed.
    pub fn is_closed(&self) -> (r: bool)
        ensures
            r == self@.closed,
    {
        self.closed
    }

    /// How many items are queued.
    pub fn queued(&self) -> (r: usize)
        ensures
            r == self@.items.len(),
    {
        self.queue.len()
    }
}

} // verus!
