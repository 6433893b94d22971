//! Sender-side dispatch: one worker iteration pulls the next item from the
//! producer adapter, frames it, and routes the framed payload through
//! exactly one outbound path, chosen by the adapter's multicast flag as
//! read in that same iteration.

use vstd::prelude::*;

use crate::adapter::{SenderAdapterView, StreamSenderAdapter};
use crate::packet::{mux, mux_spec, PacketInfo, HEADER_LEN};

verus! {

/// The outbound path a framed payload is routed through.
#[derive(Debug, Clone, Copy, PartialEq, Eq, Structural)]
pub enum SendPath {
    /// One UDP datagram to the multicast group.
    Multicast,
    /// The reliable-unicast fragmenter and socket.
    Unicast,
}

/// The metadata of a queued adapter item.
pub open spec fn item_info(it: (Seq<u8>, crate::packet::StreamKind, u32, u64)) -> PacketInfo {
    PacketInfo { kind: it.1, flags: it.2, timestamp: it.3 }
}

/// One worker iteration, on the abstract adapter state: `None` when the
/// adapter is drained (the worker exits), else the framed front item and
/// the single path the multicast flag routes it through.
pub open spec fn sender_step_spec(v: SenderAdapterView) -> (
    SenderAdapterView,
    Option<(Seq<u8>, SendPath)>,
) {
    if v.items.len() == 0 {
        (v, None)
    } else {
        (
            SenderAdapterView { items: v.items.drop_first(), ..v },
            Some(
                (
                    mux_spec(item_info(v.items[0]), v.items[0].0),
                    if v.multicast {
                        SendPath::Multicast
                    } else {
                        SendPath::Unicast
                    },
                ),
            ),
        )
    }
}

/// One iteration of the sender worker: pull the next `(payload, info)`
/// from the adapter, frame it, and pick the outbound path from the
/// multicast flag. Each accepted payload comes out exactly once, framed,
/// with exactly one path.
pub fn sender_step(adapter: &mut StreamSenderAdapter) -> (r: Option<(Vec<u8>, SendPath)>)
    requires
        old(adapter)@.closed || old(adapter)@.items.len() > 0,
        forall|i: int|
            0 <= i < old(adapter)@.items.len() ==> (#[trigger] old(adapter)@.items[i]).0.len()
                + HEADER_LEN <= usize::MAX,
    ensures
        ({
            let (v2, out) = sender_step_spec(old(adapter)@);
            &&& final(adapter)@ == v2
            &&& match r {
                None => out is None,
                Some(p) => out matches Some(o) && p.0@ == o.0 && p.1 == o.1,
            }
        }),
{
    match adapter.next() {
        None => None,
        Some((payload, kind, flags, timestamp)) => {
            let framed = mux(PacketInfo { kind, flags, timestamp }, payload.as_slice());
            let path = if adapter.get_multicast() {
                SendPath::Multicast
            } else {
                SendPath::Unicast
            };
            Some((framed, path))
        },
    }
}

/// Multicast toggle atomicity: with two queued payloads, the first is
/// routed by the flag in force at its own iteration and the second by the
/// flag set between the two iterations; each payload takes exactly one
/// path, and none is emitted on both.
pub proof fn lemma_toggle_atomicity(v: SenderAdapterView, flag2: bool)
    requires
        v.items.len() >= 2,
    ensures
        ({
            let (v1, r1) = sender_step_spec(v);
            let toggled = SenderAdapterView { multicast: flag2, ..v1 };
            let (v2, r2) = sender_step_spec(toggled);
            &&& r1 matches Some(p1) && ((p1.1 is Multicast) <==> v.multicast)
            &&& r2 matches Some(p2) && ((p2.1 is Multicast) <==> flag2)
            &&& r1->Some_0.0 == mux_spec(item_info(v.items[0]), v.items[0].0)
            &&& r2->Some_0.0 == mux_spec(item_info(v.items[1]), v.items[1].0)
        }),
{
    assert(v.items.drop_first()[0] == v.items[1]);
}

} // verus!
