//! The transport's own state: validated configuration, the monotonically
//! assigned (and wrapping) receiver index, the set of live signal-inbox
//! keys, and the connect options handed to the reliable-unicast layer.
//!
//! The sockets and worker threads that act on this state live outside the
//! library; they call in for every decision.

use vstd::prelude::*;

use crate::stream_info::{info_encoding, SocketKind, StreamInfo};

verus! {

/// An IPv4 address as four octets.
#[derive(Debug, Clone, Copy, PartialEq, Eq, Structural)]
pub struct Ipv4Address {
    pub a: u8,
    pub b: u8,
    pub c: u8,
    pub d: u8,
}

impl Ipv4Address {
    /// IPv4 multicast groups are 224.0.0.0/4.
    pub open spec fn spec_is_multicast(self) -> bool {
        224 <= self.a <= 239
    }

    pub fn is_multicast(&self) -> (r: bool)
        ensures
            r == self.spec_is_multicast(),
    {
        224 <= self.a && self.a <= 239
    }
}

/// An IPv4 endpoint.
#[derive(Debug, Clone, Copy, PartialEq, Eq, Structural)]
pub struct SocketAddress {
    pub ip: Ipv4Address,
    pub port: u16,
}

/// Transport configuration: the rendezvous endpoint, the multicast group
/// to fan out on, and the MTU used as fragment ceiling on the reliable
/// path and sizing hint on the multicast path.
#[derive(Debug, Clone, Copy, PartialEq, Eq, Structural)]
pub struct TransportOptions {
    pub server: SocketAddress,
    pub multicast: Ipv4Address,
    pub mtu: usize,
}

/// A usable configuration: the group address really is a multicast
/// address, and the MTU is positive and small enough for the reliable
/// layer's 16-bit-ish framing (and for its `u32` option field).
pub open spec fn options_valid(options: TransportOptions) -> bool {
    &&& options.multicast.spec_is_multicast()
    &&& 1 <= options.mtu <= 65536
}

/// The errors the transport surfaces to its caller.
#[derive(Debug, Clone, Copy, PartialEq, Eq, Structural)]
pub enum TransportError {
    /// Unusable configuration, surfaced at construction.
    Config,
    /// TCP or reliable-unicast connect failure, surfaced at
    /// `create_sender`/`create_receiver` time by the I/O layer.
    Connect,
    /// Runtime send failure on an established socket.
    Send,
    /// Runtime read failure on an established socket.
    Read,
}

/// Connect options for one reliable-unicast session, as the wire contract
/// fixes them: the retransmit latency budget, the fragment MTU, and the
/// encoded stream identifier.
pub struct ReliableOptions {
    pub latency: u32,
    pub mtu: u32,
    pub stream_id: Vec<u8>,
}

/// The latency budget, in milliseconds, of every session the transport
/// opens.
pub const RELIABLE_LATENCY_MS: u32 = 20;

/// The index counter's successor, wrapping at the top of `u32`.
pub open spec fn wrap_inc(index: u32) -> u32 {
    if index == u32::MAX {
        0
    } else {
        (index + 1) as u32
    }
}

/// No inbox key is registered twice.
pub open spec fn wf_keys(s: Seq<u32>) -> bool {
    forall|i: int, j: int| 0 <= i < s.len() && 0 <= j < s.len() && i != j ==> s[i] != s[j]
}

/// Abstract transport state.
pub struct TransportView {
    pub options: TransportOptions,
    pub index: u32,
    pub channels: Seq<u32>,
}

/// The per-peer transport state: its configuration, the counter that
/// assigns receiver inbox keys, and the keys of the live inboxes that
/// signal dispatch must reach.
pub struct Transport {
    options: TransportOptions,
    index: u32,
    channels: Vec<u32>,
}

impl View for Transport {
    type V = TransportView;

    closed spec fn view(&self) -> TransportView {
        TransportView { options: self.options, index: self.index, channels: self.channels@ }
    }
}

impl Transport {
    /// Validate the configuration and set up an empty transport: no
    /// receiver inboxes, index counter at zero. Fails with the
    /// configuration error iff the options are unusable.
    pub fn new(options: TransportOptions) -> (r: Result<Transport, TransportError>)
        ensures
            r matches Ok(t) ==> options_valid(options) && t@ == (TransportView {
                options,
                index: 0,
                channels: Seq::<u32>::empty(),
            }),
            r is Err ==> !options_valid(options) && r == Err::<Transport, _>(
                TransportError::Config,
            ),
    {
        if !options.multicast.is_multicast() || options.mtu == 0 || options.mtu > 65536 {
            return Err(TransportError::Config);
        }
        let t = Transport { options, index: 0, channels: Vec::new() };
        proof {
            assert(t@.channels =~= Seq::<u32>::empty());
        }
        Ok(t)
    }

    /// The configuration the transport was built with.
    pub fn options(&self) -> (r: TransportOptions)
        ensures
            r == self@.options,
    {
        self.options
    }

    /// Register a new receiver: assign the current index as its inbox key,
    /// advance the counter (wrapping at the top of `u32`), and record the
    /// key for signal dispatch. If the counter has wrapped all the way
    /// around onto a key still in use, that key is taken over.
    pub fn register_receiver(&mut self) -> (key: u32)
        requires
            wf_keys(old(self)@.channels),
        ensures
            key == old(self)@.index,
            final(self)@.index == wrap_inc(old(self)@.index),
            final(self)@.options == old(self)@.options,
            wf_keys(final(self)@.channels),
            final(self)@.channels.contains(key),
            forall|x: u32|
                x != key ==> (final(self)@.channels.contains(x) <==> old(self)@.channels.contains(
                    x,
                )),
    {
        let key = self.index;
        self.index = if self.index == u32::MAX {
            0
        } else {
            self.index + 1
        };
        self.remove_key(key);
        let ghost mid = self.channels@;
        self.channels.push(key);
        proof {
            assert(self.channels@ == mid.push(key));
            assert(self.channels@[mid.len() as int] == key);
            assert forall|x: u32| x != key implies (#[trigger] self.channels@.contains(x)
                <==> old(self)@.channels.contains(x)) by {
                lemma_contains_push(mid, key, x);
            }
        }
        key
    }

    /// Drop one inbox key, if present; every other key stays.
    pub fn remove_key(&mut self, key: u32)
        requires
            wf_keys(old(self)@.channels),
        ensures
            final(self)@.options == old(self)@.options,
            final(self)@.index == old(self)@.index,
            wf_keys(final(self)@.channels),
            !final(self)@.channels.contains(key),
            forall|x: u32|
                x != key ==> (final(self)@.channels.contains(x) <==> old(self)@.channels.contains(
                    x,
                )),
    {
        let mut out: Vec<u32> = Vec::new();
        let n = self.channels.len();
        let mut i: usize = 0;
        while i < n
            invariant
                n == self.channels@.len(),
                i <= n,
                wf_keys(self.channels@),
                wf_keys(out@),
                !out@.contains(key),
                forall|x: u32|
                    x != key ==> (out@.contains(x) <==> self.channels@.subrange(0, i as int)
                        .contains(x)),
                forall|k: int|
                    0 <= k < out@.len() ==> exists|j: int|
                        0 <= j < i && #[trigger] out@[k] == self.channels@[j],
            decreases n - i,
        {
            let e = self.channels[i];
            let ghost pre = self.channels@.subrange(0, i as int);
            assert(self.channels@.subrange(0, i + 1) =~= pre.push(e));
            if e != key {
                proof {
                    if out@.contains(e) {
                        let k = choose|k: int| 0 <= k < out@.len() && out@[k] == e;
                        let j = choose|j: int|
                            0 <= j < i && #[trigger] out@[k] == self.channels@[j];
                        assert(self.channels@[j] == self.channels@[i as int]);
                        assert(false);
                    }
                }
                let ghost mid = out@;
                out.push(e);
                proof {
                    assert forall|x: u32| x != key implies (out@.contains(x) <==> pre.push(
                        e,
                    ).contains(x)) by {
                        lemma_contains_push(mid, e, x);
                        lemma_contains_push(pre, e, x);
                    }
                    lemma_contains_push(mid, e, key);
                }
            } else {
                proof {
                    assert forall|x: u32| x != key implies (out@.contains(x) <==> pre.push(
                        e,
                    ).contains(x)) by {
                        lemma_contains_push(pre, e, x);
                    }
                }
            }
            i = i + 1;
        }
        assert(self.channels@.subrange(0, n as int) =~= self.channels@);
        self.channels = out;
    }

    /// Drop a batch of dead inbox keys (receivers whose signal send
    /// failed); every other key stays.
    pub fn remove_dead(&mut self, dead: &Vec<u32>)
        requires
            wf_keys(old(self)@.channels),
        ensures
            final(self)@.options == old(self)@.options,
            final(self)@.index == old(self)@.index,
            wf_keys(final(self)@.channels),
            forall|x: u32|
                final(self)@.channels.contains(x) <==> (old(self)@.channels.contains(x)
                    && !dead@.contains(x)),
    {
        let n = dead.len();
        let mut i: usize = 0;
        while i < n
            invariant
                n == dead@.len(),
                i <= n,
                wf_keys(self@.channels),
                self@.options == old(self)@.options,
                self@.index == old(self)@.index,
                forall|x: u32|
                    self@.channels.contains(x) <==> (old(self)@.channels.contains(x)
                        && !dead@.subrange(0, i as int).contains(x)),
            decreases n - i,
        {
            let key = dead[i];
            let ghost pre = dead@.subrange(0, i as int);
            assert(dead@.subrange(0, i + 1) =~= pre.push(key));
            self.remove_key(key);
            proof {
                assert forall|x: u32| true implies (pre.push(key).contains(x) <==> pre.contains(x)
                    || x == key) by {
                    lemma_contains_push(pre, key, x);
                }
            }
            i = i + 1;
        }
        assert(dead@.subrange(0, n as int) =~= dead@);
    }

    /// The keys of every live inbox, for the dispatch loop to walk.
    pub fn channel_keys(&self) -> (r: Vec<u32>)
        ensures
            r@ == self@.channels,
    {
        let mut out: Vec<u32> = Vec::new();
        let n = self.channels.len();
        let mut i: usize = 0;
        while i < n
            invariant
                n == self.channels@.len(),
                i <= n,
                out@ == self.channels@.subrange(0, i as int),
            decreases n - i,
        {
            out.push(self.channels[i]);
            i = i + 1;
            assert(out@ =~= self.channels@.subrange(0, i as int));
        }
        assert(self.channels@.subrange(0, n as int) =~= self.channels@);
        out
    }

    /// Connect options for a publisher session on `id` whose multicast
    /// sender got local port `port`: the fixed latency budget, the
    /// configured MTU, and the publisher annotation.
    pub fn sender_options(&self, id: u32, port: u16) -> (r: ReliableOptions)
        requires
            options_valid(self@.options),
        ensures
            r.latency == RELIABLE_LATENCY_MS,
            r.mtu == self@.options.mtu,
            r.stream_id@ == info_encoding(
                StreamInfo { id, kind: SocketKind::Publisher, port: Some(port) },
            ),
    {
        let info = StreamInfo { id, kind: SocketKind::Publisher, port: Some(port) };
        ReliableOptions {
            latency: RELIABLE_LATENCY_MS,
            mtu: self.options.mtu as u32,
            stream_id: info.encode(),
        }
    }

    /// Connect options for a subscriber session on `id`: the fixed
    /// latency budget, the configured MTU, and the subscriber annotation.
    pub fn receiver_options(&self, id: u32) -> (r: ReliableOptions)
        requires
            options_valid(self@.options),
        ensures
            r.latency == RELIABLE_LATENCY_MS,
            r.mtu == self@.options.mtu,
            r.stream_id@ == info_encoding(
                StreamInfo { id, kind: SocketKind::Subscriber, port: None },
            ),
    {
        let info = StreamInfo { id, kind: SocketKind::Subscriber, port: None };
        ReliableOptions {
            latency: RELIABLE_LATENCY_MS,
            mtu: self.options.mtu as u32,
            stream_id: info.encode(),
        }
    }
}

/// Membership in a sequence extended at the back.
pub proof fn lemma_contains_push(s: Seq<u32>, e: u32, x: u32)
    ensures
        s.push(e).contains(x) <==> (s.contains(x) || x == e),
{
    if s.contains(x) {
        let i = choose|i: int| 0 <= i < s.len() && s[i] == x;
        assert(s.push(e)[i] == x);
    }
    assert(s.push(e)[s.len() as int] == e);
    if s.push(e).contains(x) {
        let i = choose|i: int| 0 <= i < s.push(e).len() && s.push(e)[i] == x;
        if i < s.len() {
            assert(s[i] == x);
        }
    }
}

} // verus!
