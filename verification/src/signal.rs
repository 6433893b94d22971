//! Signaling messages between peers and the rendezvous service, with their
//! length-prefixed wire codec.
//!
//! A frame is a big-endian `u16` total length (prefix inclusive) followed by
//! a tagged payload: tag 0 is `Start { id, port }` (id as four big-endian
//! octets, port as two), tag 1 is `Stop { id }`.

use vstd::prelude::*;

use crate::packet::{u16_be, u16_from_be, u32_be, u32_from_be};
use crate::packet::{lemma_u16_be_roundtrip, lemma_u32_be_roundtrip};

verus! {

/// Total frame length of an encoded `Start`.
pub const START_FRAME_LEN: usize = 9;

/// Total frame length of an encoded `Stop`.
pub const STOP_FRAME_LEN: usize = 7;

/// A channel lifecycle event pushed by the rendezvous service.
#[derive(Debug, Clone, Copy, PartialEq, Eq, Structural)]
pub enum Signal {
    /// Start publishing a channel. The port number is the publisher's
    /// multicast port.
    Start { id: u32, port: u16 },
    /// Stop publishing to a channel.
    Stop { id: u32 },
}

/// The tagged payload of a signal, without the length prefix.
pub open spec fn signal_payload(s: Signal) -> Seq<u8> {
    match s {
        Signal::Start { id, port } => seq![0u8] + u32_be(id) + u16_be(port),
        Signal::Stop { id } => seq![1u8] + u32_be(id),
    }
}

/// The whole frame: inclusive length prefix, then the tagged payload.
pub open spec fn encode_spec(s: Signal) -> Seq<u8> {
    u16_be((2 + signal_payload(s).len()) as u16) + signal_payload(s)
}

/// What a tagged payload parses to: `None` for any byte string that is not
/// exactly an encoded variant.
pub open spec fn parse_payload(p: Seq<u8>) -> Option<Signal> {
    if p.len() == 7 && p[0] == 0 {
        Some(
            Signal::Start {
                id: u32_from_be(p[1], p[2], p[3], p[4]),
                port: u16_from_be(p[5], p[6]),
            },
        )
    } else if p.len() == 5 && p[0] == 1 {
        Some(Signal::Stop { id: u32_from_be(p[1], p[2], p[3], p[4]) })
    } else {
        None
    }
}

/// What `decode` recovers from a buffer: `None` while fewer than three
/// octets are buffered, `None` while the buffer holds less than the
/// declared frame length (the caller accumulates), `None` for a malformed
/// frame, else the consumed length and the signal.
pub open spec fn decode_spec(b: Seq<u8>) -> Option<(usize, Signal)> {
    if b.len() < 3 {
        None
    } else {
        let size = u16_from_be(b[0], b[1]) as int;
        if b.len() < size || size < 2 {
            None
        } else {
            match parse_payload(b.subrange(2, size)) {
                Some(s) => Some((size as usize, s)),
                None => None,
            }
        }
    }
}

impl Signal {
    /// Serialize the signal and prepend the inclusive big-endian `u16`
    /// frame length. Frames are 7 or 9 octets, far below the 65535 cap.
    pub fn encode(&self) -> (r: Vec<u8>)
        ensures
            r@ == encode_spec(*self),
            r@.len() == 2 + signal_payload(*self).len(),
    {
        let mut out: Vec<u8> = Vec::with_capacity(START_FRAME_LEN);
        match *self {
            Signal::Start { id, port } => {
                out.push(0);
                out.push(9);
                out.push(0);
                out.push(#[verifier::truncate] ((id >> 24) as u8));
                out.push(#[verifier::truncate] ((id >> 16) as u8));
                out.push(#[verifier::truncate] ((id >> 8) as u8));
                out.push(#[verifier::truncate] (id as u8));
                out.push(#[verifier::truncate] ((port >> 8) as u8));
                out.push(#[verifier::truncate] (port as u8));
                assert((9u16 >> 8) as u8 == 0 && 9u16 as u8 == 9) by (bit_vector);
                assert(u16_be(9u16) =~= seq![0u8, 9u8]);
                assert(out@ =~= encode_spec(*self));
            },
            Signal::Stop { id } => {
                out.push(0);
                out.push(7);
                out.push(1);
                out.push(#[verifier::truncate] ((id >> 24) as u8));
                out.push(#[verifier::truncate] ((id >> 16) as u8));
                out.push(#[verifier::truncate] ((id >> 8) as u8));
                out.push(#[verifier::truncate] (id as u8));
                assert((7u16 >> 8) as u8 == 0 && 7u16 as u8 == 7) by (bit_vector);
                assert(u16_be(7u16) =~= seq![0u8, 7u8]);
                assert(out@ =~= encode_spec(*self));
            },
        }
        out
    }

    /// Read one frame from the front of `buf` without consuming it:
    /// the consumed length and the signal on success, `None` on a short
    /// buffer or a malformed frame, exactly as `decode_spec` says.
    pub fn decode(buf: &[u8]) -> (r: Option<(usize, Signal)>)
        ensures
            r == decode_spec(buf@),
    {
        if buf.len() < 3 {
            return None;
        }
        let size = (((buf[0] as u16) << 8) | (buf[1] as u16)) as usize;
        if buf.len() < size || size < 2 {
            return None;
        }
        let ghost p = buf@.subrange(2, size as int);
        if size == START_FRAME_LEN && buf[2] == 0 {
            let id = ((buf[3] as u32) << 24) | ((buf[4] as u32) << 16) | ((buf[5] as u32) << 8)
                | (buf[6] as u32);
            let port = ((buf[7] as u16) << 8) | (buf[8] as u16);
            assert(p.len() == 7 && p[0] == 0 && p[1] == buf@[3] && p[2] == buf@[4] && p[3]
                == buf@[5] && p[4] == buf@[6] && p[5] == buf@[7] && p[6] == buf@[8]);
            Some((size, Signal::Start { id, port }))
        } else if size == STOP_FRAME_LEN && buf[2] == 1 {
            let id = ((buf[3] as u32) << 24) | ((buf[4] as u32) << 16) | ((buf[5] as u32) << 8)
                | (buf[6] as u32);
            assert(p.len() == 5 && p[0] == 1 && p[1] == buf@[3] && p[2] == buf@[4] && p[3]
                == buf@[5] && p[4] == buf@[6]);
            Some((size, Signal::Stop { id }))
        } else {
            assert(parse_payload(p) is None) by {
                if p.len() == 7 && p[0] == 0 {
                    assert(size == 9 && buf@[2] == 0);
                }
                if p.len() == 5 && p[0] == 1 {
                    assert(size == 7 && buf@[2] == 1);
                }
            }
            None
        }
    }
}

/// Signal codec round-trip: decoding an encoded signal consumes exactly
/// the frame and recovers the signal, and decoding any strict prefix of
/// the frame returns `None` (the caller keeps accumulating, consuming
/// nothing).
pub proof fn lemma_signal_roundtrip(s: Signal)
    ensures
        decode_spec(encode_spec(s)) == Some((encode_spec(s).len() as usize, s)),
        forall|k: int|
            0 <= k < encode_spec(s).len() ==> decode_spec(#[trigger] encode_spec(s).subrange(0, k))
                is None,
{
    let b = encode_spec(s);
    let n = signal_payload(s).len() + 2;
    lemma_u16_be_roundtrip(n as u16);
    assert(b[0] == u16_be(n as u16)[0] && b[1] == u16_be(n as u16)[1]);
    assert(u16_from_be(b[0], b[1]) == n);
    let p = b.subrange(2, n as int);
    assert(p =~= signal_payload(s));
    match s {
        Signal::Start { id, port } => {
            lemma_u32_be_roundtrip(id);
            lemma_u16_be_roundtrip(port);
            assert(p[0] == 0);
            assert(p[1] == u32_be(id)[0] && p[2] == u32_be(id)[1] && p[3] == u32_be(id)[2] && p[4]
                == u32_be(id)[3]);
            assert(p[5] == u16_be(port)[0] && p[6] == u16_be(port)[1]);
            assert(parse_payload(p) == Some(s));
        },
        Signal::Stop { id } => {
            lemma_u32_be_roundtrip(id);
            assert(p[0] == 1);
            assert(p[1] == u32_be(id)[0] && p[2] == u32_be(id)[1] && p[3] == u32_be(id)[2] && p[4]
                == u32_be(id)[3]);
            assert(parse_payload(p) == Some(s));
        },
    }
    assert forall|k: int| 0 <= k < b.len() implies decode_spec(
        #[trigger] b.subrange(0, k),
    ) is None by {
        let pre = b.subrange(0, k);
        if k >= 3 {
            assert(pre[0] == b[0] && pre[1] == b[1]);
            assert(u16_from_be(pre[0], pre[1]) == n);
            assert(pre.len() < n);
        }
    }
}

} // verus!
