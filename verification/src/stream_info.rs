//! The connect-time stream identifier: which channel a reliable-unicast
//! session belongs to, whether the peer publishes or subscribes, and the
//! publisher's multicast port.
//!
//! The annotation travels in the reliable socket's stream-identifier
//! field, so it is kept to printable ASCII: one kind letter (`p` or `s`),
//! the id as eight lowercase hex digits, and, when present, the port as
//! four more.

use vstd::prelude::*;

use crate::packet::{lemma_u16_from_be_bytes, lemma_u32_from_be_bytes};
use crate::packet::{u16_be, u16_from_be, u32_be, u32_from_be};

verus! {

/// Which side of a channel a reliable session serves.
#[derive(Debug, Clone, Copy, PartialEq, Eq, Structural)]
pub enum SocketKind {
    Publisher,
    Subscriber,
}

/// The stream identifier carried at connect time. A publisher announces
/// the multicast port it allocated; a subscriber carries no port.
#[derive(Debug, Clone, Copy, PartialEq, Eq)]
pub struct StreamInfo {
    pub id: u32,
    pub kind: SocketKind,
    pub port: Option<u16>,
}

/// The ASCII letter announcing the socket kind: `p` or `s`.
pub open spec fn kind_char(k: SocketKind) -> u8 {
    match k {
        SocketKind::Publisher => 112,
        SocketKind::Subscriber => 115,
    }
}

/// The lowercase hex digit for a value below sixteen.
pub open spec fn hex_char(n: u8) -> u8 {
    if n < 10 {
        (48 + n) as u8
    } else {
        (87 + n) as u8
    }
}

/// The value of a lowercase hex digit; `None` for any other octet.
pub open spec fn hex_val(c: u8) -> Option<u8> {
    if 48 <= c <= 57 {
        Some((c - 48) as u8)
    } else if 97 <= c <= 102 {
        Some((c - 87) as u8)
    } else {
        None
    }
}

/// Two hex digits for one octet, high nibble first.
pub open spec fn hex_byte(b: u8) -> Seq<u8> {
    seq![hex_char(b / 16), hex_char(b % 16)]
}

/// The octet a pair of hex digits spells; `None` unless both are digits.
pub open spec fn hex_pair_val(c0: u8, c1: u8) -> Option<u8> {
    match (hex_val(c0), hex_val(c1)) {
        (Some(hi), Some(lo)) => Some((hi * 16 + lo) as u8),
        _ => None,
    }
}

/// The whole annotation: kind letter, id digits, port digits if present.
pub open spec fn info_encoding(info: StreamInfo) -> Seq<u8> {
    let idb = u32_be(info.id);
    seq![kind_char(info.kind)] + hex_byte(idb[0]) + hex_byte(idb[1]) + hex_byte(idb[2]) + hex_byte(
        idb[3],
    ) + (match info.port {
        Some(p) => hex_byte(u16_be(p)[0]) + hex_byte(u16_be(p)[1]),
        None => Seq::<u8>::empty(),
    })
}

/// Reading back a hex digit it wrote: the codec's digit alphabet is
/// self-inverse.
pub proof fn lemma_hex_digit(n: u8)
    requires
        n < 16,
    ensures
        hex_val(hex_char(n)) == Some(n),
{
}

/// A digit determines its value and a value its digit.
pub proof fn lemma_hex_digit_inv(c: u8)
    ensures
        hex_val(c) matches Some(n) ==> n < 16 && hex_char(n) == c,
{
}

/// A pair of digits written from an octet reads back as that octet.
pub proof fn lemma_hex_byte(b: u8)
    ensures
        hex_pair_val(hex_byte(b)[0], hex_byte(b)[1]) == Some(b),
{
    lemma_hex_digit(b / 16);
    lemma_hex_digit(b % 16);
}

/// The encoding is 9 octets without a port and 13 with one, its first
/// octet is the kind letter, and every later octet is a hex digit.
pub proof fn lemma_encoding_shape(info: StreamInfo)
    ensures
        info.port is Some ==> info_encoding(info).len() == 13,
        info.port is None ==> info_encoding(info).len() == 9,
        info_encoding(info)[0] == kind_char(info.kind),
        forall|t: int| 1 <= t < info_encoding(info).len() ==> hex_val(#[trigger] info_encoding(info)[t]) is Some,
{
    let e = info_encoding(info);
    let idb = u32_be(info.id);
    assert forall|t: int| 1 <= t < e.len() implies hex_val(#[trigger] e[t]) is Some by {
        lemma_hex_digit(idb[0] / 16);
        lemma_hex_digit(idb[0] % 16);
        lemma_hex_digit(idb[1] / 16);
        lemma_hex_digit(idb[1] % 16);
        lemma_hex_digit(idb[2] / 16);
        lemma_hex_digit(idb[2] % 16);
        lemma_hex_digit(idb[3] / 16);
        lemma_hex_digit(idb[3] % 16);
        if t == 1 {
            assert(e[t] == hex_char(idb[0] / 16));
        } else if t == 2 {
            assert(e[t] == hex_char(idb[0] % 16));
        } else if t == 3 {
            assert(e[t] == hex_char(idb[1] / 16));
        } else if t == 4 {
            assert(e[t] == hex_char(idb[1] % 16));
        } else if t == 5 {
            assert(e[t] == hex_char(idb[2] / 16));
        } else if t == 6 {
            assert(e[t] == hex_char(idb[2] % 16));
        } else if t == 7 {
            assert(e[t] == hex_char(idb[3] / 16));
        } else if t == 8 {
            assert(e[t] == hex_char(idb[3] % 16));
        } else {
            let p = info.port->Some_0;
            let pb = u16_be(p);
            lemma_hex_digit(pb[0] / 16);
            lemma_hex_digit(pb[0] % 16);
            lemma_hex_digit(pb[1] / 16);
            lemma_hex_digit(pb[1] % 16);
            if t == 9 {
                assert(e[t] == hex_char(pb[0] / 16));
            } else if t == 10 {
                assert(e[t] == hex_char(pb[0] % 16));
            } else if t == 11 {
                assert(e[t] == hex_char(pb[1] / 16));
            } else {
                assert(e[t] == hex_char(pb[1] % 16));
            }
        }
    }
}

impl StreamInfo {
    /// Write the annotation.
    pub fn encode(&self) -> (r: Vec<u8>)
        ensures
            r@ == info_encoding(*self),
    {
        let mut out: Vec<u8> = Vec::with_capacity(13);
        match self.kind {
            SocketKind::Publisher => out.push(112),
            SocketKind::Subscriber => out.push(115),
        }
        push_hex(&mut out, #[verifier::truncate] ((self.id >> 24) as u8));
        push_hex(&mut out, #[verifier::truncate] ((self.id >> 16) as u8));
        push_hex(&mut out, #[verifier::truncate] ((self.id >> 8) as u8));
        push_hex(&mut out, #[verifier::truncate] (self.id as u8));
        match self.port {
            Some(p) => {
                push_hex(&mut out, #[verifier::truncate] ((p >> 8) as u8));
                push_hex(&mut out, #[verifier::truncate] (p as u8));
            },
            None => {},
        }
        assert(out@ =~= info_encoding(*self));
        out
    }

    /// Read an annotation back: the unique `StreamInfo` that encodes to
    /// these octets, or `None` if none does.
    #[verifier::rlimit(60)]
    pub fn decode(buf: &[u8]) -> (r: Option<StreamInfo>)
        ensures
            r matches Some(info) ==> info_encoding(info) == buf@,
            r is None ==> forall|info: StreamInfo| info_encoding(info) != buf@,
    {
        let with_port = if buf.len() == 13 {
            true
        } else if buf.len() == 9 {
            false
        } else {
            proof {
                assert forall|info: StreamInfo| info_encoding(info) != buf@ by {
                    lemma_encoding_shape(info);
                }
            }
            return None;
        };
        let kind = if buf[0] == 112 {
            SocketKind::Publisher
        } else if buf[0] == 115 {
            SocketKind::Subscriber
        } else {
            proof {
                assert forall|info: StreamInfo| info_encoding(info) != buf@ by {
                    lemma_encoding_shape(info);
                }
            }
            return None;
        };
        let b0 = match hex_pair(buf[1], buf[2]) {
            Some(b) => b,
            None => {
                proof {
                    bad_digit(buf@, 1);
                }
                return None;
            },
        };
        let b1 = match hex_pair(buf[3], buf[4]) {
            Some(b) => b,
            None => {
                proof {
                    bad_digit(buf@, 3);
                }
                return None;
            },
        };
        let b2 = match hex_pair(buf[5], buf[6]) {
            Some(b) => b,
            None => {
                proof {
                    bad_digit(buf@, 5);
                }
                return None;
            },
        };
        let b3 = match hex_pair(buf[7], buf[8]) {
            Some(b) => b,
            None => {
                proof {
                    bad_digit(buf@, 7);
                }
                return None;
            },
        };
        let id = ((b0 as u32) << 24) | ((b1 as u32) << 16) | ((b2 as u32) << 8) | (b3 as u32);
        let port = if with_port {
            let p0 = match hex_pair(buf[9], buf[10]) {
                Some(b) => b,
                None => {
                    proof {
                        bad_digit(buf@, 9);
                    }
                    return None;
                },
            };
            let p1 = match hex_pair(buf[11], buf[12]) {
                Some(b) => b,
                None => {
                    proof {
                        bad_digit(buf@, 11);
                    }
                    return None;
                },
            };
            Some(((p0 as u16) << 8) | (p1 as u16))
        } else {
            None
        };
        let info = StreamInfo { id, kind, port };
        proof {
            lemma_u32_from_be_bytes(b0, b1, b2, b3);
            lemma_hex_byte_inv(buf@[1], buf@[2]);
            lemma_hex_byte_inv(buf@[3], buf@[4]);
            lemma_hex_byte_inv(buf@[5], buf@[6]);
            lemma_hex_byte_inv(buf@[7], buf@[8]);
            if with_port {
                lemma_u16_from_be_bytes(
                    hex_pair_val(buf@[9], buf@[10])->Some_0,
                    hex_pair_val(buf@[11], buf@[12])->Some_0,
                );
                lemma_hex_byte_inv(buf@[9], buf@[10]);
                lemma_hex_byte_inv(buf@[11], buf@[12]);
            }
            assert(info_encoding(info) =~= buf@);
        }
        Some(info)
    }
}

/// A valid digit pair re-encodes to exactly the same two octets.
proof fn lemma_hex_byte_inv(c0: u8, c1: u8)
    requires
        hex_pair_val(c0, c1) is Some,
    ensures
        hex_byte(hex_pair_val(c0, c1)->Some_0) == seq![c0, c1],
{
    let hi = hex_val(c0)->Some_0;
    let lo = hex_val(c1)->Some_0;
    lemma_hex_digit_inv(c0);
    lemma_hex_digit_inv(c1);
    let b = hex_pair_val(c0, c1)->Some_0;
    assert(b / 16 == hi && b % 16 == lo) by (nonlinear_arith)
        requires
            hi < 16,
            lo < 16,
            b == hi * 16 + lo,
    ;
    assert(hex_byte(b) =~= seq![c0, c1]);
}

/// No annotation has a non-digit at an inner position.
proof fn bad_digit(b: Seq<u8>, t: int)
    requires
        1 <= t,
        t + 1 < b.len(),
        hex_pair_val(b[t], b[t + 1]) is None,
    ensures
        forall|info: StreamInfo| info_encoding(info) != b,
{
    assert forall|info: StreamInfo| info_encoding(info) != b by {
        lemma_encoding_shape(info);
        if info_encoding(info) == b {
            assert(hex_val(b[t]) is Some && hex_val(b[t + 1]) is Some);
        }
    }
}

/// Read one octet from two hex digits.
fn hex_pair(c0: u8, c1: u8) -> (r: Option<u8>)
    ensures
        r == hex_pair_val(c0, c1),
{
    let hi = if 48 <= c0 && c0 <= 57 {
        c0 - 48
    } else if 97 <= c0 && c0 <= 102 {
        c0 - 87
    } else {
        return None;
    };
    let lo = if 48 <= c1 && c1 <= 57 {
        c1 - 48
    } else if 97 <= c1 && c1 <= 102 {
        c1 - 87
    } else {
        return None;
    };
    Some(hi * 16 + lo)
}

/// Write one octet as two hex digits.
fn push_hex(out: &mut Vec<u8>, b: u8)
    ensures
        final(out)@ == old(out)@ + hex_byte(b),
{
    let hi = b / 16;
    let lo = b % 16;
    out.push(
        if hi < 10 {
            48 + hi
        } else {
            87 + hi
        },
    );
    out.push(
        if lo < 10 {
            48 + lo
        } else {
            87 + lo
        },
    );
    assert(out@ =~= old(out)@ + hex_byte(b));
}

/// Annotation round-trip: decoding an encoded annotation yields it back.
pub proof fn lemma_info_roundtrip(info: StreamInfo)
    ensures
        forall|other: StreamInfo|
            info_encoding(other) == info_encoding(info) ==> other == info,
{
    assert forall|other: StreamInfo|
        info_encoding(other) == info_encoding(info) implies other == info by {
        lemma_encoding_shape(info);
        lemma_encoding_shape(other);
        let e = info_encoding(info);
        assert(kind_char(other.kind) == kind_char(info.kind));
        assert(other.kind == info.kind);
        lemma_ident_from_encoding(info);
        lemma_ident_from_encoding(other);
    }
}

/// The id (and the port, when present) can be read back off the digits.
proof fn lemma_ident_from_encoding(info: StreamInfo)
    ensures
        ({
            let e = info_encoding(info);
            let idb = u32_be(info.id);
            &&& hex_pair_val(e[1], e[2]) == Some(idb[0])
            &&& hex_pair_val(e[3], e[4]) == Some(idb[1])
            &&& hex_pair_val(e[5], e[6]) == Some(idb[2])
            &&& hex_pair_val(e[7], e[8]) == Some(idb[3])
            &&& u32_from_be(idb[0], idb[1], idb[2], idb[3]) == info.id
            &&& info.port matches Some(p) ==> hex_pair_val(e[9], e[10]) == Some(u16_be(p)[0])
                && hex_pair_val(e[11], e[12]) == Some(u16_be(p)[1]) && u16_from_be(
                u16_be(p)[0],
                u16_be(p)[1],
            ) == p
        }),
{
    let idb = u32_be(info.id);
    lemma_hex_byte(idb[0]);
    lemma_hex_byte(idb[1]);
    lemma_hex_byte(idb[2]);
    lemma_hex_byte(idb[3]);
    crate::packet::lemma_u32_be_roundtrip(info.id);
    if info.port is Some {
        let p = info.port->Some_0;
        lemma_hex_byte(u16_be(p)[0]);
        lemma_hex_byte(u16_be(p)[1]);
        crate::packet::lemma_u16_be_roundtrip(p);
    }
}

} // verus!
