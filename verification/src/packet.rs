//! Per-payload framing: a fixed 13-byte header carrying the stream kind,
//! producer flags and a monotonic timestamp, followed by the opaque payload.
//!
//! Header layout (big-endian):
//!   offset 0..1   kind (u8)
//!   offset 1..5   flags (u32)
//!   offset 5..13  timestamp (u64)

use vstd::prelude::*;

verus! {

/// Number of octets in the framing header.
pub const HEADER_LEN: usize = 13;

/// The kind of stream a payload belongs to. Wire-encoded as one octet:
/// 0 for video, 1 for audio.
#[derive(Debug, Clone, Copy, PartialEq, Eq, Structural)]
pub enum StreamKind {
    Video,
    Audio,
}

impl StreamKind {
    /// The single-octet wire encoding of this kind.
    pub open spec fn spec_byte(self) -> u8 {
        match self {
            StreamKind::Video => 0,
            StreamKind::Audio => 1,
        }
    }

    /// Which octets decode to a known kind.
    pub open spec fn spec_from_byte(b: u8) -> Option<StreamKind> {
        if b == 0 {
            Some(StreamKind::Video)
        } else if b == 1 {
            Some(StreamKind::Audio)
        } else {
            None
        }
    }

    pub fn to_byte(self) -> (r: u8)
        ensures
            r == self.spec_byte(),
    {
        match self {
            StreamKind::Video => 0,
            StreamKind::Audio => 1,
        }
    }

    pub fn from_byte(b: u8) -> (r: Option<StreamKind>)
        ensures
            r == StreamKind::spec_from_byte(b),
    {
        if b == 0 {
            Some(StreamKind::Video)
        } else if b == 1 {
            Some(StreamKind::Audio)
        } else {
            None
        }
    }
}

/// Per-payload metadata carried by the framing header. The transport does
/// not interpret `flags` or `timestamp`; they are producer hints.
#[derive(Debug, Clone, Copy, PartialEq, Eq, Structural)]
pub struct PacketInfo {
    pub kind: StreamKind,
    pub flags: u32,
    pub timestamp: u64,
}

/// Big-endian octets of a `u32`.
pub open spec fn u32_be(x: u32) -> Seq<u8> {
    seq![(x >> 24) as u8, (x >> 16) as u8, (x >> 8) as u8, x as u8]
}

/// Big-endian octets of a `u16`.
pub open spec fn u16_be(x: u16) -> Seq<u8> {
    seq![(x >> 8) as u8, x as u8]
}

/// Big-endian octets of a `u64`.
pub open spec fn u64_be(x: u64) -> Seq<u8> {
    seq![
        (x >> 56) as u8,
        (x >> 48) as u8,
        (x >> 40) as u8,
        (x >> 32) as u8,
        (x >> 24) as u8,
        (x >> 16) as u8,
        (x >> 8) as u8,
        x as u8,
    ]
}

/// The `u32` whose big-endian octets are `b0 b1 b2 b3`.
pub open spec fn u32_from_be(b0: u8, b1: u8, b2: u8, b3: u8) -> u32 {
    ((b0 as u32) << 24) | ((b1 as u32) << 16) | ((b2 as u32) << 8) | (b3 as u32)
}

/// The `u16` whose big-endian octets are `b0 b1`.
pub open spec fn u16_from_be(b0: u8, b1: u8) -> u16 {
    ((b0 as u16) << 8) | (b1 as u16)
}

/// The `u64` whose big-endian octets are `b0 .. b7`.
pub open spec fn u64_from_be(
    b0: u8,
    b1: u8,
    b2: u8,
    b3: u8,
    b4: u8,
    b5: u8,
    b6: u8,
    b7: u8,
) -> u64 {
    ((b0 as u64) << 56) | ((b1 as u64) << 48) | ((b2 as u64) << 40) | ((b3 as u64) << 32)
        | ((b4 as u64) << 24) | ((b5 as u64) << 16) | ((b6 as u64) << 8) | (b7 as u64)
}

pub proof fn lemma_u16_be_roundtrip(x: u16)
    ensures
        u16_from_be(u16_be(x)[0], u16_be(x)[1]) == x,
{
    let b0 = (x >> 8) as u8;
    let b1 = x as u8;
    assert((((x >> 8) as u8 as u16) << 8) | (x as u8 as u16) == x) by (bit_vector);
}

pub proof fn lemma_u32_be_roundtrip(x: u32)
    ensures
        u32_from_be(u32_be(x)[0], u32_be(x)[1], u32_be(x)[2], u32_be(x)[3]) == x,
{
    assert((((x >> 24) as u8 as u32) << 24) | (((x >> 16) as u8 as u32) << 16)
        | (((x >> 8) as u8 as u32) << 8) | (x as u8 as u32) == x) by (bit_vector);
}

pub proof fn lemma_u64_be_roundtrip(x: u64)
    ensures
        u64_from_be(
            u64_be(x)[0],
            u64_be(x)[1],
            u64_be(x)[2],
            u64_be(x)[3],
            u64_be(x)[4],
            u64_be(x)[5],
            u64_be(x)[6],
            u64_be(x)[7],
        ) == x,
{
    assert((((x >> 56) as u8 as u64) << 56) | (((x >> 48) as u8 as u64) << 48)
        | (((x >> 40) as u8 as u64) << 40) | (((x >> 32) as u8 as u64) << 32)
        | (((x >> 24) as u8 as u64) << 24) | (((x >> 16) as u8 as u64) << 16)
        | (((x >> 8) as u8 as u64) << 8) | (x as u8 as u64) == x) by (bit_vector);
}

pub proof fn lemma_u16_from_be_bytes(b0: u8, b1: u8)
    ensures
        u16_be(u16_from_be(b0, b1)) == seq![b0, b1],
{
    let x = u16_from_be(b0, b1);
    assert((((b0 as u16) << 8 | (b1 as u16)) >> 8) as u8 == b0) by (bit_vector);
    assert(((b0 as u16) << 8 | (b1 as u16)) as u8 == b1) by (bit_vector);
    assert(u16_be(x) =~= seq![b0, b1]);
}

pub proof fn lemma_u32_from_be_bytes(b0: u8, b1: u8, b2: u8, b3: u8)
    ensures
        u32_be(u32_from_be(b0, b1, b2, b3)) == seq![b0, b1, b2, b3],
{
    let x = u32_from_be(b0, b1, b2, b3);
    assert(((((b0 as u32) << 24) | ((b1 as u32) << 16) | ((b2 as u32) << 8) | (b3 as u32)) >> 24)
        as u8 == b0 && ((((b0 as u32) << 24) | ((b1 as u32) << 16) | ((b2 as u32) << 8) | (
    b3 as u32)) >> 16) as u8 == b1 && ((((b0 as u32) << 24) | ((b1 as u32) << 16) | ((
    b2 as u32) << 8) | (b3 as u32)) >> 8) as u8 == b2 && (((b0 as u32) << 24) | ((b1 as u32)
        << 16) | ((b2 as u32) << 8) | (b3 as u32)) as u8 == b3) by (bit_vector);
    assert(u32_be(x) =~= seq![b0, b1, b2, b3]);
}

/// The header octets for the given metadata.
pub open spec fn header_bytes(info: PacketInfo) -> Seq<u8> {
    seq![info.kind.spec_byte()] + u32_be(info.flags) + u64_be(info.timestamp)
}

/// The whole framed payload: header, then the opaque bytes.
pub open spec fn mux_spec(info: PacketInfo, payload: Seq<u8>) -> Seq<u8> {
    header_bytes(info) + payload
}

/// What `remux` recovers from a byte string: `None` for anything shorter
/// than the header or with an unknown kind octet, else the header length
/// and the decoded metadata.
pub open spec fn remux_spec(b: Seq<u8>) -> Option<(usize, PacketInfo)> {
    if b.len() < HEADER_LEN {
        None
    } else {
        match StreamKind::spec_from_byte(b[0]) {
            None => None,
            Some(kind) => Some(
                (
                    HEADER_LEN,
                    PacketInfo {
                        kind,
                        flags: u32_from_be(b[1], b[2], b[3], b[4]),
                        timestamp: u64_from_be(
                            b[5],
                            b[6],
                            b[7],
                            b[8],
                            b[9],
                            b[10],
                            b[11],
                            b[12],
                        ),
                    },
                ),
            ),
        }
    }
}

/// Frame a payload: allocate `13 + |payload|` octets, write the header,
/// append the payload. Pure; no failure mode.
pub fn mux(info: PacketInfo, payload: &[u8]) -> (r: Vec<u8>)
    requires
        payload@.len() + HEADER_LEN <= usize::MAX,
    ensures
        r@ == mux_spec(info, payload@),
        r@.len() == HEADER_LEN + payload@.len(),
{
    let mut out: Vec<u8> = Vec::with_capacity(HEADER_LEN + payload.len());
    out.push(info.kind.to_byte());
    out.push(#[verifier::truncate] ((info.flags >> 24) as u8));
    out.push(#[verifier::truncate] ((info.flags >> 16) as u8));
    out.push(#[verifier::truncate] ((info.flags >> 8) as u8));
    out.push(#[verifier::truncate] (info.flags as u8));
    out.push(#[verifier::truncate] ((info.timestamp >> 56) as u8));
    out.push(#[verifier::truncate] ((info.timestamp >> 48) as u8));
    out.push(#[verifier::truncate] ((info.timestamp >> 40) as u8));
    out.push(#[verifier::truncate] ((info.timestamp >> 32) as u8));
    out.push(#[verifier::truncate] ((info.timestamp >> 24) as u8));
    out.push(#[verifier::truncate] ((info.timestamp >> 16) as u8));
    out.push(#[verifier::truncate] ((info.timestamp >> 8) as u8));
    out.push(#[verifier::truncate] (info.timestamp as u8));
    assert(out@ =~= header_bytes(info));
    let mut i: usize = 0;
    while i < payload.len()
        invariant
            i <= payload@.len(),
            out@ == header_bytes(info) + payload@.subrange(0, i as int),
        decreases payload@.len() - i,
    {
        out.push(payload[i]);
        i = i + 1;
        assert(out@ =~= header_bytes(info) + payload@.subrange(0, i as int));
    }
    assert(payload@.subrange(0, payload@.len() as int) =~= payload@);
    out
}

/// Strip the framing header: `None` if the input is shorter than 13 octets
/// or its kind octet is unknown (callers treat both as packet loss), else
/// the header length and the decoded metadata.
pub fn remux(bytes: &[u8]) -> (r: Option<(usize, PacketInfo)>)
    ensures
        r == remux_spec(bytes@),
{
    if bytes.len() < HEADER_LEN {
        return None;
    }
    let kind = match StreamKind::from_byte(bytes[0]) {
        Some(kind) => kind,
        None => {
            return None;
        },
    };
    let flags = ((bytes[1] as u32) << 24) | ((bytes[2] as u32) << 16) | ((bytes[3] as u32) << 8)
        | (bytes[4] as u32);
    let timestamp = ((bytes[5] as u64) << 56) | ((bytes[6] as u64) << 48)
        | ((bytes[7] as u64) << 40) | ((bytes[8] as u64) << 32) | ((bytes[9] as u64) << 24)
        | ((bytes[10] as u64) << 16) | ((bytes[11] as u64) << 8) | (bytes[12] as u64);
    Some((HEADER_LEN, PacketInfo { kind, flags, timestamp }))
}

/// Framing round-trip: remuxing a framed payload recovers exactly the
/// header length and the original metadata, the bytes past the header are
/// the original payload, and any byte string shorter than the header
/// remuxes to `None`.
pub proof fn lemma_mux_roundtrip(info: PacketInfo, payload: Seq<u8>)
    ensures
        remux_spec(mux_spec(info, payload)) == Some((HEADER_LEN, info)),
        mux_spec(info, payload).skip(HEADER_LEN as int) == payload,
{
    let b = mux_spec(info, payload);
    assert(b.len() == 13 + payload.len());
    assert(b[0] == info.kind.spec_byte());
    lemma_u32_be_roundtrip(info.flags);
    lemma_u64_be_roundtrip(info.timestamp);
    assert(StreamKind::spec_from_byte(info.kind.spec_byte()) == Some(info.kind));
    assert(b[1] == u32_be(info.flags)[0]);
    assert(b[2] == u32_be(info.flags)[1]);
    assert(b[3] == u32_be(info.flags)[2]);
    assert(b[4] == u32_be(info.flags)[3]);
    assert(b[5] == u64_be(info.timestamp)[0]);
    assert(b[6] == u64_be(info.timestamp)[1]);
    assert(b[7] == u64_be(info.timestamp)[2]);
    assert(b[8] == u64_be(info.timestamp)[3]);
    assert(b[9] == u64_be(info.timestamp)[4]);
    assert(b[10] == u64_be(info.timestamp)[5]);
    assert(b[11] == u64_be(info.timestamp)[6]);
    assert(b[12] == u64_be(info.timestamp)[7]);
    assert(b.skip(HEADER_LEN as int) =~= payload);
}

/// Short inputs never remux.
pub proof fn lemma_remux_short(b: Seq<u8>)
    requires
        b.len() < HEADER_LEN,
    ensures
        remux_spec(b) is None,
{
}

} // verus!
