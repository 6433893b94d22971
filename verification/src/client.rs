//! The signal client's accumulator: the long-lived rendezvous connection
//! hands it raw reads, and it yields one decoded `Signal` at a time.
//!
//! The buffer is a `bytes::BytesMut`, kept behind a small trusted surface
//! whose contracts state what the crate's source shows about each call.
//! A malformed frame is skipped past its declared length (a nonsense
//! length below the prefix's own size is skipped by the prefix), so the
//! client never spins on the same bytes.

use vstd::prelude::*;

use bytes::BytesMut;

use crate::packet::u16_from_be;
use crate::signal::{decode_spec, parse_payload, Signal};

verus! {

#[verifier::external_type_specification]
#[verifier::external_body]
pub struct ExBytesMut(BytesMut);

/// The octets a `BytesMut` holds, front to back.
pub uninterp spec fn bytes_mut_contents(b: BytesMut) -> Seq<u8>;

/// Relies on `BytesMut::new`: a fresh buffer holds no bytes.
#[verifier::external_body]
fn bytes_mut_new() -> (r: BytesMut)
    ensures
        bytes_mut_contents(r) == Seq::<u8>::empty(),
{
    BytesMut::new()
}

/// Relies on `BytesMut::len`: the number of bytes held.
#[verifier::external_body]
fn bytes_mut_len(b: &BytesMut) -> (r: usize)
    ensures
        r == bytes_mut_contents(*b).len(),
{
    b.len()
}

/// Relies on `BytesMut::extend_from_slice`: appends the slice at the back.
#[verifier::external_body]
fn bytes_mut_extend(b: &mut BytesMut, data: &[u8])
    ensures
        bytes_mut_contents(*final(b)) == bytes_mut_contents(*old(b)) + data@,
{
    b.extend_from_slice(data);
}

/// Relies on `BytesMut::split_to`: splits off and discards the first `at`
/// bytes, keeping the rest (panics if `at` exceeds the length, so that is
/// required away).
#[verifier::external_body]
fn bytes_mut_advance(b: &mut BytesMut, at: usize)
    requires
        at <= bytes_mut_contents(*old(b)).len(),
    ensures
        bytes_mut_contents(*final(b)) == bytes_mut_contents(*old(b)).skip(at as int),
{
    let _ = b.split_to(at);
}

/// Relies on `BytesMut`'s `AsRef<[u8]>`: a view of exactly the held bytes.
#[verifier::external_body]
fn bytes_mut_as_slice(b: &BytesMut) -> (r: &[u8])
    ensures
        r@ == bytes_mut_contents(*b),
{
    b.as_ref()
}

/// What polling a buffer yields: the remaining bytes and at most one
/// signal. Waits (changing nothing) while fewer than three octets are
/// buffered or the declared frame is not yet complete; skips a malformed
/// frame by its declared length (or by the two prefix octets, if the
/// declared length is shorter than the prefix itself) and looks again.
pub open spec fn poll_spec(b: Seq<u8>) -> (Seq<u8>, Option<Signal>)
    decreases b.len(),
{
    if b.len() < 3 {
        (b, None)
    } else {
        let size = u16_from_be(b[0], b[1]) as int;
        if size < 2 {
            poll_spec(b.skip(2))
        } else if b.len() < size {
            (b, None)
        } else if parse_payload(b.subrange(2, size)) is Some {
            (b.skip(size), Some(parse_payload(b.subrange(2, size))->Some_0))
        } else {
            poll_spec(b.skip(size))
        }
    }
}

/// Where a whole well-formed frame is buffered, polling consumes exactly
/// what `decode` says and yields its signal.
pub proof fn lemma_poll_decode(b: Seq<u8>)
    requires
        decode_spec(b) is Some,
    ensures
        poll_spec(b) == (b.skip(decode_spec(b)->Some_0.0 as int), Some(decode_spec(b)->Some_0.1)),
{
}

/// The accumulator between the rendezvous TCP stream and the decoded
/// signal stream.
pub struct SignalClient {
    buf: BytesMut,
}

impl View for SignalClient {
    type V = Seq<u8>;

    closed spec fn view(&self) -> Seq<u8> {
        bytes_mut_contents(self.buf)
    }
}

impl SignalClient {
    /// An empty accumulator.
    pub fn new() -> (r: Self)
        ensures
            r@ == Seq::<u8>::empty(),
    {
        SignalClient { buf: bytes_mut_new() }
    }

    /// Buffer one raw read from the rendezvous connection.
    pub fn push_bytes(&mut self, data: &[u8])
        ensures
            final(self)@ == old(self)@ + data@,
    {
        bytes_mut_extend(&mut self.buf, data);
    }

    /// How many octets are waiting.
    pub fn buffered(&self) -> (r: usize)
        ensures
            r == self@.len(),
    {
        bytes_mut_len(&self.buf)
    }

    /// Extract the next signal, if a whole frame is buffered: exactly
    /// `poll_spec` on the buffered bytes.
    pub fn poll(&mut self) -> (r: Option<Signal>)
        ensures
            (final(self)@, r) == poll_spec(old(self)@),
    {
        loop
            invariant
                poll_spec(self@) == poll_spec(old(self)@),
            decreases self@.len(),
        {
            let len = bytes_mut_len(&self.buf);
            if len < 3 {
                return None;
            }
            let size: usize;
            let parsed: Option<(usize, Signal)>;
            {
                let s = bytes_mut_as_slice(&self.buf);
                size = (((s[0] as u16) << 8) | (s[1] as u16)) as usize;
                parsed = Signal::decode(s);
            }
            if size < 2 {
                bytes_mut_advance(&mut self.buf, 2);
            } else if len < size {
                return None;
            } else {
                match parsed {
                    Some((consumed, sig)) => {
                        proof {
                            lemma_poll_decode(bytes_mut_contents(self.buf));
                        }
                        bytes_mut_advance(&mut self.buf, consumed);
                        return Some(sig);
                    },
                    None => {
                        proof {
                            let b = bytes_mut_contents(self.buf);
                            assert(parse_payload(b.subrange(2, size as int)) is None);
                        }
                        bytes_mut_advance(&mut self.buf, size);
                    },
                }
            }
        }
    }
}

} // verus!
