//! Receiver-side dispatch: the sequence-contiguity check applied to every
//! datagram from either path, and the signal-driven lifecycle of a
//! receiver's multicast reader.

use vstd::prelude::*;

use crate::adapter::{
    queue_after_send, sat_inc, send_overflows, ReceiverAdapterView, StreamReceiverAdapter,
};
use crate::packet::remux;
use crate::packet::remux_spec;
use crate::signal::Signal;

verus! {

/// The sequence a receiver expects after seeing `seq`: the successor,
/// modulo the counter width.
pub open spec fn next_expected(seq: u64) -> u64 {
    if seq < u64::MAX {
        (seq + 1) as u64
    } else {
        0
    }
}

/// What one datagram did to the consumer adapter.
#[derive(Debug, Clone, Copy, PartialEq, Eq, Structural)]
pub enum ChunkOutcome {
    /// The payload was decoded and queued for the consumer.
    Delivered,
    /// A gap or an unparseable payload: counted on the loss counter.
    Lost,
    /// The payload decoded but the adapter is closed; nothing was queued.
    Rejected,
}

/// Process one `(sequence, bytes)` datagram against the shared sequence
/// counter: deliver the payload iff the sequence is the expected one and
/// the framing header parses; count a loss otherwise. The expected
/// sequence becomes the datagram's successor either way.
pub fn process_datagram(
    adapter: &mut StreamReceiverAdapter,
    expected: u64,
    seq: u64,
    bytes: &[u8],
) -> (r: (u64, ChunkOutcome))
    ensures
        r.0 == next_expected(seq),
        (seq == expected && remux_spec(bytes@) is Some) ==> {
            let h = remux_spec(bytes@)->Some_0;
            if old(adapter)@.closed {
                &&& r.1 is Rejected
                &&& *final(adapter) == *old(adapter)
            } else {
                &&& r.1 is Delivered
                &&& final(adapter)@ == (ReceiverAdapterView {
                    items: queue_after_send(
                        old(adapter)@.items,
                        (bytes@.skip(h.0 as int), h.1.kind, h.1.flags, h.1.timestamp),
                    ),
                    loss: if send_overflows(old(adapter)@.items) {
                        sat_inc(old(adapter)@.loss)
                    } else {
                        old(adapter)@.loss
                    },
                    ..old(adapter)@
                })
            }
        },
        !(seq == expected && remux_spec(bytes@) is Some) ==> {
            &&& r.1 is Lost
            &&& final(adapter)@ == (ReceiverAdapterView {
                loss: sat_inc(old(adapter)@.loss),
                ..old(adapter)@
            })
        },
{
    let outcome: ChunkOutcome;
    if seq == expected {
        match remux(bytes) {
            Some((offset, info)) => {
                let mut payload: Vec<u8> = Vec::new();
                let mut i: usize = offset;
                while i < bytes.len()
                    invariant
                        offset <= i <= bytes@.len(),
                        payload@ == bytes@.subrange(offset as int, i as int),
                    decreases bytes@.len() - i,
                {
                    payload.push(bytes[i]);
                    i = i + 1;
                    assert(payload@ =~= bytes@.subrange(offset as int, i as int));
                }
                assert(payload@ =~= bytes@.skip(offset as int));
                if adapter.send(payload, info.kind, info.flags, info.timestamp) {
                    outcome = ChunkOutcome::Delivered;
                } else {
                    outcome = ChunkOutcome::Rejected;
                }
            },
            None => {
                adapter.loss_pkt();
                outcome = ChunkOutcome::Lost;
            },
        }
    } else {
        adapter.loss_pkt();
        outcome = ChunkOutcome::Lost;
    }
    let next: u64 = if seq < u64::MAX {
        seq + 1
    } else {
        0
    };
    (next, outcome)
}

/// The lifecycle of one receiver's multicast reader, driven by signals
/// for its own channel id.
#[derive(Debug, Clone, Copy, PartialEq, Eq, Structural)]
pub enum ReceiverState {
    /// No multicast reader; the unicast path runs regardless.
    Idle,
    /// A multicast reader joined on this port.
    MulticastActive { port: u16 },
    /// The channel was stopped; the signal worker has exited.
    Terminal,
}

/// What the signal worker must do after a step.
#[derive(Debug, Clone, Copy, PartialEq, Eq, Structural)]
pub enum SignalAction {
    /// Nothing: the signal was for another channel, or came after the end.
    NoOp,
    /// Open (or replace) the multicast reader on this port.
    OpenReader { port: u16 },
    /// Tear down: close the adapter and the reliable socket, exit.
    Shutdown,
}

/// One step of the receiver lifecycle: a `Start` for the receiver's own
/// id opens or replaces the multicast reader, a `Stop` for it ends the
/// lifecycle, and signals for other ids change nothing. Nothing leaves
/// the terminal state.
pub open spec fn signal_step_spec(state: ReceiverState, local_id: u32, signal: Signal) -> (
    ReceiverState,
    SignalAction,
) {
    if state is Terminal {
        (ReceiverState::Terminal, SignalAction::NoOp)
    } else {
        match signal {
            Signal::Start { id, port } => if id == local_id {
                (ReceiverState::MulticastActive { port }, SignalAction::OpenReader { port })
            } else {
                (state, SignalAction::NoOp)
            },
            Signal::Stop { id } => if id == local_id {
                (ReceiverState::Terminal, SignalAction::Shutdown)
            } else {
                (state, SignalAction::NoOp)
            },
        }
    }
}

/// Apply one signal to the receiver lifecycle.
pub fn signal_step(state: ReceiverState, local_id: u32, signal: Signal) -> (r: (
    ReceiverState,
    SignalAction,
))
    ensures
        r == signal_step_spec(state, local_id, signal),
{
    match state {
        ReceiverState::Terminal => (ReceiverState::Terminal, SignalAction::NoOp),
        _ => match signal {
            Signal::Start { id, port } => {
                if id == local_id {
                    (ReceiverState::MulticastActive { port }, SignalAction::OpenReader { port })
                } else {
                    (state, SignalAction::NoOp)
                }
            },
            Signal::Stop { id } => {
                if id == local_id {
                    (ReceiverState::Terminal, SignalAction::Shutdown)
                } else {
                    (state, SignalAction::NoOp)
                }
            },
        },
    }
}

/// Once stopped, a receiver lifecycle never acts again, whatever signals
/// arrive.
pub proof fn lemma_terminal_absorbs(local_id: u32, signal: Signal)
    ensures
        signal_step_spec(ReceiverState::Terminal, local_id, signal) == (
            ReceiverState::Terminal,
            SignalAction::NoOp,
        ),
{
}

/// At most one multicast reader is active per receiver: a `Start` for the
/// receiver's own id while one is active replaces it (one `OpenReader`
/// action, which supersedes the previous reader), and a `Stop` removes it.
pub proof fn lemma_reader_replaced(port0: u16, local_id: u32, port: u16)
    ensures
        signal_step_spec(
            ReceiverState::MulticastActive { port: port0 },
            local_id,
            Signal::Start { id: local_id, port },
        ) == (ReceiverState::MulticastActive { port }, SignalAction::OpenReader { port }),
        signal_step_spec(
            ReceiverState::MulticastActive { port: port0 },
            local_id,
            Signal::Stop { id: local_id },
        ) == (ReceiverState::Terminal, SignalAction::Shutdown),
{
}

} // verus!
