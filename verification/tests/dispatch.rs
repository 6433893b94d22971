use transport::adapter::StreamReceiverAdapter;
use transport::client::SignalClient;
use transport::packet::{mux, PacketInfo, StreamKind};
use transport::receiver::{process_datagram, signal_step, ChunkOutcome, ReceiverState, SignalAction};
use transport::route::Route;
use transport::signal::Signal;
use transport::stream_info::{SocketKind, StreamInfo};
use transport::transport::{
    Ipv4Address, SocketAddress, Transport, TransportError, TransportOptions,
};

fn options() -> TransportOptions {
    TransportOptions {
        server: SocketAddress { ip: Ipv4Address { a: 127, b: 0, c: 0, d: 1 }, port: 9000 },
        multicast: Ipv4Address { a: 239, b: 0, c: 0, d: 1 },
        mtu: 1500,
    }
}

fn framed(kind: StreamKind, flags: u32, timestamp: u64, payload: &[u8]) -> Vec<u8> {
    mux(PacketInfo { kind, flags, timestamp }, payload)
}

#[test]
fn gap_detection_counts_one_loss_and_realigns() {
    // Sequence stream 0, 1, 3, 4: deliveries at 0, 1 and 4, one loss at 3.
    let mut adapter = StreamReceiverAdapter::new();
    let mut expected: u64 = 0;
    let mut outcomes = Vec::new();
    for seq in [0u64, 1, 3, 4] {
        let bytes = framed(StreamKind::Video, 0, seq, &[seq as u8]);
        let (next, outcome) = process_datagram(&mut adapter, expected, seq, &bytes);
        expected = next;
        outcomes.push(outcome);
    }
    assert_eq!(
        outcomes,
        vec![
            ChunkOutcome::Delivered,
            ChunkOutcome::Delivered,
            ChunkOutcome::Lost,
            ChunkOutcome::Delivered,
        ],
    );
    assert_eq!(adapter.get_loss(), 1);
    assert_eq!(expected, 5);
    let (buf, _, _, ts) = adapter.next().unwrap();
    assert_eq!((buf, ts), (vec![0], 0));
    let (buf, _, _, ts) = adapter.next().unwrap();
    assert_eq!((buf, ts), (vec![1], 1));
    let (buf, _, _, ts) = adapter.next().unwrap();
    assert_eq!((buf, ts), (vec![4], 4));
}

#[test]
fn malformed_frame_counts_exactly_one_loss() {
    // A 10-byte datagram cannot carry the 13-byte header: loss, session open.
    let mut adapter = StreamReceiverAdapter::new();
    let (next, outcome) = process_datagram(&mut adapter, 0, 0, &[0xAA; 10]);
    assert_eq!(outcome, ChunkOutcome::Lost);
    assert_eq!(adapter.get_loss(), 1);
    assert_eq!(next, 1);
    assert!(!adapter.is_closed());
}

#[test]
fn delivery_carries_metadata_and_payload() {
    let mut adapter = StreamReceiverAdapter::new();
    let bytes = framed(StreamKind::Video, 1, 1000, &[0xAA; 16]);
    let (_, outcome) = process_datagram(&mut adapter, 0, 0, &bytes);
    assert_eq!(outcome, ChunkOutcome::Delivered);
    let (buf, kind, flags, ts) = adapter.next().unwrap();
    assert_eq!((buf, kind, flags, ts), (vec![0xAA; 16], StreamKind::Video, 1, 1000));
}

#[test]
fn signal_worker_lifecycle() {
    let local_id = 7;
    // A Start for another channel is a no-op in Idle.
    let (state, action) = signal_step(ReceiverState::Idle, local_id, Signal::Start { id: 9, port: 1 });
    assert_eq!(state, ReceiverState::Idle);
    assert_eq!(action, SignalAction::NoOp);
    // A Start for our channel opens the reader.
    let (state, action) = signal_step(state, local_id, Signal::Start { id: 7, port: 4000 });
    assert_eq!(state, ReceiverState::MulticastActive { port: 4000 });
    assert_eq!(action, SignalAction::OpenReader { port: 4000 });
    // A second Start replaces the reader.
    let (state, action) = signal_step(state, local_id, Signal::Start { id: 7, port: 4001 });
    assert_eq!(state, ReceiverState::MulticastActive { port: 4001 });
    assert_eq!(action, SignalAction::OpenReader { port: 4001 });
    // Stop for our channel tears down; afterwards nothing acts.
    let (state, action) = signal_step(state, local_id, Signal::Stop { id: 7 });
    assert_eq!(state, ReceiverState::Terminal);
    assert_eq!(action, SignalAction::Shutdown);
    let (state, action) = signal_step(state, local_id, Signal::Start { id: 7, port: 5 });
    assert_eq!(state, ReceiverState::Terminal);
    assert_eq!(action, SignalAction::NoOp);
}

#[test]
fn registry_snapshot_announces_each_channel_once() {
    let mut route = Route::new();
    assert_eq!(route.set_channel(9, 4000), Signal::Start { id: 9, port: 4000 });
    assert_eq!(route.set_channel(11, 4001), Signal::Start { id: 11, port: 4001 });
    // Replacing a publisher keeps a single entry.
    assert_eq!(route.set_channel(9, 4002), Signal::Start { id: 9, port: 4002 });
    assert_eq!(route.len(), 2);
    let snapshot = route.snapshot();
    assert_eq!(snapshot.len(), 2);
    assert!(snapshot.contains(&Signal::Start { id: 9, port: 4002 }));
    assert!(snapshot.contains(&Signal::Start { id: 11, port: 4001 }));
    assert_eq!(route.get_channel(9), Some(4002));
    assert_eq!(route.get_channel(11), Some(4001));
    assert_eq!(route.get_channel(12), None);
}

#[test]
fn registry_remove_emits_stop_only_when_present() {
    let mut route = Route::new();
    route.set_channel(5, 100);
    assert_eq!(route.remove_channel(5), Some(Signal::Stop { id: 5 }));
    assert_eq!(route.remove_channel(5), None);
    assert_eq!(route.get_channel(5), None);
}

#[test]
fn signal_client_accumulates_partial_frames() {
    let mut client = SignalClient::new();
    let encoded = Signal::Start { id: 9, port: 4000 }.encode();
    client.push_bytes(&encoded[..4]);
    assert_eq!(client.poll(), None);
    assert_eq!(client.buffered(), 4);
    client.push_bytes(&encoded[4..]);
    assert_eq!(client.poll(), Some(Signal::Start { id: 9, port: 4000 }));
    assert_eq!(client.buffered(), 0);
    assert_eq!(client.poll(), None);
}

#[test]
fn signal_client_skips_malformed_frames() {
    let mut client = SignalClient::new();
    // A complete frame with declared length 4 and a bogus body, then a
    // nonsense length below the prefix size, then a real signal.
    client.push_bytes(&[0, 4, 9, 9]);
    client.push_bytes(&[0, 1]);
    let encoded = Signal::Stop { id: 3 }.encode();
    client.push_bytes(&encoded);
    assert_eq!(client.poll(), Some(Signal::Stop { id: 3 }));
    assert_eq!(client.buffered(), 0);
}

#[test]
fn signal_client_decodes_back_to_back_frames() {
    let mut client = SignalClient::new();
    let mut stream = Signal::Start { id: 1, port: 2 }.encode();
    stream.extend_from_slice(&Signal::Stop { id: 1 }.encode());
    client.push_bytes(&stream);
    assert_eq!(client.poll(), Some(Signal::Start { id: 1, port: 2 }));
    assert_eq!(client.poll(), Some(Signal::Stop { id: 1 }));
    assert_eq!(client.poll(), None);
}

#[test]
fn transport_rejects_bad_configuration() {
    let mut bad_group = options();
    bad_group.multicast = Ipv4Address { a: 10, b: 0, c: 0, d: 1 };
    assert!(matches!(Transport::new(bad_group), Err(TransportError::Config)));
    let mut bad_mtu = options();
    bad_mtu.mtu = 0;
    assert!(matches!(Transport::new(bad_mtu), Err(TransportError::Config)));
    assert!(Transport::new(options()).is_ok());
}

#[test]
fn transport_assigns_and_removes_inbox_keys() {
    let mut transport = Transport::new(options()).unwrap();
    let a = transport.register_receiver();
    let b = transport.register_receiver();
    let c = transport.register_receiver();
    assert_eq!((a, b, c), (0, 1, 2));
    let keys = transport.channel_keys();
    assert_eq!(keys, vec![0, 1, 2]);
    transport.remove_dead(&vec![0, 2]);
    assert_eq!(transport.channel_keys(), vec![1]);
}

#[test]
fn connect_options_carry_the_annotation() {
    let transport = Transport::new(options()).unwrap();
    let sender = transport.sender_options(7, 9000);
    assert_eq!(sender.latency, 20);
    assert_eq!(sender.mtu, 1500);
    assert_eq!(
        sender.stream_id,
        StreamInfo { id: 7, kind: SocketKind::Publisher, port: Some(9000) }.encode(),
    );
    let receiver = transport.receiver_options(7);
    assert_eq!(receiver.latency, 20);
    assert_eq!(
        receiver.stream_id,
        StreamInfo { id: 7, kind: SocketKind::Subscriber, port: None }.encode(),
    );
}

#[test]
fn capture_brackets_always_succeed() {
    assert!(transport::capture::startup().is_ok());
    assert!(transport::capture::shutdown().is_ok());
}
