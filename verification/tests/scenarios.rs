use transport::adapter::{StreamBufferInfo, StreamReceiverAdapter, StreamSenderAdapter};
use transport::packet::{mux, PacketInfo, StreamKind};
use transport::receiver::{process_datagram, signal_step, ChunkOutcome, ReceiverState, SignalAction};
use transport::route::{ChangeFeeds, Route};
use transport::sender::{sender_step, SendPath};
use transport::signal::Signal;

fn framed(flags: u32, timestamp: u64, payload: &[u8]) -> Vec<u8> {
    mux(PacketInfo { kind: StreamKind::Video, flags, timestamp }, payload)
}

#[test]
fn lone_publisher_delivers_exactly_once() {
    // One payload through the full framing path: the producer hands
    // (payload, Video, flags 1, ts 1000) in, the consumer adapter gets
    // exactly that back, once.
    let mut producer = StreamSenderAdapter::new(false);
    assert!(producer.send(vec![0xAA; 16], StreamBufferInfo::Video(1, 1000)));
    let (framed, path) = sender_step(&mut producer).unwrap();
    assert_eq!(path, SendPath::Unicast);

    let mut consumer = StreamReceiverAdapter::new();
    let (_, outcome) = process_datagram(&mut consumer, 0, 0, &framed);
    assert_eq!(outcome, ChunkOutcome::Delivered);
    let (buf, kind, flags, ts) = consumer.next().unwrap();
    assert_eq!((buf, kind, flags, ts), (vec![0xAA; 16], StreamKind::Video, 1, 1000));
    consumer.close();
    assert!(consumer.next().is_none());
}

#[test]
fn two_subscribers_receive_all_three_in_order() {
    // Multicast fan-out: both subscribers see the same sequenced
    // datagrams; each delivers all three in order with zero loss.
    let mut producer = StreamSenderAdapter::new(true);
    let mut datagrams = Vec::new();
    for (seq, payload) in [vec![1u8], vec![2], vec![3]].into_iter().enumerate() {
        assert!(producer.send(payload, StreamBufferInfo::Video(0, seq as u64)));
        let (framed, path) = sender_step(&mut producer).unwrap();
        assert_eq!(path, SendPath::Multicast);
        datagrams.push((seq as u64, framed));
    }
    for _ in 0..2 {
        let mut subscriber = StreamReceiverAdapter::new();
        let mut expected = 0u64;
        for (seq, bytes) in datagrams.iter() {
            let (next, outcome) = process_datagram(&mut subscriber, expected, *seq, bytes);
            assert_eq!(outcome, ChunkOutcome::Delivered);
            expected = next;
        }
        assert_eq!(subscriber.get_loss(), 0);
        for want in [vec![1u8], vec![2], vec![3]] {
            let (buf, _, _, _) = subscriber.next().unwrap();
            assert_eq!(buf, want);
        }
    }
}

#[test]
fn subscriber_joining_late_sees_start_and_opens_reader() {
    // The publisher registered id 9 before the subscriber connected: the
    // snapshot replays the Start, and the signal worker opens the reader.
    let mut route = Route::new();
    route.set_channel(9, 4100);
    let snapshot = route.snapshot();
    assert_eq!(snapshot, vec![Signal::Start { id: 9, port: 4100 }]);

    let mut state = ReceiverState::Idle;
    let mut opened = None;
    for signal in snapshot {
        let (next, action) = signal_step(state, 9, signal);
        state = next;
        if let SignalAction::OpenReader { port } = action {
            opened = Some(port);
        }
    }
    assert_eq!(opened, Some(4100));
    assert_eq!(state, ReceiverState::MulticastActive { port: 4100 });
}

#[test]
fn publisher_disconnect_stops_every_subscriber() {
    // The rendezvous drops the channel and fans Stop out; each
    // subscriber's signal worker exits and closes its adapter, whose
    // next() then reports the end.
    let mut route = Route::new();
    let mut feeds = ChangeFeeds::new();
    route.set_channel(3, 4200);
    let a = feeds.subscribe();
    let b = feeds.subscribe();
    let stop = route.remove_channel(3).unwrap();
    feeds.broadcast(stop);
    for w in [a, b] {
        let mut state = ReceiverState::MulticastActive { port: 4200 };
        let mut adapter = StreamReceiverAdapter::new();
        while let Some(signal) = feeds.take(w) {
            let (next, action) = signal_step(state, 3, signal);
            state = next;
            if action == SignalAction::Shutdown {
                adapter.close();
            }
        }
        assert_eq!(state, ReceiverState::Terminal);
        assert!(adapter.next().is_none());
    }
}

#[test]
fn change_feeds_preserve_arrival_order() {
    let mut feeds = ChangeFeeds::new();
    let w = feeds.subscribe();
    feeds.broadcast(Signal::Start { id: 1, port: 10 });
    feeds.broadcast(Signal::Stop { id: 1 });
    feeds.broadcast(Signal::Start { id: 2, port: 20 });
    assert_eq!(feeds.take(w), Some(Signal::Start { id: 1, port: 10 }));
    assert_eq!(feeds.take(w), Some(Signal::Stop { id: 1 }));
    assert_eq!(feeds.take(w), Some(Signal::Start { id: 2, port: 20 }));
    assert_eq!(feeds.take(w), None);
}

#[test]
fn late_subscriber_feed_misses_nothing_after_snapshot() {
    let mut feeds = ChangeFeeds::new();
    feeds.broadcast(Signal::Start { id: 1, port: 10 });
    // A connection subscribing now takes its snapshot from the registry;
    // its feed holds only what happens afterwards.
    let w = feeds.subscribe();
    assert_eq!(feeds.take(w), None);
    feeds.broadcast(Signal::Stop { id: 1 });
    assert_eq!(feeds.take(w), Some(Signal::Stop { id: 1 }));
}

#[test]
fn sequence_wraps_at_the_counter_top() {
    let mut adapter = StreamReceiverAdapter::new();
    let bytes = framed(0, 0, &[1]);
    let (next, outcome) = process_datagram(&mut adapter, u64::MAX, u64::MAX, &bytes);
    assert_eq!(outcome, ChunkOutcome::Delivered);
    assert_eq!(next, 0);
}
