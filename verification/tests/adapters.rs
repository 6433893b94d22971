use transport::adapter::{
    StreamBufferInfo, StreamReceiverAdapter, StreamSenderAdapter, ADAPTER_CAPACITY,
};
use transport::packet::StreamKind;
use transport::sender::{sender_step, SendPath};

#[test]
fn sender_adapter_is_fifo() {
    let mut adapter = StreamSenderAdapter::new(false);
    assert!(adapter.send(vec![1], StreamBufferInfo::Video(0, 10)));
    assert!(adapter.send(vec![2], StreamBufferInfo::Audio(1, 20)));
    assert!(adapter.send(vec![3], StreamBufferInfo::Video(2, 30)));
    let (buf, kind, flags, ts) = adapter.next().unwrap();
    assert_eq!((buf, kind, flags, ts), (vec![1], StreamKind::Video, 0, 10));
    let (buf, kind, flags, ts) = adapter.next().unwrap();
    assert_eq!((buf, kind, flags, ts), (vec![2], StreamKind::Audio, 1, 20));
    let (buf, kind, flags, ts) = adapter.next().unwrap();
    assert_eq!((buf, kind, flags, ts), (vec![3], StreamKind::Video, 2, 30));
}

#[test]
fn sender_adapter_overflow_drops_oldest_and_counts_loss() {
    let mut adapter = StreamSenderAdapter::new(false);
    for i in 0..ADAPTER_CAPACITY {
        assert!(adapter.send(vec![i as u8], StreamBufferInfo::Video(0, i as u64)));
    }
    assert_eq!(adapter.get_loss(), 0);
    assert!(adapter.send(vec![0xFF], StreamBufferInfo::Video(0, 999)));
    assert_eq!(adapter.get_loss(), 1);
    // The oldest frame (payload [0]) is gone; the queue starts at [1].
    let (buf, _, _, _) = adapter.next().unwrap();
    assert_eq!(buf, vec![1]);
}

#[test]
fn closed_adapter_refuses_sends_and_drains() {
    let mut adapter = StreamReceiverAdapter::new();
    assert!(adapter.send(vec![7], StreamKind::Video, 0, 1));
    adapter.close();
    adapter.close();
    assert!(!adapter.send(vec![8], StreamKind::Video, 0, 2));
    // The queued item survives the close and drains first.
    let (buf, _, _, _) = adapter.next().unwrap();
    assert_eq!(buf, vec![7]);
    assert!(adapter.next().is_none());
}

#[test]
fn receiver_adapter_counts_losses() {
    let mut adapter = StreamReceiverAdapter::new();
    assert_eq!(adapter.get_loss(), 0);
    adapter.loss_pkt();
    adapter.loss_pkt();
    assert_eq!(adapter.get_loss(), 2);
}

#[test]
fn multicast_toggle_routes_each_payload_once() {
    let mut adapter = StreamSenderAdapter::new(false);
    assert!(!adapter.get_multicast());
    assert!(adapter.send(vec![1, 1], StreamBufferInfo::Video(0, 1)));
    assert!(adapter.send(vec![2, 2], StreamBufferInfo::Video(0, 2)));
    let (framed_a, path_a) = sender_step(&mut adapter).unwrap();
    adapter.set_multicast(true);
    assert!(adapter.get_multicast());
    let (framed_b, path_b) = sender_step(&mut adapter).unwrap();
    assert_eq!(path_a, SendPath::Unicast);
    assert_eq!(path_b, SendPath::Multicast);
    assert_eq!(&framed_a[13..], &[1, 1]);
    assert_eq!(&framed_b[13..], &[2, 2]);
}

#[test]
fn sender_step_frames_the_item() {
    let mut adapter = StreamSenderAdapter::new(true);
    assert!(adapter.send(vec![0xAB, 0xCD], StreamBufferInfo::Audio(3, 500)));
    let (framed, path) = sender_step(&mut adapter).unwrap();
    assert_eq!(path, SendPath::Multicast);
    assert_eq!(framed[0], 1);
    assert_eq!(&framed[1..5], &[0, 0, 0, 3]);
    assert_eq!(&framed[5..13], &[0, 0, 0, 0, 0, 0, 1, 244]);
    assert_eq!(&framed[13..], &[0xAB, 0xCD]);
}

#[test]
fn sender_step_on_closed_empty_adapter_is_none() {
    let mut adapter = StreamSenderAdapter::new(false);
    adapter.close();
    assert!(sender_step(&mut adapter).is_none());
}
