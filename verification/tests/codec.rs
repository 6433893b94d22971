use transport::adapter::StreamBufferInfo;
use transport::packet::{mux, remux, PacketInfo, StreamKind, HEADER_LEN};
use transport::signal::Signal;
use transport::stream_info::{SocketKind, StreamInfo};

#[test]
fn mux_writes_fixed_header() {
    let info = PacketInfo { kind: StreamKind::Video, flags: 1, timestamp: 1000 };
    let payload = vec![0xAA; 16];
    let framed = mux(info, &payload);
    assert_eq!(framed.len(), HEADER_LEN + 16);
    assert_eq!(&framed[..13], &[0, 0, 0, 0, 1, 0, 0, 0, 0, 0, 0, 3, 232]);
    assert_eq!(&framed[13..], &payload[..]);
}

#[test]
fn mux_remux_roundtrip() {
    let info = PacketInfo { kind: StreamKind::Audio, flags: 0xDEADBEEF, timestamp: u64::MAX - 7 };
    let payload = vec![1, 2, 3, 4, 5];
    let framed = mux(info, &payload);
    let (offset, parsed) = remux(&framed).expect("framed payload must remux");
    assert_eq!(offset, 13);
    assert_eq!(parsed, info);
    assert_eq!(&framed[offset..], &payload[..]);
}

#[test]
fn remux_rejects_short_input() {
    assert!(remux(&[0xAA; 10]).is_none());
    assert!(remux(&[]).is_none());
    assert!(remux(&[0; 12]).is_none());
}

#[test]
fn remux_rejects_unknown_kind() {
    let mut framed = mux(
        PacketInfo { kind: StreamKind::Video, flags: 0, timestamp: 0 },
        &[9, 9],
    );
    framed[0] = 2;
    assert!(remux(&framed).is_none());
}

#[test]
fn signal_start_encoding_is_length_prefixed() {
    let encoded = Signal::Start { id: 7, port: 9000 }.encode();
    assert_eq!(encoded, vec![0, 9, 0, 0, 0, 0, 7, 0x23, 0x28]);
}

#[test]
fn signal_stop_encoding_is_length_prefixed() {
    let encoded = Signal::Stop { id: 9 }.encode();
    assert_eq!(encoded, vec![0, 7, 1, 0, 0, 0, 9]);
}

#[test]
fn signal_roundtrip() {
    for sig in [
        Signal::Start { id: 0, port: 0 },
        Signal::Start { id: u32::MAX, port: u16::MAX },
        Signal::Stop { id: 42 },
        Signal::Stop { id: u32::MAX },
    ] {
        let encoded = sig.encode();
        let (consumed, decoded) = Signal::decode(&encoded).expect("roundtrip must decode");
        assert_eq!(consumed, encoded.len());
        assert_eq!(decoded, sig);
    }
}

#[test]
fn signal_decode_waits_on_prefixes() {
    let encoded = Signal::Start { id: 1234, port: 5678 }.encode();
    for cut in 0..encoded.len() {
        assert!(Signal::decode(&encoded[..cut]).is_none());
    }
}

#[test]
fn signal_decode_rejects_malformed_payload() {
    // Declared length 5, bogus tag.
    assert!(Signal::decode(&[0, 5, 9, 9, 9]).is_none());
    // Start tag with a Stop-sized body.
    assert!(Signal::decode(&[0, 7, 0, 0, 0, 0, 7]).is_none());
}

#[test]
fn stream_info_publisher_annotation_is_printable() {
    let info = StreamInfo { id: 42, kind: SocketKind::Publisher, port: Some(9000) };
    let encoded = info.encode();
    assert_eq!(encoded, b"p0000002a2328".to_vec());
}

#[test]
fn stream_info_subscriber_annotation_has_no_port() {
    let info = StreamInfo { id: 0xDEADBEEF, kind: SocketKind::Subscriber, port: None };
    let encoded = info.encode();
    assert_eq!(encoded, b"sdeadbeef".to_vec());
}

#[test]
fn stream_info_roundtrip() {
    for info in [
        StreamInfo { id: 0, kind: SocketKind::Publisher, port: Some(0) },
        StreamInfo { id: u32::MAX, kind: SocketKind::Subscriber, port: None },
        StreamInfo { id: 7, kind: SocketKind::Subscriber, port: Some(65535) },
    ] {
        let encoded = info.encode();
        let decoded = StreamInfo::decode(&encoded).expect("annotation must decode");
        assert_eq!(decoded, info);
    }
}

#[test]
fn stream_info_decode_rejects_garbage() {
    assert!(StreamInfo::decode(b"").is_none());
    assert!(StreamInfo::decode(b"p0000002a").is_some());
    assert!(StreamInfo::decode(b"x0000002a").is_none());
    assert!(StreamInfo::decode(b"p0000002g").is_none());
    assert!(StreamInfo::decode(b"p0000002a23").is_none());
}

#[test]
fn stream_buffer_info_mirrors_packet_info() {
    let video = StreamBufferInfo::Video(5, 77);
    let info = video.to_packet_info();
    assert_eq!(info.kind, StreamKind::Video);
    assert_eq!(info.flags, 5);
    assert_eq!(info.timestamp, 77);
    let audio = StreamBufferInfo::Audio(1, 2);
    let back = StreamBufferInfo::from_packet_info(audio.to_packet_info());
    assert_eq!(back, audio);
}
