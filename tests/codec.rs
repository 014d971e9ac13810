use slipmux::buffer::FrameBuffer;
use slipmux::constants::{CONFIGURATION, DIAGNOSTIC, END, ESC, ESC_END, ESC_ESC};
use slipmux::handler::DIAGNOSTIC_QUEUE_CAPACITY;
use slipmux::{
    _calc_csum, encode_frame, write_escaping_bytes, DecodeState, Decoder, Error, FrameType,
    RiotSlipmuxFramehandler,
};

fn handler(configuration: usize, packet: usize) -> RiotSlipmuxFramehandler {
    RiotSlipmuxFramehandler::new(vec![0u8; configuration], vec![0u8; packet])
}

fn feed(decoder: &mut Decoder, h: &mut RiotSlipmuxFramehandler, bytes: &[u8]) {
    for b in bytes {
        decoder.decode(*b, h);
    }
}

#[test]
fn configuration_frame_scenario() {
    let mut d = Decoder::new();
    let mut h = handler(16, 16);
    feed(&mut d, &mut h, &[0xA9, 0x01, 0x02, 0xC0]);
    assert_eq!(d.state, DecodeState::Idle);
    assert_eq!(h.last_error(), None);
    assert_eq!(h.take_configuration(), Some(vec![0x01, 0x02]));
    assert_eq!(h.take_packet(), None);
    assert_eq!(h.take_diagnostic(), Vec::<u8>::new());
}

#[test]
fn escape_byte_first_after_idle_starts_ip_frame() {
    let mut d = Decoder::new();
    let mut h = handler(16, 16);
    d.decode(0xDB, &mut h);
    assert_eq!(d.state, DecodeState::Packet);
    assert_eq!(h.frame_type(), Some(FrameType::Ip));
    d.decode(0xDC, &mut h);
    assert_eq!(d.state, DecodeState::Packet);
    d.decode(0xC0, &mut h);
    assert_eq!(d.state, DecodeState::Idle);
    assert_eq!(h.last_error(), None);
    assert_eq!(h.take_packet(), Some(vec![0xDB, 0xDC]));
}

#[test]
fn encode_exact_bytes() {
    assert_eq!(encode_frame(FrameType::Ip, &[1, 2]), vec![1, 2, END]);
    assert_eq!(encode_frame(FrameType::Diagnostic, b"hi"), vec![DIAGNOSTIC, b'h', b'i', END]);
    assert_eq!(encode_frame(FrameType::Configuration, &[]), vec![CONFIGURATION, END]);
    assert_eq!(
        encode_frame(FrameType::Configuration, &[END, ESC, 7]),
        vec![CONFIGURATION, ESC, ESC_END, ESC, ESC_ESC, 7, END]
    );
    assert_eq!(
        encode_frame(FrameType::Configuration, &[0xC0, 0xDB]),
        vec![0xA9, 0xDB, 0xDC, 0xDB, 0xDD, 0xC0]
    );
}

#[test]
fn write_escaping_bytes_appends() {
    let mut out = vec![9u8];
    write_escaping_bytes(&mut out, &[END, 1, ESC]);
    assert_eq!(out, vec![9, ESC, ESC_END, 1, ESC, ESC_ESC]);
}

#[test]
fn round_trip_every_type() {
    let payload = [0x45u8, END, ESC, ESC, END, 0x00, ESC_END, ESC_ESC];
    for t in [FrameType::Diagnostic, FrameType::Configuration, FrameType::Ip] {
        let mut d = Decoder::new();
        let mut h = handler(32, 32);
        let wire = encode_frame(t, &payload);
        feed(&mut d, &mut h, &wire);
        assert_eq!(d.state, DecodeState::Idle);
        assert_eq!(h.frame_type(), None);
        assert_eq!(h.last_error(), None);
        match t {
            FrameType::Diagnostic => {
                assert_eq!(h.take_diagnostic(), payload.to_vec());
                assert_eq!(h.take_configuration(), None);
                assert_eq!(h.take_packet(), None);
            }
            FrameType::Configuration => {
                assert_eq!(h.take_configuration(), Some(payload.to_vec()));
                assert_eq!(h.take_packet(), None);
            }
            FrameType::Ip => {
                assert_eq!(h.take_packet(), Some(payload.to_vec()));
                assert_eq!(h.take_configuration(), None);
            }
        }
    }
}

#[test]
fn escaping_delimiter_and_escape_in_sequence() {
    let payload = [ESC, END, END, ESC, ESC];
    let mut d = Decoder::new();
    let mut h = handler(8, 8);
    feed(&mut d, &mut h, &encode_frame(FrameType::Configuration, &payload));
    assert_eq!(h.last_error(), None);
    assert_eq!(h.take_configuration(), Some(payload.to_vec()));
}

#[test]
fn marker_discrimination() {
    let mut d = Decoder::new();
    let mut h = handler(8, 8);
    d.decode(DIAGNOSTIC, &mut h);
    assert_eq!(h.frame_type(), Some(FrameType::Diagnostic));
    assert_eq!(d.state, DecodeState::Diagnostic);
    feed(&mut d, &mut h, &[b'o', b'k', END]);
    assert_eq!(h.take_diagnostic(), b"ok".to_vec());

    d.decode(CONFIGURATION, &mut h);
    assert_eq!(h.frame_type(), Some(FrameType::Configuration));
    feed(&mut d, &mut h, &[3, END]);
    assert_eq!(h.take_configuration(), Some(vec![3]));

    d.decode(0x42, &mut h);
    assert_eq!(h.frame_type(), Some(FrameType::Ip));
    feed(&mut d, &mut h, &[0x43, END]);
    assert_eq!(h.take_packet(), Some(vec![0x42, 0x43]));
}

#[test]
fn idle_delimiters_emit_nothing() {
    let mut d = Decoder::new();
    let mut h = handler(8, 8);
    feed(&mut d, &mut h, &[END, END, END, END, END]);
    assert_eq!(d, Decoder::new());
    assert_eq!(h.frame_type(), None);
    assert_eq!(h.last_error(), None);
    assert_eq!(h.take_configuration(), None);
    assert_eq!(h.take_packet(), None);
    assert_eq!(h.take_diagnostic(), Vec::<u8>::new());
}

#[test]
fn overflow_is_contained_and_reported() {
    let mut d = Decoder::new();
    let mut h = handler(4, 4);
    let wire = encode_frame(FrameType::Configuration, &[1, 2, 3, 4, 5, 6]);
    feed(&mut d, &mut h, &wire);
    assert_eq!(d.state, DecodeState::Idle);
    assert_eq!(h.last_error(), Some(Error::BufferOverflow));
    assert_eq!(h.take_configuration(), None);
    // the next frame that fits is received whole
    feed(&mut d, &mut h, &encode_frame(FrameType::Configuration, &[7, 8, 9, 10]));
    assert_eq!(h.last_error(), None);
    assert_eq!(h.take_configuration(), Some(vec![7, 8, 9, 10]));
}

#[test]
fn packet_overflow_is_reported() {
    let mut d = Decoder::new();
    let mut h = handler(4, 2);
    feed(&mut d, &mut h, &encode_frame(FrameType::Ip, &[1, 2, 3]));
    assert_eq!(h.last_error(), Some(Error::BufferOverflow));
    assert_eq!(h.take_packet(), None);
}

#[test]
fn untaken_frame_is_not_overwritten() {
    let mut d = Decoder::new();
    let mut h = handler(8, 8);
    feed(&mut d, &mut h, &encode_frame(FrameType::Configuration, &[1, 1]));
    assert_eq!(h.last_error(), None);
    feed(&mut d, &mut h, &encode_frame(FrameType::Configuration, &[2, 2, 2]));
    assert_eq!(h.last_error(), Some(Error::BufferOverflow));
    assert_eq!(h.take_configuration(), Some(vec![1, 1]));
    assert_eq!(h.take_configuration(), None);
    feed(&mut d, &mut h, &encode_frame(FrameType::Configuration, &[3]));
    assert_eq!(h.take_configuration(), Some(vec![3]));
}

#[test]
fn unexpected_escape_is_reported_and_stream_continues() {
    let mut d = Decoder::new();
    let mut h = handler(8, 8);
    feed(&mut d, &mut h, &[CONFIGURATION, 0x01, ESC, 0x05, 0x06, END]);
    assert_eq!(d.state, DecodeState::Idle);
    assert_eq!(h.last_error(), Some(Error::UnexpectedEscape));
    assert_eq!(h.take_configuration(), None);
    feed(&mut d, &mut h, &[CONFIGURATION, 0x07, END]);
    assert_eq!(h.last_error(), None);
    assert_eq!(h.take_configuration(), Some(vec![0x07]));
}

#[test]
fn escape_then_delimiter_is_payload() {
    let mut d = Decoder::new();
    let mut h = handler(8, 8);
    feed(&mut d, &mut h, &[DIAGNOSTIC, b'a', ESC, END]);
    assert_eq!(d.state, DecodeState::Diagnostic);
    assert!(d.escape_error);
    d.decode(END, &mut h);
    assert_eq!(h.last_error(), Some(Error::UnexpectedEscape));
    assert_eq!(h.take_diagnostic(), vec![b'a', END]);
}

#[test]
fn diagnostic_queue_is_bounded() {
    let mut d = Decoder::new();
    let mut h = handler(8, 8);
    let text = vec![b'x'; DIAGNOSTIC_QUEUE_CAPACITY + 6];
    feed(&mut d, &mut h, &encode_frame(FrameType::Diagnostic, &text));
    assert_eq!(h.last_error(), Some(Error::BufferOverflow));
    assert_eq!(h.take_diagnostic(), vec![b'x'; DIAGNOSTIC_QUEUE_CAPACITY]);
}

#[test]
fn decode_all_matches_bytewise() {
    let mut d = Decoder::new();
    let mut h = handler(8, 8);
    let mut wire = encode_frame(FrameType::Ip, &[0x45, ESC]);
    wire.extend(encode_frame(FrameType::Configuration, &[END]));
    d.decode_all(&wire, &mut h);
    assert_eq!(d.state, DecodeState::Idle);
    assert_eq!(h.take_packet(), Some(vec![0x45, ESC]));
    assert_eq!(h.take_configuration(), Some(vec![END]));
}

#[test]
fn frame_buffer_refuses_past_capacity() {
    let mut b = FrameBuffer::new(vec![0u8; 2]);
    assert_eq!(b.capacity(), 2);
    assert!(b.push(1));
    assert!(b.push(2));
    assert!(!b.push(3));
    assert_eq!(b.len(), 2);
    assert_eq!(b.to_vec(), vec![1, 2]);
    b.clear();
    assert_eq!(b.len(), 0);
    assert_eq!(FrameBuffer::with_capacity(5).capacity(), 5);
}

#[test]
fn checksum_values() {
    assert_eq!(_calc_csum(&[]), 0);
    assert_eq!(_calc_csum(&[0x1234, 0x4321]), 0x5555);
    assert_eq!(_calc_csum(&[0xffff, 0x0001]), 0x0001);
    assert_eq!(_calc_csum(&[0xffff, 0xffff]), 0xffff);
    assert_eq!(_calc_csum(&[0x8000, 0x8000, 0x8000]), 0x8001);
    assert_eq!(_calc_csum(&[0, 0, 0]), 0);
}
