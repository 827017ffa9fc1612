use bytes::BytesMut;
use kosa_interface::line_codec::{self, has_room_for_request, write_request, REQUEST_FRAME_LEN};
use kosa_interface::poll::PollCodec;
use kosa_interface::protocol::{self, DATA_OFFSET, PAYLOAD_LEN};
use kosa_interface::{calc_crc, parse_responce, DataResponce, Error, LineCodec, Request};

const FF10_FRAME: [u8; 9] = [0xF8, 0x01, 0x03, 0xFF, 0x10, 0x01, 0x00, 0x17, 0x5F];
const START_FRAME: [u8; 9] = [0x00, 0x64, 0x03, 0x03, 0x00, 0x00, 0xFF, 0x17, 0x20];

/// A response frame: five header bytes, then the eight values, each sent as
/// two big-endian 16-bit halves, low half first.
fn response_frame(values: [f32; 8]) -> Vec<u8> {
    let mut frame = vec![0x01, 0x03, 0x20, 0xAA, 0xBB];
    for v in values {
        let b = v.to_le_bytes();
        frame.extend_from_slice(&[b[1], b[0], b[3], b[2]]);
    }
    frame
}

fn values_of(d: &DataResponce) -> Vec<f32> {
    d.as_bytes()
        .chunks(4)
        .map(|c| f32::from_ne_bytes([c[0], c[1], c[2], c[3]]))
        .collect()
}

#[test]
fn encode_ff10_request() {
    let mut buf = BytesMut::new();
    assert!(LineCodec.encode(Request::FF10, &mut buf).is_ok());
    assert_eq!(&buf[..], &FF10_FRAME[..]);
    assert_eq!(buf.len(), REQUEST_FRAME_LEN);
}

#[test]
fn encode_start_request() {
    let mut buf = BytesMut::new();
    assert!(LineCodec.encode(Request::Start, &mut buf).is_ok());
    assert_eq!(&buf[..], &START_FRAME[..]);
}

#[test]
fn encoded_frames_check_to_zero() {
    for req in [Request::FF10, Request::Start] {
        let mut buf = BytesMut::new();
        write_request(req, &mut buf);
        assert_eq!(calc_crc(&buf), 0);
    }
}

#[test]
fn encode_after_buffered_bytes_covers_them_with_the_crc() {
    let mut buf = BytesMut::from(&FF10_FRAME[..]);
    assert!(LineCodec.encode(Request::Start, &mut buf).is_ok());
    assert_eq!(buf.len(), 2 * REQUEST_FRAME_LEN);
    assert_eq!(&buf[..9], &FF10_FRAME[..]);
    assert_eq!(&buf[9..16], &START_FRAME[..7]);
    let crc = calc_crc(&buf[..16]);
    assert_eq!(&buf[16..], &crc.to_be_bytes()[..]);
    assert_ne!(&buf[16..], &START_FRAME[7..]);
    assert_eq!(calc_crc(&buf), 0);
}

#[test]
fn line_codec_encode_matches_root_codec() {
    let mut a = BytesMut::new();
    let mut b = BytesMut::new();
    assert!(LineCodec.encode(Request::FF10, &mut a).is_ok());
    assert!(line_codec::LineCodec.encode(Request::FF10, &mut b).is_ok());
    assert_eq!(a, b);
}

#[test]
fn decode_measurement() {
    let values = [20.5, -0.25, 1.0, 3.5, 0.0, 180.0, 32768.125, 1.5e-3];
    let mut buf = BytesMut::from(&response_frame(values)[..]);
    let res = LineCodec.decode(&mut buf).unwrap().unwrap();
    assert_eq!(values_of(&res), values.to_vec());
    assert_eq!(values_of(&res)[6], 32768.125);
    assert!(buf.is_empty());
}

#[test]
fn decode_reorders_each_word() {
    let mut frame = vec![0u8; DATA_OFFSET];
    frame.extend(1u8..=32);
    let mut buf = BytesMut::from(&frame[..]);
    let res = LineCodec.decode(&mut buf).unwrap().unwrap();
    assert_eq!(&res.as_bytes()[..8], &[2, 1, 4, 3, 6, 5, 8, 7]);
    assert_eq!(res.as_bytes().len(), PAYLOAD_LEN);
    assert_eq!(res.as_bytes()[31], 31);
}

#[test]
fn decode_ignores_bytes_after_the_measurement() {
    let mut frame = response_frame([1.0; 8]);
    frame.extend_from_slice(&[0x12, 0x34]);
    let mut buf = BytesMut::from(&frame[..]);
    let res = LineCodec.decode(&mut buf).unwrap().unwrap();
    assert_eq!(values_of(&res), vec![1.0; 8]);
    assert!(buf.is_empty());
}

#[test]
fn decode_short_frame_waits_for_more() {
    let frame = response_frame([2.0; 8]);
    let mut buf = BytesMut::from(&frame[..frame.len() - 1]);
    assert!(LineCodec.decode(&mut buf).unwrap().is_none());
    assert_eq!(&buf[..], &frame[..frame.len() - 1]);
    let mut buf = BytesMut::new();
    assert!(LineCodec.decode(&mut buf).unwrap().is_none());
    assert!(buf.is_empty());
}

#[test]
fn decode_zero_measurement_keeps_the_frame() {
    let frame = response_frame([0.0; 8]);
    let mut buf = BytesMut::from(&frame[..]);
    assert!(LineCodec.decode(&mut buf).unwrap().is_none());
    assert_eq!(&buf[..], &frame[..]);
}

#[test]
fn line_codec_decode_drops_zero_measurement() {
    let frame = response_frame([0.0; 8]);
    let mut buf = BytesMut::from(&frame[..]);
    assert!(line_codec::LineCodec.decode(&mut buf).unwrap().is_none());
    assert!(buf.is_empty());
}

#[test]
fn line_codec_decode_short_and_valid_frames() {
    let frame = response_frame([4.0; 8]);
    let mut buf = BytesMut::from(&frame[..20]);
    assert!(line_codec::LineCodec.decode(&mut buf).unwrap().is_none());
    assert_eq!(&buf[..], &frame[..20]);
    buf.extend_from_slice(&frame[20..]);
    let res = line_codec::LineCodec.decode(&mut buf).unwrap().unwrap();
    assert_eq!(values_of(&res), vec![4.0; 8]);
    assert!(buf.is_empty());
    assert!(line_codec::LineCodec.decode(&mut buf).unwrap().is_none());
}

#[test]
fn from_raw_errors() {
    let frame = response_frame([0.0; 8]);
    assert!(matches!(DataResponce::from_raw(&frame), Err(protocol::Error::ZeroResponce)));
    assert!(matches!(
        DataResponce::from_raw(&frame[..DATA_OFFSET + PAYLOAD_LEN - 1]),
        Err(protocol::Error::EmptyResponce)
    ));
    assert!(matches!(DataResponce::from_raw(&[]), Err(protocol::Error::EmptyResponce)));
    let mut one_bit = frame.clone();
    one_bit[DATA_OFFSET + 17] = 0x01;
    let d = DataResponce::from_raw(&one_bit).unwrap();
    assert_eq!(d.as_bytes()[16], 0x01);
}

#[test]
fn zero_bytes_outside_the_measurement_do_not_matter() {
    let mut frame = response_frame([0.0; 8]);
    frame[0] = 0xFF;
    frame.push(0xFF);
    assert!(matches!(DataResponce::from_raw(&frame), Err(protocol::Error::ZeroResponce)));
}

#[test]
fn from_frame_has_no_zero_check() {
    let frame = response_frame([0.0; 8]);
    let d = DataResponce::from_frame(&frame).unwrap();
    assert_eq!(d.as_bytes(), &[0u8; 32][..]);
    assert!(DataResponce::from_frame(&frame[..36]).is_err());
}

#[test]
fn parse_responce_errors() {
    let frame = response_frame([0.0; 8]);
    assert!(matches!(parse_responce(&frame), Err(Error::EmptyResponce)));
    assert!(matches!(parse_responce(&frame[..10]), Err(Error::InvalidResponce)));
    assert_eq!(parse_responce(&frame[..10]).err(), Some(Error::InvalidResponce));
    let good = response_frame([7.0; 8]);
    assert_eq!(values_of(&parse_responce(&good).unwrap()), vec![7.0; 8]);
}

#[test]
fn io_error_converts_to_unknown() {
    let e = std::io::Error::new(std::io::ErrorKind::Other, "port closed");
    let converted: protocol::Error = e.into();
    assert!(matches!(converted, protocol::Error::Unknown(_)));
    let e = std::io::Error::new(std::io::ErrorKind::TimedOut, "late");
    assert!(matches!(protocol::Error::from(e), protocol::Error::Unknown(ref inner) if inner.kind() == std::io::ErrorKind::TimedOut));
}

#[test]
fn poll_codec_takes_zero_measurement() {
    let frame = response_frame([0.0; 8]);
    let mut buf = BytesMut::from(&frame[..]);
    let res = PollCodec.decode(&mut buf).unwrap().unwrap();
    assert_eq!(res.as_bytes(), &[0u8; 32][..]);
    assert!(buf.is_empty());
}

#[test]
fn poll_codec_short_frame_and_encode() {
    let frame = response_frame([9.0; 8]);
    let mut buf = BytesMut::from(&frame[..30]);
    assert!(PollCodec.decode(&mut buf).unwrap().is_none());
    assert_eq!(&buf[..], &frame[..30]);
    buf.extend_from_slice(&frame[30..]);
    let res = PollCodec.decode(&mut buf).unwrap().unwrap();
    assert_eq!(values_of(&res), vec![9.0; 8]);
    let mut out = BytesMut::new();
    assert!(PollCodec.encode(Request::Start, &mut out).is_ok());
    assert_eq!(&out[..], &START_FRAME[..]);
}

#[test]
fn ordinary_buffers_have_room_for_a_request() {
    let mut buf = BytesMut::new();
    assert!(has_room_for_request(&buf));
    buf.extend_from_slice(&[0u8; 1000]);
    assert!(has_room_for_request(&buf));
}
