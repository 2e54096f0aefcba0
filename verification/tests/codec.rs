use bytes::BytesMut;
use can_usb_kvaser::codec::KvaserCodec;
use can_usb_kvaser::message::{KvaserMessage, ParseError, TransmitMessage};

#[test]
fn test_encode() {
    let mut codec = KvaserCodec {};
    let mut buf = BytesMut::new();
    codec.encode(KvaserMessage::Unknown { command: 1, data: vec![1, 2, 3] }, &mut buf);
    assert_eq!(buf.as_ref(), &[5, 1, 1, 2, 3]);

    buf.clear();
    codec.encode(KvaserMessage::GetCardInfo { transaction: 0x12, level: 3 }, &mut buf);
    assert_eq!(buf.as_ref(), &[4, 0x22, 0x12, 3]);

    buf.clear();
    codec.encode(
        KvaserMessage::SetBusParams {
            transaction: 0x10,
            channel: 0,
            bit_rate: 250_000,
            tseg1: 13,
            tseg2: 2,
            sjw: 1,
            no_samp: 1,
        },
        &mut buf,
    );
    assert_eq!(buf.as_ref(), &[12, 0x10, 0x10, 0x00, 0x90, 0xD0, 0x03, 0x00, 0x0D, 0x02, 0x01, 0x01]);

    buf.clear();
    let msg = TransmitMessage::standard(0, 1, 0x123, &[1, 2, 3, 4, 5, 6, 7, 8], 0x40);
    codec.encode(KvaserMessage::TransmitStandard(msg), &mut buf);
    assert_eq!(buf.as_ref(), &[0x14, 0x0D, 0x00, 0x01, 0x04, 0x23, 0x00, 0x00, 0x00, 0x08, 0x01, 0x02, 0x03, 0x04, 0x05, 0x06, 0x07, 0x08, 0x00, 0x40]);

    buf.clear();
    let msg = TransmitMessage::extended(0, 2, 0x12345, &[1, 2, 3, 4, 5, 6, 7, 8], 0x40);
    codec.encode(KvaserMessage::TransmitExtended(msg), &mut buf);
    assert_eq!(buf.as_ref(), &[0x14, 0x0F, 0x00, 0x02, 0x00, 0x00, 0x04, 0x8D, 0x05, 0x08, 0x01, 0x02, 0x03, 0x04, 0x05, 0x06, 0x07, 0x08, 0x00, 0x40]);
}

#[test]
fn decode_waits_for_a_header() {
    let mut codec = KvaserCodec {};
    let mut buf = BytesMut::from(&[4u8][..]);
    assert_eq!(codec.decode(&mut buf), Ok(None));
    assert_eq!(buf.as_ref(), &[4]);
}

#[test]
fn decode_waits_for_the_whole_frame() {
    let mut codec = KvaserCodec {};
    let mut buf = BytesMut::from(&[4u8, 0x22, 0x12][..]);
    assert_eq!(codec.decode(&mut buf), Ok(None));
    assert_eq!(buf.as_ref(), &[4, 0x22, 0x12]);
}

#[test]
fn decode_takes_one_frame_and_leaves_the_rest() {
    let mut codec = KvaserCodec {};
    let mut buf = BytesMut::from(&[4u8, 0x22, 0x12, 3, 9, 9][..]);
    let msg = codec.decode(&mut buf).unwrap().unwrap();
    assert!(matches!(msg, KvaserMessage::GetCardInfo { transaction: 0x12, level: 3 }));
    assert_eq!(buf.as_ref(), &[9, 9]);
}

#[test]
fn decode_reports_a_short_message() {
    let mut codec = KvaserCodec {};
    let mut buf = BytesMut::from(&[3u8, 0x10, 0x01, 7][..]);
    assert_eq!(codec.decode(&mut buf), Err(ParseError::Incomplete));
    assert_eq!(buf.as_ref(), &[7]);
}

#[test]
fn decode_reports_a_long_message() {
    let mut codec = KvaserCodec {};
    let mut buf = BytesMut::from(&[5u8, 0x22, 0x12, 3, 4][..]);
    assert_eq!(codec.decode(&mut buf), Err(ParseError::TooMuchData));
    assert!(buf.is_empty());
}

#[test]
fn decode_reports_an_empty_frame() {
    let mut codec = KvaserCodec {};
    let mut buf = BytesMut::from(&[1u8, 0x22][..]);
    assert_eq!(codec.decode(&mut buf), Err(ParseError::Incomplete));
    assert_eq!(buf.as_ref(), &[0x22]);
}

#[test]
fn encode_then_decode_gives_the_message_back() {
    let mut codec = KvaserCodec {};
    let mut buf = BytesMut::new();
    codec.encode(
        KvaserMessage::LogMessage {
            channel: 0,
            flags: 2,
            timestamp: 0x0102_0304_0506,
            dlc: 3,
            time_offset: 7,
            id: 0x1234_5678,
            extended: true,
            data: vec![0xAA, 0xBB, 0xCC],
        },
        &mut buf,
    );
    buf.extend_from_slice(&[0xEE]);
    let msg = codec.decode(&mut buf).unwrap().unwrap();
    assert_eq!(
        msg,
        KvaserMessage::LogMessage {
            channel: 0,
            flags: 2,
            timestamp: 0x0102_0304_0506,
            dlc: 3,
            time_offset: 7,
            id: 0x1234_5678,
            extended: true,
            data: vec![0xAA, 0xBB, 0xCC],
        }
    );
    assert_eq!(buf.as_ref(), &[0xEE]);
}

#[test]
fn can_decode_refuses_a_zero_length_byte() {
    assert!(KvaserCodec::can_decode(&BytesMut::from(&[0u8][..])));
    assert!(!KvaserCodec::can_decode(&BytesMut::from(&[0u8, 5][..])));
    assert!(KvaserCodec::can_decode(&BytesMut::from(&[3u8, 5][..])));
}

#[test]
fn can_encode_refuses_a_wide_log_identifier() {
    let buf = BytesMut::from(&[1u8, 2, 3][..]);
    assert_eq!(can_usb_kvaser::codec::buffered_len(&buf), 3);
    let wide = KvaserMessage::LogMessage { channel: 0, flags: 0, timestamp: 0, dlc: 0, time_offset: 0, id: 0x2000_0000, extended: false, data: vec![] };
    assert!(!KvaserCodec::can_encode(&wide, &buf));
    assert!(KvaserCodec::can_encode(&KvaserMessage::GetCardInfo { transaction: 1, level: 0 }, &buf));
}
