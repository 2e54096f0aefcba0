use can_usb_kvaser::device::{
    bus_params_request, card_info_reply, card_info_request, received_frame, start_requests, transmit_request, CanId,
};
use can_usb_kvaser::enumeration::{device_label, is_kvaser, KVASER_VID};
use can_usb_kvaser::message::KvaserMessage;

#[test]
fn card_info_request_asks_for_level_zero() {
    assert_eq!(card_info_request(), KvaserMessage::GetCardInfo { transaction: 0x22, level: 0 });
}

#[test]
fn card_info_reply_skips_other_messages() {
    assert!(card_info_reply(KvaserMessage::ChipStarted { transaction: 1, channel: 0 }).is_none());
}

#[test]
fn bus_params_request_targets_the_first_channel() {
    assert_eq!(
        bus_params_request(250_000, 13, 2, 1, 1),
        KvaserMessage::SetBusParams { transaction: 0x10, channel: 0, bit_rate: 250_000, tseg1: 13, tseg2: 2, sjw: 1, no_samp: 1 }
    );
}

#[test]
fn start_sets_driver_mode_then_starts_the_chip() {
    assert_eq!(
        start_requests(),
        vec![
            KvaserMessage::SetDriverMode { transaction: 0x15, channel: 0, mode: 1 },
            KvaserMessage::StartChip { transaction: 0x22, channel: 0 },
        ]
    );
}

#[test]
fn transmit_request_encodes_the_frame() {
    let m = transmit_request(CanId::Standard(0x123), &[1, 2]);
    assert_eq!(m.to_bytes(), vec![0x0D, 0, 0, 0x04, 0x23, 0, 0, 0, 2, 1, 2, 0, 0, 0, 0, 0, 0, 0, 0]);
    let m = transmit_request(CanId::Extended(0x12345), &[]);
    assert_eq!(m.to_bytes(), vec![0x0F, 0, 0, 0, 0, 0x04, 0x8D, 0x05, 0, 0, 0, 0, 0, 0, 0, 0, 0, 0, 0]);
}

#[test]
fn received_frame_takes_dlc_bytes() {
    let msg = KvaserMessage::LogMessage {
        channel: 0,
        flags: 0,
        timestamp: 42,
        dlc: 2,
        time_offset: 0,
        id: 0x123,
        extended: false,
        data: vec![1, 2, 3, 4, 5, 6, 7, 8],
    };
    let f = received_frame(&msg).unwrap();
    assert_eq!(f.id, CanId::Standard(0x123));
    assert_eq!(f.data, vec![1, 2]);
    assert_eq!(f.timestamp, 42);
}

#[test]
fn received_frame_keeps_extended_identifier() {
    let msg = KvaserMessage::LogMessage {
        channel: 0,
        flags: 0,
        timestamp: 1,
        dlc: 0,
        time_offset: 0,
        id: 0x12345,
        extended: true,
        data: vec![],
    };
    assert_eq!(received_frame(&msg).unwrap().id, CanId::Extended(0x12345));
}

#[test]
fn received_frame_skips_other_messages() {
    assert!(received_frame(&KvaserMessage::UsbThrottle(1)).is_none());
}

#[test]
fn kvaser_devices_are_matched_by_vendor_id() {
    assert!(is_kvaser(KVASER_VID));
    assert!(is_kvaser(0x0bfd));
    assert!(!is_kvaser(0x1234));
}

#[test]
fn device_label_with_names() {
    assert_eq!(device_label(Some("Leaf Light v2"), Some("Kvaser AB"), 0x0bfd, 0x120), "Leaf Light v2, Kvaser AB [0BFD,0120]");
}

#[test]
fn device_label_without_names() {
    assert_eq!(device_label(None, None, 0x0bfd, 0xabcd), "[0BFD,ABCD]");
    assert_eq!(device_label(Some("Leaf"), None, 1, 2), "Leaf, [0001,0002]");
}

#[test]
fn card_info_reply_takes_card_info() {
    let mut b = vec![0x23u8, 0x22, 1];
    b.extend_from_slice(&[0x40, 0xE2, 0x01, 0x00]);
    b.extend_from_slice(&[0u8; 24]);
    let info = card_info_reply(KvaserMessage::from_bytes(&b).unwrap()).unwrap();
    assert_eq!(info.serial_number(), 123456);
}
