use can_usb_kvaser::message::{Ean, KvaserMessage, ParseError, TransmitMessage};
use std::time::{Duration, UNIX_EPOCH};

fn card_info_bytes() -> Vec<u8> {
    let mut b = vec![0x23, 0x22, 1];
    b.extend_from_slice(&123456u32.to_le_bytes());
    b.extend_from_slice(&[9, 9, 9, 9]);
    b.extend_from_slice(&24_000_000u32.to_le_bytes());
    b.extend_from_slice(&1_600_000_000u32.to_le_bytes());
    b.extend_from_slice(&0x0007_3301_3000_7604u64.to_le_bytes());
    b.extend_from_slice(&[2, 1, 48, 0]);
    b
}

#[test]
fn reads_card_info_and_its_fields() {
    let b = card_info_bytes();
    assert_eq!(b.len(), 31);
    match KvaserMessage::from_bytes(&b).unwrap() {
        KvaserMessage::CardInfo(info) => {
            assert_eq!(info.serial_number(), 123456);
            assert_eq!(info.ean().0, 0x0007_3301_3000_7604);
            assert_eq!(info.ean().to_string(), "73-30130-00760-4");
            assert_eq!(info.manufacture_date(), UNIX_EPOCH + Duration::from_secs(1_600_000_000));
        }
        other => panic!("unexpected {:?}", other),
    }
}

#[test]
fn card_info_encodes_with_padding_cleared() {
    let b = card_info_bytes();
    let m = KvaserMessage::from_bytes(&b).unwrap();
    let mut expected = b.clone();
    expected[7..11].copy_from_slice(&[0, 0, 0, 0]);
    assert_eq!(m.to_bytes(), expected);
}

#[test]
fn ean_text_pads_each_group() {
    assert_eq!(Ean(0).to_string(), "00-00000-00000-0");
    assert_eq!(Ean(0x0000_0010_0000_00A1).to_string(), "00-01000-0000a-1");
}

#[test]
fn empty_input_is_incomplete() {
    assert_eq!(KvaserMessage::from_bytes(&[]), Err(ParseError::Incomplete));
}

#[test]
fn short_fixed_message_is_incomplete() {
    assert_eq!(KvaserMessage::from_bytes(&[0x10, 1, 2, 3]), Err(ParseError::Incomplete));
}

#[test]
fn long_fixed_message_is_too_much_data() {
    assert_eq!(KvaserMessage::from_bytes(&[0x11, 1, 2, 3]), Err(ParseError::TooMuchData));
}

#[test]
fn short_log_message_is_incomplete() {
    assert_eq!(KvaserMessage::from_bytes(&[0x6A, 0, 0, 0, 0, 0, 0, 0, 0, 0, 0, 0, 0, 0]), Err(ParseError::Incomplete));
}

#[test]
fn unknown_command_keeps_its_bytes() {
    assert_eq!(
        KvaserMessage::from_bytes(&[0x21, 5, 6]),
        Ok(KvaserMessage::Unknown { command: 0x21, data: vec![5, 6] })
    );
    assert_eq!(KvaserMessage::from_bytes(&[0x99]), Ok(KvaserMessage::Unknown { command: 0x99, data: vec![] }));
}

#[test]
fn reads_log_message_identifier_and_flag() {
    let b = [0x6A, 1, 2, 6, 5, 4, 3, 2, 1, 8, 9, 0x78, 0x56, 0x34, 0xF2, 0xAA, 0xBB];
    assert_eq!(
        KvaserMessage::from_bytes(&b),
        Ok(KvaserMessage::LogMessage {
            channel: 1,
            flags: 2,
            timestamp: 0x0102_0304_0506,
            dlc: 8,
            time_offset: 9,
            id: 0x1234_5678,
            extended: true,
            data: vec![0xAA, 0xBB],
        })
    );
}

#[test]
fn log_message_reencodes_without_unused_bits() {
    let b = [0x6A, 1, 2, 6, 5, 4, 3, 2, 1, 8, 9, 0x78, 0x56, 0x34, 0xF2, 0xAA, 0xBB];
    let m = KvaserMessage::from_bytes(&b).unwrap();
    let mut expected = b.to_vec();
    expected[14] = 0x92;
    assert_eq!(m.to_bytes(), expected);
}

#[test]
fn reads_chip_state_timestamp() {
    let b = [0x14, 7, 0, 1, 2, 3, 4, 5, 6, 10, 11, 12, 0xFF, 0xFF, 0xFF];
    let m = KvaserMessage::from_bytes(&b).unwrap();
    assert_eq!(
        m,
        KvaserMessage::ChipState {
            transaction: 7,
            channel: 0,
            timestamp: 0x0605_0403_0201,
            tx_errors: 10,
            rx_errors: 11,
            bus_status: 12
        }
    );
    assert_eq!(m.to_bytes(), vec![0x14, 7, 0, 1, 2, 3, 4, 5, 6, 10, 11, 12, 0, 0, 0]);
}

#[test]
fn encodes_and_reads_software_info() {
    let m = KvaserMessage::SoftwareInfo { transaction: 3, options: 0x0102_0304, version: 0x0A0B_0C0D, max_outstanding_tx: 0x1234 };
    let b = m.to_bytes();
    assert_eq!(b, vec![0x27, 3, 0, 4, 3, 2, 1, 0x0D, 0x0C, 0x0B, 0x0A, 0x34, 0x12, 0, 0, 0, 0, 0, 0]);
    assert_eq!(KvaserMessage::from_bytes(&b), Ok(m));
}

#[test]
fn encodes_usb_throttle() {
    let m = KvaserMessage::UsbThrottle(0xBEEF);
    assert_eq!(m.to_bytes(), vec![0x4D, 0xEF, 0xBE]);
    assert_eq!(KvaserMessage::from_bytes(&[0x4D, 0xEF, 0xBE]), Ok(m));
}

#[test]
fn standard_identifier_survives_the_raw_bytes() {
    let t = TransmitMessage::standard(1, 2, 0x7FF, &[], 0);
    let b = KvaserMessage::TransmitStandard(t).to_bytes();
    assert_eq!(b, vec![0x0D, 1, 2, 0x1F, 0x3F, 0, 0, 0, 0, 0, 0, 0, 0, 0, 0, 0, 0, 0, 0]);
    assert_eq!(((b[3] as u16) << 6) | b[4] as u16, 0x7FF);
}

#[test]
fn extended_identifier_survives_the_raw_bytes() {
    let t = TransmitMessage::extended(0, 0, 0x1FFF_FFFF, &[7], 0);
    let b = KvaserMessage::TransmitExtended(t).to_bytes();
    let r = &b[3..17];
    let id = ((r[0] as u32) << 24) | ((r[1] as u32) << 18) | ((r[2] as u32) << 14) | ((r[3] as u32) << 6) | r[4] as u32;
    assert_eq!(id, 0x1FFF_FFFF);
    assert_eq!(r[5], 1);
    assert_eq!(r[6], 7);
}

#[test]
fn timestamps_keep_their_low_six_bytes() {
    let m = KvaserMessage::Clock { transaction: 1, timestamp: 0x0001_0000_0000_0002 };
    assert_eq!(m.to_bytes(), vec![0x1F, 1, 0, 2, 0, 0, 0, 0, 0, 0, 0]);
}

#[test]
fn ean_text_ignores_the_top_twelve_bits() {
    assert_eq!(Ean(0xFFF0_0000_0000_0000).to_string(), "00-00000-00000-0");
    assert_eq!(Ean(0xABC7_3301_3000_7604).to_string(), Ean(0x0007_3301_3000_7604).to_string());
    let s = Ean(0x000F_FFFF_FFFF_FFFF).to_string();
    assert_eq!(s, "ff-fffff-fffff-f");
    assert_eq!(s.replace('-', ""), format!("{:013x}", 0x000F_FFFF_FFFF_FFFFu64));
}

#[test]
fn card_info_fields_from_record_bytes() {
    let mut b = vec![0x23u8];
    b.extend_from_slice(&[0x22, 0x01, 0x40, 0xE2, 0x01, 0x00, 0, 0, 0, 0, 0, 0, 0, 0, 0x00, 0xF1, 0x53, 0x65, 0x23, 0x24, 0x00, 0x30, 0x01, 0x33, 0x07, 0x00, 0, 0, 0, 0]);
    match KvaserMessage::from_bytes(&b).unwrap() {
        KvaserMessage::CardInfo(info) => {
            assert_eq!(info.serial_number(), 123_456);
            assert_eq!(info.ean().0, 0x0007_3301_3000_2423);
            assert_eq!(info.manufacture_date(), UNIX_EPOCH + Duration::from_secs(1_700_000_000));
        }
        other => panic!("unexpected {:?}", other),
    }
}
