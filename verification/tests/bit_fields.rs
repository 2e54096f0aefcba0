use deku::ctx::{BitSize, Endian, Order};
use deku::writer::Writer;
use deku::DekuWriter;
use can_usb_kvaser::message::KvaserMessage;

fn writes_as_29_bits(id: u32) -> bool {
    let mut out: Vec<u8> = Vec::new();
    let mut cursor = std::io::Cursor::new(&mut out);
    let mut writer = Writer::new(&mut cursor);
    id.to_writer(&mut writer, (Endian::Little, BitSize(29), Order::Lsb0)).is_ok()
}

fn log_message(id: u32) -> KvaserMessage {
    KvaserMessage::LogMessage { channel: 0, flags: 0, timestamp: 0, dlc: 0, time_offset: 0, id, extended: false, data: vec![] }
}

#[test]
fn log_identifier_fits_29_bits_exactly_when_a_bit_writer_accepts_it() {
    for id in [0u32, 1, 0x1FFF_FFFF, 0x2000_0000, 0x3FFF_FFFF, u32::MAX] {
        assert_eq!(log_message(id).is_encodable(), writes_as_29_bits(id), "id {:#x}", id);
    }
}
