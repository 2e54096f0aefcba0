//! Messages sent to and from Kvaser devices over USB, and their wire format.
//!
//! Every message starts with a command byte that selects the variant, followed by the
//! variant's fields. Multi-byte integers are little-endian; padding is written as zeros
//! and ignored when read.
use vstd::prelude::*;
use std::time::SystemTime;
use crate::text::{hex, is_hex_digit, lemma_hex_digits, lemma_hex_mod, lemma_hex_split, pow16, push_char, push_hex};
use crate::wire::{
    lemma_le_bytes_of_value, lemma_le_value_bound, lemma_le_bytes_len, lemma_le_value_of_bytes_mod, lemma_pow256_widths, le_bytes, le_value, push_bytes, push_le, push_zeros, read_array, read_le, read_u16, read_u32, tail_vec,
    zeros,
};

verus! {

/// An EAN that identifies a specific product.
pub struct Ean(pub u64);

/// Information on the device.
#[derive(Debug, PartialEq, Eq)]
pub struct CardInfo {
    transaction: u8,
    channel_count: u8,
    serial_number: u32,
    clock_resolution: u32,
    manufacture_date: u32,
    ean: u64,
    hardware_revision: u8,
    usb_hs_mode: u8,
    hardware_type: u8,
    can_time_sample_reference: u8,
}

/// Representation used to encode a CAN message to be sent by the adapter.
#[derive(Debug, PartialEq, Eq)]
pub struct TransmitMessage {
    channel: u8,
    transaction: u8,
    raw_data: [u8; 14],
    flags: u8,
}

/// A Kvaser USB message.
///
/// All USB devices use the same messages, although not all devices support all messages.
#[derive(Debug, PartialEq, Eq)]
pub enum KvaserMessage {
    TransmitStandard(TransmitMessage),
    TransmitExtended(TransmitMessage),
    SetBusParams { transaction: u8, channel: u8, bit_rate: u32, tseg1: u8, tseg2: u8, sjw: u8, no_samp: u8 },
    GetBusParams { transaction: u8, channel: u8 },
    BusParams { transaction: u8, channel: u8, bit_rate: u32, tseq1: u8, tseq2: u8, sjw: u8, no_samp: u8 },
    GetChipState { transaction: u8, channel: u8 },
    ChipState { transaction: u8, channel: u8, timestamp: u64, tx_errors: u8, rx_errors: u8, bus_status: u8 },
    SetDriverMode { transaction: u8, channel: u8, mode: u8 },
    GetDriverMode { transaction: u8, channel: u8 },
    DriverMode { transaction: u8, channel: u8, mode: u8 },
    ResetChip { transaction: u8, channel: u8 },
    ResetCard { transaction: u8 },
    StartChip { transaction: u8, channel: u8 },
    ChipStarted { transaction: u8, channel: u8 },
    StopChip { transaction: u8, channel: u8 },
    ChipStopped { transaction: u8, channel: u8 },
    ReadClock { transaction: u8, flags: u8 },
    Clock { transaction: u8, timestamp: u64 },
    CardInfo2 { transaction: u8, pcb_id: [u8; 24], oem_unlock_code: u32 },
    GetCardInfo { transaction: u8, level: u8 },
    CardInfo(CardInfo),
    GetInterfaceInfo { transaction: u8, channel: u8 },
    InterfaceInfo { transaction: u8, channel: u8, capabilities: u32, chip_type: u8, chip_sub_type: u8 },
    GetSoftwareInfo { transaction: u8, channel: u8 },
    SoftwareInfo { transaction: u8, options: u32, version: u32, max_outstanding_tx: u16 },
    GetBusLoad { transaction: u8, channel: u8 },
    BusLoad {
        transaction: u8,
        channel: u8,
        timestamp: u64,
        sample_interval: u16,
        active_samples: u16,
        delta_t: u16,
    },
    ResetStatistics { transaction: u8, channel: u8 },
    CheckLicense { transaction: u8 },
    License { transaction: u8, license_mask: u32, kvaser_mask: u32 },
    ErrorEvent { transaction: u8, error: u8, timestamp: u64, add_info1: u16, add_info2: u16 },
    FlushQueue { transaction: u8, channel: u8, flags: u8 },
    ResetErrorCounter { transaction: u8, channel: u8 },
    CanErrorEvent {
        transaction: u8,
        flags: u8,
        timestamp: u64,
        channel: u8,
        tx_errors: u8,
        rx_errors: u8,
        bus_status: u8,
        error_factor: u8,
    },
    UsbThrottle(u16),
    LogMessage {
        channel: u8,
        flags: u8,
        timestamp: u64,
        dlc: u8,
        time_offset: u8,
        id: u32,
        extended: bool,
        data: Vec<u8>,
    },
    /// Any message whose command byte is not one of the above.
    Unknown { command: u8, data: Vec<u8> },
}

/// Why a byte sequence is not a message.
#[derive(Debug, PartialEq, Eq, Structural)]
pub enum ParseError {
    /// The bytes end before the message does.
    Incomplete,
    /// Bytes remain after the message.
    TooMuchData,
}

/// Command byte of a log message (a received CAN frame).
pub const LOG_MESSAGE_COMMAND: u8 = 0x6A;

/// Length of a log message up to its data, command byte included.
pub const LOG_MESSAGE_HEADER_LEN: usize = 15;

/// The length, command byte included, of the messages whose layout is fixed.
pub open spec fn fixed_len(cmd: u8) -> Option<nat> {
    match cmd {
        0x0D | 0x0F | 0x27 => Some(19),
        0x10 | 0x12 | 0x1F | 0x25 | 0x2C => Some(11),
        0x14 | 0x29 | 0x2D | 0x33 => Some(15),
        0x15 | 0x17 | 0x30 => Some(7),
        0x20 | 0x23 => Some(31),
        0x11 | 0x13 | 0x16 | 0x18 | 0x19 | 0x1A | 0x1B | 0x1C | 0x1D | 0x1E | 0x22 | 0x24 | 0x26
        | 0x28 | 0x2A | 0x2B | 0x31 | 0x4D => Some(3),
        _ => None,
    }
}

/// Whether `cmd` selects a variant other than `Unknown`.
pub open spec fn is_known_command(cmd: u8) -> bool {
    fixed_len(cmd) is Some || cmd == LOG_MESSAGE_COMMAND
}

/// The value of the `n`-byte little-endian field of `b` at `start`.
pub open spec fn le_at(b: Seq<u8>, start: int, n: int) -> nat {
    le_value(b.subrange(start, start + n))
}

/// The byte that holds the top five bits of a 29-bit identifier and the extended flag.
pub open spec fn id_top_byte(id: u32, extended: bool) -> u8 {
    ((id as nat / 0x100_0000) % 32 + if extended { 128nat } else { 0nat }) as u8
}

/// What reading `b` gives: `None` when `b` is a message, else the error.
pub open spec fn parse_failure(b: Seq<u8>) -> Option<ParseError> {
    if b.len() == 0 {
        Some(ParseError::Incomplete)
    } else if b[0] == LOG_MESSAGE_COMMAND {
        if b.len() < LOG_MESSAGE_HEADER_LEN {
            Some(ParseError::Incomplete)
        } else {
            None
        }
    } else {
        match fixed_len(b[0]) {
            Some(n) => if b.len() < n {
                Some(ParseError::Incomplete)
            } else if b.len() > n {
                Some(ParseError::TooMuchData)
            } else {
                None
            },
            None => None,
        }
    }
}

impl TransmitMessage {
    /// The bytes of this message after its command byte.
    pub open spec fn spec_body(self) -> Seq<u8> {
        seq![self.spec_channel(), self.spec_transaction()] + self.spec_raw_data() + seq![0u8, self.spec_flags()]
    }

    /// Whether this message is what the bytes of `b` after its command byte say.
    pub open spec fn read_from(self, b: Seq<u8>) -> bool {
        &&& b.len() == 19
        &&& self.spec_channel() == b[1]
        &&& self.spec_transaction() == b[2]
        &&& self.spec_raw_data() == b.subrange(3, 17)
        &&& self.spec_flags() == b[18]
    }

    /// The channel the frame is sent on.
    pub closed spec fn spec_channel(self) -> u8 {
        self.channel
    }

    /// The transaction number echoed by the adapter.
    pub closed spec fn spec_transaction(self) -> u8 {
        self.transaction
    }

    /// The fourteen raw bytes: identifier, data length and data.
    pub closed spec fn spec_raw_data(self) -> Seq<u8> {
        self.raw_data@
    }

    /// The transmit flags.
    pub closed spec fn spec_flags(self) -> u8 {
        self.flags
    }

    /// The raw bytes of a transmit request are fourteen bytes long.
    pub broadcast proof fn lemma_raw_data_len(self)
        ensures
            #[trigger] self.spec_raw_data().len() == 14,
    {
    }

    /// Two transmit requests with the same channel, transaction, raw bytes and flags are
    /// the same request.
    pub proof fn lemma_same_fields(self, other: TransmitMessage)
        requires
            self.spec_channel() == other.spec_channel(),
            self.spec_transaction() == other.spec_transaction(),
            self.spec_raw_data() == other.spec_raw_data(),
            self.spec_flags() == other.spec_flags(),
        ensures
            self == other,
    {
        assert(self.raw_data =~= other.raw_data);
    }
}

impl CardInfo {
    /// The bytes of this record after its command byte.
    pub open spec fn spec_body(self) -> Seq<u8> {
        seq![self.spec_transaction(), self.spec_channel_count()] + le_bytes(self.spec_serial_number() as nat, 4)
            + zeros(4) + le_bytes(self.spec_clock_resolution() as nat, 4) + le_bytes(
            self.spec_manufacture_date() as nat,
            4,
        ) + le_bytes(self.spec_ean() as nat, 8) + seq![
            self.spec_hardware_revision(),
            self.spec_usb_hs_mode(),
            self.spec_hardware_type(),
            self.spec_can_time_sample_reference(),
        ]
    }

    /// Whether this record is what the bytes of `b` after its command byte say.
    pub open spec fn read_from(self, b: Seq<u8>) -> bool {
        &&& b.len() == 31
        &&& self.spec_transaction() == b[1]
        &&& self.spec_channel_count() == b[2]
        &&& self.spec_serial_number() == le_at(b, 3, 4)
        &&& self.spec_clock_resolution() == le_at(b, 11, 4)
        &&& self.spec_manufacture_date() == le_at(b, 15, 4)
        &&& self.spec_ean() == le_at(b, 19, 8)
        &&& self.spec_hardware_revision() == b[27]
        &&& self.spec_usb_hs_mode() == b[28]
        &&& self.spec_hardware_type() == b[29]
        &&& self.spec_can_time_sample_reference() == b[30]
    }

    /// The transaction number echoed by the adapter.
    pub closed spec fn spec_transaction(self) -> u8 {
        self.transaction
    }

    /// The number of CAN channels.
    pub closed spec fn spec_channel_count(self) -> u8 {
        self.channel_count
    }

    /// The serial number printed on the enclosure.
    pub closed spec fn spec_serial_number(self) -> u32 {
        self.serial_number
    }

    /// The clock resolution of the adapter.
    pub closed spec fn spec_clock_resolution(self) -> u32 {
        self.clock_resolution
    }

    /// The manufacturing date, in seconds since the Unix epoch.
    pub closed spec fn spec_manufacture_date(self) -> u32 {
        self.manufacture_date
    }

    /// The EAN of the product.
    pub closed spec fn spec_ean(self) -> u64 {
        self.ean
    }

    /// The hardware revision.
    pub closed spec fn spec_hardware_revision(self) -> u8 {
        self.hardware_revision
    }

    /// Whether the adapter runs USB at high speed.
    pub closed spec fn spec_usb_hs_mode(self) -> u8 {
        self.usb_hs_mode
    }

    /// The hardware type.
    pub closed spec fn spec_hardware_type(self) -> u8 {
        self.hardware_type
    }

    /// The reference used for sampling CAN timestamps.
    pub closed spec fn spec_can_time_sample_reference(self) -> u8 {
        self.can_time_sample_reference
    }

    /// Two records with the same fields are the same record.
    pub proof fn lemma_same_fields(self, other: CardInfo)
        requires
            self.spec_transaction() == other.spec_transaction(),
            self.spec_channel_count() == other.spec_channel_count(),
            self.spec_serial_number() == other.spec_serial_number(),
            self.spec_clock_resolution() == other.spec_clock_resolution(),
            self.spec_manufacture_date() == other.spec_manufacture_date(),
            self.spec_ean() == other.spec_ean(),
            self.spec_hardware_revision() == other.spec_hardware_revision(),
            self.spec_usb_hs_mode() == other.spec_usb_hs_mode(),
            self.spec_hardware_type() == other.spec_hardware_type(),
            self.spec_can_time_sample_reference() == other.spec_can_time_sample_reference(),
        ensures
            self == other,
    {
    }
}

/// Six-byte little-endian timestamp field.
pub open spec fn ts6(t: u64) -> Seq<u8> {
    le_bytes(t as nat, 6)
}

impl KvaserMessage {
    /// The bytes that encode this message, command byte first.
    pub open spec fn spec_encode(self) -> Seq<u8> {
        match self {
            KvaserMessage::TransmitStandard(t) => seq![0x0Du8] + t.spec_body(),
            KvaserMessage::TransmitExtended(t) => seq![0x0Fu8] + t.spec_body(),
            KvaserMessage::SetBusParams { transaction, channel, bit_rate, tseg1, tseg2, sjw, no_samp } =>
                seq![0x10u8, transaction, channel] + le_bytes(bit_rate as nat, 4) + seq![tseg1, tseg2, sjw, no_samp],
            KvaserMessage::GetBusParams { transaction, channel } => seq![0x11u8, transaction, channel],
            KvaserMessage::BusParams { transaction, channel, bit_rate, tseq1, tseq2, sjw, no_samp } =>
                seq![0x12u8, transaction, channel] + le_bytes(bit_rate as nat, 4) + seq![tseq1, tseq2, sjw, no_samp],
            KvaserMessage::GetChipState { transaction, channel } => seq![0x13u8, transaction, channel],
            KvaserMessage::ChipState { transaction, channel, timestamp, tx_errors, rx_errors, bus_status } =>
                seq![0x14u8, transaction, channel] + ts6(timestamp) + seq![tx_errors, rx_errors, bus_status]
                    + zeros(3),
            KvaserMessage::SetDriverMode { transaction, channel, mode } =>
                seq![0x15u8, transaction, channel, mode] + zeros(3),
            KvaserMessage::GetDriverMode { transaction, channel } => seq![0x16u8, transaction, channel],
            KvaserMessage::DriverMode { transaction, channel, mode } =>
                seq![0x17u8, transaction, channel, mode] + zeros(3),
            KvaserMessage::ResetChip { transaction, channel } => seq![0x18u8, transaction, channel],
            KvaserMessage::ResetCard { transaction } => seq![0x19u8, transaction, 0u8],
            KvaserMessage::StartChip { transaction, channel } => seq![0x1Au8, transaction, channel],
            KvaserMessage::ChipStarted { transaction, channel } => seq![0x1Bu8, transaction, channel],
            KvaserMessage::StopChip { transaction, channel } => seq![0x1Cu8, transaction, channel],
            KvaserMessage::ChipStopped { transaction, channel } => seq![0x1Du8, transaction, channel],
            KvaserMessage::ReadClock { transaction, flags } => seq![0x1Eu8, transaction, flags],
            KvaserMessage::Clock { transaction, timestamp } =>
                seq![0x1Fu8, transaction, 0u8] + ts6(timestamp) + zeros(2),
            KvaserMessage::CardInfo2 { transaction, pcb_id, oem_unlock_code } =>
                seq![0x20u8, transaction, 0u8] + pcb_id@ + le_bytes(oem_unlock_code as nat, 4),
            KvaserMessage::GetCardInfo { transaction, level } => seq![0x22u8, transaction, level],
            KvaserMessage::CardInfo(info) => seq![0x23u8] + info.spec_body(),
            KvaserMessage::GetInterfaceInfo { transaction, channel } => seq![0x24u8, transaction, channel],
            KvaserMessage::InterfaceInfo { transaction, channel, capabilities, chip_type, chip_sub_type } =>
                seq![0x25u8, transaction, channel] + le_bytes(capabilities as nat, 4) + seq![chip_type, chip_sub_type]
                    + zeros(2),
            KvaserMessage::GetSoftwareInfo { transaction, channel } => seq![0x26u8, transaction, channel],
            KvaserMessage::SoftwareInfo { transaction, options, version, max_outstanding_tx } =>
                seq![0x27u8, transaction, 0u8] + le_bytes(options as nat, 4) + le_bytes(version as nat, 4)
                    + le_bytes(max_outstanding_tx as nat, 2) + zeros(6),
            KvaserMessage::GetBusLoad { transaction, channel } => seq![0x28u8, transaction, channel],
            KvaserMessage::BusLoad { transaction, channel, timestamp, sample_interval, active_samples, delta_t } =>
                seq![0x29u8, transaction, channel] + ts6(timestamp) + le_bytes(sample_interval as nat, 2)
                    + le_bytes(active_samples as nat, 2) + le_bytes(delta_t as nat, 2),
            KvaserMessage::ResetStatistics { transaction, channel } => seq![0x2Au8, transaction, channel],
            KvaserMessage::CheckLicense { transaction } => seq![0x2Bu8, transaction, 0u8],
            KvaserMessage::License { transaction, license_mask, kvaser_mask } =>
                seq![0x2Cu8, transaction, 0u8] + le_bytes(license_mask as nat, 4) + le_bytes(kvaser_mask as nat, 4),
            KvaserMessage::ErrorEvent { transaction, error, timestamp, add_info1, add_info2 } =>
                seq![0x2Du8, transaction, error] + ts6(timestamp) + zeros(2) + le_bytes(add_info1 as nat, 2)
                    + le_bytes(add_info2 as nat, 2),
            KvaserMessage::FlushQueue { transaction, channel, flags } =>
                seq![0x30u8, transaction, channel, flags] + zeros(3),
            KvaserMessage::ResetErrorCounter { transaction, channel } => seq![0x31u8, transaction, channel],
            KvaserMessage::CanErrorEvent {
                transaction,
                flags,
                timestamp,
                channel,
                tx_errors,
                rx_errors,
                bus_status,
                error_factor,
            } => seq![0x33u8, transaction, flags] + ts6(timestamp) + seq![
                channel,
                0u8,
                tx_errors,
                rx_errors,
                bus_status,
                error_factor,
            ],
            KvaserMessage::UsbThrottle(v) => seq![0x4Du8] + le_bytes(v as nat, 2),
            KvaserMessage::LogMessage { channel, flags, timestamp, dlc, time_offset, id, extended, data } =>
                seq![LOG_MESSAGE_COMMAND, channel, flags] + ts6(timestamp) + seq![dlc, time_offset]
                    + le_bytes(id as nat, 3) + seq![id_top_byte(id, extended)] + data@,
            KvaserMessage::Unknown { command, data } => seq![command] + data@,
        }
    }

    /// Whether the message can be encoded: a log message's identifier has 29 bits.
    pub open spec fn encodable(self) -> bool {
        match self {
            KvaserMessage::LogMessage { id, .. } => id < 0x2000_0000,
            _ => true,
        }
    }

    /// Whether encoding keeps every field: timestamps fit in their six bytes and an
    /// unknown message does not carry the command byte of a known one.
    pub open spec fn encoding_is_lossless(self) -> bool {
        match self {
            KvaserMessage::ChipState { timestamp, .. } => timestamp < 0x1_0000_0000_0000,
            KvaserMessage::Clock { timestamp, .. } => timestamp < 0x1_0000_0000_0000,
            KvaserMessage::BusLoad { timestamp, .. } => timestamp < 0x1_0000_0000_0000,
            KvaserMessage::ErrorEvent { timestamp, .. } => timestamp < 0x1_0000_0000_0000,
            KvaserMessage::CanErrorEvent { timestamp, .. } => timestamp < 0x1_0000_0000_0000,
            KvaserMessage::LogMessage { timestamp, .. } => timestamp < 0x1_0000_0000_0000,
            KvaserMessage::Unknown { command, .. } => !is_known_command(command),
            _ => true,
        }
    }

    /// Whether this message is what the bytes `b` (command byte first) say.
    ///
    /// Padding bytes are not looked at. Together with `parse_failure(b) is None` this
    /// determines every field of the message.
    pub open spec fn read_from(self, b: Seq<u8>) -> bool {
        match self {
            KvaserMessage::TransmitStandard(t) => b.len() > 0 && b[0] == 0x0D && t.read_from(b),
            KvaserMessage::TransmitExtended(t) => b.len() > 0 && b[0] == 0x0F && t.read_from(b),
            KvaserMessage::SetBusParams { transaction, channel, bit_rate, tseg1, tseg2, sjw, no_samp } =>
                b.len() == 11 && b[0] == 0x10 && transaction == b[1] && channel == b[2]
                    && bit_rate == le_at(b, 3, 4) && tseg1 == b[7] && tseg2 == b[8] && sjw == b[9]
                    && no_samp == b[10],
            KvaserMessage::GetBusParams { transaction, channel } =>
                b.len() == 3 && b[0] == 0x11 && transaction == b[1] && channel == b[2],
            KvaserMessage::BusParams { transaction, channel, bit_rate, tseq1, tseq2, sjw, no_samp } =>
                b.len() == 11 && b[0] == 0x12 && transaction == b[1] && channel == b[2]
                    && bit_rate == le_at(b, 3, 4) && tseq1 == b[7] && tseq2 == b[8] && sjw == b[9]
                    && no_samp == b[10],
            KvaserMessage::GetChipState { transaction, channel } =>
                b.len() == 3 && b[0] == 0x13 && transaction == b[1] && channel == b[2],
            KvaserMessage::ChipState { transaction, channel, timestamp, tx_errors, rx_errors, bus_status } =>
                b.len() == 15 && b[0] == 0x14 && transaction == b[1] && channel == b[2]
                    && timestamp == le_at(b, 3, 6) && tx_errors == b[9] && rx_errors == b[10]
                    && bus_status == b[11],
            KvaserMessage::SetDriverMode { transaction, channel, mode } =>
                b.len() == 7 && b[0] == 0x15 && transaction == b[1] && channel == b[2] && mode == b[3],
            KvaserMessage::GetDriverMode { transaction, channel } =>
                b.len() == 3 && b[0] == 0x16 && transaction == b[1] && channel == b[2],
            KvaserMessage::DriverMode { transaction, channel, mode } =>
                b.len() == 7 && b[0] == 0x17 && transaction == b[1] && channel == b[2] && mode == b[3],
            KvaserMessage::ResetChip { transaction, channel } =>
                b.len() == 3 && b[0] == 0x18 && transaction == b[1] && channel == b[2],
            KvaserMessage::ResetCard { transaction } => b.len() == 3 && b[0] == 0x19 && transaction == b[1],
            KvaserMessage::StartChip { transaction, channel } =>
                b.len() == 3 && b[0] == 0x1A && transaction == b[1] && channel == b[2],
            KvaserMessage::ChipStarted { transaction, channel } =>
                b.len() == 3 && b[0] == 0x1B && transaction == b[1] && channel == b[2],
            KvaserMessage::StopChip { transaction, channel } =>
                b.len() == 3 && b[0] == 0x1C && transaction == b[1] && channel == b[2],
            KvaserMessage::ChipStopped { transaction, channel } =>
                b.len() == 3 && b[0] == 0x1D && transaction == b[1] && channel == b[2],
            KvaserMessage::ReadClock { transaction, flags } =>
                b.len() == 3 && b[0] == 0x1E && transaction == b[1] && flags == b[2],
            KvaserMessage::Clock { transaction, timestamp } =>
                b.len() == 11 && b[0] == 0x1F && transaction == b[1] && timestamp == le_at(b, 3, 6),
            KvaserMessage::CardInfo2 { transaction, pcb_id, oem_unlock_code } =>
                b.len() == 31 && b[0] == 0x20 && transaction == b[1] && pcb_id@ == b.subrange(3, 27)
                    && oem_unlock_code == le_at(b, 27, 4),
            KvaserMessage::GetCardInfo { transaction, level } =>
                b.len() == 3 && b[0] == 0x22 && transaction == b[1] && level == b[2],
            KvaserMessage::CardInfo(info) => b.len() > 0 && b[0] == 0x23 && info.read_from(b),
            KvaserMessage::GetInterfaceInfo { transaction, channel } =>
                b.len() == 3 && b[0] == 0x24 && transaction == b[1] && channel == b[2],
            KvaserMessage::InterfaceInfo { transaction, channel, capabilities, chip_type, chip_sub_type } =>
                b.len() == 11 && b[0] == 0x25 && transaction == b[1] && channel == b[2]
                    && capabilities == le_at(b, 3, 4) && chip_type == b[7] && chip_sub_type == b[8],
            KvaserMessage::GetSoftwareInfo { transaction, channel } =>
                b.len() == 3 && b[0] == 0x26 && transaction == b[1] && channel == b[2],
            KvaserMessage::SoftwareInfo { transaction, options, version, max_outstanding_tx } =>
                b.len() == 19 && b[0] == 0x27 && transaction == b[1] && options == le_at(b, 3, 4)
                    && version == le_at(b, 7, 4) && max_outstanding_tx == le_at(b, 11, 2),
            KvaserMessage::GetBusLoad { transaction, channel } =>
                b.len() == 3 && b[0] == 0x28 && transaction == b[1] && channel == b[2],
            KvaserMessage::BusLoad { transaction, channel, timestamp, sample_interval, active_samples, delta_t } =>
                b.len() == 15 && b[0] == 0x29 && transaction == b[1] && channel == b[2]
                    && timestamp == le_at(b, 3, 6) && sample_interval == le_at(b, 9, 2)
                    && active_samples == le_at(b, 11, 2) && delta_t == le_at(b, 13, 2),
            KvaserMessage::ResetStatistics { transaction, channel } =>
                b.len() == 3 && b[0] == 0x2A && transaction == b[1] && channel == b[2],
            KvaserMessage::CheckLicense { transaction } => b.len() == 3 && b[0] == 0x2B && transaction == b[1],
            KvaserMessage::License { transaction, license_mask, kvaser_mask } =>
                b.len() == 11 && b[0] == 0x2C && transaction == b[1] && license_mask == le_at(b, 3, 4)
                    && kvaser_mask == le_at(b, 7, 4),
            KvaserMessage::ErrorEvent { transaction, error, timestamp, add_info1, add_info2 } =>
                b.len() == 15 && b[0] == 0x2D && transaction == b[1] && error == b[2]
                    && timestamp == le_at(b, 3, 6) && add_info1 == le_at(b, 11, 2)
                    && add_info2 == le_at(b, 13, 2),
            KvaserMessage::FlushQueue { transaction, channel, flags } =>
                b.len() == 7 && b[0] == 0x30 && transaction == b[1] && channel == b[2] && flags == b[3],
            KvaserMessage::ResetErrorCounter { transaction, channel } =>
                b.len() == 3 && b[0] == 0x31 && transaction == b[1] && channel == b[2],
            KvaserMessage::CanErrorEvent {
                transaction,
                flags,
                timestamp,
                channel,
                tx_errors,
                rx_errors,
                bus_status,
                error_factor,
            } => b.len() == 15 && b[0] == 0x33 && transaction == b[1] && flags == b[2]
                && timestamp == le_at(b, 3, 6) && channel == b[9] && tx_errors == b[11]
                && rx_errors == b[12] && bus_status == b[13] && error_factor == b[14],
            KvaserMessage::UsbThrottle(v) => b.len() == 3 && b[0] == 0x4D && v == le_at(b, 1, 2),
            KvaserMessage::LogMessage { channel, flags, timestamp, dlc, time_offset, id, extended, data } =>
                b.len() >= LOG_MESSAGE_HEADER_LEN && b[0] == LOG_MESSAGE_COMMAND && channel == b[1]
                    && flags == b[2] && timestamp == le_at(b, 3, 6) && dlc == b[9]
                    && time_offset == b[10]
                    && id == le_value(b.subrange(11, 14)) + 0x100_0000 * (b[14] as nat % 32)
                    && extended == (b[14] >= 128) && data@ == b.subrange(
                    LOG_MESSAGE_HEADER_LEN as int,
                    b.len() as int,
                ),
            KvaserMessage::Unknown { command, data } =>
                b.len() > 0 && !is_known_command(b[0]) && command == b[0]
                    && data@ == b.subrange(1, b.len() as int),
        }
    }
}

impl KvaserMessage {
    /// Encodes the message, command byte first.
    pub fn to_bytes(&self) -> (out: Vec<u8>)
        requires
            self.encodable(),
        ensures
            out@ == self.spec_encode(),
    {
        let mut out: Vec<u8> = Vec::new();
        match self {
            KvaserMessage::TransmitStandard(t) => {
                out.push(0x0D);
                t.push_body(&mut out);
            },
            KvaserMessage::TransmitExtended(t) => {
                out.push(0x0F);
                t.push_body(&mut out);
            },
            KvaserMessage::SetBusParams { transaction, channel, bit_rate, tseg1, tseg2, sjw, no_samp } => {
                push_three(&mut out, 0x10, *transaction, *channel);
                push_le(&mut out, *bit_rate as u64, 4);
                push_four(&mut out, *tseg1, *tseg2, *sjw, *no_samp);
            },
            KvaserMessage::GetBusParams { transaction, channel } => push_three(&mut out, 0x11, *transaction, *channel),
            KvaserMessage::BusParams { transaction, channel, bit_rate, tseq1, tseq2, sjw, no_samp } => {
                push_three(&mut out, 0x12, *transaction, *channel);
                push_le(&mut out, *bit_rate as u64, 4);
                push_four(&mut out, *tseq1, *tseq2, *sjw, *no_samp);
            },
            KvaserMessage::GetChipState { transaction, channel } => push_three(&mut out, 0x13, *transaction, *channel),
            KvaserMessage::ChipState { transaction, channel, timestamp, tx_errors, rx_errors, bus_status } => {
                push_three(&mut out, 0x14, *transaction, *channel);
                push_le(&mut out, *timestamp, 6);
                push_three(&mut out, *tx_errors, *rx_errors, *bus_status);
                push_zeros(&mut out, 3);
            },
            KvaserMessage::SetDriverMode { transaction, channel, mode } => {
                push_four(&mut out, 0x15, *transaction, *channel, *mode);
                push_zeros(&mut out, 3);
            },
            KvaserMessage::GetDriverMode { transaction, channel } => push_three(&mut out, 0x16, *transaction, *channel),
            KvaserMessage::DriverMode { transaction, channel, mode } => {
                push_four(&mut out, 0x17, *transaction, *channel, *mode);
                push_zeros(&mut out, 3);
            },
            KvaserMessage::ResetChip { transaction, channel } => push_three(&mut out, 0x18, *transaction, *channel),
            KvaserMessage::ResetCard { transaction } => push_three(&mut out, 0x19, *transaction, 0),
            KvaserMessage::StartChip { transaction, channel } => push_three(&mut out, 0x1A, *transaction, *channel),
            KvaserMessage::ChipStarted { transaction, channel } => push_three(&mut out, 0x1B, *transaction, *channel),
            KvaserMessage::StopChip { transaction, channel } => push_three(&mut out, 0x1C, *transaction, *channel),
            KvaserMessage::ChipStopped { transaction, channel } => push_three(&mut out, 0x1D, *transaction, *channel),
            KvaserMessage::ReadClock { transaction, flags } => push_three(&mut out, 0x1E, *transaction, *flags),
            KvaserMessage::Clock { transaction, timestamp } => {
                push_three(&mut out, 0x1F, *transaction, 0);
                push_le(&mut out, *timestamp, 6);
                push_zeros(&mut out, 2);
            },
            KvaserMessage::CardInfo2 { transaction, pcb_id, oem_unlock_code } => {
                push_three(&mut out, 0x20, *transaction, 0);
                push_bytes(&mut out, pcb_id.as_slice());
                push_le(&mut out, *oem_unlock_code as u64, 4);
            },
            KvaserMessage::GetCardInfo { transaction, level } => push_three(&mut out, 0x22, *transaction, *level),
            KvaserMessage::CardInfo(info) => {
                out.push(0x23);
                info.push_body(&mut out);
            },
            KvaserMessage::GetInterfaceInfo { transaction, channel } => push_three(&mut out, 0x24, *transaction, *channel),
            KvaserMessage::InterfaceInfo { transaction, channel, capabilities, chip_type, chip_sub_type } => {
                push_three(&mut out, 0x25, *transaction, *channel);
                push_le(&mut out, *capabilities as u64, 4);
                out.push(*chip_type);
                out.push(*chip_sub_type);
                push_zeros(&mut out, 2);
            },
            KvaserMessage::GetSoftwareInfo { transaction, channel } => push_three(&mut out, 0x26, *transaction, *channel),
            KvaserMessage::SoftwareInfo { transaction, options, version, max_outstanding_tx } => {
                push_three(&mut out, 0x27, *transaction, 0);
                push_le(&mut out, *options as u64, 4);
                push_le(&mut out, *version as u64, 4);
                push_le(&mut out, *max_outstanding_tx as u64, 2);
                push_zeros(&mut out, 6);
            },
            KvaserMessage::GetBusLoad { transaction, channel } => push_three(&mut out, 0x28, *transaction, *channel),
            KvaserMessage::BusLoad { transaction, channel, timestamp, sample_interval, active_samples, delta_t } => {
                push_three(&mut out, 0x29, *transaction, *channel);
                push_le(&mut out, *timestamp, 6);
                push_le(&mut out, *sample_interval as u64, 2);
                push_le(&mut out, *active_samples as u64, 2);
                push_le(&mut out, *delta_t as u64, 2);
            },
            KvaserMessage::ResetStatistics { transaction, channel } => push_three(&mut out, 0x2A, *transaction, *channel),
            KvaserMessage::CheckLicense { transaction } => push_three(&mut out, 0x2B, *transaction, 0),
            KvaserMessage::License { transaction, license_mask, kvaser_mask } => {
                push_three(&mut out, 0x2C, *transaction, 0);
                push_le(&mut out, *license_mask as u64, 4);
                push_le(&mut out, *kvaser_mask as u64, 4);
            },
            KvaserMessage::ErrorEvent { transaction, error, timestamp, add_info1, add_info2 } => {
                push_three(&mut out, 0x2D, *transaction, *error);
                push_le(&mut out, *timestamp, 6);
                push_zeros(&mut out, 2);
                push_le(&mut out, *add_info1 as u64, 2);
                push_le(&mut out, *add_info2 as u64, 2);
            },
            KvaserMessage::FlushQueue { transaction, channel, flags } => {
                push_four(&mut out, 0x30, *transaction, *channel, *flags);
                push_zeros(&mut out, 3);
            },
            KvaserMessage::ResetErrorCounter { transaction, channel } => push_three(&mut out, 0x31, *transaction, *channel),
            KvaserMessage::CanErrorEvent {
                transaction,
                flags,
                timestamp,
                channel,
                tx_errors,
                rx_errors,
                bus_status,
                error_factor,
            } => {
                push_three(&mut out, 0x33, *transaction, *flags);
                push_le(&mut out, *timestamp, 6);
                out.push(*channel);
                out.push(0);
                push_four(&mut out, *tx_errors, *rx_errors, *bus_status, *error_factor);
            },
            KvaserMessage::UsbThrottle(v) => {
                out.push(0x4D);
                push_le(&mut out, *v as u64, 2);
            },
            KvaserMessage::LogMessage { channel, flags, timestamp, dlc, time_offset, id, extended, data } => {
                push_three(&mut out, LOG_MESSAGE_COMMAND, *channel, *flags);
                push_le(&mut out, *timestamp, 6);
                out.push(*dlc);
                out.push(*time_offset);
                push_le(&mut out, *id as u64, 3);
                let top: u32 = (*id / 0x100_0000) % 32 + if *extended { 128 } else { 0 };
                out.push(top as u8);
                push_bytes(&mut out, data.as_slice());
            },
            KvaserMessage::Unknown { command, data } => {
                out.push(*command);
                push_bytes(&mut out, data.as_slice());
            },
        }
        out
    }
}

/// Appends three bytes to `out`.
fn push_three(out: &mut Vec<u8>, a: u8, b: u8, c: u8)
    ensures
        final(out)@ == old(out)@ + seq![a, b, c],
{
    out.push(a);
    out.push(b);
    out.push(c);
}

/// Appends four bytes to `out`.
fn push_four(out: &mut Vec<u8>, a: u8, b: u8, c: u8, d: u8)
    ensures
        final(out)@ == old(out)@ + seq![a, b, c, d],
{
    out.push(a);
    out.push(b);
    out.push(c);
    out.push(d);
}

impl TransmitMessage {
    fn push_body(&self, out: &mut Vec<u8>)
        ensures
            final(out)@ == old(out)@ + self.spec_body(),
    {
        out.push(self.channel);
        out.push(self.transaction);
        push_bytes(out, self.raw_data.as_slice());
        out.push(0);
        out.push(self.flags);
    }
}

impl CardInfo {
    fn push_body(&self, out: &mut Vec<u8>)
        ensures
            final(out)@ == old(out)@ + self.spec_body(),
    {
        out.push(self.transaction);
        out.push(self.channel_count);
        push_le(out, self.serial_number as u64, 4);
        push_zeros(out, 4);
        push_le(out, self.clock_resolution as u64, 4);
        push_le(out, self.manufacture_date as u64, 4);
        push_le(out, self.ean, 8);
        push_four(out, self.hardware_revision, self.usb_hs_mode, self.hardware_type, self.can_time_sample_reference);
    }
}

/// The length, command byte included, of the message that `cmd` starts, where it is fixed.
fn command_len(cmd: u8) -> (r: Option<usize>)
    ensures
        match r {
            Some(n) => fixed_len(cmd) == Some(n as nat),
            None => fixed_len(cmd) is None,
        },
{
    match cmd {
        0x0D | 0x0F | 0x27 => Some(19),
        0x10 | 0x12 | 0x1F | 0x25 | 0x2C => Some(11),
        0x14 | 0x29 | 0x2D | 0x33 => Some(15),
        0x15 | 0x17 | 0x30 => Some(7),
        0x20 | 0x23 => Some(31),
        0x11 | 0x13 | 0x16 | 0x18 | 0x19 | 0x1A | 0x1B | 0x1C | 0x1D | 0x1E | 0x22 | 0x24 | 0x26
        | 0x28 | 0x2A | 0x2B | 0x31 | 0x4D => Some(3),
        _ => None,
    }
}

impl KvaserMessage {
    /// Reads a message from `b`, command byte first, which must hold exactly one message.
    pub fn from_bytes(b: &[u8]) -> (r: Result<KvaserMessage, ParseError>)
        ensures
            match r {
                Ok(m) => parse_failure(b@) is None && m.read_from(b@),
                Err(e) => parse_failure(b@) == Some(e),
            },
    {
        let n = b.len();
        if n == 0 {
            return Err(ParseError::Incomplete);
        }
        let cmd = b[0];
        if cmd == LOG_MESSAGE_COMMAND {
            if n < LOG_MESSAGE_HEADER_LEN {
                return Err(ParseError::Incomplete);
            }
            return Ok(read_log_message(b));
        }
        match command_len(cmd) {
            Some(len) => {
                if n < len {
                    Err(ParseError::Incomplete)
                } else if n > len {
                    Err(ParseError::TooMuchData)
                } else {
                    Ok(read_fixed(b))
                }
            },
            None => Ok(KvaserMessage::Unknown { command: cmd, data: tail_vec(b, 1) }),
        }
    }
}

/// Reads a log message.
fn read_log_message(b: &[u8]) -> (m: KvaserMessage)
    requires
        b@.len() >= LOG_MESSAGE_HEADER_LEN,
        b@[0] == LOG_MESSAGE_COMMAND,
    ensures
        m.read_from(b@),
{
    let low = read_le(b, 11, 3);
    let top = b[14];
    proof {
        crate::wire::lemma_le_value_bound(b@.subrange(11, 14));
        lemma_pow256_widths();
    }
    let id: u32 = low as u32 + 0x100_0000 * (top % 32) as u32;
    KvaserMessage::LogMessage {
        channel: b[1],
        flags: b[2],
        timestamp: read_le(b, 3, 6),
        dlc: b[9],
        time_offset: b[10],
        id,
        extended: top >= 128,
        data: tail_vec(b, LOG_MESSAGE_HEADER_LEN),
    }
}

/// Reads a message whose layout is fixed.
fn read_fixed(b: &[u8]) -> (m: KvaserMessage)
    requires
        b@.len() > 0,
        fixed_len(b@[0]) == Some(b@.len()),
    ensures
        m.read_from(b@),
{
    match b[0] {
        0x0D => KvaserMessage::TransmitStandard(TransmitMessage::read(b)),
        0x0F => KvaserMessage::TransmitExtended(TransmitMessage::read(b)),
        0x10 => KvaserMessage::SetBusParams {
            transaction: b[1],
            channel: b[2],
            bit_rate: read_u32(b, 3),
            tseg1: b[7],
            tseg2: b[8],
            sjw: b[9],
            no_samp: b[10],
        },
        0x11 => KvaserMessage::GetBusParams { transaction: b[1], channel: b[2] },
        0x12 => KvaserMessage::BusParams {
            transaction: b[1],
            channel: b[2],
            bit_rate: read_u32(b, 3),
            tseq1: b[7],
            tseq2: b[8],
            sjw: b[9],
            no_samp: b[10],
        },
        0x13 => KvaserMessage::GetChipState { transaction: b[1], channel: b[2] },
        0x14 => KvaserMessage::ChipState {
            transaction: b[1],
            channel: b[2],
            timestamp: read_le(b, 3, 6),
            tx_errors: b[9],
            rx_errors: b[10],
            bus_status: b[11],
        },
        0x15 => KvaserMessage::SetDriverMode { transaction: b[1], channel: b[2], mode: b[3] },
        0x16 => KvaserMessage::GetDriverMode { transaction: b[1], channel: b[2] },
        0x17 => KvaserMessage::DriverMode { transaction: b[1], channel: b[2], mode: b[3] },
        0x18 => KvaserMessage::ResetChip { transaction: b[1], channel: b[2] },
        0x19 => KvaserMessage::ResetCard { transaction: b[1] },
        0x1A => KvaserMessage::StartChip { transaction: b[1], channel: b[2] },
        0x1B => KvaserMessage::ChipStarted { transaction: b[1], channel: b[2] },
        0x1C => KvaserMessage::StopChip { transaction: b[1], channel: b[2] },
        0x1D => KvaserMessage::ChipStopped { transaction: b[1], channel: b[2] },
        0x1E => KvaserMessage::ReadClock { transaction: b[1], flags: b[2] },
        0x1F => KvaserMessage::Clock { transaction: b[1], timestamp: read_le(b, 3, 6) },
        0x20 => KvaserMessage::CardInfo2 {
            transaction: b[1],
            pcb_id: read_array::<24>(b, 3),
            oem_unlock_code: read_u32(b, 27),
        },
        0x22 => KvaserMessage::GetCardInfo { transaction: b[1], level: b[2] },
        0x23 => KvaserMessage::CardInfo(CardInfo::read(b)),
        0x24 => KvaserMessage::GetInterfaceInfo { transaction: b[1], channel: b[2] },
        0x25 => KvaserMessage::InterfaceInfo {
            transaction: b[1],
            channel: b[2],
            capabilities: read_u32(b, 3),
            chip_type: b[7],
            chip_sub_type: b[8],
        },
        0x26 => KvaserMessage::GetSoftwareInfo { transaction: b[1], channel: b[2] },
        0x27 => KvaserMessage::SoftwareInfo {
            transaction: b[1],
            options: read_u32(b, 3),
            version: read_u32(b, 7),
            max_outstanding_tx: read_u16(b, 11),
        },
        0x28 => KvaserMessage::GetBusLoad { transaction: b[1], channel: b[2] },
        0x29 => KvaserMessage::BusLoad {
            transaction: b[1],
            channel: b[2],
            timestamp: read_le(b, 3, 6),
            sample_interval: read_u16(b, 9),
            active_samples: read_u16(b, 11),
            delta_t: read_u16(b, 13),
        },
        0x2A => KvaserMessage::ResetStatistics { transaction: b[1], channel: b[2] },
        0x2B => KvaserMessage::CheckLicense { transaction: b[1] },
        0x2C => KvaserMessage::License {
            transaction: b[1],
            license_mask: read_u32(b, 3),
            kvaser_mask: read_u32(b, 7),
        },
        0x2D => KvaserMessage::ErrorEvent {
            transaction: b[1],
            error: b[2],
            timestamp: read_le(b, 3, 6),
            add_info1: read_u16(b, 11),
            add_info2: read_u16(b, 13),
        },
        0x30 => KvaserMessage::FlushQueue { transaction: b[1], channel: b[2], flags: b[3] },
        0x31 => KvaserMessage::ResetErrorCounter { transaction: b[1], channel: b[2] },
        0x33 => KvaserMessage::CanErrorEvent {
            transaction: b[1],
            flags: b[2],
            timestamp: read_le(b, 3, 6),
            channel: b[9],
            tx_errors: b[11],
            rx_errors: b[12],
            bus_status: b[13],
            error_factor: b[14],
        },
        _ => KvaserMessage::UsbThrottle(read_u16(b, 1)),
    }
}

impl TransmitMessage {
    fn read(b: &[u8]) -> (t: TransmitMessage)
        requires
            b@.len() == 19,
        ensures
            t.read_from(b@),
    {
        TransmitMessage { channel: b[1], transaction: b[2], raw_data: read_array::<14>(b, 3), flags: b[18] }
    }
}

impl CardInfo {
    fn read(b: &[u8]) -> (info: CardInfo)
        requires
            b@.len() == 31,
        ensures
            info.read_from(b@),
    {
        CardInfo {
            transaction: b[1],
            channel_count: b[2],
            serial_number: read_u32(b, 3),
            clock_resolution: read_u32(b, 11),
            manufacture_date: read_u32(b, 15),
            ean: read_le(b, 19, 8),
            hardware_revision: b[27],
            usb_hs_mode: b[28],
            hardware_type: b[29],
            can_time_sample_reference: b[30],
        }
    }
}

/// Encoding a message and reading the bytes back gives the same message.
///
/// This holds of every message that can be encoded and whose fields survive encoding
/// (a timestamp above 48 bits, or an unknown message that reuses a known command byte,
/// does not).
pub proof fn lemma_read_after_encode(m: KvaserMessage)
    requires
        m.encodable(),
        m.encoding_is_lossless(),
    ensures
        parse_failure(m.spec_encode()) is None,
        m.read_from(m.spec_encode()),
{
    broadcast use {lemma_le_bytes_len, lemma_le_value_of_bytes_mod};

    lemma_pow256_widths();
    let b = m.spec_encode();
    match m {
        KvaserMessage::TransmitStandard(t) => t.lemma_read_body(0x0D),
        KvaserMessage::TransmitExtended(t) => t.lemma_read_body(0x0F),
        KvaserMessage::SetBusParams { bit_rate, .. } => {
            assert(b.subrange(3, 7) =~= le_bytes(bit_rate as nat, 4));
        },
        KvaserMessage::BusParams { bit_rate, .. } => {
            assert(b.subrange(3, 7) =~= le_bytes(bit_rate as nat, 4));
        },
        KvaserMessage::ChipState { timestamp, .. } => {
            assert(b.subrange(3, 9) =~= le_bytes(timestamp as nat, 6));
        },
        KvaserMessage::Clock { timestamp, .. } => {
            assert(b.subrange(3, 9) =~= le_bytes(timestamp as nat, 6));
        },
        KvaserMessage::CardInfo2 { pcb_id, oem_unlock_code, .. } => {
            assert(b.subrange(3, 27) =~= pcb_id@);
            assert(b.subrange(27, 31) =~= le_bytes(oem_unlock_code as nat, 4));
        },
        KvaserMessage::CardInfo(info) => info.lemma_read_body(0x23),
        KvaserMessage::InterfaceInfo { capabilities, .. } => {
            assert(b.subrange(3, 7) =~= le_bytes(capabilities as nat, 4));
        },
        KvaserMessage::SoftwareInfo { options, version, max_outstanding_tx, .. } => {
            assert(b.subrange(3, 7) =~= le_bytes(options as nat, 4));
            assert(b.subrange(7, 11) =~= le_bytes(version as nat, 4));
            assert(b.subrange(11, 13) =~= le_bytes(max_outstanding_tx as nat, 2));
        },
        KvaserMessage::BusLoad { timestamp, sample_interval, active_samples, delta_t, .. } => {
            assert(b.subrange(3, 9) =~= le_bytes(timestamp as nat, 6));
            assert(b.subrange(9, 11) =~= le_bytes(sample_interval as nat, 2));
            assert(b.subrange(11, 13) =~= le_bytes(active_samples as nat, 2));
            assert(b.subrange(13, 15) =~= le_bytes(delta_t as nat, 2));
        },
        KvaserMessage::License { license_mask, kvaser_mask, .. } => {
            assert(b.subrange(3, 7) =~= le_bytes(license_mask as nat, 4));
            assert(b.subrange(7, 11) =~= le_bytes(kvaser_mask as nat, 4));
        },
        KvaserMessage::ErrorEvent { timestamp, add_info1, add_info2, .. } => {
            assert(b.subrange(3, 9) =~= le_bytes(timestamp as nat, 6));
            assert(b.subrange(11, 13) =~= le_bytes(add_info1 as nat, 2));
            assert(b.subrange(13, 15) =~= le_bytes(add_info2 as nat, 2));
        },
        KvaserMessage::CanErrorEvent { timestamp, .. } => {
            assert(b.subrange(3, 9) =~= le_bytes(timestamp as nat, 6));
        },
        KvaserMessage::UsbThrottle(v) => {
            assert(b.subrange(1, 3) =~= le_bytes(v as nat, 2));
        },
        KvaserMessage::LogMessage { timestamp, id, extended, data, .. } => {
            assert(b.subrange(3, 9) =~= le_bytes(timestamp as nat, 6));
            assert(b.subrange(11, 14) =~= le_bytes(id as nat, 3));
            assert(b.subrange(15, b.len() as int) =~= data@);
            let hi = id as nat / 0x100_0000;
            assert(b[14] == id_top_byte(id, extended));
            assert(id as nat == id as nat % 0x100_0000 + 0x100_0000 * hi) by (nonlinear_arith)
                requires
                    hi == id as nat / 0x100_0000,
            ;
            assert(hi < 32);
        },
        KvaserMessage::Unknown { data, .. } => {
            assert(b.subrange(1, b.len() as int) =~= data@);
        },
        _ => {},
    }
}

impl TransmitMessage {
    proof fn lemma_read_body(self, cmd: u8)
        ensures
            self.read_from(seq![cmd] + self.spec_body()),
    {
        let b = seq![cmd] + self.spec_body();
        assert(b.subrange(3, 17) =~= self.raw_data@);
    }
}

impl CardInfo {
    proof fn lemma_read_body(self, cmd: u8)
        ensures
            self.read_from(seq![cmd] + self.spec_body()),
    {
        broadcast use {lemma_le_bytes_len, lemma_le_value_of_bytes_mod};

        lemma_pow256_widths();
        let b = seq![cmd] + self.spec_body();
        assert(b.subrange(3, 7) =~= le_bytes(self.serial_number as nat, 4));
        assert(b.subrange(11, 15) =~= le_bytes(self.clock_resolution as nat, 4));
        assert(b.subrange(15, 19) =~= le_bytes(self.manufacture_date as nat, 4));
        assert(b.subrange(19, 27) =~= le_bytes(self.ean as nat, 8));
    }
}

/// The identifier bytes that `TransmitMessage::standard` writes for an 11-bit identifier.
pub open spec fn standard_id_bytes(id: u16) -> Seq<u8> {
    seq![((id >> 6) & 0x1f) as u8, (id & 0x3f) as u8, 0u8, 0u8, 0u8]
}

/// The identifier bytes that `TransmitMessage::extended` writes for a 29-bit identifier.
pub open spec fn extended_id_bytes(id: u32) -> Seq<u8> {
    seq![
        ((id >> 24) & 0x1f) as u8,
        ((id >> 18) & 0x3f) as u8,
        ((id >> 14) & 0x0f) as u8,
        ((id >> 6) & 0xff) as u8,
        (id & 0x3f) as u8,
    ]
}

/// The fourteen raw bytes of a transmitted frame: five identifier bytes, the data length,
/// then the data padded with zeros to eight bytes.
pub open spec fn raw_frame(id_bytes: Seq<u8>, data: Seq<u8>) -> Seq<u8> {
    id_bytes + seq![data.len() as u8] + data + zeros((8 - data.len()) as nat)
}

impl TransmitMessage {
    /// A standard-frame (11-bit identifier) transmit request.
    pub fn standard(channel: u8, transaction: u8, id: u16, data: &[u8], flags: u8) -> (t: Self)
        requires
            data@.len() <= 8,
        ensures
            t.spec_channel() == channel,
            t.spec_transaction() == transaction,
            t.spec_raw_data() == raw_frame(standard_id_bytes(id), data@),
            t.spec_flags() == flags,
    {
        let len = data.len();
        let mut raw_data = [0u8; 14];
        raw_data[0] = (id >> 6 & 0x1f) as u8;
        raw_data[1] = (id & 0x3f) as u8;
        raw_data[5] = len as u8;
        copy_data(&mut raw_data, data);
        assert(raw_data@ =~= raw_frame(standard_id_bytes(id), data@));
        TransmitMessage { channel, transaction, raw_data, flags }
    }

    /// An extended-frame (29-bit identifier) transmit request.
    pub fn extended(channel: u8, transaction: u8, id: u32, data: &[u8], flags: u8) -> (t: Self)
        requires
            data@.len() <= 8,
        ensures
            t.spec_channel() == channel,
            t.spec_transaction() == transaction,
            t.spec_raw_data() == raw_frame(extended_id_bytes(id), data@),
            t.spec_flags() == flags,
    {
        let len = data.len();
        let mut raw_data = [0u8; 14];
        raw_data[0] = (id >> 24 & 0x1f) as u8;
        raw_data[1] = (id >> 18 & 0x3f) as u8;
        raw_data[2] = (id >> 14 & 0x0f) as u8;
        raw_data[3] = (id >> 6 & 0xff) as u8;
        raw_data[4] = (id & 0x3f) as u8;
        raw_data[5] = len as u8;
        copy_data(&mut raw_data, data);
        assert(raw_data@ =~= raw_frame(extended_id_bytes(id), data@));
        TransmitMessage { channel, transaction, raw_data, flags }
    }
}

/// Copies `data` into the raw bytes from position six on.
fn copy_data(raw: &mut [u8; 14], data: &[u8])
    requires
        data@.len() <= 8,
        forall|k: int| 6 <= k < 14 ==> old(raw)@[k] == 0,
    ensures
        forall|k: int| 0 <= k < 6 ==> final(raw)@[k] == old(raw)@[k],
        forall|k: int| 0 <= k < data@.len() ==> final(raw)@[6 + k] == data@[k],
        forall|k: int| 6 + data@.len() <= k < 14 ==> final(raw)@[k] == 0,
{
    let len = data.len();
    let mut i: usize = 0;
    while i < len
        invariant
            i <= len == data@.len() <= 8,
            forall|k: int| 0 <= k < 6 ==> raw@[k] == old(raw)@[k],
            forall|k: int| 0 <= k < i ==> raw@[6 + k] == data@[k],
            forall|k: int| 6 + i <= k < 14 ==> raw@[k] == 0,
        decreases len - i,
    {
        raw[6 + i] = data[i];
        i = i + 1;
    }
}

/// The identifier of a standard frame can be read back from the bytes that carry it.
pub proof fn lemma_standard_id_recovered(id: u16)
    requires
        id < 0x800,
    ensures
        ((standard_id_bytes(id)[0] as u16) << 6) | (standard_id_bytes(id)[1] as u16) == id,
{
    let b0 = ((id >> 6) & 0x1f) as u8;
    let b1 = (id & 0x3f) as u8;
    assert(((b0 as u16) << 6) | (b1 as u16) == id) by (bit_vector)
        requires
            id < 0x800,
            b0 == ((id >> 6) & 0x1f) as u8,
            b1 == (id & 0x3f) as u8,
    ;
}

/// The identifier of an extended frame can be read back from the bytes that carry it.
pub proof fn lemma_extended_id_recovered(id: u32)
    requires
        id < 0x2000_0000,
    ensures
        ({
            let b = extended_id_bytes(id);
            ((b[0] as u32) << 24) | ((b[1] as u32) << 18) | ((b[2] as u32) << 14) | ((b[3] as u32) << 6)
                | (b[4] as u32) == id
        }),
{
    let b0 = ((id >> 24) & 0x1f) as u8;
    let b1 = ((id >> 18) & 0x3f) as u8;
    let b2 = ((id >> 14) & 0x0f) as u8;
    let b3 = ((id >> 6) & 0xff) as u8;
    let b4 = (id & 0x3f) as u8;
    assert(((b0 as u32) << 24) | ((b1 as u32) << 18) | ((b2 as u32) << 14) | ((b3 as u32) << 6) | (b4 as u32)
        == id) by (bit_vector)
        requires
            id < 0x2000_0000,
            b0 == ((id >> 24) & 0x1f) as u8,
            b1 == ((id >> 18) & 0x3f) as u8,
            b2 == ((id >> 14) & 0x0f) as u8,
            b3 == ((id >> 6) & 0xff) as u8,
            b4 == (id & 0x3f) as u8,
    ;
}

/// The text of an EAN: its four groups of hexadecimal digits separated by hyphens.
pub open spec fn ean_text(v: u64) -> Seq<char> {
    hex(((v >> 44) & 0xff) as nat, 2, false) + seq!['-'] + hex(((v >> 24) & 0xfffff) as nat, 5, false)
        + seq!['-'] + hex(((v >> 4) & 0xfffff) as nat, 5, false) + seq!['-'] + hex((v & 0xf) as nat, 1, false)
}

impl Ean {
    /// The EAN as printed on the product, such as `73-30130-00760-4`.
    pub fn to_string(&self) -> (s: String)
        ensures
            s@ == ean_text(self.0),
    {
        let v = self.0;
        let mut s = String::new();
        push_hex(&mut s, v >> 44 & 0xff, 2, false);
        push_char(&mut s, '-');
        push_hex(&mut s, v >> 24 & 0xfffff, 5, false);
        push_char(&mut s, '-');
        push_hex(&mut s, v >> 4 & 0xfffff, 5, false);
        push_char(&mut s, '-');
        push_hex(&mut s, v & 0xf, 1, false);
        assert(s@ =~= ean_text(v));
        s
    }
}

#[verifier::external_type_specification]
#[verifier::external_body]
pub struct ExSystemTime(std::time::SystemTime);

/// The instant `secs` seconds after the Unix epoch.
pub uninterp spec fn unix_time(secs: u64) -> SystemTime;

/// The instant `secs` seconds after the Unix epoch.
///
/// Trusted: adds `Duration::from_secs(secs)` to `UNIX_EPOCH`; the sum is a function of
/// `secs` alone and does not overflow for a 32-bit count of seconds.
#[verifier::external_body]
fn system_time_from_unix_secs(secs: u64) -> (t: SystemTime)
    requires
        secs <= u32::MAX,
    ensures
        t == unix_time(secs),
{
    std::time::UNIX_EPOCH + std::time::Duration::from_secs(secs)
}

impl CardInfo {
    /// Returns the EAN that identifies the product.
    pub fn ean(&self) -> (e: Ean)
        ensures
            e.0 == self.spec_ean(),
    {
        Ean(self.ean)
    }

    /// Returns the serial number of the individual device (as printed on the enclosure).
    pub fn serial_number(&self) -> (n: u32)
        ensures
            n == self.spec_serial_number(),
    {
        self.serial_number
    }

    /// Date and time the adapter was manufactured.
    pub fn manufacture_date(&self) -> (t: SystemTime)
        ensures
            t == unix_time(self.spec_manufacture_date() as u64),
    {
        system_time_from_unix_secs(self.manufacture_date as u64)
    }
}

/// A message read from bytes can be encoded again, without loss, into as many bytes.
pub proof fn lemma_read_message_reencodes(m: KvaserMessage, b: Seq<u8>)
    requires
        m.read_from(b),
    ensures
        m.encodable(),
        m.encoding_is_lossless(),
        m.spec_encode().len() == b.len(),
{
    broadcast use lemma_le_bytes_len;

    lemma_pow256_widths();
    match m {
        KvaserMessage::TransmitStandard(t) => t.lemma_read_len(b),
        KvaserMessage::TransmitExtended(t) => t.lemma_read_len(b),
        KvaserMessage::CardInfo2 { .. } => {},
        KvaserMessage::CardInfo(info) => info.lemma_read_len(b),
        KvaserMessage::ChipState { .. } => lemma_le_value_bound(b.subrange(3, 9)),
        KvaserMessage::Clock { .. } => lemma_le_value_bound(b.subrange(3, 9)),
        KvaserMessage::BusLoad { .. } => lemma_le_value_bound(b.subrange(3, 9)),
        KvaserMessage::ErrorEvent { .. } => lemma_le_value_bound(b.subrange(3, 9)),
        KvaserMessage::CanErrorEvent { .. } => lemma_le_value_bound(b.subrange(3, 9)),
        KvaserMessage::LogMessage { id, data, .. } => {
            lemma_le_value_bound(b.subrange(3, 9));
            lemma_le_value_bound(b.subrange(11, 14));
            assert(id < 0x2000_0000);
        },
        _ => {},
    }
}

impl TransmitMessage {
    proof fn lemma_read_len(self, b: Seq<u8>)
        requires
            self.read_from(b),
        ensures
            self.spec_body().len() + 1 == b.len(),
    {
    }
}

impl CardInfo {
    proof fn lemma_read_len(self, b: Seq<u8>)
        requires
            self.read_from(b),
        ensures
            self.spec_body().len() + 1 == b.len(),
    {
        broadcast use lemma_le_bytes_len;

    }
}

/// The bits of byte `i` of a message starting with command `cmd` that reading ignores:
/// whole padding bytes, and the two unused bits of a log message's identifier.
pub open spec fn ignored_bits(cmd: u8, i: int) -> u8 {
    match cmd {
        0x0D | 0x0F => if i == 17 { 0xFF } else { 0 },
        0x14 => if 12 <= i < 15 { 0xFF } else { 0 },
        0x15 | 0x17 | 0x30 => if 4 <= i < 7 { 0xFF } else { 0 },
        0x19 | 0x2B | 0x20 | 0x2C => if i == 2 { 0xFF } else { 0 },
        0x1F => if i == 2 || 9 <= i < 11 { 0xFF } else { 0 },
        0x23 => if 7 <= i < 11 { 0xFF } else { 0 },
        0x25 | 0x2D => if 9 <= i < 11 { 0xFF } else { 0 },
        0x27 => if i == 2 || 13 <= i < 19 { 0xFF } else { 0 },
        0x33 => if i == 10 { 0xFF } else { 0 },
        0x6A => if i == 14 { 0x60 } else { 0 },
        _ => 0,
    }
}

/// `b` with the bits that reading ignores cleared.
pub open spec fn without_ignored_bits(b: Seq<u8>) -> Seq<u8> {
    Seq::new(b.len(), |i: int| b[i] & !ignored_bits(b[0], i))
}

/// Reading a message and encoding it again gives back the bytes read, with padding and
/// unused bits cleared.
pub proof fn lemma_encode_after_read(m: KvaserMessage, b: Seq<u8>)
    requires
        m.read_from(b),
    ensures
        m.spec_encode() == without_ignored_bits(b),
{
    broadcast use lemma_le_bytes_len;

    lemma_pow256_widths();
    let w = without_ignored_bits(b);
    assert forall|i: int| 0 <= i < b.len() && ignored_bits(b[0], i) == 0 implies w[i] == b[i] by {
        let x = b[i];
        assert(x & !0u8 == x) by (bit_vector);
    }
    assert forall|i: int| 0 <= i < b.len() && ignored_bits(b[0], i) == 0xFF implies w[i] == 0 by {
        let x = b[i];
        assert(x & !0xFFu8 == 0) by (bit_vector);
    }
    match m {
        KvaserMessage::TransmitStandard(t) => t.lemma_encode_read(b),
        KvaserMessage::TransmitExtended(t) => t.lemma_encode_read(b),
        KvaserMessage::SetBusParams { .. } => {
            lemma_le_bytes_of_value(b.subrange(3, 7));
            assert(m.spec_encode() =~= w);
        },
        KvaserMessage::BusParams { .. } => {
            lemma_le_bytes_of_value(b.subrange(3, 7));
            assert(m.spec_encode() =~= w);
        },
        KvaserMessage::ChipState { .. } => {
            lemma_le_bytes_of_value(b.subrange(3, 9));
            assert(m.spec_encode() =~= w);
        },
        KvaserMessage::Clock { .. } => {
            lemma_le_bytes_of_value(b.subrange(3, 9));
            assert(m.spec_encode() =~= w);
        },
        KvaserMessage::CardInfo2 { .. } => {
            lemma_le_bytes_of_value(b.subrange(27, 31));
            assert(m.spec_encode() =~= w);
        },
        KvaserMessage::CardInfo(info) => info.lemma_encode_read(b),
        KvaserMessage::InterfaceInfo { .. } => {
            lemma_le_bytes_of_value(b.subrange(3, 7));
            assert(m.spec_encode() =~= w);
        },
        KvaserMessage::SoftwareInfo { .. } => {
            lemma_le_bytes_of_value(b.subrange(3, 7));
            lemma_le_bytes_of_value(b.subrange(7, 11));
            lemma_le_bytes_of_value(b.subrange(11, 13));
            assert(m.spec_encode() =~= w);
        },
        KvaserMessage::BusLoad { .. } => {
            lemma_le_bytes_of_value(b.subrange(3, 9));
            lemma_le_bytes_of_value(b.subrange(9, 11));
            lemma_le_bytes_of_value(b.subrange(11, 13));
            lemma_le_bytes_of_value(b.subrange(13, 15));
            assert(m.spec_encode() =~= w);
        },
        KvaserMessage::License { .. } => {
            lemma_le_bytes_of_value(b.subrange(3, 7));
            lemma_le_bytes_of_value(b.subrange(7, 11));
            assert(m.spec_encode() =~= w);
        },
        KvaserMessage::ErrorEvent { .. } => {
            lemma_le_bytes_of_value(b.subrange(3, 9));
            lemma_le_bytes_of_value(b.subrange(11, 13));
            lemma_le_bytes_of_value(b.subrange(13, 15));
            assert(m.spec_encode() =~= w);
        },
        KvaserMessage::CanErrorEvent { .. } => {
            lemma_le_bytes_of_value(b.subrange(3, 9));
            assert(m.spec_encode() =~= w);
        },
        KvaserMessage::UsbThrottle(..) => {
            lemma_le_bytes_of_value(b.subrange(1, 3));
            assert(m.spec_encode() =~= w);
        },
        KvaserMessage::LogMessage { id, extended, timestamp, data, .. } => {
            lemma_log_id_bytes(b);
            lemma_le_value_bound(b.subrange(11, 14));
            lemma_le_bytes_of_value(b.subrange(3, 9));
            assert(id == (le_value(b.subrange(11, 14)) + 0x100_0000 * (b[14] as nat % 32)) as u32);
            assert(extended == (b[14] >= 128));
            assert(w[14] == b[14] & !0x60u8);
            assert(m.spec_encode() =~= w);
        },
        _ => {
            assert(m.spec_encode() =~= w);
        },
    }
}

/// The identifier bytes of a log message, written again, are the bytes read with the two
/// unused bits cleared.
proof fn lemma_log_id_bytes(b: Seq<u8>)
    requires
        b.len() >= LOG_MESSAGE_HEADER_LEN,
    ensures
        ({
            let id = (le_value(b.subrange(11, 14)) + 0x100_0000 * (b[14] as nat % 32)) as u32;
            &&& le_bytes(id as nat, 3) == b.subrange(11, 14)
            &&& id_top_byte(id, b[14] >= 128) == b[14] & !0x60u8
        }),
{
    broadcast use lemma_le_bytes_len;

    lemma_pow256_widths();
    let low = le_value(b.subrange(11, 14));
    lemma_le_value_bound(b.subrange(11, 14));
    let top = b[14];
    let hi = top as nat % 32;
    let id_n = low + 0x100_0000 * hi;
    let id = id_n as u32;
    assert(id_n < 0x2000_0000);
    assert(id as nat == id_n);
    assert(id_n / 0x100_0000 == hi && id_n % 0x100_0000 == low) by {
        vstd::arithmetic::div_mod::lemma_fundamental_div_mod_converse(id_n as int, 0x100_0000, hi as int, low as int);
    }
    // The low three bytes only depend on the value modulo 2^24.
    crate::wire::lemma_le_bytes_mod(id_n, low, 3);
    lemma_le_bytes_of_value(b.subrange(11, 14));
    assert((top % 32) + (if top >= 128 { 128u8 } else { 0u8 }) == top & !0x60u8) by (bit_vector);
    assert(hi % 32 == hi);
}

impl TransmitMessage {
    proof fn lemma_encode_read(self, b: Seq<u8>)
        requires
            self.read_from(b),
            b[0] == 0x0D || b[0] == 0x0F,
        ensures
            seq![b[0]] + self.spec_body() == without_ignored_bits(b),
    {
        let w = without_ignored_bits(b);
        assert forall|i: int| 0 <= i < b.len() && i != 17 implies w[i] == b[i] by {
            let x = b[i];
            assert(x & !0u8 == x) by (bit_vector);
        }
        let x = b[17];
        assert(x & !0xFFu8 == 0) by (bit_vector);
        assert(seq![b[0]] + self.spec_body() =~= w);
    }
}

impl CardInfo {
    proof fn lemma_encode_read(self, b: Seq<u8>)
        requires
            self.read_from(b),
            b[0] == 0x23,
        ensures
            seq![b[0]] + self.spec_body() == without_ignored_bits(b),
    {
        broadcast use lemma_le_bytes_len;

        let w = without_ignored_bits(b);
        assert forall|i: int| 0 <= i < b.len() && !(7 <= i < 11) implies w[i] == b[i] by {
            let x = b[i];
            assert(x & !0u8 == x) by (bit_vector);
        }
        assert forall|i: int| 7 <= i < 11 implies w[i] == 0 by {
            let x = b[i];
            assert(x & !0xFFu8 == 0) by (bit_vector);
        }
        lemma_le_bytes_of_value(b.subrange(3, 7));
        lemma_le_bytes_of_value(b.subrange(11, 15));
        lemma_le_bytes_of_value(b.subrange(15, 19));
        lemma_le_bytes_of_value(b.subrange(19, 27));
        assert(seq![b[0]] + self.spec_body() =~= w);
    }
}

impl KvaserMessage {
    /// Whether two messages are the same variant with the same fields, data compared by
    /// content.
    pub open spec fn same_as(self, other: KvaserMessage) -> bool {
        match (self, other) {
            (
                KvaserMessage::LogMessage {
                    channel: c1,
                    flags: f1,
                    timestamp: t1,
                    dlc: l1,
                    time_offset: o1,
                    id: i1,
                    extended: e1,
                    data: d1,
                },
                KvaserMessage::LogMessage {
                    channel: c2,
                    flags: f2,
                    timestamp: t2,
                    dlc: l2,
                    time_offset: o2,
                    id: i2,
                    extended: e2,
                    data: d2,
                },
            ) => c1 == c2 && f1 == f2 && t1 == t2 && l1 == l2 && o1 == o2 && i1 == i2 && e1 == e2 && d1@ == d2@,
            (KvaserMessage::Unknown { command: c1, data: d1 }, KvaserMessage::Unknown { command: c2, data: d2 }) =>
                c1 == c2 && d1@ == d2@,
            _ => self == other,
        }
    }
}

/// The bytes of a message determine it: two messages read from the same bytes are the
/// same message.
pub proof fn lemma_read_from_unique(m1: KvaserMessage, m2: KvaserMessage, b: Seq<u8>)
    requires
        m1.read_from(b),
        m2.read_from(b),
    ensures
        m1.same_as(m2),
{
    match (m1, m2) {
        (KvaserMessage::TransmitStandard(t1), KvaserMessage::TransmitStandard(t2)) => t1.lemma_same_fields(t2),
        (KvaserMessage::TransmitExtended(t1), KvaserMessage::TransmitExtended(t2)) => t1.lemma_same_fields(t2),
        (KvaserMessage::CardInfo(i1), KvaserMessage::CardInfo(i2)) => i1.lemma_same_fields(i2),
        (
            KvaserMessage::CardInfo2 { pcb_id: p1, .. },
            KvaserMessage::CardInfo2 { pcb_id: p2, .. },
        ) => {
            assert(p1 =~= p2);
        },
        _ => {},
    }
}

/// The text of an EAN is sixteen characters: thirteen lower-case hexadecimal digits with
/// hyphens after the second, the seventh and the twelfth. The digits are those of the low
/// 52 bits of the value, so its top twelve bits do not show.
pub proof fn lemma_ean_text_shape(v: u64)
    ensures
        ({
            let t = ean_text(v);
            &&& t.len() == 16
            &&& t[2] == '-' && t[8] == '-' && t[14] == '-'
            &&& forall|i: int|
                0 <= i < 16 && i != 2 && i != 8 && i != 14 ==> is_hex_digit(#[trigger] t[i], false)
            &&& t.subrange(0, 2) + t.subrange(3, 8) + t.subrange(9, 14) + t.subrange(15, 16) == hex(
                (v & 0xF_FFFF_FFFF_FFFF) as nat,
                13,
                false,
            )
        }),
        ean_text(v) == ean_text(v & 0xF_FFFF_FFFF_FFFF),
{
    let w: u64 = v & 0xF_FFFF_FFFF_FFFF;
    let a: u64 = (v >> 44) & 0xff;
    let b: u64 = (v >> 24) & 0xfffff;
    let c: u64 = (v >> 4) & 0xfffff;
    let d: u64 = v & 0xf;
    assert(a == w / 0x1000_0000_0000 && b == (w / 0x100_0000) % 0x10_0000 && c == (w / 16) % 0x10_0000
        && d == w % 16) by (bit_vector)
        requires
            w == v & 0xF_FFFF_FFFF_FFFF,
            a == (v >> 44) & 0xff,
            b == (v >> 24) & 0xfffff,
            c == (v >> 4) & 0xfffff,
            d == v & 0xf,
    ;
    assert(((w >> 44) & 0xff) == a && ((w >> 24) & 0xfffff) == b && ((w >> 4) & 0xfffff) == c && (w & 0xf)
        == d) by (bit_vector)
        requires
            w == v & 0xF_FFFF_FFFF_FFFF,
            a == (v >> 44) & 0xff,
            b == (v >> 24) & 0xfffff,
            c == (v >> 4) & 0xfffff,
            d == v & 0xf,
    ;
    reveal_with_fuel(pow16, 14);
    let wn = w as nat;
    lemma_hex_split(wn, 2, 11, false);
    lemma_hex_split(wn, 5, 6, false);
    lemma_hex_split(wn, 5, 1, false);
    lemma_hex_mod(wn / pow16(6), 5, false);
    lemma_hex_mod(wn / pow16(1), 5, false);
    lemma_hex_mod(wn, 1, false);
    lemma_hex_digits(a as nat, 2, false);
    lemma_hex_digits(b as nat, 5, false);
    lemma_hex_digits(c as nat, 5, false);
    lemma_hex_digits(d as nat, 1, false);
    let t = ean_text(v);
    assert(t.subrange(0, 2) =~= hex(a as nat, 2, false));
    assert(t.subrange(3, 8) =~= hex(b as nat, 5, false));
    assert(t.subrange(9, 14) =~= hex(c as nat, 5, false));
    assert(t.subrange(15, 16) =~= hex(d as nat, 1, false));
    assert forall|i: int| 0 <= i < 16 && i != 2 && i != 8 && i != 14 implies is_hex_digit(#[trigger] t[i], false) by {
        if i < 2 {
            assert(t[i] == hex(a as nat, 2, false)[i]);
        } else if i < 8 {
            assert(t[i] == hex(b as nat, 5, false)[i - 3]);
        } else if i < 14 {
            assert(t[i] == hex(c as nat, 5, false)[i - 9]);
        } else {
            assert(t[i] == hex(d as nat, 1, false)[i - 15]);
        }
    }
    assert(hex(wn, 13, false) =~= hex(a as nat, 2, false) + hex(b as nat, 5, false) + hex(c as nat, 5, false)
        + hex(d as nat, 1, false));
}

impl KvaserMessage {
    /// Whether the message can be encoded: a log message's identifier has 29 bits.
    pub fn is_encodable(&self) -> (b: bool)
        ensures
            b == self.encodable(),
    {
        match self {
            KvaserMessage::LogMessage { id, .. } => *id < 0x2000_0000,
            _ => true,
        }
    }
}

/// Where each field of a message lies in its encoding: the command byte at offset 0, then
/// each field at the vendor offset given here (multi-byte fields little-endian, six-byte
/// timestamps keeping their low 48 bits), padding bytes zero.
pub proof fn lemma_encoding_layout(m: KvaserMessage)
    ensures
        ({
            let e = m.spec_encode();
            match m {
                KvaserMessage::TransmitStandard(t) => e.len() == 19 && e[0] == 0x0D && e[1] == t.spec_channel()
                    && e[2] == t.spec_transaction() && e.subrange(3, 17) == t.spec_raw_data() && e[17] == 0
                    && e[18] == t.spec_flags(),
                KvaserMessage::TransmitExtended(t) => e.len() == 19 && e[0] == 0x0F && e[1] == t.spec_channel()
                    && e[2] == t.spec_transaction() && e.subrange(3, 17) == t.spec_raw_data() && e[17] == 0
                    && e[18] == t.spec_flags(),
                KvaserMessage::SetBusParams { transaction, channel, bit_rate, tseg1, tseg2, sjw, no_samp } =>
                    e.len() == 11 && e[0] == 0x10 && e[1] == transaction && e[2] == channel
                    && le_at(e, 3, 4) == bit_rate && e[7] == tseg1 && e[8] == tseg2 && e[9] == sjw
                    && e[10] == no_samp,
                KvaserMessage::GetBusParams { transaction, channel } =>
                    e == seq![0x11u8, transaction, channel],
                KvaserMessage::BusParams { transaction, channel, bit_rate, tseq1, tseq2, sjw, no_samp } =>
                    e.len() == 11 && e[0] == 0x12 && e[1] == transaction && e[2] == channel
                    && le_at(e, 3, 4) == bit_rate && e[7] == tseq1 && e[8] == tseq2 && e[9] == sjw
                    && e[10] == no_samp,
                KvaserMessage::GetChipState { transaction, channel } =>
                    e == seq![0x13u8, transaction, channel],
                KvaserMessage::ChipState { transaction, channel, timestamp, tx_errors, rx_errors, bus_status } =>
                    e.len() == 15 && e[0] == 0x14 && e[1] == transaction && e[2] == channel
                    && le_at(e, 3, 6) == timestamp % 0x1_0000_0000_0000 && e[9] == tx_errors
                    && e[10] == rx_errors && e[11] == bus_status && e[12] == 0 && e[13] == 0 && e[14] == 0,
                KvaserMessage::SetDriverMode { transaction, channel, mode } =>
                    e == seq![0x15u8, transaction, channel, mode, 0u8, 0u8, 0u8],
                KvaserMessage::GetDriverMode { transaction, channel } =>
                    e == seq![0x16u8, transaction, channel],
                KvaserMessage::DriverMode { transaction, channel, mode } =>
                    e == seq![0x17u8, transaction, channel, mode, 0u8, 0u8, 0u8],
                KvaserMessage::ResetChip { transaction, channel } => e == seq![0x18u8, transaction, channel],
                KvaserMessage::ResetCard { transaction } => e == seq![0x19u8, transaction, 0u8],
                KvaserMessage::StartChip { transaction, channel } => e == seq![0x1Au8, transaction, channel],
                KvaserMessage::ChipStarted { transaction, channel } => e == seq![0x1Bu8, transaction, channel],
                KvaserMessage::StopChip { transaction, channel } => e == seq![0x1Cu8, transaction, channel],
                KvaserMessage::ChipStopped { transaction, channel } => e == seq![0x1Du8, transaction, channel],
                KvaserMessage::ReadClock { transaction, flags } => e == seq![0x1Eu8, transaction, flags],
                KvaserMessage::Clock { transaction, timestamp } =>
                    e.len() == 11 && e[0] == 0x1F && e[1] == transaction && e[2] == 0
                    && le_at(e, 3, 6) == timestamp % 0x1_0000_0000_0000 && e[9] == 0 && e[10] == 0,
                KvaserMessage::CardInfo2 { transaction, pcb_id, oem_unlock_code } =>
                    e.len() == 31 && e[0] == 0x20 && e[1] == transaction && e[2] == 0
                    && e.subrange(3, 27) == pcb_id@ && le_at(e, 27, 4) == oem_unlock_code,
                KvaserMessage::GetCardInfo { transaction, level } => e == seq![0x22u8, transaction, level],
                KvaserMessage::CardInfo(info) =>
                    e.len() == 31 && e[0] == 0x23 && e[1] == info.spec_transaction()
                    && e[2] == info.spec_channel_count() && le_at(e, 3, 4) == info.spec_serial_number()
                    && e[7] == 0 && e[8] == 0 && e[9] == 0 && e[10] == 0
                    && le_at(e, 11, 4) == info.spec_clock_resolution()
                    && le_at(e, 15, 4) == info.spec_manufacture_date()
                    && le_at(e, 19, 8) == info.spec_ean() && e[27] == info.spec_hardware_revision()
                    && e[28] == info.spec_usb_hs_mode() && e[29] == info.spec_hardware_type()
                    && e[30] == info.spec_can_time_sample_reference(),
                KvaserMessage::GetInterfaceInfo { transaction, channel } =>
                    e == seq![0x24u8, transaction, channel],
                KvaserMessage::InterfaceInfo { transaction, channel, capabilities, chip_type, chip_sub_type } =>
                    e.len() == 11 && e[0] == 0x25 && e[1] == transaction && e[2] == channel
                    && le_at(e, 3, 4) == capabilities && e[7] == chip_type && e[8] == chip_sub_type
                    && e[9] == 0 && e[10] == 0,
                KvaserMessage::GetSoftwareInfo { transaction, channel } =>
                    e == seq![0x26u8, transaction, channel],
                KvaserMessage::SoftwareInfo { transaction, options, version, max_outstanding_tx } =>
                    e.len() == 19 && e[0] == 0x27 && e[1] == transaction && e[2] == 0
                    && le_at(e, 3, 4) == options && le_at(e, 7, 4) == version
                    && le_at(e, 11, 2) == max_outstanding_tx && e.subrange(13, 19) == Seq::new(6, |i: int| 0u8),
                KvaserMessage::GetBusLoad { transaction, channel } => e == seq![0x28u8, transaction, channel],
                KvaserMessage::BusLoad { transaction, channel, timestamp, sample_interval, active_samples, delta_t } =>
                    e.len() == 15 && e[0] == 0x29 && e[1] == transaction && e[2] == channel
                    && le_at(e, 3, 6) == timestamp % 0x1_0000_0000_0000 && le_at(e, 9, 2) == sample_interval
                    && le_at(e, 11, 2) == active_samples && le_at(e, 13, 2) == delta_t,
                KvaserMessage::ResetStatistics { transaction, channel } =>
                    e == seq![0x2Au8, transaction, channel],
                KvaserMessage::CheckLicense { transaction } => e == seq![0x2Bu8, transaction, 0u8],
                KvaserMessage::License { transaction, license_mask, kvaser_mask } =>
                    e.len() == 11 && e[0] == 0x2C && e[1] == transaction && e[2] == 0
                    && le_at(e, 3, 4) == license_mask && le_at(e, 7, 4) == kvaser_mask,
                KvaserMessage::ErrorEvent { transaction, error, timestamp, add_info1, add_info2 } =>
                    e.len() == 15 && e[0] == 0x2D && e[1] == transaction && e[2] == error
                    && le_at(e, 3, 6) == timestamp % 0x1_0000_0000_0000 && e[9] == 0 && e[10] == 0
                    && le_at(e, 11, 2) == add_info1 && le_at(e, 13, 2) == add_info2,
                KvaserMessage::FlushQueue { transaction, channel, flags } =>
                    e == seq![0x30u8, transaction, channel, flags, 0u8, 0u8, 0u8],
                KvaserMessage::ResetErrorCounter { transaction, channel } =>
                    e == seq![0x31u8, transaction, channel],
                KvaserMessage::CanErrorEvent {
                    transaction,
                    flags,
                    timestamp,
                    channel,
                    tx_errors,
                    rx_errors,
                    bus_status,
                    error_factor,
                } => e.len() == 15 && e[0] == 0x33 && e[1] == transaction && e[2] == flags
                    && le_at(e, 3, 6) == timestamp % 0x1_0000_0000_0000 && e[9] == channel && e[10] == 0
                    && e[11] == tx_errors && e[12] == rx_errors && e[13] == bus_status
                    && e[14] == error_factor,
                KvaserMessage::UsbThrottle(v) => e.len() == 3 && e[0] == 0x4D && le_at(e, 1, 2) == v,
                KvaserMessage::LogMessage { channel, flags, timestamp, dlc, time_offset, id, extended, data } =>
                    e.len() == 15 + data@.len() && e[0] == 0x6A && e[1] == channel && e[2] == flags
                    && le_at(e, 3, 6) == timestamp % 0x1_0000_0000_0000 && e[9] == dlc && e[10] == time_offset
                    && le_at(e, 11, 3) == id % 0x100_0000 && e[14] % 32 == (id / 0x100_0000) % 32
                    && (e[14] >= 128) == extended && e.subrange(15, e.len() as int) == data@,
                KvaserMessage::Unknown { command, data } =>
                    e.len() == 1 + data@.len() && e[0] == command && e.subrange(1, e.len() as int) == data@,
            }
        }),
{
    broadcast use {lemma_le_bytes_len, lemma_le_value_of_bytes_mod};

    lemma_pow256_widths();
    let e = m.spec_encode();
    match m {
        KvaserMessage::TransmitStandard(t) => {
            t.lemma_raw_data_len();
            assert(e.subrange(3, 17) =~= t.spec_raw_data());
        },
        KvaserMessage::TransmitExtended(t) => {
            t.lemma_raw_data_len();
            assert(e.subrange(3, 17) =~= t.spec_raw_data());
        },
        KvaserMessage::SetBusParams { bit_rate, .. } => {
            assert(e.subrange(3, 7) =~= le_bytes(bit_rate as nat, 4));
        },
        KvaserMessage::BusParams { bit_rate, .. } => {
            assert(e.subrange(3, 7) =~= le_bytes(bit_rate as nat, 4));
        },
        KvaserMessage::ChipState { timestamp, .. } => {
            assert(e.subrange(3, 9) =~= le_bytes(timestamp as nat, 6));
        },
        KvaserMessage::SetDriverMode { .. } => {
            assert(e =~= m.spec_encode());
        },
        KvaserMessage::Clock { timestamp, .. } => {
            assert(e.subrange(3, 9) =~= le_bytes(timestamp as nat, 6));
        },
        KvaserMessage::CardInfo2 { pcb_id, oem_unlock_code, .. } => {
            assert(e.subrange(3, 27) =~= pcb_id@);
            assert(e.subrange(27, 31) =~= le_bytes(oem_unlock_code as nat, 4));
        },
        KvaserMessage::CardInfo(info) => {
            info.lemma_read_body(0x23);
        },
        KvaserMessage::InterfaceInfo { capabilities, .. } => {
            assert(e.subrange(3, 7) =~= le_bytes(capabilities as nat, 4));
        },
        KvaserMessage::SoftwareInfo { options, version, max_outstanding_tx, .. } => {
            assert(e.subrange(3, 7) =~= le_bytes(options as nat, 4));
            assert(e.subrange(7, 11) =~= le_bytes(version as nat, 4));
            assert(e.subrange(11, 13) =~= le_bytes(max_outstanding_tx as nat, 2));
            assert(e.subrange(13, 19) =~= Seq::new(6, |i: int| 0u8));
        },
        KvaserMessage::BusLoad { timestamp, sample_interval, active_samples, delta_t, .. } => {
            assert(e.subrange(3, 9) =~= le_bytes(timestamp as nat, 6));
            assert(e.subrange(9, 11) =~= le_bytes(sample_interval as nat, 2));
            assert(e.subrange(11, 13) =~= le_bytes(active_samples as nat, 2));
            assert(e.subrange(13, 15) =~= le_bytes(delta_t as nat, 2));
        },
        KvaserMessage::License { license_mask, kvaser_mask, .. } => {
            assert(e.subrange(3, 7) =~= le_bytes(license_mask as nat, 4));
            assert(e.subrange(7, 11) =~= le_bytes(kvaser_mask as nat, 4));
        },
        KvaserMessage::ErrorEvent { timestamp, add_info1, add_info2, .. } => {
            assert(e.subrange(3, 9) =~= le_bytes(timestamp as nat, 6));
            assert(e.subrange(11, 13) =~= le_bytes(add_info1 as nat, 2));
            assert(e.subrange(13, 15) =~= le_bytes(add_info2 as nat, 2));
        },
        KvaserMessage::CanErrorEvent { timestamp, .. } => {
            assert(e.subrange(3, 9) =~= le_bytes(timestamp as nat, 6));
        },
        KvaserMessage::UsbThrottle(v) => {
            assert(e.subrange(1, 3) =~= le_bytes(v as nat, 2));
        },
        KvaserMessage::LogMessage { timestamp, id, extended, data, .. } => {
            assert(e.subrange(3, 9) =~= le_bytes(timestamp as nat, 6));
            assert(e.subrange(11, 14) =~= le_bytes(id as nat, 3));
            assert(e.subrange(15, e.len() as int) =~= data@);
            let hi = (id as nat / 0x100_0000) % 32;
            assert(e[14] == id_top_byte(id, extended));
            assert(hi < 32);
        },
        KvaserMessage::Unknown { data, .. } => {
            assert(e.subrange(1, e.len() as int) =~= data@);
        },
        _ => {},
    }
}

/// Where each field of a decoded message comes from in the bytes read: the command byte at
/// offset 0, then each field at its vendor offset (multi-byte fields little-endian).
/// Padding bytes, and the two unused bits of a log message's identifier, are not read.
pub proof fn lemma_decoding_layout(m: KvaserMessage, b: Seq<u8>)
    requires
        m.read_from(b),
    ensures
        ({
            match m {
                KvaserMessage::TransmitStandard(t) => b.len() == 19 && b[0] == 0x0D && b[1] == t.spec_channel()
                    && b[2] == t.spec_transaction() && b.subrange(3, 17) == t.spec_raw_data()
                    && b[18] == t.spec_flags(),
                KvaserMessage::TransmitExtended(t) => b.len() == 19 && b[0] == 0x0F && b[1] == t.spec_channel()
                    && b[2] == t.spec_transaction() && b.subrange(3, 17) == t.spec_raw_data()
                    && b[18] == t.spec_flags(),
                KvaserMessage::SetBusParams { transaction, channel, bit_rate, tseg1, tseg2, sjw, no_samp } =>
                    b.len() == 11 && b[0] == 0x10 && b[1] == transaction && b[2] == channel
                    && le_at(b, 3, 4) == bit_rate && b[7] == tseg1 && b[8] == tseg2 && b[9] == sjw
                    && b[10] == no_samp,
                KvaserMessage::GetBusParams { transaction, channel } =>
                    b.len() == 3 && b[0] == 0x11 && b[1] == transaction && b[2] == channel,
                KvaserMessage::BusParams { transaction, channel, bit_rate, tseq1, tseq2, sjw, no_samp } =>
                    b.len() == 11 && b[0] == 0x12 && b[1] == transaction && b[2] == channel
                    && le_at(b, 3, 4) == bit_rate && b[7] == tseq1 && b[8] == tseq2 && b[9] == sjw
                    && b[10] == no_samp,
                KvaserMessage::GetChipState { transaction, channel } =>
                    b.len() == 3 && b[0] == 0x13 && b[1] == transaction && b[2] == channel,
                KvaserMessage::ChipState { transaction, channel, timestamp, tx_errors, rx_errors, bus_status } =>
                    b.len() == 15 && b[0] == 0x14 && b[1] == transaction && b[2] == channel
                    && le_at(b, 3, 6) == timestamp && b[9] == tx_errors
                    && b[10] == rx_errors && b[11] == bus_status,
                KvaserMessage::SetDriverMode { transaction, channel, mode } =>
                    b.len() == 7 && b[0] == 0x15 && b[1] == transaction && b[2] == channel && b[3] == mode,
                KvaserMessage::GetDriverMode { transaction, channel } =>
                    b.len() == 3 && b[0] == 0x16 && b[1] == transaction && b[2] == channel,
                KvaserMessage::DriverMode { transaction, channel, mode } =>
                    b.len() == 7 && b[0] == 0x17 && b[1] == transaction && b[2] == channel && b[3] == mode,
                KvaserMessage::ResetChip { transaction, channel } => b.len() == 3 && b[0] == 0x18 && b[1] == transaction && b[2] == channel,
                KvaserMessage::ResetCard { transaction } => b.len() == 3 && b[0] == 0x19 && b[1] == transaction,
                KvaserMessage::StartChip { transaction, channel } => b.len() == 3 && b[0] == 0x1A && b[1] == transaction && b[2] == channel,
                KvaserMessage::ChipStarted { transaction, channel } => b.len() == 3 && b[0] == 0x1B && b[1] == transaction && b[2] == channel,
                KvaserMessage::StopChip { transaction, channel } => b.len() == 3 && b[0] == 0x1C && b[1] == transaction && b[2] == channel,
                KvaserMessage::ChipStopped { transaction, channel } => b.len() == 3 && b[0] == 0x1D && b[1] == transaction && b[2] == channel,
                KvaserMessage::ReadClock { transaction, flags } => b.len() == 3 && b[0] == 0x1E && b[1] == transaction && b[2] == flags,
                KvaserMessage::Clock { transaction, timestamp } =>
                    b.len() == 11 && b[0] == 0x1F && b[1] == transaction
                    && le_at(b, 3, 6) == timestamp,
                KvaserMessage::CardInfo2 { transaction, pcb_id, oem_unlock_code } =>
                    b.len() == 31 && b[0] == 0x20 && b[1] == transaction
                    && b.subrange(3, 27) == pcb_id@ && le_at(b, 27, 4) == oem_unlock_code,
                KvaserMessage::GetCardInfo { transaction, level } => b.len() == 3 && b[0] == 0x22 && b[1] == transaction && b[2] == level,
                KvaserMessage::CardInfo(info) =>
                    b.len() == 31 && b[0] == 0x23 && b[1] == info.spec_transaction()
                    && b[2] == info.spec_channel_count() && le_at(b, 3, 4) == info.spec_serial_number()
                    && le_at(b, 11, 4) == info.spec_clock_resolution()
                    && le_at(b, 15, 4) == info.spec_manufacture_date()
                    && le_at(b, 19, 8) == info.spec_ean() && b[27] == info.spec_hardware_revision()
                    && b[28] == info.spec_usb_hs_mode() && b[29] == info.spec_hardware_type()
                    && b[30] == info.spec_can_time_sample_reference(),
                KvaserMessage::GetInterfaceInfo { transaction, channel } =>
                    b.len() == 3 && b[0] == 0x24 && b[1] == transaction && b[2] == channel,
                KvaserMessage::InterfaceInfo { transaction, channel, capabilities, chip_type, chip_sub_type } =>
                    b.len() == 11 && b[0] == 0x25 && b[1] == transaction && b[2] == channel
                    && le_at(b, 3, 4) == capabilities && b[7] == chip_type && b[8] == chip_sub_type,
                KvaserMessage::GetSoftwareInfo { transaction, channel } =>
                    b.len() == 3 && b[0] == 0x26 && b[1] == transaction && b[2] == channel,
                KvaserMessage::SoftwareInfo { transaction, options, version, max_outstanding_tx } =>
                    b.len() == 19 && b[0] == 0x27 && b[1] == transaction
                    && le_at(b, 3, 4) == options && le_at(b, 7, 4) == version
                    && le_at(b, 11, 2) == max_outstanding_tx,
                KvaserMessage::GetBusLoad { transaction, channel } => b.len() == 3 && b[0] == 0x28 && b[1] == transaction && b[2] == channel,
                KvaserMessage::BusLoad { transaction, channel, timestamp, sample_interval, active_samples, delta_t } =>
                    b.len() == 15 && b[0] == 0x29 && b[1] == transaction && b[2] == channel
                    && le_at(b, 3, 6) == timestamp && le_at(b, 9, 2) == sample_interval
                    && le_at(b, 11, 2) == active_samples && le_at(b, 13, 2) == delta_t,
                KvaserMessage::ResetStatistics { transaction, channel } =>
                    b.len() == 3 && b[0] == 0x2A && b[1] == transaction && b[2] == channel,
                KvaserMessage::CheckLicense { transaction } => b.len() == 3 && b[0] == 0x2B && b[1] == transaction,
                KvaserMessage::License { transaction, license_mask, kvaser_mask } =>
                    b.len() == 11 && b[0] == 0x2C && b[1] == transaction
                    && le_at(b, 3, 4) == license_mask && le_at(b, 7, 4) == kvaser_mask,
                KvaserMessage::ErrorEvent { transaction, error, timestamp, add_info1, add_info2 } =>
                    b.len() == 15 && b[0] == 0x2D && b[1] == transaction && b[2] == error
                    && le_at(b, 3, 6) == timestamp
                    && le_at(b, 11, 2) == add_info1 && le_at(b, 13, 2) == add_info2,
                KvaserMessage::FlushQueue { transaction, channel, flags } =>
                    b.len() == 7 && b[0] == 0x30 && b[1] == transaction && b[2] == channel && b[3] == flags,
                KvaserMessage::ResetErrorCounter { transaction, channel } =>
                    b.len() == 3 && b[0] == 0x31 && b[1] == transaction && b[2] == channel,
                KvaserMessage::CanErrorEvent {
                    transaction,
                    flags,
                    timestamp,
                    channel,
                    tx_errors,
                    rx_errors,
                    bus_status,
                    error_factor,
                } => b.len() == 15 && b[0] == 0x33 && b[1] == transaction && b[2] == flags
                    && le_at(b, 3, 6) == timestamp && b[9] == channel
                    && b[11] == tx_errors && b[12] == rx_errors && b[13] == bus_status
                    && b[14] == error_factor,
                KvaserMessage::UsbThrottle(v) => b.len() == 3 && b[0] == 0x4D && le_at(b, 1, 2) == v,
                KvaserMessage::LogMessage { channel, flags, timestamp, dlc, time_offset, id, extended, data } =>
                    b.len() == 15 + data@.len() && b[0] == 0x6A && b[1] == channel && b[2] == flags
                    && le_at(b, 3, 6) == timestamp && b[9] == dlc && b[10] == time_offset
                    && id == le_at(b, 11, 3) + 0x100_0000 * (b[14] as nat % 32)
                    && (b[14] >= 128) == extended && b.subrange(15, b.len() as int) == data@,
                KvaserMessage::Unknown { command, data } =>
                    b.len() == 1 + data@.len() && b[0] == command && !is_known_command(command)
                    && b.subrange(1, b.len() as int) == data@,
            }
        }),
{
    lemma_pow256_widths();
}

/// Each identifier byte of a transmit request holds only its own bits of the identifier:
/// for a standard frame bits 6-10 and 0-5 in the first two bytes and zero after; for an
/// extended frame bits 24-28, 18-23, 14-17, 6-13 and 0-5. With the reconstruction laws this
/// fixes every byte.
pub proof fn lemma_id_bytes_ranges(standard: u16, extended: u32)
    ensures
        standard_id_bytes(standard).len() == 5,
        standard_id_bytes(standard)[0] < 32,
        standard_id_bytes(standard)[1] < 64,
        standard_id_bytes(standard)[2] == 0,
        standard_id_bytes(standard)[3] == 0,
        standard_id_bytes(standard)[4] == 0,
        extended_id_bytes(extended).len() == 5,
        extended_id_bytes(extended)[0] < 32,
        extended_id_bytes(extended)[1] < 64,
        extended_id_bytes(extended)[2] < 16,
        extended_id_bytes(extended)[4] < 64,
{
    let s = standard;
    let x = extended;
    assert(((s >> 6) & 0x1f) < 32 && (s & 0x3f) < 64) by (bit_vector);
    assert(((x >> 24) & 0x1f) < 32 && ((x >> 18) & 0x3f) < 64 && ((x >> 14) & 0x0f) < 16 && (x & 0x3f) < 64)
        by (bit_vector);
}

/// The raw bytes of a frame to transmit: the five identifier bytes, then the number of data
/// bytes, then the data, then zeros up to fourteen bytes.
pub proof fn lemma_raw_frame_layout(id_bytes: Seq<u8>, data: Seq<u8>)
    requires
        id_bytes.len() == 5,
        data.len() <= 8,
    ensures
        raw_frame(id_bytes, data).len() == 14,
        raw_frame(id_bytes, data).subrange(0, 5) == id_bytes,
        raw_frame(id_bytes, data)[5] == data.len(),
        raw_frame(id_bytes, data).subrange(6, 6 + data.len() as int) == data,
        forall|i: int| 6 + data.len() <= i < 14 ==> #[trigger] raw_frame(id_bytes, data)[i] == 0,
{
    let r = raw_frame(id_bytes, data);
    assert(r.subrange(0, 5) =~= id_bytes);
    assert(r.subrange(6, 6 + data.len() as int) =~= data);
}

/// Whether a message has a fixed length: all but log messages and unknown messages.
pub open spec fn has_fixed_layout(m: KvaserMessage) -> bool {
    !(m is LogMessage) && !(m is Unknown)
}

/// Cutting an encoded message short leaves an incomplete message: every proper prefix of
/// the encoding of a fixed-length message, and every prefix of a log message shorter than
/// its header, reads as `Incomplete`.
pub proof fn lemma_prefix_is_incomplete(m: KvaserMessage, k: int)
    requires
        0 <= k < m.spec_encode().len(),
        has_fixed_layout(m) || (m is LogMessage && k < LOG_MESSAGE_HEADER_LEN),
    ensures
        parse_failure(m.spec_encode().subrange(0, k)) == Some(ParseError::Incomplete),
{
    lemma_encoding_layout(m);
    let e = m.spec_encode();
    let p = e.subrange(0, k);
    if k > 0 {
        assert(p[0] == e[0]);
    }
}

/// Bytes after a fixed-length message are too much data.
pub proof fn lemma_extension_is_too_much(m: KvaserMessage, extra: Seq<u8>)
    requires
        has_fixed_layout(m),
        extra.len() > 0,
    ensures
        parse_failure(m.spec_encode() + extra) == Some(ParseError::TooMuchData),
{
    lemma_encoding_layout(m);
    let e = m.spec_encode();
    assert((e + extra)[0] == e[0]);
}

} // verus!
