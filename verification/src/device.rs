//! The requests a driver sends to a Kvaser adapter and what it makes of the replies.
//!
//! The driver itself performs the USB transfers; these functions decide what is sent and
//! which received messages answer a request.
use vstd::prelude::*;
use crate::message::{
    CardInfo, KvaserMessage, TransmitMessage, extended_id_bytes, lemma_extended_id_recovered,
    lemma_standard_id_recovered, raw_frame, standard_id_bytes,
};

verus! {

/// The identifier of a CAN frame.
#[derive(Debug, Clone, Copy, PartialEq, Eq, Structural)]
pub enum CanId {
    /// An 11-bit identifier.
    Standard(u16),
    /// A 29-bit identifier.
    Extended(u32),
}

/// A CAN frame received by the adapter, with the adapter's timestamp in clock ticks.
#[derive(Debug)]
pub struct ReceivedFrame {
    pub id: CanId,
    pub data: Vec<u8>,
    pub timestamp: u64,
}

/// The request for the adapter's card information.
pub fn card_info_request() -> (m: KvaserMessage)
    ensures
        m == (KvaserMessage::GetCardInfo { transaction: 0x22, level: 0 }),
{
    KvaserMessage::GetCardInfo { transaction: 0x22, level: 0 }
}

/// The card information carried by a received message, if it is a card information reply.
/// Any other message is skipped while waiting for the reply.
pub fn card_info_reply(msg: KvaserMessage) -> (r: Option<CardInfo>)
    ensures
        match msg {
            KvaserMessage::CardInfo(info) => r == Some(info),
            _ => r is None,
        },
{
    match msg {
        KvaserMessage::CardInfo(info) => Some(info),
        _ => None,
    }
}

/// The request that sets the bus parameters of the first channel.
pub fn bus_params_request(bit_rate: u32, tseg1: u8, tseg2: u8, sjw: u8, no_samp: u8) -> (m: KvaserMessage)
    ensures
        m == (KvaserMessage::SetBusParams {
            transaction: 0x10,
            channel: 0,
            bit_rate,
            tseg1,
            tseg2,
            sjw,
            no_samp,
        }),
{
    KvaserMessage::SetBusParams { transaction: 0x10, channel: 0, bit_rate, tseg1, tseg2, sjw, no_samp }
}

/// The requests, in order, that put the first channel in normal driver mode and on the bus.
pub fn start_requests() -> (v: Vec<KvaserMessage>)
    ensures
        v@ == seq![
            KvaserMessage::SetDriverMode { transaction: 0x15, channel: 0, mode: 1 },
            KvaserMessage::StartChip { transaction: 0x22, channel: 0 },
        ],
{
    let mut v: Vec<KvaserMessage> = Vec::new();
    v.push(KvaserMessage::SetDriverMode { transaction: 0x15, channel: 0, mode: 1 });
    v.push(KvaserMessage::StartChip { transaction: 0x22, channel: 0 });
    v
}

/// Whether `m` asks the adapter to send a frame with identifier `id` and payload `data`
/// on the first channel.
pub open spec fn is_transmit_request(m: KvaserMessage, id: CanId, data: Seq<u8>) -> bool {
    match id {
        CanId::Standard(i) => m matches KvaserMessage::TransmitStandard(t) && t.spec_channel() == 0
            && t.spec_transaction() == 0 && t.spec_flags() == 0 && t.spec_raw_data() == raw_frame(
            standard_id_bytes(i),
            data,
        ),
        CanId::Extended(i) => m matches KvaserMessage::TransmitExtended(t) && t.spec_channel() == 0
            && t.spec_transaction() == 0 && t.spec_flags() == 0 && t.spec_raw_data() == raw_frame(
            extended_id_bytes(i),
            data,
        ),
    }
}

/// The request that sends a CAN frame of at most eight data bytes on the first channel.
pub fn transmit_request(id: CanId, data: &[u8]) -> (m: KvaserMessage)
    requires
        data@.len() <= 8,
    ensures
        is_transmit_request(m, id, data@),
{
    match id {
        CanId::Standard(i) => KvaserMessage::TransmitStandard(TransmitMessage::standard(0, 0, i, data, 0)),
        CanId::Extended(i) => KvaserMessage::TransmitExtended(TransmitMessage::extended(0, 0, i, data, 0)),
    }
}

/// Whether a log message's length code stays within its data, as a received frame needs.
pub open spec fn frame_fits(msg: KvaserMessage) -> bool {
    match msg {
        KvaserMessage::LogMessage { dlc, data, .. } => dlc <= data@.len(),
        _ => true,
    }
}

/// The CAN frame a received message carries: a log message gives its identifier (standard
/// or extended by its flag), its first `dlc` data bytes and its timestamp; any other
/// message carries none and is skipped.
pub fn received_frame(msg: &KvaserMessage) -> (r: Option<ReceivedFrame>)
    requires
        frame_fits(*msg),
    ensures
        match *msg {
            KvaserMessage::LogMessage { timestamp, dlc, id, extended, data, .. } => r matches Some(f)
                && f.id == (if extended {
                CanId::Extended(id)
            } else {
                CanId::Standard(id as u16)
            }) && f.data@ == data@.subrange(0, dlc as int) && f.timestamp == timestamp,
            _ => r is None,
        },
{
    match msg {
        KvaserMessage::LogMessage { timestamp, dlc, id, extended, data, .. } => {
            let can_id = if *extended {
                CanId::Extended(*id)
            } else {
                CanId::Standard(*id as u16)
            };
            let payload = prefix(data.as_slice(), *dlc as usize);
            Some(ReceivedFrame { id: can_id, data: payload, timestamp: *timestamp })
        },
        _ => None,
    }
}

/// The first `n` bytes of `s`.
fn prefix(s: &[u8], n: usize) -> (v: Vec<u8>)
    requires
        n <= s@.len(),
    ensures
        v@ == s@.subrange(0, n as int),
{
    let mut v: Vec<u8> = Vec::new();
    let mut i: usize = 0;
    while i < n
        invariant
            i <= n <= s@.len(),
            v@ == s@.subrange(0, i as int),
        decreases n - i,
    {
        v.push(s[i]);
        i = i + 1;
        assert(v@ =~= s@.subrange(0, i as int));
    }
    v
}

/// Whether an identifier fits its kind: 11 bits for a standard frame, 29 for an extended one.
pub open spec fn is_valid_id(id: CanId) -> bool {
    match id {
        CanId::Standard(i) => i < 0x800,
        CanId::Extended(i) => i < 0x2000_0000,
    }
}

/// The identifier that the raw bytes of a transmit request carry.
pub open spec fn carried_id(m: KvaserMessage) -> Option<CanId> {
    match m {
        KvaserMessage::TransmitStandard(t) => {
            let r = t.spec_raw_data();
            Some(CanId::Standard(((r[0] as u16) << 6) | (r[1] as u16)))
        },
        KvaserMessage::TransmitExtended(t) => {
            let r = t.spec_raw_data();
            Some(
                CanId::Extended(
                    ((r[0] as u32) << 24) | ((r[1] as u32) << 18) | ((r[2] as u32) << 14) | ((r[3] as u32)
                        << 6) | (r[4] as u32),
                ),
            )
        },
        _ => None,
    }
}

/// The payload that the raw bytes of a transmit request carry: as many bytes after the
/// length byte as it says.
pub open spec fn carried_data(m: KvaserMessage) -> Seq<u8> {
    match m {
        KvaserMessage::TransmitStandard(t) => t.spec_raw_data().subrange(6, 6 + t.spec_raw_data()[5]),
        KvaserMessage::TransmitExtended(t) => t.spec_raw_data().subrange(6, 6 + t.spec_raw_data()[5]),
        _ => Seq::empty(),
    }
}

/// A transmit request carries exactly the frame it was made for: its identifier and its
/// payload can be read back from the request.
pub proof fn lemma_transmit_request_carries_frame(m: KvaserMessage, id: CanId, data: Seq<u8>)
    requires
        is_transmit_request(m, id, data),
        is_valid_id(id),
        data.len() <= 8,
    ensures
        carried_id(m) == Some(id),
        carried_data(m) == data,
{
    match id {
        CanId::Standard(i) => {
            lemma_standard_id_recovered(i);
        },
        CanId::Extended(i) => {
            lemma_extended_id_recovered(i);
        },
    }
    match m {
        KvaserMessage::TransmitStandard(t) => {
            assert(t.spec_raw_data().subrange(6, 6 + t.spec_raw_data()[5]) =~= data);
        },
        KvaserMessage::TransmitExtended(t) => {
            assert(t.spec_raw_data().subrange(6, 6 + t.spec_raw_data()[5]) =~= data);
        },
        _ => {},
    }
}

/// The bytes of a transmit request: its command byte, channel and transaction zero, the
/// fourteen raw bytes of the frame, a padding byte and zero flags.
pub proof fn lemma_transmit_request_bytes(m: KvaserMessage, id: CanId, data: Seq<u8>)
    requires
        is_transmit_request(m, id, data),
    ensures
        m.spec_encode() == (match id {
            CanId::Standard(i) => seq![0x0Du8, 0u8, 0u8] + raw_frame(standard_id_bytes(i), data) + seq![0u8, 0u8],
            CanId::Extended(i) => seq![0x0Fu8, 0u8, 0u8] + raw_frame(extended_id_bytes(i), data) + seq![0u8, 0u8],
        }),
{
    assert(m.spec_encode() =~= (match id {
        CanId::Standard(i) => seq![0x0Du8, 0u8, 0u8] + raw_frame(standard_id_bytes(i), data) + seq![0u8, 0u8],
        CanId::Extended(i) => seq![0x0Fu8, 0u8, 0u8] + raw_frame(extended_id_bytes(i), data) + seq![0u8, 0u8],
    }));
}

} // verus!
