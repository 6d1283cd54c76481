//! MAC commands as values, their byte layout, and the parser that reads a
//! sequence of them back.
use vstd::prelude::*;

use crate::maccommands::{encode_margin, margin_byte, margin_of, Error};

verus! {

/// Commands that the network sends and the device reads.
#[derive(Debug, Clone, Copy, PartialEq, Eq, Structural)]
pub enum DownlinkMacCommand {
    LinkCheckAns { margin: u8, gateway_count: u8 },
    LinkADRReq { data_rate: u8, tx_power: u8, channel_mask: u16, redundancy: u8 },
    DutyCycleReq { max_duty_cycle: u8 },
    RXParamSetupReq { dl_settings: u8, frequency: u32 },
    DevStatusReq,
    NewChannelReq { channel_index: u8, frequency: u32, data_rate_range: u8 },
    RXTimingSetupReq { delay: u8 },
    TXParamSetupReq { downlink_dwell_time: bool, uplink_dwell_time: bool, max_eirp: u8 },
    DlChannelReq { channel_index: u8, frequency: u32 },
    DeviceTimeAns { seconds: u32, fractional: u8 },
}

/// Commands that the device sends and the network reads.
#[derive(Debug, Clone, Copy, PartialEq, Eq, Structural)]
pub enum UplinkMacCommand {
    LinkCheckReq,
    LinkADRAns { channel_mask_ack: bool, data_rate_ack: bool, tx_power_ack: bool },
    DutyCycleAns,
    RXParamSetupAns { channel_ack: bool, rx2_data_rate_ack: bool, rx1_data_rate_offset_ack: bool },
    DevStatusAns { battery: u8, margin: i8 },
    NewChannelAns { channel_frequency_ack: bool, data_rate_range_ack: bool },
    RXTimingSetupAns,
    TXParamSetupAns,
    DlChannelAns { channel_frequency_ack: bool, uplink_frequency_exists_ack: bool },
    DeviceTimeReq,
}

pub open spec fn flag(b: bool, weight: int) -> int {
    if b {
        weight
    } else {
        0
    }
}

/// The byte that carries up to three acknowledgement bits, bit 0 first.
pub open spec fn ack_byte(a: bool, b: bool, c: bool) -> u8 {
    (flag(a, 1) + flag(b, 2) + flag(c, 4)) as u8
}

/// Three little-endian bytes, as a number.
pub open spec fn le24(p: Seq<u8>, at: int) -> u32 {
    (p[at] + 256 * p[at + 1] + 65536 * p[at + 2]) as u32
}

/// Two little-endian bytes, as a number.
pub open spec fn le16(p: Seq<u8>, at: int) -> u16 {
    (p[at] + 256 * p[at + 1]) as u16
}

/// Four little-endian bytes, as a number.
pub open spec fn le32(p: Seq<u8>, at: int) -> u32 {
    (p[at] + 256 * p[at + 1] + 65536 * p[at + 2] + 16777216 * p[at + 3]) as u32
}

/// The little-endian bytes of `v`, `n` of them.
pub open spec fn le_bytes(v: nat, n: nat) -> Seq<u8>
    decreases n,
{
    if n == 0 {
        seq![]
    } else {
        seq![(v % 256) as u8] + le_bytes(v / 256, (n - 1) as nat)
    }
}

/// Payload length of each downlink command, by identifier.
pub open spec fn downlink_payload_len(cid: u8) -> Option<nat> {
    if cid == 0x02 {
        Some(2)
    } else if cid == 0x03 {
        Some(4)
    } else if cid == 0x04 {
        Some(1)
    } else if cid == 0x05 {
        Some(4)
    } else if cid == 0x06 {
        Some(0)
    } else if cid == 0x07 {
        Some(5)
    } else if cid == 0x08 {
        Some(1)
    } else if cid == 0x09 {
        Some(1)
    } else if cid == 0x0a {
        Some(4)
    } else if cid == 0x0d {
        Some(5)
    } else {
        None
    }
}

/// Payload length of each uplink command, by identifier.
pub open spec fn uplink_payload_len(cid: u8) -> Option<nat> {
    if cid == 0x02 || cid == 0x04 || cid == 0x08 || cid == 0x09 || cid == 0x0d {
        Some(0)
    } else if cid == 0x03 || cid == 0x05 || cid == 0x07 || cid == 0x0a {
        Some(1)
    } else if cid == 0x06 {
        Some(2)
    } else {
        None
    }
}

impl DownlinkMacCommand {
    /// Every field lies in the range that its bits can carry.
    pub open spec fn valid(self) -> bool {
        match self {
            DownlinkMacCommand::LinkADRReq { data_rate, tx_power, .. } => data_rate <= 15
                && tx_power <= 15,
            DownlinkMacCommand::DutyCycleReq { max_duty_cycle } => max_duty_cycle <= 15,
            DownlinkMacCommand::RXParamSetupReq { frequency, .. } => frequency < 0x100_0000,
            DownlinkMacCommand::NewChannelReq { frequency, .. } => frequency < 0x100_0000,
            DownlinkMacCommand::RXTimingSetupReq { delay } => delay <= 15,
            DownlinkMacCommand::TXParamSetupReq { max_eirp, .. } => max_eirp <= 15,
            DownlinkMacCommand::DlChannelReq { frequency, .. } => frequency < 0x100_0000,
            _ => true,
        }
    }

    /// The command on the wire: identifier, then payload.
    pub open spec fn encoded(self) -> Seq<u8> {
        match self {
            DownlinkMacCommand::LinkCheckAns { margin, gateway_count } => seq![
                0x02u8,
                margin,
                gateway_count,
            ],
            DownlinkMacCommand::LinkADRReq { data_rate, tx_power, channel_mask, redundancy } =>
                seq![0x03u8, (data_rate * 16 + tx_power) as u8] + le_bytes(channel_mask as nat, 2)
                + seq![redundancy],
            DownlinkMacCommand::DutyCycleReq { max_duty_cycle } => seq![0x04u8, max_duty_cycle],
            DownlinkMacCommand::RXParamSetupReq { dl_settings, frequency } => seq![
                0x05u8,
                dl_settings,
            ] + le_bytes(frequency as nat, 3),
            DownlinkMacCommand::DevStatusReq => seq![0x06u8],
            DownlinkMacCommand::NewChannelReq { channel_index, frequency, data_rate_range } =>
                seq![0x07u8, channel_index] + le_bytes(frequency as nat, 3) + seq![data_rate_range],
            DownlinkMacCommand::RXTimingSetupReq { delay } => seq![0x08u8, delay],
            DownlinkMacCommand::TXParamSetupReq {
                downlink_dwell_time,
                uplink_dwell_time,
                max_eirp,
            } => seq![
                0x09u8,
                (flag(downlink_dwell_time, 32) + flag(uplink_dwell_time, 16) + max_eirp) as u8,
            ],
            DownlinkMacCommand::DlChannelReq { channel_index, frequency } => seq![
                0x0au8,
                channel_index,
            ] + le_bytes(frequency as nat, 3),
            DownlinkMacCommand::DeviceTimeAns { seconds, fractional } => seq![0x0du8] + le_bytes(
                seconds as nat,
                4,
            ) + seq![fractional],
        }
    }
}

/// Reads one downlink command from `b`, which holds exactly its identifier
/// and payload. Reserved bits that are set make it unreadable.
pub open spec fn decode_downlink(b: Seq<u8>) -> Option<DownlinkMacCommand> {
    if b.len() == 0 || downlink_payload_len(b[0]) != Some((b.len() - 1) as nat) {
        None
    } else {
        let cid = b[0];
        if cid == 0x02 {
            Some(DownlinkMacCommand::LinkCheckAns { margin: b[1], gateway_count: b[2] })
        } else if cid == 0x03 {
            Some(
                DownlinkMacCommand::LinkADRReq {
                    data_rate: b[1] / 16,
                    tx_power: b[1] % 16,
                    channel_mask: le16(b, 2),
                    redundancy: b[4],
                },
            )
        } else if cid == 0x04 {
            if b[1] <= 15 {
                Some(DownlinkMacCommand::DutyCycleReq { max_duty_cycle: b[1] })
            } else {
                None
            }
        } else if cid == 0x05 {
            Some(DownlinkMacCommand::RXParamSetupReq { dl_settings: b[1], frequency: le24(b, 2) })
        } else if cid == 0x06 {
            Some(DownlinkMacCommand::DevStatusReq)
        } else if cid == 0x07 {
            Some(
                DownlinkMacCommand::NewChannelReq {
                    channel_index: b[1],
                    frequency: le24(b, 2),
                    data_rate_range: b[5],
                },
            )
        } else if cid == 0x08 {
            if b[1] <= 15 {
                Some(DownlinkMacCommand::RXTimingSetupReq { delay: b[1] })
            } else {
                None
            }
        } else if cid == 0x09 {
            if b[1] < 64 {
                Some(
                    DownlinkMacCommand::TXParamSetupReq {
                        downlink_dwell_time: b[1] / 32 == 1,
                        uplink_dwell_time: (b[1] / 16) % 2 == 1,
                        max_eirp: b[1] % 16,
                    },
                )
            } else {
                None
            }
        } else if cid == 0x0a {
            Some(DownlinkMacCommand::DlChannelReq { channel_index: b[1], frequency: le24(b, 2) })
        } else {
            Some(DownlinkMacCommand::DeviceTimeAns { seconds: le32(b, 1), fractional: b[5] })
        }
    }
}

impl UplinkMacCommand {
    /// Every field lies in the range that its bits can carry.
    pub open spec fn valid(self) -> bool {
        match self {
            UplinkMacCommand::DevStatusAns { margin, .. } => -32 <= margin <= 31,
            _ => true,
        }
    }

    /// The command on the wire: identifier, then payload.
    pub open spec fn encoded(self) -> Seq<u8> {
        match self {
            UplinkMacCommand::LinkCheckReq => seq![0x02u8],
            UplinkMacCommand::LinkADRAns { channel_mask_ack, data_rate_ack, tx_power_ack } => seq![
                0x03u8,
                ack_byte(channel_mask_ack, data_rate_ack, tx_power_ack),
            ],
            UplinkMacCommand::DutyCycleAns => seq![0x04u8],
            UplinkMacCommand::RXParamSetupAns {
                channel_ack,
                rx2_data_rate_ack,
                rx1_data_rate_offset_ack,
            } => seq![0x05u8, ack_byte(channel_ack, rx2_data_rate_ack, rx1_data_rate_offset_ack)],
            UplinkMacCommand::DevStatusAns { battery, margin } => seq![
                0x06u8,
                battery,
                margin_byte(margin),
            ],
            UplinkMacCommand::NewChannelAns { channel_frequency_ack, data_rate_range_ack } => seq![
                0x07u8,
                ack_byte(channel_frequency_ack, data_rate_range_ack, false),
            ],
            UplinkMacCommand::RXTimingSetupAns => seq![0x08u8],
            UplinkMacCommand::TXParamSetupAns => seq![0x09u8],
            UplinkMacCommand::DlChannelAns {
                channel_frequency_ack,
                uplink_frequency_exists_ack,
            } => seq![0x0au8, ack_byte(channel_frequency_ack, uplink_frequency_exists_ack, false)],
            UplinkMacCommand::DeviceTimeReq => seq![0x0du8],
        }
    }
}

/// Reads one uplink command from `b`, which holds exactly its identifier and
/// payload. Reserved bits that are set make it unreadable.
pub open spec fn decode_uplink(b: Seq<u8>) -> Option<UplinkMacCommand> {
    if b.len() == 0 || uplink_payload_len(b[0]) != Some((b.len() - 1) as nat) {
        None
    } else {
        let cid = b[0];
        if cid == 0x02 {
            Some(UplinkMacCommand::LinkCheckReq)
        } else if cid == 0x03 {
            if b[1] < 8 {
                Some(
                    UplinkMacCommand::LinkADRAns {
                        channel_mask_ack: b[1] % 2 == 1,
                        data_rate_ack: (b[1] / 2) % 2 == 1,
                        tx_power_ack: b[1] / 4 == 1,
                    },
                )
            } else {
                None
            }
        } else if cid == 0x04 {
            Some(UplinkMacCommand::DutyCycleAns)
        } else if cid == 0x05 {
            if b[1] < 8 {
                Some(
                    UplinkMacCommand::RXParamSetupAns {
                        channel_ack: b[1] % 2 == 1,
                        rx2_data_rate_ack: (b[1] / 2) % 2 == 1,
                        rx1_data_rate_offset_ack: b[1] / 4 == 1,
                    },
                )
            } else {
                None
            }
        } else if cid == 0x06 {
            if b[2] < 64 {
                Some(UplinkMacCommand::DevStatusAns { battery: b[1], margin: margin_of(b[2]) })
            } else {
                None
            }
        } else if cid == 0x07 {
            if b[1] < 4 {
                Some(
                    UplinkMacCommand::NewChannelAns {
                        channel_frequency_ack: b[1] % 2 == 1,
                        data_rate_range_ack: b[1] / 2 == 1,
                    },
                )
            } else {
                None
            }
        } else if cid == 0x08 {
            Some(UplinkMacCommand::RXTimingSetupAns)
        } else if cid == 0x09 {
            Some(UplinkMacCommand::TXParamSetupAns)
        } else if cid == 0x0a {
            if b[1] < 4 {
                Some(
                    UplinkMacCommand::DlChannelAns {
                        channel_frequency_ack: b[1] % 2 == 1,
                        uplink_frequency_exists_ack: b[1] / 2 == 1,
                    },
                )
            } else {
                None
            }
        } else {
            Some(UplinkMacCommand::DeviceTimeReq)
        }
    }
}

proof fn lemma_le_bytes_len(v: nat, n: nat)
    ensures
        le_bytes(v, n).len() == n,
    decreases n,
{
    if n > 0 {
        lemma_le_bytes_len(v / 256, (n - 1) as nat);
    }
}

proof fn lemma_le16(v: u16)
    ensures
        le_bytes(v as nat, 2).len() == 2,
        le16(le_bytes(v as nat, 2), 0) == v,
{
    reveal_with_fuel(le_bytes, 3);
    let b = le_bytes(v as nat, 2);
    assert(b[0] + 256 * b[1] == v) by (nonlinear_arith)
        requires
            b[0] == (v as nat % 256) as u8,
            b[1] == ((v as nat / 256) % 256) as u8,
            v < 0x10000,
    ;
}

proof fn lemma_le24(v: u32)
    requires
        v < 0x100_0000,
    ensures
        le_bytes(v as nat, 3).len() == 3,
        le24(le_bytes(v as nat, 3), 0) == v,
{
    reveal_with_fuel(le_bytes, 4);
    let b = le_bytes(v as nat, 3);
    assert(b[0] + 256 * b[1] + 65536 * b[2] == v) by (nonlinear_arith)
        requires
            b[0] == (v as nat % 256) as u8,
            b[1] == ((v as nat / 256) % 256) as u8,
            b[2] == ((v as nat / 256 / 256) % 256) as u8,
            v < 0x100_0000,
    ;
}

proof fn lemma_le32(v: u32)
    ensures
        le_bytes(v as nat, 4).len() == 4,
        le32(le_bytes(v as nat, 4), 0) == v,
{
    reveal_with_fuel(le_bytes, 5);
    let b = le_bytes(v as nat, 4);
    assert(b[0] + 256 * b[1] + 65536 * b[2] + 16777216 * b[3] == v) by (nonlinear_arith)
        requires
            b[0] == (v as nat % 256) as u8,
            b[1] == ((v as nat / 256) % 256) as u8,
            b[2] == ((v as nat / 256 / 256) % 256) as u8,
            b[3] == ((v as nat / 256 / 256 / 256) % 256) as u8,
            v < 0x1_0000_0000,
    ;
}

proof fn lemma_le16_back(p: Seq<u8>, at: int)
    requires
        0 <= at,
        at + 2 <= p.len(),
    ensures
        le_bytes(le16(p, at) as nat, 2) == p.subrange(at, at + 2),
{
    reveal_with_fuel(le_bytes, 3);
    let (a, b) = (p[at] as int, p[at + 1] as int);
    assert((a + 256 * b) % 256 == a && ((a + 256 * b) / 256) % 256 == b && a + 256 * b < 0x10000)
        by (nonlinear_arith)
        requires
            0 <= a < 256,
            0 <= b < 256,
    ;
    assert(le_bytes(le16(p, at) as nat, 2) =~= p.subrange(at, at + 2));
}

proof fn lemma_le24_back(p: Seq<u8>, at: int)
    requires
        0 <= at,
        at + 3 <= p.len(),
    ensures
        le_bytes(le24(p, at) as nat, 3) == p.subrange(at, at + 3),
        le24(p, at) < 0x100_0000,
{
    reveal_with_fuel(le_bytes, 4);
    let (a, b, c) = (p[at] as int, p[at + 1] as int, p[at + 2] as int);
    let v = a + 256 * b + 65536 * c;
    assert(v % 256 == a && (v / 256) % 256 == b && (v / 256 / 256) % 256 == c && v < 0x100_0000)
        by (nonlinear_arith)
        requires
            0 <= a < 256,
            0 <= b < 256,
            0 <= c < 256,
            v == a + 256 * b + 65536 * c,
    ;
    assert(le_bytes(le24(p, at) as nat, 3) =~= p.subrange(at, at + 3));
}

proof fn lemma_le32_back(p: Seq<u8>, at: int)
    requires
        0 <= at,
        at + 4 <= p.len(),
    ensures
        le_bytes(le32(p, at) as nat, 4) == p.subrange(at, at + 4),
{
    reveal_with_fuel(le_bytes, 5);
    let (a, b, c, d) = (p[at] as int, p[at + 1] as int, p[at + 2] as int, p[at + 3] as int);
    let v = a + 256 * b + 65536 * c + 16777216 * d;
    assert(v % 256 == a && (v / 256) % 256 == b && (v / 256 / 256) % 256 == c && (v / 256 / 256
        / 256) % 256 == d && v < 0x1_0000_0000) by (nonlinear_arith)
        requires
            0 <= a < 256,
            0 <= b < 256,
            0 <= c < 256,
            0 <= d < 256,
            v == a + 256 * b + 65536 * c + 16777216 * d,
    ;
    assert(le_bytes(le32(p, at) as nat, 4) =~= p.subrange(at, at + 4));
}

/// Encoding a downlink command whose fields are in range and reading it back
/// gives the same command.
pub proof fn lemma_downlink_decode_encode(c: DownlinkMacCommand)
    requires
        c.valid(),
    ensures
        decode_downlink(c.encoded()) == Some(c),
{
    let e = c.encoded();
    match c {
        DownlinkMacCommand::LinkADRReq { data_rate, tx_power, channel_mask, redundancy } => {
            lemma_le16(channel_mask);
            assert(e.subrange(2, 4) =~= le_bytes(channel_mask as nat, 2));
            assert(le16(e, 2) == le16(le_bytes(channel_mask as nat, 2), 0));
            let b = (data_rate * 16 + tx_power) as u8;
            assert(b / 16 == data_rate && b % 16 == tx_power) by (nonlinear_arith)
                requires
                    data_rate <= 15,
                    tx_power <= 15,
                    b == data_rate * 16 + tx_power,
            ;
        },
        DownlinkMacCommand::RXParamSetupReq { frequency, .. } => {
            lemma_le24(frequency);
            assert(le24(e, 2) == le24(le_bytes(frequency as nat, 3), 0));
        },
        DownlinkMacCommand::NewChannelReq { frequency, .. } => {
            lemma_le24(frequency);
            assert(le24(e, 2) == le24(le_bytes(frequency as nat, 3), 0));
        },
        DownlinkMacCommand::DlChannelReq { frequency, .. } => {
            lemma_le24(frequency);
            assert(le24(e, 2) == le24(le_bytes(frequency as nat, 3), 0));
        },
        DownlinkMacCommand::DeviceTimeAns { seconds, .. } => {
            lemma_le32(seconds);
            assert(le32(e, 1) == le32(le_bytes(seconds as nat, 4), 0));
        },
        DownlinkMacCommand::TXParamSetupReq { downlink_dwell_time, uplink_dwell_time, max_eirp } => {
            let v = flag(downlink_dwell_time, 32) + flag(uplink_dwell_time, 16) + max_eirp;
            assert(v < 64 && v / 32 == flag(downlink_dwell_time, 1) && (v / 16) % 2 == flag(
                uplink_dwell_time,
                1,
            ) && v % 16 == max_eirp);
        },
        _ => {},
    }
}

/// A downlink command that reads back from some bytes encodes to exactly
/// those bytes.
pub proof fn lemma_downlink_encode_decode(b: Seq<u8>)
    requires
        decode_downlink(b) is Some,
    ensures
        decode_downlink(b)->0.encoded() == b,
{
    let c = decode_downlink(b)->0;
    match c {
        DownlinkMacCommand::LinkADRReq { data_rate, tx_power, .. } => {
            lemma_le16_back(b, 2);
            assert(data_rate * 16 + tx_power == b[1]);
        },
        DownlinkMacCommand::RXParamSetupReq { .. } => {
            lemma_le24_back(b, 2);
        },
        DownlinkMacCommand::NewChannelReq { .. } => {
            lemma_le24_back(b, 2);
        },
        DownlinkMacCommand::DlChannelReq { .. } => {
            lemma_le24_back(b, 2);
        },
        DownlinkMacCommand::DeviceTimeAns { .. } => {
            lemma_le32_back(b, 1);
        },
        _ => {},
    }
    assert(c.encoded() =~= b);
}

/// Encoding an uplink command whose fields are in range and reading it back
/// gives the same command.
pub proof fn lemma_uplink_decode_encode(c: UplinkMacCommand)
    requires
        c.valid(),
    ensures
        decode_uplink(c.encoded()) == Some(c),
{
}

/// An uplink command that reads back from some bytes encodes to exactly those
/// bytes.
pub proof fn lemma_uplink_encode_decode(b: Seq<u8>)
    requires
        decode_uplink(b) is Some,
    ensures
        decode_uplink(b)->0.encoded() == b,
{
    assert(decode_uplink(b)->0.encoded() =~= b);
}

/// Reads a whole sequence of downlink commands, as they stand one after the
/// other in a frame's options or payload.
pub open spec fn decode_downlink_all(b: Seq<u8>) -> Result<Seq<DownlinkMacCommand>, Error>
    decreases b.len(),
{
    if b.len() == 0 {
        Ok(seq![])
    } else {
        match downlink_payload_len(b[0]) {
            None => Err(Error::UnknownMacCommand),
            Some(n) => if 1 + n > b.len() {
                Err(Error::BufferTooShort)
            } else {
                match decode_downlink(b.subrange(0, 1 + n as int)) {
                    None => Err(Error::ReservedBitsSet),
                    Some(c) => match decode_downlink_all(b.subrange(1 + n as int, b.len() as int)) {
                        Err(e) => Err(e),
                        Ok(rest) => Ok(seq![c] + rest),
                    },
                }
            },
        }
    }
}

/// Payload length of a downlink command, or `None` for an unknown identifier.
pub fn downlink_len(cid: u8) -> (r: Option<usize>)
    ensures
        match downlink_payload_len(cid) {
            Some(n) => r == Some(n as usize),
            None => r is None,
        },
{
    if cid == 0x02 {
        Some(2)
    } else if cid == 0x03 || cid == 0x05 || cid == 0x0a {
        Some(4)
    } else if cid == 0x04 || cid == 0x08 || cid == 0x09 {
        Some(1)
    } else if cid == 0x06 {
        Some(0)
    } else if cid == 0x07 || cid == 0x0d {
        Some(5)
    } else {
        None
    }
}

fn read_le24(data: &[u8], at: usize) -> (r: u32)
    requires
        at + 3 <= data@.len(),
    ensures
        r == le24(data@, at as int),
{
    data[at] as u32 + 256 * data[at + 1] as u32 + 65536 * data[at + 2] as u32
}

/// Reads the command that starts at `at` and has a payload of `n` bytes.
fn decode_downlink_at(data: &[u8], at: usize, n: usize) -> (r: Option<DownlinkMacCommand>)
    requires
        at + 1 + n <= data@.len(),
        downlink_payload_len(data@[at as int]) == Some(n as nat),
    ensures
        r == decode_downlink(data@.subrange(at as int, at + 1 + n)),
{
    let ghost b = data@.subrange(at as int, at + 1 + n);
    assert(b[0] == data@[at as int]);
    let cid = data[at];
    let p = at + 1;
    if cid == 0x02 {
        Some(DownlinkMacCommand::LinkCheckAns { margin: data[p], gateway_count: data[p + 1] })
    } else if cid == 0x03 {
        let mask = data[p + 1] as u16 + 256 * data[p + 2] as u16;
        assert(mask == le16(b, 2));
        Some(
            DownlinkMacCommand::LinkADRReq {
                data_rate: data[p] / 16,
                tx_power: data[p] % 16,
                channel_mask: mask,
                redundancy: data[p + 3],
            },
        )
    } else if cid == 0x04 {
        if data[p] <= 15 {
            Some(DownlinkMacCommand::DutyCycleReq { max_duty_cycle: data[p] })
        } else {
            None
        }
    } else if cid == 0x05 {
        let f = read_le24(data, p + 1);
        assert(f == le24(b, 2));
        Some(DownlinkMacCommand::RXParamSetupReq { dl_settings: data[p], frequency: f })
    } else if cid == 0x06 {
        Some(DownlinkMacCommand::DevStatusReq)
    } else if cid == 0x07 {
        let f = read_le24(data, p + 1);
        assert(f == le24(b, 2));
        Some(
            DownlinkMacCommand::NewChannelReq {
                channel_index: data[p],
                frequency: f,
                data_rate_range: data[p + 4],
            },
        )
    } else if cid == 0x08 {
        if data[p] <= 15 {
            Some(DownlinkMacCommand::RXTimingSetupReq { delay: data[p] })
        } else {
            None
        }
    } else if cid == 0x09 {
        let v = data[p];
        if v < 64 {
            Some(
                DownlinkMacCommand::TXParamSetupReq {
                    downlink_dwell_time: v / 32 == 1,
                    uplink_dwell_time: (v / 16) % 2 == 1,
                    max_eirp: v % 16,
                },
            )
        } else {
            None
        }
    } else if cid == 0x0a {
        let f = read_le24(data, p + 1);
        assert(f == le24(b, 2));
        Some(DownlinkMacCommand::DlChannelReq { channel_index: data[p], frequency: f })
    } else {
        let secs = data[p] as u32 + 256 * data[p + 1] as u32 + 65536 * data[p + 2] as u32
            + 16777216 * data[p + 3] as u32;
        assert(secs == le32(b, 1));
        Some(DownlinkMacCommand::DeviceTimeAns { seconds: secs, fractional: data[p + 4] })
    }
}

/// Parses the MAC commands that a downlink carries, one after the other with
/// nothing between them.
pub fn parse_downlink_mac_commands(data: &[u8]) -> (r: Result<Vec<DownlinkMacCommand>, Error>)
    ensures
        match decode_downlink_all(data@) {
            Ok(cmds) => r is Ok && r->Ok_0@ == cmds,
            Err(e) => r == Err::<Vec<DownlinkMacCommand>, Error>(e),
        },
{
    let mut out: Vec<DownlinkMacCommand> = Vec::new();
    let mut at: usize = 0;
    assert(data@.subrange(0, data@.len() as int) =~= data@);
    proof {
        if let Ok(all) = decode_downlink_all(data@) {
            assert(out@ + all =~= all);
        }
    }
    while at < data.len()
        invariant
            at <= data@.len(),
            match decode_downlink_all(data@.subrange(at as int, data@.len() as int)) {
                Ok(rest) => decode_downlink_all(data@) == Ok::<Seq<DownlinkMacCommand>, Error>(
                    out@ + rest,
                ),
                Err(e) => decode_downlink_all(data@) == Err::<Seq<DownlinkMacCommand>, Error>(e),
            },
        decreases data@.len() - at,
    {
        let ghost rest = data@.subrange(at as int, data@.len() as int);
        assert(rest[0] == data@[at as int]);
        let n = match downlink_len(data[at]) {
            None => return Err(Error::UnknownMacCommand),
            Some(n) => n,
        };
        if n + 1 > data.len() - at {
            return Err(Error::BufferTooShort);
        }
        assert(rest.subrange(0, 1 + n as int) =~= data@.subrange(at as int, at + 1 + n));
        assert(rest.subrange(1 + n as int, rest.len() as int) =~= data@.subrange(
            at + 1 + n,
            data@.len() as int,
        ));
        match decode_downlink_at(data, at, n) {
            None => return Err(Error::ReservedBitsSet),
            Some(c) => {
                proof {
                    match decode_downlink_all(data@.subrange(at + 1 + n, data@.len() as int)) {
                        Ok(tail) => {
                            assert(out@.push(c) + tail =~= out@ + (seq![c] + tail));
                        },
                        Err(_) => {},
                    }
                }
                out.push(c);
            },
        }
        at = at + 1 + n;
    }
    assert(data@.subrange(at as int, data@.len() as int) =~= Seq::<u8>::empty());
    assert(out@ + Seq::<DownlinkMacCommand>::empty() =~= out@);
    Ok(out)
}

/// Reads a whole sequence of uplink commands, as they stand one after the
/// other in a frame's options or payload.
pub open spec fn decode_uplink_all(b: Seq<u8>) -> Result<Seq<UplinkMacCommand>, Error>
    decreases b.len(),
{
    if b.len() == 0 {
        Ok(seq![])
    } else {
        match uplink_payload_len(b[0]) {
            None => Err(Error::UnknownMacCommand),
            Some(n) => if 1 + n > b.len() {
                Err(Error::BufferTooShort)
            } else {
                match decode_uplink(b.subrange(0, 1 + n as int)) {
                    None => Err(Error::ReservedBitsSet),
                    Some(c) => match decode_uplink_all(b.subrange(1 + n as int, b.len() as int)) {
                        Err(e) => Err(e),
                        Ok(rest) => Ok(seq![c] + rest),
                    },
                }
            },
        }
    }
}

/// Payload length of an uplink command, or `None` for an unknown identifier.
pub fn uplink_len(cid: u8) -> (r: Option<usize>)
    ensures
        match uplink_payload_len(cid) {
            Some(n) => r == Some(n as usize),
            None => r is None,
        },
{
    if cid == 0x02 || cid == 0x04 || cid == 0x08 || cid == 0x09 || cid == 0x0d {
        Some(0)
    } else if cid == 0x03 || cid == 0x05 || cid == 0x07 || cid == 0x0a {
        Some(1)
    } else if cid == 0x06 {
        Some(2)
    } else {
        None
    }
}

/// Reads the uplink command that starts at `at` and has a payload of `n` bytes.
fn decode_uplink_at(data: &[u8], at: usize, n: usize) -> (r: Option<UplinkMacCommand>)
    requires
        at + 1 + n <= data@.len(),
        uplink_payload_len(data@[at as int]) == Some(n as nat),
    ensures
        r == decode_uplink(data@.subrange(at as int, at + 1 + n)),
{
    let ghost b = data@.subrange(at as int, at + 1 + n);
    assert(b[0] == data@[at as int]);
    let cid = data[at];
    let p = at + 1;
    if cid == 0x02 {
        Some(UplinkMacCommand::LinkCheckReq)
    } else if cid == 0x03 {
        let v = data[p];
        if v < 8 {
            Some(
                UplinkMacCommand::LinkADRAns {
                    channel_mask_ack: v % 2 == 1,
                    data_rate_ack: (v / 2) % 2 == 1,
                    tx_power_ack: v / 4 == 1,
                },
            )
        } else {
            None
        }
    } else if cid == 0x04 {
        Some(UplinkMacCommand::DutyCycleAns)
    } else if cid == 0x05 {
        let v = data[p];
        if v < 8 {
            Some(
                UplinkMacCommand::RXParamSetupAns {
                    channel_ack: v % 2 == 1,
                    rx2_data_rate_ack: (v / 2) % 2 == 1,
                    rx1_data_rate_offset_ack: v / 4 == 1,
                },
            )
        } else {
            None
        }
    } else if cid == 0x06 {
        let m = data[p + 1];
        if m < 64 {
            let margin: i8 = if m >= 32 {
                (m as i16 - 64) as i8
            } else {
                m as i8
            };
            Some(UplinkMacCommand::DevStatusAns { battery: data[p], margin })
        } else {
            None
        }
    } else if cid == 0x07 {
        let v = data[p];
        if v < 4 {
            Some(
                UplinkMacCommand::NewChannelAns {
                    channel_frequency_ack: v % 2 == 1,
                    data_rate_range_ack: v / 2 == 1,
                },
            )
        } else {
            None
        }
    } else if cid == 0x08 {
        Some(UplinkMacCommand::RXTimingSetupAns)
    } else if cid == 0x09 {
        Some(UplinkMacCommand::TXParamSetupAns)
    } else if cid == 0x0a {
        let v = data[p];
        if v < 4 {
            Some(
                UplinkMacCommand::DlChannelAns {
                    channel_frequency_ack: v % 2 == 1,
                    uplink_frequency_exists_ack: v / 2 == 1,
                },
            )
        } else {
            None
        }
    } else {
        Some(UplinkMacCommand::DeviceTimeReq)
    }
}

/// Parses the MAC commands that an uplink carries, as a network reads them.
pub fn parse_uplink_mac_commands(data: &[u8]) -> (r: Result<Vec<UplinkMacCommand>, Error>)
    ensures
        match decode_uplink_all(data@) {
            Ok(cmds) => r is Ok && r->Ok_0@ == cmds,
            Err(e) => r == Err::<Vec<UplinkMacCommand>, Error>(e),
        },
{
    let mut out: Vec<UplinkMacCommand> = Vec::new();
    let mut at: usize = 0;
    assert(data@.subrange(0, data@.len() as int) =~= data@);
    proof {
        if let Ok(all) = decode_uplink_all(data@) {
            assert(out@ + all =~= all);
        }
    }
    while at < data.len()
        invariant
            at <= data@.len(),
            match decode_uplink_all(data@.subrange(at as int, data@.len() as int)) {
                Ok(rest) => decode_uplink_all(data@) == Ok::<Seq<UplinkMacCommand>, Error>(
                    out@ + rest,
                ),
                Err(e) => decode_uplink_all(data@) == Err::<Seq<UplinkMacCommand>, Error>(e),
            },
        decreases data@.len() - at,
    {
        let ghost rest = data@.subrange(at as int, data@.len() as int);
        assert(rest[0] == data@[at as int]);
        let n = match uplink_len(data[at]) {
            None => return Err(Error::UnknownMacCommand),
            Some(n) => n,
        };
        if n + 1 > data.len() - at {
            return Err(Error::BufferTooShort);
        }
        assert(rest.subrange(0, 1 + n as int) =~= data@.subrange(at as int, at + 1 + n));
        assert(rest.subrange(1 + n as int, rest.len() as int) =~= data@.subrange(
            at + 1 + n,
            data@.len() as int,
        ));
        match decode_uplink_at(data, at, n) {
            None => return Err(Error::ReservedBitsSet),
            Some(c) => {
                proof {
                    match decode_uplink_all(data@.subrange(at + 1 + n, data@.len() as int)) {
                        Ok(tail) => {
                            assert(out@.push(c) + tail =~= out@ + (seq![c] + tail));
                        },
                        Err(_) => {},
                    }
                }
                out.push(c);
            },
        }
        at = at + 1 + n;
    }
    assert(data@.subrange(at as int, data@.len() as int) =~= Seq::<u8>::empty());
    assert(out@ + Seq::<UplinkMacCommand>::empty() =~= out@);
    Ok(out)
}

/// Appends the `n` little-endian bytes of `v`.
fn push_le(out: &mut Vec<u8>, v: u32, n: usize)
    ensures
        final(out)@ == old(out)@ + le_bytes(v as nat, n as nat),
    decreases n,
{
    if n > 0 {
        out.push((v % 256) as u8);
        push_le(out, v / 256, n - 1);
        assert(final(out)@ =~= old(out)@ + le_bytes(v as nat, n as nat));
    } else {
        assert(final(out)@ =~= old(out)@ + le_bytes(v as nat, n as nat));
    }
}

/// A MAC command that can be written out: identifier, then payload.
pub trait SerializableMacCommand {
    /// The bytes of the command on the wire.
    spec fn wire(&self) -> Seq<u8>;

    /// The number of bytes on the wire.
    fn wire_len(&self) -> (r: usize)
        ensures
            r == self.wire().len(),
            1 <= r <= 6,
    ;

    /// Appends the command's bytes to `out`.
    fn write_to(&self, out: &mut Vec<u8>)
        ensures
            final(out)@ == old(out)@ + self.wire(),
    ;
}

/// The commands written one after the other, with nothing between them.
pub open spec fn wire_all<C: SerializableMacCommand>(cmds: Seq<C>) -> Seq<u8>
    decreases cmds.len(),
{
    if cmds.len() == 0 {
        seq![]
    } else {
        wire_all(cmds.drop_last()) + cmds.last().wire()
    }
}

impl SerializableMacCommand for DownlinkMacCommand {
    open spec fn wire(&self) -> Seq<u8> {
        self.encoded()
    }

    fn wire_len(&self) -> (r: usize) {
        proof {
            lemma_le_bytes_len(0, 2);
        }
        reveal_with_fuel(le_bytes, 5);
        match self {
            DownlinkMacCommand::LinkCheckAns { .. } => 3,
            DownlinkMacCommand::LinkADRReq { .. } => 5,
            DownlinkMacCommand::DutyCycleReq { .. } => 2,
            DownlinkMacCommand::RXParamSetupReq { .. } => 5,
            DownlinkMacCommand::DevStatusReq => 1,
            DownlinkMacCommand::NewChannelReq { .. } => 6,
            DownlinkMacCommand::RXTimingSetupReq { .. } => 2,
            DownlinkMacCommand::TXParamSetupReq { .. } => 2,
            DownlinkMacCommand::DlChannelReq { .. } => 5,
            DownlinkMacCommand::DeviceTimeAns { .. } => 6,
        }
    }

    fn write_to(&self, out: &mut Vec<u8>) {
        let ghost start = out@;
        match *self {
            DownlinkMacCommand::LinkCheckAns { margin, gateway_count } => {
                out.push(0x02);
                out.push(margin);
                out.push(gateway_count);
            },
            DownlinkMacCommand::LinkADRReq { data_rate, tx_power, channel_mask, redundancy } => {
                out.push(0x03);
                out.push((data_rate as u32 * 16 + tx_power as u32) as u8);
                push_le(out, channel_mask as u32, 2);
                out.push(redundancy);
            },
            DownlinkMacCommand::DutyCycleReq { max_duty_cycle } => {
                out.push(0x04);
                out.push(max_duty_cycle);
            },
            DownlinkMacCommand::RXParamSetupReq { dl_settings, frequency } => {
                out.push(0x05);
                out.push(dl_settings);
                push_le(out, frequency, 3);
            },
            DownlinkMacCommand::DevStatusReq => {
                out.push(0x06);
            },
            DownlinkMacCommand::NewChannelReq { channel_index, frequency, data_rate_range } => {
                out.push(0x07);
                out.push(channel_index);
                push_le(out, frequency, 3);
                out.push(data_rate_range);
            },
            DownlinkMacCommand::RXTimingSetupReq { delay } => {
                out.push(0x08);
                out.push(delay);
            },
            DownlinkMacCommand::TXParamSetupReq {
                downlink_dwell_time,
                uplink_dwell_time,
                max_eirp,
            } => {
                let d: u32 = if downlink_dwell_time {
                    32
                } else {
                    0
                };
                let u: u32 = if uplink_dwell_time {
                    16
                } else {
                    0
                };
                out.push(0x09);
                out.push((d + u + max_eirp as u32) as u8);
            },
            DownlinkMacCommand::DlChannelReq { channel_index, frequency } => {
                out.push(0x0a);
                out.push(channel_index);
                push_le(out, frequency, 3);
            },
            DownlinkMacCommand::DeviceTimeAns { seconds, fractional } => {
                out.push(0x0d);
                push_le(out, seconds, 4);
                out.push(fractional);
            },
        }
        assert(out@ =~= start + self.encoded());
    }
}

fn ack_bits(a: bool, b: bool, c: bool) -> (r: u8)
    ensures
        r == ack_byte(a, b, c),
{
    let x: u8 = if a {
        1
    } else {
        0
    };
    let y: u8 = if b {
        2
    } else {
        0
    };
    let z: u8 = if c {
        4
    } else {
        0
    };
    x + y + z
}

impl SerializableMacCommand for UplinkMacCommand {
    open spec fn wire(&self) -> Seq<u8> {
        self.encoded()
    }

    fn wire_len(&self) -> (r: usize) {
        match self {
            UplinkMacCommand::LinkADRAns { .. } => 2,
            UplinkMacCommand::RXParamSetupAns { .. } => 2,
            UplinkMacCommand::DevStatusAns { .. } => 3,
            UplinkMacCommand::NewChannelAns { .. } => 2,
            UplinkMacCommand::DlChannelAns { .. } => 2,
            _ => 1,
        }
    }

    fn write_to(&self, out: &mut Vec<u8>) {
        let ghost start = out@;
        match *self {
            UplinkMacCommand::LinkCheckReq => {
                out.push(0x02);
            },
            UplinkMacCommand::LinkADRAns { channel_mask_ack, data_rate_ack, tx_power_ack } => {
                out.push(0x03);
                out.push(ack_bits(channel_mask_ack, data_rate_ack, tx_power_ack));
            },
            UplinkMacCommand::DutyCycleAns => {
                out.push(0x04);
            },
            UplinkMacCommand::RXParamSetupAns {
                channel_ack,
                rx2_data_rate_ack,
                rx1_data_rate_offset_ack,
            } => {
                out.push(0x05);
                out.push(ack_bits(channel_ack, rx2_data_rate_ack, rx1_data_rate_offset_ack));
            },
            UplinkMacCommand::DevStatusAns { battery, margin } => {
                out.push(0x06);
                out.push(battery);
                let m: i16 = if margin < 0 {
                    margin as i16 + 64
                } else {
                    margin as i16
                };
                out.push(m as u8);
            },
            UplinkMacCommand::NewChannelAns { channel_frequency_ack, data_rate_range_ack } => {
                out.push(0x07);
                out.push(ack_bits(channel_frequency_ack, data_rate_range_ack, false));
            },
            UplinkMacCommand::RXTimingSetupAns => {
                out.push(0x08);
            },
            UplinkMacCommand::TXParamSetupAns => {
                out.push(0x09);
            },
            UplinkMacCommand::DlChannelAns { channel_frequency_ack, uplink_frequency_exists_ack } => {
                out.push(0x0a);
                out.push(ack_bits(channel_frequency_ack, uplink_frequency_exists_ack, false));
            },
            UplinkMacCommand::DeviceTimeReq => {
                out.push(0x0d);
            },
        }
        assert(out@ =~= start + self.encoded());
    }
}

/// A run of commands on the wire is the first command followed by the rest.
proof fn lemma_wire_all_front<C: SerializableMacCommand>(cmds: Seq<C>)
    requires
        cmds.len() > 0,
    ensures
        wire_all(cmds) == cmds[0].wire() + wire_all(cmds.subrange(1, cmds.len() as int)),
    decreases cmds.len(),
{
    if cmds.len() == 1 {
        assert(cmds.drop_last() =~= Seq::<C>::empty());
        assert(cmds.subrange(1, 1) =~= Seq::<C>::empty());
        assert(wire_all(cmds) =~= cmds[0].wire() + wire_all(cmds.subrange(1, 1)));
    } else {
        let init = cmds.drop_last();
        lemma_wire_all_front(init);
        let tail = cmds.subrange(1, cmds.len() as int);
        assert(tail.drop_last() =~= init.subrange(1, init.len() as int));
        assert(tail.last() == cmds.last());
        assert(wire_all(cmds) =~= cmds[0].wire() + wire_all(tail));
    }
}

proof fn lemma_downlink_decode_front(c: DownlinkMacCommand, rest: Seq<u8>)
    requires
        c.valid(),
    ensures
        decode_downlink_all(c.encoded() + rest) == match decode_downlink_all(rest) {
            Ok(r) => Ok(seq![c] + r),
            Err(e) => Err::<Seq<DownlinkMacCommand>, Error>(e),
        },
{
    lemma_downlink_decode_encode(c);
    let e = c.encoded();
    let b = e + rest;
    assert(b[0] == e[0]);
    assert(b.subrange(0, e.len() as int) =~= e);
    assert(b.subrange(e.len() as int, b.len() as int) =~= rest);
}

proof fn lemma_uplink_decode_front(c: UplinkMacCommand, rest: Seq<u8>)
    requires
        c.valid(),
    ensures
        decode_uplink_all(c.encoded() + rest) == match decode_uplink_all(rest) {
            Ok(r) => Ok(seq![c] + r),
            Err(e) => Err::<Seq<UplinkMacCommand>, Error>(e),
        },
{
    lemma_uplink_decode_encode(c);
    let e = c.encoded();
    let b = e + rest;
    assert(b[0] == e[0]);
    assert(b.subrange(0, e.len() as int) =~= e);
    assert(b.subrange(e.len() as int, b.len() as int) =~= rest);
}

/// A run of downlink commands whose fields are in range, written one after
/// the other, reads back as the same run.
pub proof fn lemma_downlink_run_round_trip(cmds: Seq<DownlinkMacCommand>)
    requires
        forall|i: int| 0 <= i < cmds.len() ==> #[trigger] cmds[i].valid(),
    ensures
        decode_downlink_all(wire_all(cmds)) == Ok::<Seq<DownlinkMacCommand>, Error>(cmds),
    decreases cmds.len(),
{
    if cmds.len() == 0 {
        assert(decode_downlink_all(wire_all(cmds)) == Ok::<Seq<DownlinkMacCommand>, Error>(
            seq![],
        ));
        assert(cmds =~= seq![]);
    } else {
        let tail = cmds.subrange(1, cmds.len() as int);
        assert(forall|i: int| 0 <= i < tail.len() ==> #[trigger] tail[i] == cmds[i + 1]);
        lemma_downlink_run_round_trip(tail);
        lemma_wire_all_front(cmds);
        assert(cmds[0].valid());
        lemma_downlink_decode_front(cmds[0], wire_all(tail));
        assert(seq![cmds[0]] + tail =~= cmds);
    }
}

/// A run of uplink commands whose fields are in range, written one after the
/// other, reads back as the same run.
pub proof fn lemma_uplink_run_round_trip(cmds: Seq<UplinkMacCommand>)
    requires
        forall|i: int| 0 <= i < cmds.len() ==> #[trigger] cmds[i].valid(),
    ensures
        decode_uplink_all(wire_all(cmds)) == Ok::<Seq<UplinkMacCommand>, Error>(cmds),
    decreases cmds.len(),
{
    if cmds.len() == 0 {
        assert(decode_uplink_all(wire_all(cmds)) == Ok::<Seq<UplinkMacCommand>, Error>(seq![]));
        assert(cmds =~= seq![]);
    } else {
        let tail = cmds.subrange(1, cmds.len() as int);
        assert(forall|i: int| 0 <= i < tail.len() ==> #[trigger] tail[i] == cmds[i + 1]);
        lemma_uplink_run_round_trip(tail);
        lemma_wire_all_front(cmds);
        assert(cmds[0].valid());
        lemma_uplink_decode_front(cmds[0], wire_all(tail));
        assert(seq![cmds[0]] + tail =~= cmds);
    }
}

/// Bytes that read back as a run of downlink commands are exactly that run
/// written out.
pub proof fn lemma_downlink_run_encode_decode(b: Seq<u8>)
    requires
        decode_downlink_all(b) is Ok,
    ensures
        wire_all(decode_downlink_all(b)->Ok_0) == b,
    decreases b.len(),
{
    if b.len() == 0 {
        assert(wire_all(decode_downlink_all(b)->Ok_0) =~= b);
    } else {
        let n = downlink_payload_len(b[0])->0;
        let head = b.subrange(0, 1 + n as int);
        let rest = b.subrange(1 + n as int, b.len() as int);
        let c = decode_downlink(head)->0;
        lemma_downlink_encode_decode(head);
        lemma_downlink_run_encode_decode(rest);
        let cmds = decode_downlink_all(b)->Ok_0;
        assert(cmds == seq![c] + decode_downlink_all(rest)->Ok_0);
        lemma_wire_all_front(cmds);
        assert(cmds.subrange(1, cmds.len() as int) =~= decode_downlink_all(rest)->Ok_0);
        assert(head + rest =~= b);
    }
}

/// Bytes that read back as a run of uplink commands are exactly that run
/// written out.
pub proof fn lemma_uplink_run_encode_decode(b: Seq<u8>)
    requires
        decode_uplink_all(b) is Ok,
    ensures
        wire_all(decode_uplink_all(b)->Ok_0) == b,
    decreases b.len(),
{
    if b.len() == 0 {
        assert(wire_all(decode_uplink_all(b)->Ok_0) =~= b);
    } else {
        let n = uplink_payload_len(b[0])->0;
        let head = b.subrange(0, 1 + n as int);
        let rest = b.subrange(1 + n as int, b.len() as int);
        let c = decode_uplink(head)->0;
        lemma_uplink_encode_decode(head);
        lemma_uplink_run_encode_decode(rest);
        let cmds = decode_uplink_all(b)->Ok_0;
        assert(cmds == seq![c] + decode_uplink_all(rest)->Ok_0);
        lemma_wire_all_front(cmds);
        assert(cmds.subrange(1, cmds.len() as int) =~= decode_uplink_all(rest)->Ok_0);
        assert(head + rest =~= b);
    }
}

} // verus!
