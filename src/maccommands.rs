//! Builders for the MAC commands, and the writer that puts a run of them
//! into a buffer.
use vstd::prelude::*;

use crate::bits::{bit, with_bit, with_high_nibble, with_low_nibble};
use crate::codec::{le_bytes, wire_all, SerializableMacCommand};

verus! {

/// What can go wrong while building or reading MAC commands.
#[derive(Debug, Clone, Copy, PartialEq, Eq, Structural)]
pub enum Error {
    InvalidDataRate,
    InvalidTxPower,
    MarginOutOfRange,
    DelayOutOfRange,
    MaxEirpOutOfRange,
    NanoSecondsOutOfRange,
    BufferTooShort,
    InvalidIndex,
    DutyCycleOutOfRange,
    UnknownMacCommand,
    ReservedBitsSet,
}

/// Writes the commands one after the other into `out`, each as its identifier
/// followed by its payload, and returns the number of bytes written. When the
/// whole does not fit, nothing is written.
pub fn build_mac_commands<C: SerializableMacCommand>(cmds: &[C], out: &mut [u8]) -> (r: Result<
    usize,
    Error,
>)
    ensures
        final(out)@.len() == old(out)@.len(),
        wire_all(cmds@).len() > old(out)@.len() <==> r is Err,
        r is Err ==> r->Err_0 == Error::BufferTooShort && final(out)@ == old(out)@,
        r is Ok ==> r->Ok_0 == wire_all(cmds@).len() && final(out)@ == wire_all(cmds@) + old(
            out,
        )@.subrange(r->Ok_0 as int, old(out)@.len() as int),
{
    // the whole length first, so that nothing is written when it does not fit
    let cap = out.len();
    let mut total: usize = 0;
    let mut k: usize = 0;
    while k < cmds.len()
        invariant
            k <= cmds@.len(),
            total <= cap,
            cap == old(out)@.len(),
            out@ == old(out)@,
            total == wire_all(cmds@.subrange(0, k as int)).len(),
        decreases cmds@.len() - k,
    {
        assert(cmds@.subrange(0, k + 1).drop_last() =~= cmds@.subrange(0, k as int));
        let n = cmds[k].wire_len();
        if n > cap - total {
            proof {
                assert(cmds@.subrange(0, k + 1).last() == cmds@[k as int]);
                assert(wire_all(cmds@.subrange(0, k + 1)).len() == total + n);
                lemma_wire_all_prefix_len(cmds@, k + 1);
            }
            return Err(Error::BufferTooShort);
        }
        total = total + n;
        k = k + 1;
    }
    assert(cmds@.subrange(0, cmds@.len() as int) =~= cmds@);
    let mut bytes: Vec<u8> = Vec::new();
    let mut k: usize = 0;
    while k < cmds.len()
        invariant
            k <= cmds@.len(),
            bytes@ == wire_all(cmds@.subrange(0, k as int)),
            total == wire_all(cmds@).len(),
            total <= old(out)@.len(),
            out@ == old(out)@,
        decreases cmds@.len() - k,
    {
        assert(cmds@.subrange(0, k + 1).drop_last() =~= cmds@.subrange(0, k as int));
        cmds[k].write_to(&mut bytes);
        k = k + 1;
    }
    let mut i: usize = 0;
    while i < bytes.len()
        invariant
            bytes@ == wire_all(cmds@),
            bytes@.len() <= old(out)@.len(),
            i <= bytes@.len(),
            out@.len() == old(out)@.len(),
            forall|j: int| 0 <= j < i ==> out@[j] == bytes@[j],
            forall|j: int| i <= j < out@.len() ==> out@[j] == old(out)@[j],
        decreases bytes@.len() - i,
    {
        out[i] = bytes[i];
        i = i + 1;
    }
    assert(out@ =~= bytes@ + old(out)@.subrange(i as int, old(out)@.len() as int));
    Ok(i)
}

/// A prefix of the commands is never longer on the wire than the whole.
proof fn lemma_wire_all_prefix_len<C: SerializableMacCommand>(cmds: Seq<C>, k: int)
    requires
        0 <= k <= cmds.len(),
    ensures
        wire_all(cmds.subrange(0, k)).len() <= wire_all(cmds).len(),
    decreases cmds.len() - k,
{
    if k < cmds.len() {
        lemma_wire_all_prefix_len(cmds, k + 1);
        assert(cmds.subrange(0, k + 1).drop_last() =~= cmds.subrange(0, k));
    } else {
        assert(cmds.subrange(0, k) =~= cmds);
    }
}

/// The 6-bit two's-complement byte that carries a margin from -32 to 31.
pub open spec fn margin_byte(margin: i8) -> u8 {
    (if margin < 0 { margin + 64 } else { margin as int }) as u8
}

/// Writes a margin from -32 to 31 as its 6-bit two's complement.
pub fn encode_margin(margin: i8) -> (r: u8)
    requires
        -32 <= margin <= 31,
    ensures
        r == margin_byte(margin),
        r < 64,
{
    if margin < 0 {
        (margin as i16 + 64) as u8
    } else {
        margin as u8
    }
}

/// Reads a 6-bit two's-complement margin back.
pub open spec fn margin_of(b: u8) -> i8 {
    (if b >= 32 { b - 64 } else { b as int }) as i8
}

/// Builds a LinkCheckReq, by which a device asks for its link margin.
pub struct LinkCheckReqCreator {
    pub data: [u8; 1],
}

impl LinkCheckReqCreator {
    pub fn new() -> (r: Self)
        ensures
            r.data@ == seq![0x02u8],
    {
        LinkCheckReqCreator { data: [0x02] }
    }

    /// The encoded command, identifier first.
    pub fn build(&self) -> (r: &[u8; 1])
        ensures
            r@ == self.data@,
    {
        &self.data
    }
}

/// Builds a LinkCheckAns: the link margin and the number of gateways that
/// received the LinkCheckReq.
pub struct LinkCheckAnsCreator {
    pub data: [u8; 3],
}

impl LinkCheckAnsCreator {
    pub fn new() -> (r: Self)
        ensures
            r.data@ == seq![0x02u8, 0u8, 0u8],
    {
        LinkCheckAnsCreator { data: [0x02, 0, 0] }
    }

    /// Sets the margin in dB above the demodulation floor (255 is reserved).
    pub fn set_margin(&mut self, margin: u8) -> (r: &mut Self)
        ensures
            r.data@ == old(self).data@.update(1, margin),
            *final(self) == *final(r),
    {
        self.data[1] = margin;
        self
    }

    /// Sets the number of gateways that received the LinkCheckReq.
    pub fn set_gateway_count(&mut self, gateway_count: u8) -> (r: &mut Self)
        ensures
            r.data@ == old(self).data@.update(2, gateway_count),
            *final(self) == *final(r),
    {
        self.data[2] = gateway_count;
        self
    }

    /// The encoded command, identifier first.
    pub fn build(&self) -> (r: &[u8; 3])
        ensures
            r@ == self.data@,
    {
        &self.data
    }
}

/// Builds a LinkADRReq: data rate, TX power, channel mask and redundancy.
pub struct LinkADRReqCreator {
    pub data: [u8; 5],
}

impl LinkADRReqCreator {
    pub fn new() -> (r: Self)
        ensures
            r.data@ == seq![0x03u8, 0u8, 0u8, 0u8, 0u8],
    {
        LinkADRReqCreator { data: [0x03, 0, 0, 0, 0] }
    }

    /// Sets the data rate index (0 to 15).
    pub fn set_data_rate(&mut self, data_rate: u8) -> (r: Result<&mut Self, Error>)
        ensures
            data_rate > 0x0f <==> r is Err,
            r is Err ==> r->Err_0 == Error::InvalidDataRate && *final(self) == *old(self),
            r is Ok ==> r->Ok_0.data@ == old(self).data@.update(1, r->Ok_0.data@[1]),
            r is Ok ==> r->Ok_0.data@[1] >> 4u8 == data_rate,
            r is Ok ==> r->Ok_0.data@[1] & 0x0f == old(self).data@[1] & 0x0f,
            r is Ok ==> *final(self) == *final(r->Ok_0),
    {
        if data_rate > 0x0f {
            return Err(Error::InvalidDataRate);
        }
        self.data[1] = with_high_nibble(self.data[1], data_rate);
        Ok(self)
    }

    /// Sets the TX power index (0 to 15).
    pub fn set_tx_power(&mut self, tx_power: u8) -> (r: Result<&mut Self, Error>)
        ensures
            tx_power > 0x0f <==> r is Err,
            r is Err ==> r->Err_0 == Error::InvalidTxPower && *final(self) == *old(self),
            r is Ok ==> r->Ok_0.data@ == old(self).data@.update(1, r->Ok_0.data@[1]),
            r is Ok ==> r->Ok_0.data@[1] & 0x0f == tx_power,
            r is Ok ==> r->Ok_0.data@[1] >> 4u8 == old(self).data@[1] >> 4u8,
            r is Ok ==> *final(self) == *final(r->Ok_0),
    {
        if tx_power > 0x0f {
            return Err(Error::InvalidTxPower);
        }
        self.data[1] = with_low_nibble(self.data[1], tx_power);
        Ok(self)
    }

    /// Sets the two channel mask bytes.
    pub fn set_channel_mask(&mut self, channel_mask: [u8; 2]) -> (r: &mut Self)
        ensures
            r.data@ == old(self).data@.update(2, channel_mask@[0]).update(3, channel_mask@[1]),
            *final(self) == *final(r),
    {
        self.data[2] = channel_mask[0];
        self.data[3] = channel_mask[1];
        self
    }

    /// Sets the redundancy byte (channel mask control and number of transmissions).
    pub fn set_redundancy(&mut self, redundancy: u8) -> (r: &mut Self)
        ensures
            r.data@ == old(self).data@.update(4, redundancy),
            *final(self) == *final(r),
    {
        self.data[4] = redundancy;
        self
    }

    /// The encoded command, identifier first.
    pub fn build(&self) -> (r: &[u8; 5])
        ensures
            r@ == self.data@,
    {
        &self.data
    }
}

/// Builds a LinkADRAns: one acknowledgement bit per part of the request.
pub struct LinkADRAnsCreator {
    pub data: [u8; 2],
}

impl LinkADRAnsCreator {
    pub fn new() -> (r: Self)
        ensures
            r.data@ == seq![0x03u8, 0u8],
    {
        LinkADRAnsCreator { data: [0x03, 0] }
    }

    /// Bit 0: the channel mask was acceptable.
    pub fn set_channel_mask_ack(&mut self, ack: bool) -> (r: &mut Self)
        ensures
            r.data@ == old(self).data@.update(1, r.data@[1]),
            bit(r.data@[1], 0) == ack,
            forall|j: u8| j < 8 && j != 0 ==> #[trigger] bit(r.data@[1], j) == bit(old(self).data@[1], j),
            *final(self) == *final(r),
    {
        self.data[1] = with_bit(self.data[1], 0, ack);
        self
    }

    /// Bit 1: the data rate was acceptable.
    pub fn set_data_rate_ack(&mut self, ack: bool) -> (r: &mut Self)
        ensures
            r.data@ == old(self).data@.update(1, r.data@[1]),
            bit(r.data@[1], 1) == ack,
            forall|j: u8| j < 8 && j != 1 ==> #[trigger] bit(r.data@[1], j) == bit(old(self).data@[1], j),
            *final(self) == *final(r),
    {
        self.data[1] = with_bit(self.data[1], 1, ack);
        self
    }

    /// Bit 2: the TX power was acceptable.
    pub fn set_tx_power_ack(&mut self, ack: bool) -> (r: &mut Self)
        ensures
            r.data@ == old(self).data@.update(1, r.data@[1]),
            bit(r.data@[1], 2) == ack,
            forall|j: u8| j < 8 && j != 2 ==> #[trigger] bit(r.data@[1], j) == bit(old(self).data@[1], j),
            *final(self) == *final(r),
    {
        self.data[1] = with_bit(self.data[1], 2, ack);
        self
    }

    /// The encoded command, identifier first.
    pub fn build(&self) -> (r: &[u8; 2])
        ensures
            r@ == self.data@,
    {
        &self.data
    }
}

/// Builds a DutyCycleReq: the aggregated duty cycle is `1 / 2^max_duty_cycle`.
pub struct DutyCycleReqCreator {
    pub data: [u8; 2],
}

impl DutyCycleReqCreator {
    pub fn new() -> (r: Self)
        ensures
            r.data@ == seq![0x04u8, 0u8],
    {
        DutyCycleReqCreator { data: [0x04, 0] }
    }

    /// Sets the duty-cycle exponent (0 to 15); the reserved high bits of the
    /// byte are cleared.
    pub fn set_max_duty_cycle(&mut self, max_duty_cycle: u8) -> (r: Result<&mut Self, Error>)
        ensures
            max_duty_cycle > 0x0f <==> r is Err,
            r is Err ==> r->Err_0 == Error::DutyCycleOutOfRange && *final(self) == *old(self),
            r is Ok ==> r->Ok_0.data@ == old(self).data@.update(1, max_duty_cycle),
            r is Ok ==> *final(self) == *final(r->Ok_0),
    {
        if max_duty_cycle > 0x0f {
            return Err(Error::DutyCycleOutOfRange);
        }
        self.data[1] = max_duty_cycle;
        Ok(self)
    }

    /// The encoded command, identifier first.
    pub fn build(&self) -> (r: &[u8; 2])
        ensures
            r@ == self.data@,
    {
        &self.data
    }
}

/// Builds a DutyCycleAns.
pub struct DutyCycleAnsCreator {
    pub data: [u8; 1],
}

impl DutyCycleAnsCreator {
    pub fn new() -> (r: Self)
        ensures
            r.data@ == seq![0x04u8],
    {
        DutyCycleAnsCreator { data: [0x04] }
    }

    /// The encoded command, identifier first.
    pub fn build(&self) -> (r: &[u8; 1])
        ensures
            r@ == self.data@,
    {
        &self.data
    }
}

/// Builds a RXParamSetupReq: downlink settings and the RX2 frequency.
pub struct RXParamSetupReqCreator {
    pub data: [u8; 5],
}

impl RXParamSetupReqCreator {
    pub fn new() -> (r: Self)
        ensures
            r.data@ == seq![0x05u8, 0u8, 0u8, 0u8, 0u8],
    {
        RXParamSetupReqCreator { data: [0x05, 0, 0, 0, 0] }
    }

    /// Sets the downlink settings byte (RX1 data rate offset and RX2 data rate).
    pub fn set_dl_settings(&mut self, dl_settings: u8) -> (r: &mut Self)
        ensures
            r.data@ == old(self).data@.update(1, dl_settings),
            *final(self) == *final(r),
    {
        self.data[1] = dl_settings;
        self
    }

    /// Sets the RX2 frequency: three bytes, little-endian, in units of 100 Hz.
    pub fn set_frequency(&mut self, frequency: &[u8; 3]) -> (r: &mut Self)
        ensures
            r.data@ == old(self).data@.update(2, frequency@[0]).update(3, frequency@[1]).update(
                4,
                frequency@[2],
            ),
            *final(self) == *final(r),
    {
        self.data[2] = frequency[0];
        self.data[3] = frequency[1];
        self.data[4] = frequency[2];
        self
    }

    /// The encoded command, identifier first.
    pub fn build(&self) -> (r: &[u8; 5])
        ensures
            r@ == self.data@,
    {
        &self.data
    }
}

/// Builds a RXParamSetupAns: one acknowledgement bit per part of the request.
pub struct RXParamSetupAnsCreator {
    pub data: [u8; 2],
}

impl RXParamSetupAnsCreator {
    pub fn new() -> (r: Self)
        ensures
            r.data@ == seq![0x05u8, 0u8],
    {
        RXParamSetupAnsCreator { data: [0x05, 0] }
    }

    /// Bit 0: the channel was acceptable.
    pub fn set_channel_ack(&mut self, ack: bool) -> (r: &mut Self)
        ensures
            r.data@ == old(self).data@.update(1, r.data@[1]),
            bit(r.data@[1], 0) == ack,
            forall|j: u8| j < 8 && j != 0 ==> #[trigger] bit(r.data@[1], j) == bit(old(self).data@[1], j),
            *final(self) == *final(r),
    {
        self.data[1] = with_bit(self.data[1], 0, ack);
        self
    }

    /// Bit 1: the RX2 data rate was acceptable.
    pub fn set_rx2_data_rate_ack(&mut self, ack: bool) -> (r: &mut Self)
        ensures
            r.data@ == old(self).data@.update(1, r.data@[1]),
            bit(r.data@[1], 1) == ack,
            forall|j: u8| j < 8 && j != 1 ==> #[trigger] bit(r.data@[1], j) == bit(old(self).data@[1], j),
            *final(self) == *final(r),
    {
        self.data[1] = with_bit(self.data[1], 1, ack);
        self
    }

    /// Bit 2: the RX1 data rate offset was acceptable.
    pub fn set_rx1_data_rate_offset_ack(&mut self, ack: bool) -> (r: &mut Self)
        ensures
            r.data@ == old(self).data@.update(1, r.data@[1]),
            bit(r.data@[1], 2) == ack,
            forall|j: u8| j < 8 && j != 2 ==> #[trigger] bit(r.data@[1], j) == bit(old(self).data@[1], j),
            *final(self) == *final(r),
    {
        self.data[1] = with_bit(self.data[1], 2, ack);
        self
    }

    /// The encoded command, identifier first.
    pub fn build(&self) -> (r: &[u8; 2])
        ensures
            r@ == self.data@,
    {
        &self.data
    }
}

/// Builds a DevStatusReq.
pub struct DevStatusReqCreator {
    pub data: [u8; 1],
}

impl DevStatusReqCreator {
    pub fn new() -> (r: Self)
        ensures
            r.data@ == seq![0x06u8],
    {
        DevStatusReqCreator { data: [0x06] }
    }

    /// The encoded command, identifier first.
    pub fn build(&self) -> (r: &[u8; 1])
        ensures
            r@ == self.data@,
    {
        &self.data
    }
}

/// Builds a DevStatusAns: battery level and demodulation margin.
pub struct DevStatusAnsCreator {
    pub data: [u8; 3],
}

impl DevStatusAnsCreator {
    pub fn new() -> (r: Self)
        ensures
            r.data@ == seq![0x06u8, 0u8, 0u8],
    {
        DevStatusAnsCreator { data: [0x06, 0, 0] }
    }

    /// Sets the battery level: 0 external power, 1 to 254 the level, 255 unknown.
    pub fn set_battery(&mut self, battery: u8) -> (r: &mut Self)
        ensures
            r.data@ == old(self).data@.update(1, battery),
            *final(self) == *final(r),
    {
        self.data[1] = battery;
        self
    }

    /// Sets the demodulation margin, a signed 6-bit value from -32 to 31.
    pub fn set_margin(&mut self, margin: i8) -> (r: Result<&mut Self, Error>)
        ensures
            !(-32 <= margin <= 31) <==> r is Err,
            r is Err ==> r->Err_0 == Error::MarginOutOfRange && *final(self) == *old(self),
            r is Ok ==> r->Ok_0.data@ == old(self).data@.update(2, margin_byte(margin)),
            r is Ok ==> *final(self) == *final(r->Ok_0),
    {
        if margin < -32 || margin > 31 {
            return Err(Error::MarginOutOfRange);
        }
        self.data[2] = encode_margin(margin);
        Ok(self)
    }

    /// The encoded command, identifier first.
    pub fn build(&self) -> (r: &[u8; 3])
        ensures
            r@ == self.data@,
    {
        &self.data
    }
}

/// Builds a NewChannelReq: channel index, frequency and data rate range.
pub struct NewChannelReqCreator {
    pub data: [u8; 6],
}

impl NewChannelReqCreator {
    pub fn new() -> (r: Self)
        ensures
            r.data@ == seq![0x07u8, 0u8, 0u8, 0u8, 0u8, 0u8],
    {
        NewChannelReqCreator { data: [0x07, 0, 0, 0, 0, 0] }
    }

    /// Sets the index of the channel to create or change.
    pub fn set_channel_index(&mut self, channel_index: u8) -> (r: &mut Self)
        ensures
            r.data@ == old(self).data@.update(1, channel_index),
            *final(self) == *final(r),
    {
        self.data[1] = channel_index;
        self
    }

    /// Sets the channel frequency: three bytes, little-endian, in units of 100 Hz.
    pub fn set_frequency(&mut self, frequency: &[u8; 3]) -> (r: &mut Self)
        ensures
            r.data@ == old(self).data@.update(2, frequency@[0]).update(3, frequency@[1]).update(
                4,
                frequency@[2],
            ),
            *final(self) == *final(r),
    {
        self.data[2] = frequency[0];
        self.data[3] = frequency[1];
        self.data[4] = frequency[2];
        self
    }

    /// Sets the data rate range byte (maximum in the high nibble, minimum in the low one).
    pub fn set_data_rate_range(&mut self, data_rate_range: u8) -> (r: &mut Self)
        ensures
            r.data@ == old(self).data@.update(5, data_rate_range),
            *final(self) == *final(r),
    {
        self.data[5] = data_rate_range;
        self
    }

    /// The encoded command, identifier first.
    pub fn build(&self) -> (r: &[u8; 6])
        ensures
            r@ == self.data@,
    {
        &self.data
    }
}

/// Builds a NewChannelAns: one acknowledgement bit per part of the request.
pub struct NewChannelAnsCreator {
    pub data: [u8; 2],
}

impl NewChannelAnsCreator {
    pub fn new() -> (r: Self)
        ensures
            r.data@ == seq![0x07u8, 0u8],
    {
        NewChannelAnsCreator { data: [0x07, 0] }
    }

    /// Bit 0: the frequency was acceptable.
    pub fn set_channel_frequency_ack(&mut self, ack: bool) -> (r: &mut Self)
        ensures
            r.data@ == old(self).data@.update(1, r.data@[1]),
            bit(r.data@[1], 0) == ack,
            forall|j: u8| j < 8 && j != 0 ==> #[trigger] bit(r.data@[1], j) == bit(old(self).data@[1], j),
            *final(self) == *final(r),
    {
        self.data[1] = with_bit(self.data[1], 0, ack);
        self
    }

    /// Bit 1: the data rate range was acceptable.
    pub fn set_data_rate_range_ack(&mut self, ack: bool) -> (r: &mut Self)
        ensures
            r.data@ == old(self).data@.update(1, r.data@[1]),
            bit(r.data@[1], 1) == ack,
            forall|j: u8| j < 8 && j != 1 ==> #[trigger] bit(r.data@[1], j) == bit(old(self).data@[1], j),
            *final(self) == *final(r),
    {
        self.data[1] = with_bit(self.data[1], 1, ack);
        self
    }

    /// The encoded command, identifier first.
    pub fn build(&self) -> (r: &[u8; 2])
        ensures
            r@ == self.data@,
    {
        &self.data
    }
}

/// Builds a RXTimingSetupReq: the delay before the first receive window.
pub struct RXTimingSetupReqCreator {
    pub data: [u8; 2],
}

impl RXTimingSetupReqCreator {
    pub fn new() -> (r: Self)
        ensures
            r.data@ == seq![0x08u8, 0u8],
    {
        RXTimingSetupReqCreator { data: [0x08, 0] }
    }

    /// Sets the delay in seconds (0 to 15, where 0 means 1), keeping the
    /// other bits of the byte.
    pub fn set_delay(&mut self, delay: u8) -> (r: Result<&mut Self, Error>)
        ensures
            delay > 0x0f <==> r is Err,
            r is Err ==> r->Err_0 == Error::DelayOutOfRange && *final(self) == *old(self),
            r is Ok ==> r->Ok_0.data@ == old(self).data@.update(1, r->Ok_0.data@[1]),
            r is Ok ==> r->Ok_0.data@[1] & 0x0f == delay,
            r is Ok ==> r->Ok_0.data@[1] >> 4u8 == old(self).data@[1] >> 4u8,
            r is Ok ==> *final(self) == *final(r->Ok_0),
    {
        if delay > 0x0f {
            return Err(Error::DelayOutOfRange);
        }
        self.data[1] = with_low_nibble(self.data[1], delay);
        Ok(self)
    }

    /// The encoded command, identifier first.
    pub fn build(&self) -> (r: &[u8; 2])
        ensures
            r@ == self.data@,
    {
        &self.data
    }
}

/// Builds a RXTimingSetupAns.
pub struct RXTimingSetupAnsCreator {
    pub data: [u8; 1],
}

impl RXTimingSetupAnsCreator {
    pub fn new() -> (r: Self)
        ensures
            r.data@ == seq![0x08u8],
    {
        RXTimingSetupAnsCreator { data: [0x08] }
    }

    /// The encoded command, identifier first.
    pub fn build(&self) -> (r: &[u8; 1])
        ensures
            r@ == self.data@,
    {
        &self.data
    }
}

/// Builds a TXParamSetupReq: dwell-time limits and the maximum EIRP index.
pub struct TXParamSetupReqCreator {
    pub data: [u8; 2],
}

impl TXParamSetupReqCreator {
    pub fn new() -> (r: Self)
        ensures
            r.data@ == seq![0x09u8, 0u8],
    {
        TXParamSetupReqCreator { data: [0x09, 0] }
    }

    /// Sets bit 5: downlink dwell time is limited.
    pub fn set_downlink_dwell_time(&mut self) -> (r: &mut Self)
        ensures
            r.data@ == old(self).data@.update(1, r.data@[1]),
            bit(r.data@[1], 5),
            forall|j: u8| j < 8 && j != 5 ==> #[trigger] bit(r.data@[1], j) == bit(old(self).data@[1], j),
            *final(self) == *final(r),
    {
        self.data[1] = with_bit(self.data[1], 5, true);
        self
    }

    /// Sets bit 4: uplink dwell time is limited.
    pub fn set_uplink_dwell_time(&mut self) -> (r: &mut Self)
        ensures
            r.data@ == old(self).data@.update(1, r.data@[1]),
            bit(r.data@[1], 4),
            forall|j: u8| j < 8 && j != 4 ==> #[trigger] bit(r.data@[1], j) == bit(old(self).data@[1], j),
            *final(self) == *final(r),
    {
        self.data[1] = with_bit(self.data[1], 4, true);
        self
    }

    /// Sets the maximum EIRP index (0 to 15).
    pub fn set_max_eirp(&mut self, max_eirp: u8) -> (r: Result<&mut Self, Error>)
        ensures
            max_eirp > 0x0f <==> r is Err,
            r is Err ==> r->Err_0 == Error::MaxEirpOutOfRange && *final(self) == *old(self),
            r is Ok ==> r->Ok_0.data@ == old(self).data@.update(1, r->Ok_0.data@[1]),
            r is Ok ==> r->Ok_0.data@[1] & 0x0f == max_eirp,
            r is Ok ==> r->Ok_0.data@[1] >> 4u8 == old(self).data@[1] >> 4u8,
            r is Ok ==> *final(self) == *final(r->Ok_0),
    {
        if max_eirp > 0x0f {
            return Err(Error::MaxEirpOutOfRange);
        }
        self.data[1] = with_low_nibble(self.data[1], max_eirp);
        Ok(self)
    }

    /// The encoded command, identifier first.
    pub fn build(&self) -> (r: &[u8; 2])
        ensures
            r@ == self.data@,
    {
        &self.data
    }
}

/// Builds a TXParamSetupAns.
pub struct TXParamSetupAnsCreator {
    pub data: [u8; 1],
}

impl TXParamSetupAnsCreator {
    pub fn new() -> (r: Self)
        ensures
            r.data@ == seq![0x09u8],
    {
        TXParamSetupAnsCreator { data: [0x09] }
    }

    /// The encoded command, identifier first.
    pub fn build(&self) -> (r: &[u8; 1])
        ensures
            r@ == self.data@,
    {
        &self.data
    }
}

/// Builds a DlChannelReq: a downlink frequency for an existing channel.
pub struct DlChannelReqCreator {
    pub data: [u8; 5],
}

impl DlChannelReqCreator {
    pub fn new() -> (r: Self)
        ensures
            r.data@ == seq![0x0au8, 0u8, 0u8, 0u8, 0u8],
    {
        DlChannelReqCreator { data: [0x0a, 0, 0, 0, 0] }
    }

    /// Sets the index of the channel.
    pub fn set_channel_index(&mut self, index: u8) -> (r: &mut Self)
        ensures
            r.data@ == old(self).data@.update(1, index),
            *final(self) == *final(r),
    {
        self.data[1] = index;
        self
    }

    /// Sets the downlink frequency: three bytes, little-endian, in units of 100 Hz.
    pub fn set_frequency(&mut self, frequency: &[u8; 3]) -> (r: &mut Self)
        ensures
            r.data@ == old(self).data@.update(2, frequency@[0]).update(3, frequency@[1]).update(
                4,
                frequency@[2],
            ),
            *final(self) == *final(r),
    {
        self.data[2] = frequency[0];
        self.data[3] = frequency[1];
        self.data[4] = frequency[2];
        self
    }

    /// The encoded command, identifier first.
    pub fn build(&self) -> (r: &[u8; 5])
        ensures
            r@ == self.data@,
    {
        &self.data
    }
}

/// Builds a DlChannelAns: one acknowledgement bit per part of the request.
pub struct DlChannelAnsCreator {
    pub data: [u8; 2],
}

impl DlChannelAnsCreator {
    pub fn new() -> (r: Self)
        ensures
            r.data@ == seq![0x0au8, 0u8],
    {
        DlChannelAnsCreator { data: [0x0a, 0] }
    }

    /// Bit 0: the downlink frequency was acceptable.
    pub fn set_channel_frequency_ack(&mut self, ack: bool) -> (r: &mut Self)
        ensures
            r.data@ == old(self).data@.update(1, r.data@[1]),
            bit(r.data@[1], 0) == ack,
            forall|j: u8| j < 8 && j != 0 ==> #[trigger] bit(r.data@[1], j) == bit(old(self).data@[1], j),
            *final(self) == *final(r),
    {
        self.data[1] = with_bit(self.data[1], 0, ack);
        self
    }

    /// Bit 1: the channel has an uplink frequency.
    pub fn set_uplink_frequency_exists_ack(&mut self, ack: bool) -> (r: &mut Self)
        ensures
            r.data@ == old(self).data@.update(1, r.data@[1]),
            bit(r.data@[1], 1) == ack,
            forall|j: u8| j < 8 && j != 1 ==> #[trigger] bit(r.data@[1], j) == bit(old(self).data@[1], j),
            *final(self) == *final(r),
    {
        self.data[1] = with_bit(self.data[1], 1, ack);
        self
    }

    /// The encoded command, identifier first.
    pub fn build(&self) -> (r: &[u8; 2])
        ensures
            r@ == self.data@,
    {
        &self.data
    }
}

/// Builds a DeviceTimeReq.
pub struct DeviceTimeReqCreator {
    pub data: [u8; 1],
}

impl DeviceTimeReqCreator {
    pub fn new() -> (r: Self)
        ensures
            r.data@ == seq![0x0du8],
    {
        DeviceTimeReqCreator { data: [0x0d] }
    }

    /// The encoded command, identifier first.
    pub fn build(&self) -> (r: &[u8; 1])
        ensures
            r@ == self.data@,
    {
        &self.data
    }
}

/// Builds a DeviceTimeAns: network time as seconds and a fraction.
pub struct DeviceTimeAnsCreator {
    pub data: [u8; 6],
}

impl DeviceTimeAnsCreator {
    pub fn new() -> (r: Self)
        ensures
            r.data@ == seq![0x0du8, 0u8, 0u8, 0u8, 0u8, 0u8],
    {
        DeviceTimeAnsCreator { data: [0x0d, 0, 0, 0, 0, 0] }
    }

    /// Sets the whole seconds since the GPS epoch, little-endian.
    pub fn set_seconds(&mut self, seconds: u32) -> (r: &mut Self)
        ensures
            r.data@ == old(self).data@.update(1, seconds as u8).update(2, (seconds >> 8u32) as u8).update(
                3,
                (seconds >> 16u32) as u8,
            ).update(4, (seconds >> 24u32) as u8),
            r.data@.subrange(1, 5) == le_bytes(seconds as nat, 4),
            *final(self) == *final(r),
    {
        let b0 = seconds as u8;
        let b1 = (seconds >> 8u32) as u8;
        let b2 = (seconds >> 16u32) as u8;
        let b3 = (seconds >> 24u32) as u8;
        assert(b0 == seconds % 256 && b1 == (seconds / 256) % 256 && b2 == (seconds / 65536) % 256
            && b3 == (seconds / 16777216) % 256) by (bit_vector)
            requires
                b0 == seconds as u8,
                b1 == (seconds >> 8u32) as u8,
                b2 == (seconds >> 16u32) as u8,
                b3 == (seconds >> 24u32) as u8,
        ;
        assert(seconds as nat / 256 / 256 == seconds as nat / 65536) by (nonlinear_arith);
        assert(seconds as nat / 256 / 256 / 256 == seconds as nat / 16777216) by (nonlinear_arith);
        self.data[1] = b0;
        self.data[2] = b1;
        self.data[3] = b2;
        self.data[4] = b3;
        proof {
            reveal_with_fuel(le_bytes, 5);
        }
        assert(self.data@.subrange(1, 5) =~= le_bytes(seconds as nat, 4));
        self
    }

    /// Sets the fractional second, given in nanoseconds, in steps of 1/256 s.
    pub fn set_nano_seconds(&mut self, nano_seconds: u32) -> (r: Result<&mut Self, Error>)
        ensures
            nano_seconds >= 1_000_000_000 <==> r is Err,
            r is Err ==> r->Err_0 == Error::NanoSecondsOutOfRange && *final(self) == *old(self),
            r is Ok ==> r->Ok_0.data@ == old(self).data@.update(5, (nano_seconds / 3906250) as u8),
            r is Ok ==> *final(self) == *final(r->Ok_0),
    {
        if nano_seconds >= 1_000_000_000 {
            return Err(Error::NanoSecondsOutOfRange);
        }
        self.data[5] = (nano_seconds / 3906250) as u8;
        Ok(self)
    }

    /// The encoded command, identifier first.
    pub fn build(&self) -> (r: &[u8; 6])
        ensures
            r@ == self.data@,
    {
        &self.data
    }
}

} // verus!
