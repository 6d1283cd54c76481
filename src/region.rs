//! Regional channel plans: data-rate tables, TX power, join channels, the
//! second receive window, and the channel state that MAC commands change.
use vstd::prelude::*;

use core::marker::PhantomData;

use crate::codec::UplinkMacCommand;
use crate::types::{channel_bit, ChannelMask};

verus! {

/// Number of entries of a region's data-rate table (DR0 to DR14).
pub const NUM_DATARATES: u8 = 15;

/// Number of channels a dynamic plan can hold.
pub const NUM_CHANNELS: usize = 16;

#[allow(non_camel_case_types)]
#[derive(Debug, Clone, Copy, PartialEq, Eq, Structural)]
pub enum SpreadingFactor {
    _7,
    _8,
    _9,
    _10,
    _11,
    _12,
}

#[allow(non_camel_case_types)]
#[derive(Debug, Clone, Copy, PartialEq, Eq, Structural)]
pub enum Bandwidth {
    _125KHz,
    _250KHz,
    _500KHz,
}

/// One entry of a data-rate table.
#[derive(Debug, Clone, Copy, PartialEq, Eq, Structural)]
pub struct Datarate {
    pub spreading_factor: SpreadingFactor,
    pub bandwidth: Bandwidth,
    pub max_mac_payload_size: u8,
    pub max_mac_payload_size_with_dwell_time: u8,
}

pub open spec fn lora(sf: SpreadingFactor, bw: Bandwidth, max: u8, dwell: u8) -> Datarate {
    Datarate {
        spreading_factor: sf,
        bandwidth: bw,
        max_mac_payload_size: max,
        max_mac_payload_size_with_dwell_time: dwell,
    }
}

/// What every region supplies: its data rates and its TX power steps.
pub trait ChannelRegion {
    /// The region's data-rate table; `None` where an index is reserved or
    /// not supported.
    spec fn datarate_table(index: u8) -> Option<Datarate>;

    /// The EIRP in dBm of each TX power index, `None` where it is not defined.
    spec fn eirp(pw: u8) -> Option<u8>;

    /// Looks up data rate `index`; an unsupported index gives `None`.
    fn datarate(index: u8) -> (r: Option<Datarate>)
        ensures
            r == Self::datarate_table(index),
            index >= NUM_DATARATES ==> r is None,
    ;

    /// The EIRP of TX power index `pw`; an undefined index is rejected.
    fn tx_power_adjust(pw: u8) -> (r: Option<u8>)
        ensures
            r == Self::eirp(pw),
    ;

    /// The whole table, DR0 first.
    fn datarates() -> (r: Vec<Option<Datarate>>)
        ensures
            r@.len() == NUM_DATARATES,
            forall|i: int| 0 <= i < NUM_DATARATES ==> #[trigger] r@[i] == Self::datarate_table(i as u8),
    {
        let mut table: Vec<Option<Datarate>> = Vec::new();
        let mut i: u8 = 0;
        while i < NUM_DATARATES
            invariant
                i <= NUM_DATARATES,
                table@.len() == i,
                forall|j: int| 0 <= j < i ==> #[trigger] table@[j] == Self::datarate_table(j as u8),
            decreases NUM_DATARATES - i,
        {
            table.push(Self::datarate(i));
            i = i + 1;
        }
        table
    }
}

/// A region whose channels, beyond the join channels, are learned from
/// NewChannelReq commands.
pub trait DynamicChannelRegion: ChannelRegion {
    /// The region's constants fit the arithmetic that derives its channels.
    spec fn params_ok() -> bool;

    spec fn join_channel_freqs() -> Seq<u32>;

    spec fn default_rx2() -> u32;

    /// The frequencies used while joining.
    fn join_channels() -> (r: Vec<u32>)
        requires
            Self::params_ok(),
        ensures
            r@ == Self::join_channel_freqs(),
            1 <= r@.len() <= 3,
    ;

    /// The second receive window's frequency before any RXParamSetupReq.
    fn get_default_rx2() -> (r: u32)
        ensures
            r == Self::default_rx2(),
    ;
}

/// TX power index 0 to 7 gives `max_eirp - 2 * index`.
pub open spec fn linear_eirp(max_eirp: u8, pw: u8) -> Option<u8> {
    if pw <= 7 {
        Some((max_eirp - 2 * pw) as u8)
    } else {
        None
    }
}

fn linear_tx_power(max_eirp: u8, pw: u8) -> (r: Option<u8>)
    requires
        max_eirp >= 14,
    ensures
        r == linear_eirp(max_eirp, pw),
{
    if pw <= 7 {
        Some(max_eirp - 2 * pw)
    } else {
        None
    }
}

/// Highest EIRP in dBm of the regions here, reached at TX power index 0.
pub const MAX_EIRP: u8 = 16;

/// EU863-870 (DR0 to DR5).
#[derive(Debug, Clone, Copy, Default)]
pub struct EU868Region;

pub open spec fn eu868_datarate(index: u8) -> Option<Datarate> {
    if index == 0 {
        Some(lora(SpreadingFactor::_12, Bandwidth::_125KHz, 59, 59))
    } else if index == 1 {
        Some(lora(SpreadingFactor::_11, Bandwidth::_125KHz, 59, 59))
    } else if index == 2 {
        Some(lora(SpreadingFactor::_10, Bandwidth::_125KHz, 59, 59))
    } else if index == 3 {
        Some(lora(SpreadingFactor::_9, Bandwidth::_125KHz, 123, 123))
    } else if index == 4 {
        Some(lora(SpreadingFactor::_8, Bandwidth::_125KHz, 250, 250))
    } else if index == 5 {
        Some(lora(SpreadingFactor::_7, Bandwidth::_125KHz, 250, 250))
    } else {
        None
    }
}

impl ChannelRegion for EU868Region {
    open spec fn datarate_table(index: u8) -> Option<Datarate> {
        eu868_datarate(index)
    }

    open spec fn eirp(pw: u8) -> Option<u8> {
        linear_eirp(MAX_EIRP, pw)
    }

    fn datarate(index: u8) -> (r: Option<Datarate>) {
        let (sf, bw, max, dwell) = if index == 0 {
            (SpreadingFactor::_12, Bandwidth::_125KHz, 59u8, 59u8)
        } else if index == 1 {
            (SpreadingFactor::_11, Bandwidth::_125KHz, 59, 59)
        } else if index == 2 {
            (SpreadingFactor::_10, Bandwidth::_125KHz, 59, 59)
        } else if index == 3 {
            (SpreadingFactor::_9, Bandwidth::_125KHz, 123, 123)
        } else if index == 4 {
            (SpreadingFactor::_8, Bandwidth::_125KHz, 250, 250)
        } else if index == 5 {
            (SpreadingFactor::_7, Bandwidth::_125KHz, 250, 250)
        } else {
            return None;
        };
        Some(
            Datarate {
                spreading_factor: sf,
                bandwidth: bw,
                max_mac_payload_size: max,
                max_mac_payload_size_with_dwell_time: dwell,
            },
        )
    }

    fn tx_power_adjust(pw: u8) -> (r: Option<u8>) {
        linear_tx_power(MAX_EIRP, pw)
    }
}

impl DynamicChannelRegion for EU868Region {
    open spec fn params_ok() -> bool {
        true
    }

    open spec fn join_channel_freqs() -> Seq<u32> {
        seq![868_100_000u32, 868_300_000u32, 868_500_000u32]
    }

    open spec fn default_rx2() -> u32 {
        869_525_000
    }

    fn join_channels() -> (r: Vec<u32>) {
        vec![868_100_000, 868_300_000, 868_500_000]
    }

    fn get_default_rx2() -> (r: u32) {
        869_525_000
    }
}

/// AS923 (DR0 to DR6). The four sub-bands share this table and differ only by
/// the RX2 default and by the offset added to the join channels.
#[derive(Debug, Clone, Copy, Default)]
pub struct AS923Region<const DEFAULT_RX2: u32, const OFFSET: u32>;

/// AS923-1.
pub type AS923_1 = DynamicChannelPlan<AS923Region<923_200_000, 0>>;

/// AS923-2.
pub type AS923_2 = DynamicChannelPlan<AS923Region<921_400_000, 1800000>>;

/// AS923-3.
pub type AS923_3 = DynamicChannelPlan<AS923Region<916_600_000, 6600000>>;

/// AS923-4.
pub type AS923_4 = DynamicChannelPlan<AS923Region<917_300_000, 5900000>>;

/// EU863-870.
pub type EU868 = DynamicChannelPlan<EU868Region>;

/// The AS923 join channel before the sub-band offset is added.
pub const AS923_JOIN_CHANNEL: u32 = 923_200_000;

pub open spec fn as923_datarate(index: u8) -> Option<Datarate> {
    if index == 0 {
        Some(lora(SpreadingFactor::_12, Bandwidth::_125KHz, 59, 0))
    } else if index == 1 {
        Some(lora(SpreadingFactor::_11, Bandwidth::_125KHz, 59, 0))
    } else if index == 2 {
        Some(lora(SpreadingFactor::_10, Bandwidth::_125KHz, 123, 19))
    } else if index == 3 {
        Some(lora(SpreadingFactor::_9, Bandwidth::_125KHz, 123, 61))
    } else if index == 4 {
        Some(lora(SpreadingFactor::_8, Bandwidth::_125KHz, 250, 133))
    } else if index == 5 {
        Some(lora(SpreadingFactor::_7, Bandwidth::_125KHz, 250, 250))
    } else if index == 6 {
        Some(lora(SpreadingFactor::_7, Bandwidth::_250KHz, 250, 250))
    } else {
        None
    }
}

impl<const DEFAULT_RX2: u32, const OFFSET: u32> ChannelRegion for AS923Region<DEFAULT_RX2, OFFSET> {
    open spec fn datarate_table(index: u8) -> Option<Datarate> {
        as923_datarate(index)
    }

    open spec fn eirp(pw: u8) -> Option<u8> {
        linear_eirp(MAX_EIRP, pw)
    }

    fn datarate(index: u8) -> (r: Option<Datarate>) {
        let (sf, bw, max, dwell) = if index == 0 {
            (SpreadingFactor::_12, Bandwidth::_125KHz, 59u8, 0u8)
        } else if index == 1 {
            (SpreadingFactor::_11, Bandwidth::_125KHz, 59, 0)
        } else if index == 2 {
            (SpreadingFactor::_10, Bandwidth::_125KHz, 123, 19)
        } else if index == 3 {
            (SpreadingFactor::_9, Bandwidth::_125KHz, 123, 61)
        } else if index == 4 {
            (SpreadingFactor::_8, Bandwidth::_125KHz, 250, 133)
        } else if index == 5 {
            (SpreadingFactor::_7, Bandwidth::_125KHz, 250, 250)
        } else if index == 6 {
            (SpreadingFactor::_7, Bandwidth::_250KHz, 250, 250)
        } else {
            return None;
        };
        Some(
            Datarate {
                spreading_factor: sf,
                bandwidth: bw,
                max_mac_payload_size: max,
                max_mac_payload_size_with_dwell_time: dwell,
            },
        )
    }

    fn tx_power_adjust(pw: u8) -> (r: Option<u8>) {
        linear_tx_power(MAX_EIRP, pw)
    }
}

impl<const DEFAULT_RX2: u32, const OFFSET: u32> DynamicChannelRegion for AS923Region<
    DEFAULT_RX2,
    OFFSET,
> {
    open spec fn params_ok() -> bool {
        AS923_JOIN_CHANNEL + OFFSET <= u32::MAX
    }

    open spec fn join_channel_freqs() -> Seq<u32> {
        seq![(AS923_JOIN_CHANNEL + OFFSET) as u32, (AS923_JOIN_CHANNEL + OFFSET) as u32]
    }

    open spec fn default_rx2() -> u32 {
        DEFAULT_RX2
    }

    fn join_channels() -> (r: Vec<u32>) {
        vec![AS923_JOIN_CHANNEL + OFFSET, AS923_JOIN_CHANNEL + OFFSET]
    }

    fn get_default_rx2() -> (r: u32) {
        DEFAULT_RX2
    }
}

fn as924_generic_freq_check(f: u32) -> (r: bool)
    ensures
        r == (915_000_000 <= f <= 928_000_000),
{
    915_000_000 <= f && f <= 928_000_000
}

fn as924_4_freq_check(f: u32) -> (r: bool)
    ensures
        r == (917_000_000 <= f <= 920_000_000),
{
    917_000_000 <= f && f <= 920_000_000
}

fn eu868_freq_check(f: u32) -> (r: bool)
    ensures
        r == (863_000_000 <= f <= 870_000_000),
{
    863_000_000 <= f && f <= 870_000_000
}

/// Which frequencies a plan accepts for new channels and for RX2.
#[derive(Debug, Clone, Copy, PartialEq, Eq, Structural)]
pub enum FrequencyCheck {
    AS923Generic,
    AS923Band4,
    EU868,
}

impl FrequencyCheck {
    pub open spec fn accepts(self, f: u32) -> bool {
        match self {
            FrequencyCheck::AS923Generic => 915_000_000 <= f <= 928_000_000,
            FrequencyCheck::AS923Band4 => 917_000_000 <= f <= 920_000_000,
            FrequencyCheck::EU868 => 863_000_000 <= f <= 870_000_000,
        }
    }

    pub fn check(&self, f: u32) -> (r: bool)
        ensures
            r == self.accepts(f),
    {
        match self {
            FrequencyCheck::AS923Generic => as924_generic_freq_check(f),
            FrequencyCheck::AS923Band4 => as924_4_freq_check(f),
            FrequencyCheck::EU868 => eu868_freq_check(f),
        }
    }
}

/// An uplink channel: its frequency in Hz and the data rates it allows.
#[derive(Debug, Clone, Copy, PartialEq, Eq, Structural)]
pub struct Channel {
    pub frequency: u32,
    pub min_dr: u8,
    pub max_dr: u8,
}

/// The channel state of a dynamic region: the join channels, the channels
/// learned from NewChannelReq, the channel mask, and the radio settings that
/// MAC commands set.
pub struct DynamicChannelPlan<R> {
    pub channels: [Option<Channel>; NUM_CHANNELS],
    /// Downlink frequencies set by DlChannelReq; RX1 uses the uplink
    /// frequency where none is set.
    pub dl_frequencies: [Option<u32>; NUM_CHANNELS],
    pub channel_mask: ChannelMask<2>,
    pub num_join_channels: usize,
    pub freq_check: FrequencyCheck,
    pub rx2_frequency: u32,
    pub rx2_data_rate: u8,
    pub rx1_dr_offset: u8,
    pub data_rate: u8,
    pub tx_power: u8,
    pub region: PhantomData<R>,
}

/// The mask that a LinkADRReq sets: all channels for control value 6, else
/// the mask it carries.
pub open spec fn adr_mask_bytes(cntl: u8, channel_mask: Seq<u8>) -> Seq<u8> {
    if cntl == 6 {
        seq![0xffu8, 0xffu8]
    } else {
        channel_mask
    }
}

/// Data rate range byte: minimum in the low nibble, maximum in the high one.
pub open spec fn dr_range_ok<R: ChannelRegion>(data_rate_range: u8) -> bool {
    data_rate_range % 16 <= data_rate_range / 16 && R::datarate_table(
        (data_rate_range % 16) as u8,
    ) is Some && R::datarate_table((data_rate_range / 16) as u8) is Some
}

impl<R: DynamicChannelRegion> DynamicChannelPlan<R> {
    /// The plan's own consistency: the join channels occupy the first slots.
    pub open spec fn wf(&self) -> bool {
        &&& 1 <= self.num_join_channels <= 3
        &&& forall|i: int| 0 <= i < self.num_join_channels ==> #[trigger] self.channels@[i] is Some
    }

    /// Channel `i` is defined and enabled by the mask.
    pub open spec fn usable(&self, i: int) -> bool {
        0 <= i < NUM_CHANNELS && self.channels@[i] is Some && self.channel_mask.enabled(i)
    }

    fn new(freq_check: FrequencyCheck) -> (r: Self)
        requires
            R::params_ok(),
        ensures
            r.wf(),
            r.freq_check == freq_check,
            r.num_join_channels == R::join_channel_freqs().len(),
            forall|i: int|
                0 <= i < r.num_join_channels ==> r.channels@[i] == Some(
                    Channel { frequency: R::join_channel_freqs()[i], min_dr: 0, max_dr: 5 },
                ),
            forall|i: int| r.num_join_channels <= i < NUM_CHANNELS ==> r.channels@[i] is None,
            forall|i: int| 0 <= i < NUM_CHANNELS ==> r.dl_frequencies@[i] is None,
            forall|i: int| 0 <= i < 16 ==> #[trigger] r.channel_mask.enabled(i),
            r.rx2_frequency == R::default_rx2(),
            r.rx2_data_rate == 0,
            r.rx1_dr_offset == 0,
            r.data_rate == 0,
            r.tx_power == 0,
    {
        let join = R::join_channels();
        let mut channels: [Option<Channel>; NUM_CHANNELS] = [None; NUM_CHANNELS];
        let mut i: usize = 0;
        while i < join.len()
            invariant
                i <= join@.len(),
                join@ == R::join_channel_freqs(),
                join@.len() <= 3,
                forall|j: int|
                    0 <= j < i ==> channels@[j] == Some(
                        Channel { frequency: join@[j], min_dr: 0, max_dr: 5 },
                    ),
                forall|j: int| i <= j < NUM_CHANNELS ==> channels@[j] is None,
            decreases join@.len() - i,
        {
            channels[i] = Some(Channel { frequency: join[i], min_dr: 0, max_dr: 5 });
            i = i + 1;
        }
        DynamicChannelPlan {
            channels,
            dl_frequencies: [None; NUM_CHANNELS],
            channel_mask: ChannelMask::default(),
            num_join_channels: join.len(),
            freq_check,
            rx2_frequency: R::get_default_rx2(),
            rx2_data_rate: 0,
            rx1_dr_offset: 0,
            data_rate: 0,
            tx_power: 0,
            region: PhantomData,
        }
    }

    /// A plan for AS923 sub-bands 1 to 3: new channels from 915 to 928 MHz.
    pub fn new_as924() -> (r: Self)
        requires
            R::params_ok(),
        ensures
            r.wf(),
            r.freq_check == FrequencyCheck::AS923Generic,
            r.num_join_channels == R::join_channel_freqs().len(),
            forall|i: int|
                0 <= i < r.num_join_channels ==> r.channels@[i] == Some(
                    Channel { frequency: R::join_channel_freqs()[i], min_dr: 0, max_dr: 5 },
                ),
            forall|i: int| r.num_join_channels <= i < NUM_CHANNELS ==> r.channels@[i] is None,
            forall|i: int| 0 <= i < NUM_CHANNELS ==> r.dl_frequencies@[i] is None,
            forall|i: int| 0 <= i < 16 ==> #[trigger] r.channel_mask.enabled(i),
            r.rx2_frequency == R::default_rx2(),
            r.rx2_data_rate == 0,
            r.rx1_dr_offset == 0,
            r.data_rate == 0,
            r.tx_power == 0,
    {
        Self::new(FrequencyCheck::AS923Generic)
    }

    /// A plan for AS923 sub-band 4: new channels from 917 to 920 MHz.
    pub fn new_as924_4() -> (r: Self)
        requires
            R::params_ok(),
        ensures
            r.wf(),
            r.freq_check == FrequencyCheck::AS923Band4,
            r.num_join_channels == R::join_channel_freqs().len(),
            forall|i: int|
                0 <= i < r.num_join_channels ==> r.channels@[i] == Some(
                    Channel { frequency: R::join_channel_freqs()[i], min_dr: 0, max_dr: 5 },
                ),
            forall|i: int| r.num_join_channels <= i < NUM_CHANNELS ==> r.channels@[i] is None,
            forall|i: int| 0 <= i < NUM_CHANNELS ==> r.dl_frequencies@[i] is None,
            forall|i: int| 0 <= i < 16 ==> #[trigger] r.channel_mask.enabled(i),
            r.rx2_frequency == R::default_rx2(),
            r.rx2_data_rate == 0,
            r.rx1_dr_offset == 0,
            r.data_rate == 0,
            r.tx_power == 0,
    {
        Self::new(FrequencyCheck::AS923Band4)
    }

    /// A plan for EU863-870: new channels from 863 to 870 MHz.
    pub fn new_eu868() -> (r: Self)
        requires
            R::params_ok(),
        ensures
            r.wf(),
            r.freq_check == FrequencyCheck::EU868,
            r.num_join_channels == R::join_channel_freqs().len(),
            forall|i: int|
                0 <= i < r.num_join_channels ==> r.channels@[i] == Some(
                    Channel { frequency: R::join_channel_freqs()[i], min_dr: 0, max_dr: 5 },
                ),
            forall|i: int| r.num_join_channels <= i < NUM_CHANNELS ==> r.channels@[i] is None,
            forall|i: int| 0 <= i < NUM_CHANNELS ==> r.dl_frequencies@[i] is None,
            forall|i: int| 0 <= i < 16 ==> #[trigger] r.channel_mask.enabled(i),
            r.rx2_frequency == R::default_rx2(),
            r.rx2_data_rate == 0,
            r.rx1_dr_offset == 0,
            r.data_rate == 0,
            r.tx_power == 0,
    {
        Self::new(FrequencyCheck::EU868)
    }

    /// What a NewChannelReq does to the plan and answers.
    pub open spec fn new_channel_post(self, new: Self, r: UplinkMacCommand, channel_index: u8, frequency: u32, data_rate_range: u8) -> bool {
        let freq_ok = self.num_join_channels <= channel_index < NUM_CHANNELS
            && self.freq_check.accepts(frequency);
        let dr_ok = dr_range_ok::<R>(data_rate_range);
        &&& r == UplinkMacCommand::NewChannelAns {
            channel_frequency_ack: freq_ok,
            data_rate_range_ack: dr_ok,
        }
        &&& if freq_ok && dr_ok {
            new == (DynamicChannelPlan {
                channels: new.channels,
                ..self
            }) && new.channels@ == self.channels@.update(
                channel_index as int,
                Some(
                    Channel {
                        frequency,
                        min_dr: data_rate_range % 16,
                        max_dr: data_rate_range / 16,
                    },
                ),
            )
        } else {
            new == self
        }
    }

    /// Applies a NewChannelReq (frequency in Hz). A frequency outside the
    /// plan's range, 0 included, is refused. The join channels cannot be
    /// changed. The channel is written only when both
    /// acknowledgements are positive; a rejected part gives a negative bit.
    pub fn handle_new_channel_req(
        &mut self,
        channel_index: u8,
        frequency: u32,
        data_rate_range: u8,
    ) -> (r: UplinkMacCommand)
        requires
            old(self).wf(),
        ensures
            final(self).wf(),
            old(self).new_channel_post(*final(self), r, channel_index, frequency, data_rate_range),

    {
        let index = channel_index as usize;
        let freq_ok = self.num_join_channels <= index && index < NUM_CHANNELS
            && self.freq_check.check(frequency);
        let min_dr = data_rate_range % 16;
        let max_dr = data_rate_range / 16;
        let dr_ok = min_dr <= max_dr && R::datarate(min_dr).is_some() && R::datarate(
            max_dr,
        ).is_some();
        if freq_ok && dr_ok {
            self.channels[index] = Some(Channel { frequency, min_dr, max_dr });
        }
        UplinkMacCommand::NewChannelAns { channel_frequency_ack: freq_ok, data_rate_range_ack: dr_ok }
    }

    /// Whether some defined channel is enabled by `mask`.
    fn any_usable(&self, mask: &ChannelMask<2>) -> (r: bool)
        ensures
            r == exists|i: int|
                0 <= i < NUM_CHANNELS && self.channels@[i] is Some && #[trigger] channel_bit(
                    mask@,
                    i,
                ),
    {
        let mut i: usize = 0;
        while i < NUM_CHANNELS
            invariant
                i <= NUM_CHANNELS,
                forall|j: int|
                    0 <= j < i ==> !(self.channels@[j] is Some && #[trigger] channel_bit(mask@, j)),
            decreases NUM_CHANNELS - i,
        {
            if self.channels[i].is_some() {
                match mask.is_enabled(i) {
                    Ok(true) => {
                        assert(channel_bit(mask@, i as int));
                        return true;
                    },
                    _ => {},
                }
            }
            i = i + 1;
        }
        false
    }

    /// What a LinkADRReq does to the plan and answers.
    pub open spec fn link_adr_post(self, new: Self, r: UplinkMacCommand, data_rate: u8, tx_power: u8, channel_mask: Seq<u8>, redundancy: u8) -> bool {
        let cntl = (redundancy / 16) % 8;
        let new_bytes = adr_mask_bytes(cntl, channel_mask);
        let mask_ok = (cntl == 0 || cntl == 6) && exists|i: int|
            0 <= i < NUM_CHANNELS && self.channels@[i] is Some
                && #[trigger] channel_bit(new_bytes, i);
        let dr_ok = R::datarate_table(data_rate) is Some;
        let pw_ok = R::eirp(tx_power) is Some;
        &&& r == UplinkMacCommand::LinkADRAns {
            channel_mask_ack: mask_ok,
            data_rate_ack: dr_ok,
            tx_power_ack: pw_ok,
        }
        &&& if mask_ok && dr_ok && pw_ok {
            new.channel_mask@ == new_bytes && new == (DynamicChannelPlan {
                channel_mask: new.channel_mask,
                data_rate,
                tx_power,
                ..self
            })
        } else {
            new == self
        }
    }

    /// Applies a LinkADRReq. The channel mask control (bits 4 to 6 of
    /// `redundancy`) is 0 to take `channel_mask` as given, or 6 to enable
    /// every channel; a mask that leaves no defined channel is refused. The
    /// settings change only when all three parts are acknowledged.
    pub fn handle_link_adr_req(
        &mut self,
        data_rate: u8,
        tx_power: u8,
        channel_mask: [u8; 2],
        redundancy: u8,
    ) -> (r: UplinkMacCommand)
        requires
            old(self).wf(),
        ensures
            final(self).wf(),
            old(self).link_adr_post(*final(self), r, data_rate, tx_power, channel_mask@, redundancy),

    {
        let cntl = (redundancy / 16) % 8;
        let new_mask = if cntl == 6 {
            ChannelMask([0xffu8, 0xffu8])
        } else {
            ChannelMask(channel_mask)
        };
        let ghost new_bytes = adr_mask_bytes(cntl, channel_mask@);
        assert(new_mask@ =~= new_bytes);
        let mask_ok = (cntl == 0 || cntl == 6) && self.any_usable(&new_mask);
        let dr_ok = R::datarate(data_rate).is_some();
        let pw_ok = R::tx_power_adjust(tx_power).is_some();
        if mask_ok && dr_ok && pw_ok {
            self.channel_mask = new_mask;
            self.data_rate = data_rate;
            self.tx_power = tx_power;
        }
        UplinkMacCommand::LinkADRAns {
            channel_mask_ack: mask_ok,
            data_rate_ack: dr_ok,
            tx_power_ack: pw_ok,
        }
    }

    /// What a RXParamSetupReq does to the plan and answers.
    pub open spec fn rx_param_setup_post(self, new: Self, r: UplinkMacCommand, dl_settings: u8, frequency: u32) -> bool {
        let offset = (dl_settings / 16) % 8;
        let rx2_dr = dl_settings % 16;
        let ch_ok = self.freq_check.accepts(frequency);
        let dr_ok = R::datarate_table(rx2_dr) is Some;
        let off_ok = offset <= 5;
        &&& r == UplinkMacCommand::RXParamSetupAns {
            channel_ack: ch_ok,
            rx2_data_rate_ack: dr_ok,
            rx1_data_rate_offset_ack: off_ok,
        }
        &&& if ch_ok && dr_ok && off_ok {
            new == (DynamicChannelPlan {
                rx2_frequency: frequency,
                rx2_data_rate: rx2_dr,
                rx1_dr_offset: offset,
                ..self
            })
        } else {
            new == self
        }
    }

    /// Applies a RXParamSetupReq: `dl_settings` holds the RX1 data rate offset
    /// in bits 4 to 6 and the RX2 data rate in bits 0 to 3; `frequency` is in
    /// Hz. The settings change only when all three parts are acknowledged.
    pub fn handle_rx_param_setup_req(&mut self, dl_settings: u8, frequency: u32) -> (r:
        UplinkMacCommand)
        requires
            old(self).wf(),
        ensures
            final(self).wf(),
            old(self).rx_param_setup_post(*final(self), r, dl_settings, frequency),

    {
        let offset = (dl_settings / 16) % 8;
        let rx2_dr = dl_settings % 16;
        let ch_ok = self.freq_check.check(frequency);
        let dr_ok = R::datarate(rx2_dr).is_some();
        let off_ok = offset <= 5;
        if ch_ok && dr_ok && off_ok {
            self.rx2_frequency = frequency;
            self.rx2_data_rate = rx2_dr;
            self.rx1_dr_offset = offset;
        }
        UplinkMacCommand::RXParamSetupAns {
            channel_ack: ch_ok,
            rx2_data_rate_ack: dr_ok,
            rx1_data_rate_offset_ack: off_ok,
        }
    }

    fn is_usable(&self, i: usize) -> (r: bool)
        requires
            i < NUM_CHANNELS,
        ensures
            r == self.usable(i as int),
    {
        if self.channels[i].is_none() {
            return false;
        }
        match self.channel_mask.is_enabled(i) {
            Ok(b) => b,
            Err(_) => false,
        }
    }

    /// How many of the channels below `k` are usable.
    pub open spec fn usable_below(&self, k: int) -> nat
        decreases k,
    {
        if k <= 0 {
            0
        } else {
            self.usable_below(k - 1) + if self.usable(k - 1) {
                1nat
            } else {
                0nat
            }
        }
    }

    /// Picks the uplink channel: among the channels that are defined and
    /// enabled, the one at position `random` modulo their number. `None`
    /// when no channel is usable.
    pub fn select_channel(&self, random: u32) -> (r: Option<usize>)
        ensures
            r is None <==> forall|i: int| 0 <= i < NUM_CHANNELS ==> !#[trigger] self.usable(i),
            r is Some ==> self.usable(r->0 as int) && self.usable_below(r->0 as int) == random as nat
                % self.usable_below(NUM_CHANNELS as int),
    {
        let mut count: u32 = 0;
        let mut i: usize = 0;
        while i < NUM_CHANNELS
            invariant
                i <= NUM_CHANNELS,
                count <= i,
                count == self.usable_below(i as int),
                count == 0 ==> forall|j: int| 0 <= j < i ==> !#[trigger] self.usable(j),
            decreases NUM_CHANNELS - i,
        {
            if self.is_usable(i) {
                count = count + 1;
            }
            i = i + 1;
        }
        if count == 0 {
            return None;
        }
        let pick = random % count;
        let mut seen: u32 = 0;
        let mut i: usize = 0;
        while i < NUM_CHANNELS
            invariant
                i <= NUM_CHANNELS,
                count == self.usable_below(NUM_CHANNELS as int),
                pick < count,
                pick == random % count,
                seen == self.usable_below(i as int),
                seen <= pick,
            decreases NUM_CHANNELS - i,
        {
            if self.is_usable(i) {
                if seen == pick {
                    proof {
                        self.lemma_some_usable(i as int);
                    }
                    return Some(i);
                }
                seen = seen + 1;
            }
            i = i + 1;
        }
        None
    }

    proof fn lemma_some_usable(&self, k: int)
        requires
            0 <= k < NUM_CHANNELS,
            self.usable(k),
        ensures
            !(forall|i: int| 0 <= i < NUM_CHANNELS ==> !#[trigger] self.usable(i)),
    {
    }

    /// What a DlChannelReq does to the plan and answers.
    pub open spec fn dl_channel_post(self, new: Self, r: UplinkMacCommand, channel_index: u8, frequency: u32) -> bool {
        let freq_ok = self.freq_check.accepts(frequency);
        let exists_ok = channel_index < NUM_CHANNELS && self.channels@[channel_index as int] is Some;
        &&& r == UplinkMacCommand::DlChannelAns {
            channel_frequency_ack: freq_ok,
            uplink_frequency_exists_ack: exists_ok,
        }
        &&& if freq_ok && exists_ok {
            new == (DynamicChannelPlan { dl_frequencies: new.dl_frequencies, ..self })
                && new.dl_frequencies@ == self.dl_frequencies@.update(
                channel_index as int,
                Some(frequency),
            )
        } else {
            new == self
        }
    }

    /// Applies a DlChannelReq: a downlink frequency (in Hz) for a channel
    /// that has an uplink frequency. It is stored only when both parts are
    /// acknowledged.
    pub fn handle_dl_channel_req(&mut self, channel_index: u8, frequency: u32) -> (r: UplinkMacCommand)
        requires
            old(self).wf(),
        ensures
            final(self).wf(),
            old(self).dl_channel_post(*final(self), r, channel_index, frequency),
    {
        let index = channel_index as usize;
        let freq_ok = self.freq_check.check(frequency);
        let exists_ok = index < NUM_CHANNELS && self.channels[index].is_some();
        if freq_ok && exists_ok {
            self.dl_frequencies[index] = Some(frequency);
        }
        UplinkMacCommand::DlChannelAns {
            channel_frequency_ack: freq_ok,
            uplink_frequency_exists_ack: exists_ok,
        }
    }
}

} // verus!
