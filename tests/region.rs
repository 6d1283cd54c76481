use lorawan_device::codec::UplinkMacCommand;
use lorawan_device::region::{
    AS923Region, Bandwidth, ChannelRegion, DynamicChannelRegion, EU868Region, FrequencyCheck,
    SpreadingFactor, AS923_1, AS923_2, AS923_4, EU868,
};

#[test]
fn eu868_datarates_outside_table_are_unsupported() {
    for i in 0..=255u8 {
        let dr = EU868Region::datarate(i);
        assert_eq!(dr.is_some(), i <= 5, "index {}", i);
    }
    let dr0 = EU868Region::datarate(0).unwrap();
    assert_eq!(dr0.spreading_factor, SpreadingFactor::_12);
    assert_eq!(dr0.bandwidth, Bandwidth::_125KHz);
    assert_eq!(dr0.max_mac_payload_size, 59);
    assert_eq!(EU868Region::datarate(3).unwrap().max_mac_payload_size, 123);
}

#[test]
fn as923_datarates_outside_table_are_unsupported() {
    for i in 0..=255u8 {
        let dr = AS923Region::<923_200_000, 0>::datarate(i);
        assert_eq!(dr.is_some(), i <= 6, "index {}", i);
    }
    let dr6 = AS923Region::<923_200_000, 0>::datarate(6).unwrap();
    assert_eq!(dr6.bandwidth, Bandwidth::_250KHz);
    assert_eq!(AS923Region::<923_200_000, 0>::datarate(2).unwrap().max_mac_payload_size_with_dwell_time, 19);
}

#[test]
fn tx_power_is_linear_and_bounded() {
    assert_eq!(EU868Region::tx_power_adjust(0), Some(16));
    assert_eq!(EU868Region::tx_power_adjust(3), Some(10));
    assert_eq!(EU868Region::tx_power_adjust(7), Some(2));
    assert_eq!(EU868Region::tx_power_adjust(8), None);
    assert_eq!(AS923Region::<923_200_000, 0>::tx_power_adjust(7), Some(2));
    assert_eq!(AS923Region::<923_200_000, 0>::tx_power_adjust(15), None);
}

#[test]
fn join_channels_and_rx2() {
    assert_eq!(EU868Region::join_channels(), vec![868_100_000, 868_300_000, 868_500_000]);
    assert_eq!(EU868Region::get_default_rx2(), 869_525_000);
    assert_eq!(AS923Region::<921_400_000, 1800000>::join_channels(), vec![925_000_000, 925_000_000]);
    assert_eq!(AS923Region::<921_400_000, 1800000>::get_default_rx2(), 921_400_000);
}

#[test]
fn plans_start_from_the_region() {
    let plan = EU868::new_eu868();
    assert_eq!(plan.freq_check, FrequencyCheck::EU868);
    assert_eq!(plan.num_join_channels, 3);
    assert_eq!(plan.rx2_frequency, 869_525_000);
    assert_eq!(plan.channels[1].unwrap().frequency, 868_300_000);
    assert!(plan.channels[3].is_none());
    let plan = AS923_4::new_as924_4();
    assert_eq!(plan.freq_check, FrequencyCheck::AS923Band4);
    assert_eq!(plan.rx2_frequency, 917_300_000);
    let plan = AS923_2::new_as924();
    assert_eq!(plan.freq_check, FrequencyCheck::AS923Generic);
}

#[test]
fn new_channel_checked_against_region_frequencies() {
    let mut plan = EU868::new_eu868();
    let ans = plan.handle_new_channel_req(3, 867_100_000, 0x50);
    assert_eq!(ans, UplinkMacCommand::NewChannelAns { channel_frequency_ack: true, data_rate_range_ack: true });
    assert_eq!(plan.channels[3].unwrap().frequency, 867_100_000);
    assert_eq!(plan.channels[3].unwrap().max_dr, 5);
    let ans = plan.handle_new_channel_req(4, 915_000_000, 0x50);
    assert_eq!(ans, UplinkMacCommand::NewChannelAns { channel_frequency_ack: false, data_rate_range_ack: true });
    assert!(plan.channels[4].is_none());
    let ans = plan.handle_new_channel_req(4, 867_300_000, 0x70);
    assert_eq!(ans, UplinkMacCommand::NewChannelAns { channel_frequency_ack: true, data_rate_range_ack: false });
    assert!(plan.channels[4].is_none());
    let ans = plan.handle_new_channel_req(0, 867_300_000, 0x50);
    assert_eq!(ans, UplinkMacCommand::NewChannelAns { channel_frequency_ack: false, data_rate_range_ack: true });
    let ans = plan.handle_new_channel_req(3, 0, 0x50);
    assert_eq!(ans, UplinkMacCommand::NewChannelAns { channel_frequency_ack: false, data_rate_range_ack: true });
    assert_eq!(plan.channels[3].unwrap().frequency, 867_100_000);
    let ans = plan.handle_new_channel_req(5, 0, 0x50);
    assert_eq!(ans, UplinkMacCommand::NewChannelAns { channel_frequency_ack: false, data_rate_range_ack: true });
    assert!(plan.channels[5].is_none());
}

#[test]
fn as923_band4_frequency_range() {
    let mut plan = AS923_4::new_as924_4();
    let ans = plan.handle_new_channel_req(2, 923_000_000, 0x50);
    assert_eq!(ans, UplinkMacCommand::NewChannelAns { channel_frequency_ack: false, data_rate_range_ack: true });
    let ans = plan.handle_new_channel_req(2, 918_000_000, 0x50);
    assert_eq!(ans, UplinkMacCommand::NewChannelAns { channel_frequency_ack: true, data_rate_range_ack: true });
    let mut plan = AS923_1::new_as924();
    let ans = plan.handle_new_channel_req(2, 923_000_000, 0x60);
    assert_eq!(ans, UplinkMacCommand::NewChannelAns { channel_frequency_ack: true, data_rate_range_ack: true });
}

#[test]
fn link_adr_applies_only_when_all_acked() {
    let mut plan = EU868::new_eu868();
    let ans = plan.handle_link_adr_req(5, 3, [0x07, 0x00], 0x01);
    assert_eq!(ans, UplinkMacCommand::LinkADRAns { channel_mask_ack: true, data_rate_ack: true, tx_power_ack: true });
    assert_eq!(plan.data_rate, 5);
    assert_eq!(plan.tx_power, 3);
    assert_eq!(plan.channel_mask.get_index(0), 0x07);
    let ans = plan.handle_link_adr_req(7, 3, [0x01, 0x00], 0x01);
    assert_eq!(ans, UplinkMacCommand::LinkADRAns { channel_mask_ack: true, data_rate_ack: false, tx_power_ack: true });
    assert_eq!(plan.data_rate, 5);
    assert_eq!(plan.channel_mask.get_index(0), 0x07);
    let ans = plan.handle_link_adr_req(1, 1, [0x00, 0x80], 0x01);
    assert_eq!(ans, UplinkMacCommand::LinkADRAns { channel_mask_ack: false, data_rate_ack: true, tx_power_ack: true });
    let ans = plan.handle_link_adr_req(1, 9, [0x00, 0x00], 0x61);
    assert_eq!(ans, UplinkMacCommand::LinkADRAns { channel_mask_ack: true, data_rate_ack: true, tx_power_ack: false });
    let ans = plan.handle_link_adr_req(1, 1, [0x00, 0x00], 0x61);
    assert_eq!(ans, UplinkMacCommand::LinkADRAns { channel_mask_ack: true, data_rate_ack: true, tx_power_ack: true });
    assert_eq!(plan.channel_mask.get_index(0), 0xff);
}

#[test]
fn rx_param_setup_changes_rx2() {
    let mut plan = EU868::new_eu868();
    let ans = plan.handle_rx_param_setup_req(0x23, 869_100_000);
    assert_eq!(ans, UplinkMacCommand::RXParamSetupAns { channel_ack: true, rx2_data_rate_ack: true, rx1_data_rate_offset_ack: true });
    assert_eq!(plan.rx2_frequency, 869_100_000);
    assert_eq!(plan.rx2_data_rate, 3);
    assert_eq!(plan.rx1_dr_offset, 2);
    let ans = plan.handle_rx_param_setup_req(0x69, 800_000_000);
    assert_eq!(ans, UplinkMacCommand::RXParamSetupAns { channel_ack: false, rx2_data_rate_ack: false, rx1_data_rate_offset_ack: false });
    assert_eq!(plan.rx2_frequency, 869_100_000);
}

#[test]
fn channel_selection_follows_mask_and_new_channels() {
    let mut plan = EU868::new_eu868();
    assert_eq!(plan.select_channel(0), Some(0));
    assert_eq!(plan.select_channel(4), Some(1));
    plan.handle_link_adr_req(0, 0, [0x04, 0x00], 0x00);
    for r in 0..10 {
        assert_eq!(plan.select_channel(r), Some(2));
    }
    plan.handle_new_channel_req(5, 867_500_000, 0x50);
    assert_eq!(plan.select_channel(0), Some(2));
    plan.handle_link_adr_req(0, 0, [0x24, 0x00], 0x00);
    assert_eq!(plan.select_channel(1), Some(5));
}

#[test]
fn datarate_table_has_reserved_entries() {
    let table = EU868Region::datarates();
    assert_eq!(table.len(), 15);
    assert!(table[5].is_some());
    assert!(table[6..].iter().all(|d| d.is_none()));
    let table = AS923Region::<923_200_000, 0>::datarates();
    assert!(table[6].is_some());
    assert!(table[7].is_none());
}
