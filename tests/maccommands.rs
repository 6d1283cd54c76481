use lorawan_device::codec::{DownlinkMacCommand, UplinkMacCommand};
use lorawan_device::maccommands::{
    build_mac_commands, DevStatusAnsCreator, DeviceTimeAnsCreator, DeviceTimeReqCreator,
    DlChannelAnsCreator, DlChannelReqCreator, DutyCycleAnsCreator, DutyCycleReqCreator, Error,
    LinkADRAnsCreator, LinkADRReqCreator, LinkCheckAnsCreator, LinkCheckReqCreator,
    NewChannelAnsCreator, NewChannelReqCreator, RXParamSetupAnsCreator, RXParamSetupReqCreator,
    RXTimingSetupAnsCreator, RXTimingSetupReqCreator, TXParamSetupAnsCreator,
    TXParamSetupReqCreator, DevStatusReqCreator,
};

#[test]
fn link_adr_req_creator_packs_fields() {
    let mut creator = LinkADRReqCreator::new();
    let res = creator
        .set_data_rate(0x05)
        .unwrap()
        .set_tx_power(0x03)
        .unwrap()
        .set_channel_mask([0xc7, 0x0b])
        .set_redundancy(0x37)
        .build();
    assert_eq!(res, &[0x03, 0x53, 0xc7, 0x0b, 0x37]);
}

#[test]
fn link_adr_req_setters_compose_in_any_order() {
    let mut a = LinkADRReqCreator::new();
    a.set_tx_power(0x03).unwrap().set_data_rate(0x05).unwrap();
    assert_eq!(a.build(), &[0x03, 0x53, 0, 0, 0]);
    a.set_data_rate(0x0f).unwrap();
    assert_eq!(a.build()[1], 0xf3);
    a.set_tx_power(0x00).unwrap();
    assert_eq!(a.build()[1], 0xf0);
}

#[test]
fn link_adr_req_rejects_out_of_range() {
    let mut a = LinkADRReqCreator::new();
    a.set_data_rate(0x02).unwrap();
    assert_eq!(a.set_data_rate(0x10).err(), Some(Error::InvalidDataRate));
    assert_eq!(a.set_tx_power(0x10).err(), Some(Error::InvalidTxPower));
    assert_eq!(a.build(), &[0x03, 0x20, 0, 0, 0]);
}

#[test]
fn link_check_creators() {
    assert_eq!(LinkCheckReqCreator::new().build(), &[0x02]);
    let mut c = LinkCheckAnsCreator::new();
    assert_eq!(c.set_margin(253).set_gateway_count(254).build(), &[0x02, 253, 254]);
}

#[test]
fn link_adr_ans_ack_bits() {
    let mut c = LinkADRAnsCreator::new();
    assert_eq!(c.set_channel_mask_ack(true).set_data_rate_ack(true).set_tx_power_ack(true).build(), &[0x03, 0x07]);
    assert_eq!(c.set_data_rate_ack(false).build(), &[0x03, 0x05]);
    assert_eq!(c.set_channel_mask_ack(false).build(), &[0x03, 0x04]);
}

#[test]
fn duty_cycle_creators() {
    let mut c = DutyCycleReqCreator::new();
    assert_eq!(c.set_max_duty_cycle(0x0f).unwrap().build(), &[0x04, 0x0f]);
    assert_eq!(c.set_max_duty_cycle(0x10).err(), Some(Error::DutyCycleOutOfRange));
    assert_eq!(DutyCycleAnsCreator::new().build(), &[0x04]);
}

#[test]
fn rx_param_setup_creators() {
    let mut c = RXParamSetupReqCreator::new();
    assert_eq!(c.set_dl_settings(0xcd).set_frequency(&[0x12, 0x34, 0x56]).build(), &[0x05, 0xcd, 0x12, 0x34, 0x56]);
    let mut a = RXParamSetupAnsCreator::new();
    assert_eq!(
        a.set_channel_ack(true).set_rx2_data_rate_ack(true).set_rx1_data_rate_offset_ack(true).build(),
        &[0x05, 0x07]
    );
    assert_eq!(a.set_rx2_data_rate_ack(false).build(), &[0x05, 0x05]);
}

#[test]
fn dev_status_creators() {
    assert_eq!(DevStatusReqCreator::new().build(), &[0x06]);
    let mut c = DevStatusAnsCreator::new();
    assert_eq!(c.set_battery(0xfe).set_margin(-32).unwrap().build(), &[0x06, 0xfe, 0x20]);
    assert_eq!(c.set_margin(31).unwrap().build(), &[0x06, 0xfe, 0x1f]);
    assert_eq!(c.set_margin(-1).unwrap().build(), &[0x06, 0xfe, 0x3f]);
    assert_eq!(c.set_margin(32).err(), Some(Error::MarginOutOfRange));
    assert_eq!(c.set_margin(-33).err(), Some(Error::MarginOutOfRange));
}

#[test]
fn new_channel_creators() {
    let mut c = NewChannelReqCreator::new();
    assert_eq!(
        c.set_channel_index(0x0f).set_frequency(&[0x12, 0x34, 0x56]).set_data_rate_range(0x53).build(),
        &[0x07, 0x0f, 0x12, 0x34, 0x56, 0x53]
    );
    let mut a = NewChannelAnsCreator::new();
    assert_eq!(a.set_channel_frequency_ack(true).set_data_rate_range_ack(true).build(), &[0x07, 0x03]);
}

#[test]
fn rx_timing_setup_creators() {
    let mut c = RXTimingSetupReqCreator::new();
    assert_eq!(c.set_delay(0x0f).unwrap().build(), &[0x08, 0x0f]);
    assert_eq!(c.set_delay(0x10).err(), Some(Error::DelayOutOfRange));
    assert_eq!(RXTimingSetupAnsCreator::new().build(), &[0x08]);
}

#[test]
fn tx_param_setup_creators() {
    let mut c = TXParamSetupReqCreator::new();
    c.set_max_eirp(0x0d).unwrap();
    c.set_downlink_dwell_time().set_uplink_dwell_time();
    assert_eq!(c.build(), &[0x09, 0x3d]);
    assert_eq!(c.set_max_eirp(0x10).err(), Some(Error::MaxEirpOutOfRange));
    assert_eq!(TXParamSetupAnsCreator::new().build(), &[0x09]);
}

#[test]
fn dl_channel_creators() {
    let mut c = DlChannelReqCreator::new();
    assert_eq!(c.set_channel_index(3).set_frequency(&[1, 2, 3]).build(), &[0x0a, 3, 1, 2, 3]);
    let mut a = DlChannelAnsCreator::new();
    assert_eq!(a.set_channel_frequency_ack(true).set_uplink_frequency_exists_ack(true).build(), &[0x0a, 0x03]);
    assert_eq!(a.set_channel_frequency_ack(false).build(), &[0x0a, 0x02]);
}

#[test]
fn device_time_creators() {
    assert_eq!(DeviceTimeReqCreator::new().build(), &[0x0d]);
    let mut c = DeviceTimeAnsCreator::new();
    c.set_seconds(0x01020304);
    assert_eq!(c.set_nano_seconds(500_000_000).unwrap().build(), &[0x0d, 0x04, 0x03, 0x02, 0x01, 128]);
    assert_eq!(c.set_nano_seconds(1_000_000_000).err(), Some(Error::NanoSecondsOutOfRange));
}

#[test]
fn build_mac_commands_concatenates() {
    let cmds = [
        UplinkMacCommand::LinkADRAns { channel_mask_ack: true, data_rate_ack: true, tx_power_ack: false },
        UplinkMacCommand::DevStatusAns { battery: 0xff, margin: -2 },
        UplinkMacCommand::DutyCycleAns,
    ];
    let mut out = [0xeeu8; 8];
    assert_eq!(build_mac_commands(&cmds, &mut out), Ok(6));
    assert_eq!(out, [0x03, 0x03, 0x06, 0xff, 0x3e, 0x04, 0xee, 0xee]);
}

#[test]
fn build_mac_commands_buffer_too_short() {
    let cmds = [
        DownlinkMacCommand::LinkADRReq { data_rate: 5, tx_power: 3, channel_mask: 0x0bc7, redundancy: 0x37 },
        DownlinkMacCommand::DevStatusReq,
    ];
    let mut out = [0u8; 5];
    assert_eq!(build_mac_commands(&cmds, &mut out), Err(Error::BufferTooShort));
    assert_eq!(out, [0u8; 5]);
    let mut out = [0u8; 6];
    assert_eq!(build_mac_commands(&cmds, &mut out), Ok(6));
    assert_eq!(out, [0x03, 0x53, 0xc7, 0x0b, 0x37, 0x06]);
}

#[test]
fn build_mac_commands_empty() {
    let cmds: [UplinkMacCommand; 0] = [];
    let mut out = [0u8; 0];
    assert_eq!(build_mac_commands(&cmds, &mut out), Ok(0));
}

#[test]
fn duty_cycle_writes_byte_and_delay_keeps_high_bits() {
    let mut c = DutyCycleReqCreator::new();
    c.data[1] = 0xf0;
    assert_eq!(c.set_max_duty_cycle(3).unwrap().build(), &[0x04, 0x03]);
    let mut d = RXTimingSetupReqCreator::new();
    d.data[1] = 0xa0;
    assert_eq!(d.set_delay(5).unwrap().build(), &[0x08, 0xa5]);
}
