use lorawan_device::codec::{
    parse_downlink_mac_commands, parse_uplink_mac_commands, DownlinkMacCommand,
    SerializableMacCommand, UplinkMacCommand,
};
use lorawan_device::maccommands::Error;

fn encode<C: SerializableMacCommand>(c: &C) -> Vec<u8> {
    let mut v = Vec::new();
    c.write_to(&mut v);
    v
}

#[test]
fn link_adr_req_decodes_to_its_fields() {
    let cmds = parse_downlink_mac_commands(&[0x03, 0x53, 0xc7, 0x0b, 0x37]).unwrap();
    assert_eq!(
        cmds,
        vec![DownlinkMacCommand::LinkADRReq { data_rate: 5, tx_power: 3, channel_mask: 0x0bc7, redundancy: 0x37 }]
    );
    assert_eq!(encode(&cmds[0]), vec![0x03, 0x53, 0xc7, 0x0b, 0x37]);
}

#[test]
fn downlink_round_trip_each_kind() {
    let all = [
        DownlinkMacCommand::LinkCheckAns { margin: 20, gateway_count: 3 },
        DownlinkMacCommand::LinkADRReq { data_rate: 15, tx_power: 0, channel_mask: 0xffff, redundancy: 0 },
        DownlinkMacCommand::DutyCycleReq { max_duty_cycle: 15 },
        DownlinkMacCommand::RXParamSetupReq { dl_settings: 0x21, frequency: 0x84_5a_b0 },
        DownlinkMacCommand::DevStatusReq,
        DownlinkMacCommand::NewChannelReq { channel_index: 3, frequency: 8_671_000, data_rate_range: 0x50 },
        DownlinkMacCommand::RXTimingSetupReq { delay: 1 },
        DownlinkMacCommand::TXParamSetupReq { downlink_dwell_time: true, uplink_dwell_time: false, max_eirp: 9 },
        DownlinkMacCommand::DlChannelReq { channel_index: 0, frequency: 0xff_ff_ff },
        DownlinkMacCommand::DeviceTimeAns { seconds: 0xdead_beef, fractional: 7 },
    ];
    let mut bytes = Vec::new();
    for c in &all {
        c.write_to(&mut bytes);
    }
    assert_eq!(bytes.len(), 3 + 5 + 2 + 5 + 1 + 6 + 2 + 2 + 5 + 6);
    assert_eq!(parse_downlink_mac_commands(&bytes).unwrap(), all.to_vec());
}

#[test]
fn frequency_is_little_endian() {
    let c = DownlinkMacCommand::NewChannelReq { channel_index: 3, frequency: 0x563412, data_rate_range: 0x50 };
    assert_eq!(encode(&c), vec![0x07, 0x03, 0x12, 0x34, 0x56, 0x50]);
}

#[test]
fn parse_rejects_unknown_and_truncated() {
    assert_eq!(parse_downlink_mac_commands(&[0x02, 1, 2, 0x42]), Err(Error::UnknownMacCommand));
    assert_eq!(parse_downlink_mac_commands(&[0x03, 0x53, 0xc7]), Err(Error::BufferTooShort));
    assert_eq!(parse_downlink_mac_commands(&[0x04, 0x10]), Err(Error::ReservedBitsSet));
    assert_eq!(parse_downlink_mac_commands(&[0x09, 0x40]), Err(Error::ReservedBitsSet));
    assert_eq!(parse_downlink_mac_commands(&[]), Ok(vec![]));
}

#[test]
fn uplink_encodings() {
    assert_eq!(encode(&UplinkMacCommand::LinkCheckReq), vec![0x02]);
    assert_eq!(encode(&UplinkMacCommand::RXParamSetupAns { channel_ack: true, rx2_data_rate_ack: false, rx1_data_rate_offset_ack: true }), vec![0x05, 0x05]);
    assert_eq!(encode(&UplinkMacCommand::DevStatusAns { battery: 0, margin: -32 }), vec![0x06, 0x00, 0x20]);
    assert_eq!(encode(&UplinkMacCommand::NewChannelAns { channel_frequency_ack: false, data_rate_range_ack: true }), vec![0x07, 0x02]);
    assert_eq!(encode(&UplinkMacCommand::DlChannelAns { channel_frequency_ack: true, uplink_frequency_exists_ack: false }), vec![0x0a, 0x01]);
    assert_eq!(encode(&UplinkMacCommand::DeviceTimeReq), vec![0x0d]);
    assert_eq!(UplinkMacCommand::DevStatusAns { battery: 0, margin: 0 }.wire_len(), 3);
}

#[test]
fn uplink_round_trip_each_kind() {
    let all = [
        UplinkMacCommand::LinkCheckReq,
        UplinkMacCommand::LinkADRAns { channel_mask_ack: false, data_rate_ack: true, tx_power_ack: true },
        UplinkMacCommand::DutyCycleAns,
        UplinkMacCommand::RXParamSetupAns { channel_ack: true, rx2_data_rate_ack: true, rx1_data_rate_offset_ack: false },
        UplinkMacCommand::DevStatusAns { battery: 77, margin: -17 },
        UplinkMacCommand::NewChannelAns { channel_frequency_ack: true, data_rate_range_ack: false },
        UplinkMacCommand::RXTimingSetupAns,
        UplinkMacCommand::TXParamSetupAns,
        UplinkMacCommand::DlChannelAns { channel_frequency_ack: false, uplink_frequency_exists_ack: true },
        UplinkMacCommand::DeviceTimeReq,
    ];
    let mut bytes = Vec::new();
    for c in &all {
        c.write_to(&mut bytes);
    }
    assert_eq!(parse_uplink_mac_commands(&bytes).unwrap(), all.to_vec());
    assert_eq!(parse_uplink_mac_commands(&[0x03, 0x08]), Err(Error::ReservedBitsSet));
    assert_eq!(parse_uplink_mac_commands(&[0x06, 0x01]), Err(Error::BufferTooShort));
    assert_eq!(parse_uplink_mac_commands(&[0x01]), Err(Error::UnknownMacCommand));
}
