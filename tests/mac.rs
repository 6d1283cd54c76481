use lorawan_device::codec::{DownlinkMacCommand, UplinkMacCommand};
use lorawan_device::mac::{CycleError, JoinStartError, Mac, State};
use lorawan_device::otaa::NetworkCredentials;
use lorawan_device::region::{EU868Region, EU868};
use lorawan_device::session::{AppKey, DownlinkError, Response, SendData};

fn hex(s: &str) -> Vec<u8> {
    (0..s.len()).step_by(2).map(|i| u8::from_str_radix(&s[i..i + 2], 16).unwrap()).collect()
}

fn creds() -> NetworkCredentials {
    NetworkCredentials {
        app_eui: [1, 2, 3, 4, 5, 6, 7, 8],
        dev_eui: [0x11, 0x12, 0x13, 0x14, 0x15, 0x16, 0x17, 0x18],
        app_key: AppKey(hex("00112233445566778899aabbccddeeff").try_into().unwrap()),
    }
}

fn joined_mac() -> Mac<EU868Region> {
    let mut mac = Mac::new(EU868::new_eu868(), 3);
    mac.dev_nonce = 1;
    mac.join(&creds()).unwrap();
    mac.handle_join_accept(&creds(), &hex("20a09f45500472abf7329ef11ee0501092")).unwrap();
    mac
}

#[test]
fn join_uses_fresh_nonces_and_gives_up() {
    let mut mac = Mac::new(EU868::new_eu868(), 2);
    assert_eq!(mac.state, State::Idle);
    mac.dev_nonce = 1;
    let req = mac.join(&creds()).unwrap();
    assert_eq!(req, hex("0001020304050607081112131415161718010025755ccf"));
    assert_eq!(mac.state, State::Joining);
    assert_eq!(mac.join(&creds()).err(), Some(JoinStartError::Busy));
    let retry = mac.join_timeout(&creds()).unwrap();
    assert_eq!(&retry[17..19], &[2, 0]);
    assert_eq!(mac.dev_nonce, 3);
    assert_eq!(mac.join_timeout(&creds()).err(), Some(JoinStartError::AttemptsExhausted));
    assert_eq!(mac.state, State::Idle);
    assert!(mac.session.is_none());
}

#[test]
fn join_accept_with_wrong_mic_keeps_listening() {
    let mut mac = Mac::new(EU868::new_eu868(), 2);
    mac.join(&creds()).unwrap();
    let mut f = hex("20a09f45500472abf7329ef11ee0501092");
    f[3] ^= 0x40;
    assert!(mac.handle_join_accept(&creds(), &f).is_err());
    assert_eq!(mac.state, State::Joining);
}

#[test]
fn full_cycle_without_downlink() {
    let mut mac = joined_mac();
    assert_eq!(mac.state, State::Idle);
    let mut tx = Vec::new();
    let data = SendData { data: &[0x01, 0x02, 0x03], fport: 4, confirmed: false };
    assert_eq!(mac.send(&data, &mut tx), Ok(0));
    assert_eq!(tx, hex("400403020100000004737a9d5d88b3da"));
    assert_eq!(mac.state, State::WaitingForTx);
    assert_eq!(mac.rx1_timeout(), Err(CycleError::WrongState));
    mac.tx_done().unwrap();
    mac.rx1_timeout().unwrap();
    assert_eq!(mac.rx2_timeout(), Ok(Response::RxComplete));
    assert_eq!(mac.state, State::Idle);
    assert_eq!(mac.session.as_ref().unwrap().fcnt_up, 1);
}

#[test]
fn cycle_expires_session() {
    let mut mac = joined_mac();
    mac.session.as_mut().unwrap().fcnt_up = 0xFFFF_FFFF;
    let mut tx = Vec::new();
    let data = SendData { data: &[1], fport: 1, confirmed: false };
    assert!(mac.send(&data, &mut tx).is_err());
    assert_eq!(mac.state, State::Idle);
}

#[test]
fn downlink_ends_cycle_and_queues_answers() {
    let mut mac = joined_mac();
    let mut tx = Vec::new();
    let data = SendData { data: &[0xaa], fport: 4, confirmed: false };
    mac.send(&data, &mut tx).unwrap();
    mac.tx_done().unwrap();
    let (d, all) = mac.handle_downlink(&hex("6004030201030500020702034aab9163aea9"), 200, 5).unwrap();
    assert!(all);
    assert_eq!(d.fcnt, 5);
    assert_eq!(mac.link_check, Some((7, 2)));
    assert_eq!(mac.state, State::Idle);
    assert_eq!(mac.session.as_ref().unwrap().fcnt_up, 1);

    mac.send(&data, &mut tx).unwrap();
    mac.tx_done().unwrap();
    mac.rx1_timeout().unwrap();
    let replay = mac.handle_downlink(&hex("6004030201030500020702034aab9163aea9"), 200, 5);
    assert_eq!(replay.err(), Some(CycleError::Downlink(DownlinkError::Replay)));
    assert_eq!(mac.state, State::WaitingRx2);
    let (d, _) = mac.handle_downlink(&hex("a00403020100060000e9cc8ef42c99496b00"), 200, 5).unwrap();
    assert!(d.confirmed);
    assert_eq!(mac.plan.data_rate, 5);
    assert_eq!(mac.plan.tx_power, 3);
    let s = mac.session.as_ref().unwrap();
    assert_eq!(s.fcnt_up, 2);
    assert!(s.uplink.confirms_downlink());
    mac.send(&data, &mut tx).unwrap();
    assert_eq!(tx[5], 0x22);
    assert_eq!(&tx[8..10], &[0x03, 0x07]);
}

#[test]
fn every_request_gets_an_answer() {
    let mut mac = joined_mac();
    let cmds = [
        DownlinkMacCommand::DutyCycleReq { max_duty_cycle: 4 },
        DownlinkMacCommand::DevStatusReq,
        DownlinkMacCommand::NewChannelReq { channel_index: 3, frequency: 9_150_000, data_rate_range: 0x50 },
        DownlinkMacCommand::RXTimingSetupReq { delay: 0 },
        DownlinkMacCommand::DeviceTimeAns { seconds: 10, fractional: 1 },
        DownlinkMacCommand::RXParamSetupReq { dl_settings: 0x03, frequency: 8_691_000 },
        DownlinkMacCommand::DlChannelReq { channel_index: 1, frequency: 8_681_000 },
        DownlinkMacCommand::TXParamSetupReq { downlink_dwell_time: true, uplink_dwell_time: false, max_eirp: 5 },
    ];
    assert_eq!(mac.apply_mac_commands(&cmds, 254, -40), Ok(()));
    assert_eq!(mac.max_duty_cycle, 4);
    assert_eq!(mac.rx1_delay, 1);
    assert_eq!(mac.device_time, Some((10, 1)));
    assert_eq!(mac.plan.rx2_frequency, 869_100_000);
    assert_eq!(mac.plan.dl_frequencies[1], Some(868_100_000));
    let s = mac.session.as_ref().unwrap();
    let mut tx = Vec::new();
    let queued = s.uplink.pending.clone();
    assert_eq!(
        queued.as_slice(),
        &[
            UplinkMacCommand::DutyCycleAns,
            UplinkMacCommand::DevStatusAns { battery: 254, margin: -32 },
            UplinkMacCommand::NewChannelAns { channel_frequency_ack: false, data_rate_range_ack: true },
            UplinkMacCommand::RXTimingSetupAns,
            UplinkMacCommand::RXParamSetupAns { channel_ack: true, rx2_data_rate_ack: true, rx1_data_rate_offset_ack: true },
            UplinkMacCommand::DlChannelAns { channel_frequency_ack: true, uplink_frequency_exists_ack: true },
            UplinkMacCommand::TXParamSetupAns,
        ]
    );
    let data = SendData { data: &[], fport: 1, confirmed: false };
    assert!(mac.send(&data, &mut tx).is_ok());
    assert_eq!(tx[5], 12);
}

#[test]
fn confirmed_uplink_without_answer_is_no_ack() {
    let mut mac = joined_mac();
    let mut tx = Vec::new();
    let data = SendData { data: &[1], fport: 1, confirmed: true };
    mac.send(&data, &mut tx).unwrap();
    mac.tx_done().unwrap();
    mac.rx1_timeout().unwrap();
    assert_eq!(mac.rx2_timeout(), Ok(Response::NoAck));
    assert_eq!(mac.rx1_delay, 1);
}
