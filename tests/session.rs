use lorawan_device::codec::{DownlinkMacCommand, UplinkMacCommand};
use lorawan_device::crypto::{compute_join_mic, crypt_frm_payload, derive_session_key};
use lorawan_device::otaa::{build_join_request, decrypt_join_accept, DevNonce, JoinError, NetworkCredentials};
use lorawan_device::session::{
    AppKey, AppSKey, DevAddr, DownlinkError, NwkSKey, Response, SendData, SendError, Session,
};

fn hex(s: &str) -> Vec<u8> {
    (0..s.len()).step_by(2).map(|i| u8::from_str_radix(&s[i..i + 2], 16).unwrap()).collect()
}

fn key(s: &str) -> [u8; 16] {
    hex(s).try_into().unwrap()
}

fn credentials() -> NetworkCredentials {
    NetworkCredentials {
        app_eui: [1, 2, 3, 4, 5, 6, 7, 8],
        dev_eui: [0x11, 0x12, 0x13, 0x14, 0x15, 0x16, 0x17, 0x18],
        app_key: AppKey(key("00112233445566778899aabbccddeeff")),
    }
}

fn joined() -> Session {
    let accept = decrypt_join_accept(&credentials().app_key, &hex("20a09f45500472abf7329ef11ee0501092")).unwrap();
    Session::derive_new(&accept, DevNonce(1), &credentials())
}

#[test]
fn cmac_matches_rfc4493() {
    let k = key("2b7e151628aed2a6abf7158809cf4f3c");
    assert_eq!(compute_join_mic(&k, &[]), [0xbb, 0x1d, 0x69, 0x29]);
    assert_eq!(compute_join_mic(&k, &hex("6bc1bee22e409f96e93d7e117393172a")), [0x07, 0x0a, 0x16, 0xb4]);
}

#[test]
fn session_key_block_is_encrypted() {
    let k = key("00112233445566778899aabbccddeeff");
    let r = derive_session_key(&k, 1, &[0, 0, 0], &[0, 0, 0], 0);
    assert_eq!(r.to_vec(), hex("141cb2193eab67101d177fa95249c8ca"));
}

#[test]
fn payload_encryption_is_its_own_inverse() {
    let k = key("2273c4a791225492e8d369d083dd357e");
    let data: Vec<u8> = (0..40).collect();
    let enc = crypt_frm_payload(&k, 0, &[4, 3, 2, 1], 7, &data);
    assert_ne!(enc, data);
    assert_eq!(crypt_frm_payload(&k, 0, &[4, 3, 2, 1], 7, &enc), data);
}

#[test]
fn join_and_first_uplink_match_reference() {
    let creds = credentials();
    assert_eq!(build_join_request(&creds, DevNonce(1)), hex("0001020304050607081112131415161718010025755ccf"));
    let accept = decrypt_join_accept(&creds.app_key, &hex("20a09f45500472abf7329ef11ee0501092")).unwrap();
    assert_eq!(accept.app_nonce, [1, 2, 3]);
    assert_eq!(accept.net_id, [0x13, 0, 0]);
    assert_eq!(accept.dev_addr, DevAddr([4, 3, 2, 1]));
    assert_eq!(accept.rx_delay, 1);
    assert!(accept.cf_list.is_none());
    let mut session = Session::derive_new(&accept, DevNonce(1), &creds);
    assert_eq!(session.nwkskey().0.to_vec(), hex("d70c297f3ca00034341ebfdae84dcc6c"));
    assert_eq!(session.appskey().0.to_vec(), hex("2273c4a791225492e8d369d083dd357e"));
    let mut tx = Vec::new();
    let data = SendData { data: &[0x01, 0x02, 0x03], fport: 4, confirmed: false };
    assert_eq!(session.prepare_buffer(&data, &mut tx), Ok(0));
    assert_eq!(tx, hex("400403020100000004737a9d5d88b3da"));
}

#[test]
fn join_accept_with_bad_mic_or_shape() {
    let creds = credentials();
    let mut f = hex("20a09f45500472abf7329ef11ee0501092");
    f[16] ^= 1;
    assert_eq!(decrypt_join_accept(&creds.app_key, &f), Err(JoinError::MicMismatch));
    assert_eq!(decrypt_join_accept(&creds.app_key, &f[..16]), Err(JoinError::Malformed));
    f[0] = 0x40;
    assert_eq!(decrypt_join_accept(&creds.app_key, &f), Err(JoinError::Malformed));
}

#[test]
fn uplink_counter_increases_and_expires() {
    let mut session = joined();
    let mut tx = Vec::new();
    let data = SendData { data: &[1], fport: 1, confirmed: false };
    assert_eq!(session.prepare_buffer(&data, &mut tx), Ok(0));
    assert_eq!(session.prepare_buffer(&data, &mut tx), Ok(0));
    assert_eq!(session.rx2_complete(), Response::RxComplete);
    assert_eq!(session.prepare_buffer(&data, &mut tx), Ok(1));
    let confirmed = SendData { data: &[1], fport: 1, confirmed: true };
    assert_eq!(session.prepare_buffer(&confirmed, &mut tx), Ok(1));
    assert_eq!(session.rx2_complete(), Response::NoAck);
    assert_eq!(session.fcnt_up, 2);
    session.fcnt_up = 0xFFFF_FFFE;
    assert_eq!(session.prepare_buffer(&data, &mut tx), Ok(0xFFFF_FFFE));
    assert_eq!(session.rx2_complete(), Response::RxComplete);
    assert_eq!(session.rx2_complete(), Response::SessionExpired);
    assert_eq!(session.fcnt_up, 0xFFFF_FFFF);
    assert_eq!(session.prepare_buffer(&data, &mut tx), Err(SendError::SessionExpired));
    assert!(tx.is_empty());
    assert_eq!(session.prepare_buffer(&data, &mut tx), Err(SendError::SessionExpired));
}

#[test]
fn uplink_carries_pending_answers_and_ack() {
    let mut session = joined();
    session.fcnt_up = 1;
    session.uplink.set_downlink_confirmation();
    session
        .uplink
        .add_mac_command(UplinkMacCommand::LinkADRAns { channel_mask_ack: true, data_rate_ack: true, tx_power_ack: true })
        .unwrap();
    let mut tx = Vec::new();
    let data = SendData { data: &[0xaa], fport: 4, confirmed: true };
    assert_eq!(session.prepare_buffer(&data, &mut tx), Ok(1));
    assert_eq!(tx, hex("8004030201220100030704d4c7618fdb"));
    assert!(!session.uplink.confirms_downlink());
    assert!(session.confirmed);
}

#[test]
fn queue_is_bounded_and_fopts_limited() {
    let mut session = joined();
    let ans = UplinkMacCommand::DevStatusAns { battery: 1, margin: 1 };
    for _ in 0..8 {
        assert_eq!(session.uplink.add_mac_command(ans), Ok(()));
    }
    assert_eq!(session.uplink.add_mac_command(ans), Err(ans));
    let mut tx = vec![9];
    let data = SendData { data: &[], fport: 1, confirmed: false };
    assert_eq!(session.prepare_buffer(&data, &mut tx), Err(SendError::MacCommandsTooLong));
    assert!(tx.is_empty());
}

#[test]
fn payload_too_long() {
    let mut session = joined();
    let mut tx = Vec::new();
    let big = vec![0u8; 243];
    assert_eq!(
        session.prepare_buffer(&SendData { data: &big, fport: 1, confirmed: false }, &mut tx),
        Err(SendError::PayloadTooLong)
    );
    let ok = vec![0u8; 242];
    assert_eq!(session.prepare_buffer(&SendData { data: &ok, fport: 1, confirmed: false }, &mut tx), Ok(0));
    assert_eq!(tx.len(), 255);
}

#[test]
fn downlink_accepted_then_replay_rejected() {
    let mut session = joined();
    let frame = hex("6004030201030500020702034aab9163aea9");
    let d = session.process_downlink(&frame).unwrap();
    assert_eq!(d.fcnt, 5);
    assert_eq!(d.fport, Some(3));
    assert_eq!(d.payload, vec![0x10, 0x20]);
    assert_eq!(d.mac_commands, vec![DownlinkMacCommand::LinkCheckAns { margin: 7, gateway_count: 2 }]);
    assert!(!d.confirmed);
    assert_eq!(session.fcnt_down, 5);
    assert_eq!(session.process_downlink(&frame).err(), Some(DownlinkError::Replay));
    let mut forged = frame.clone();
    let n = forged.len();
    forged[n - 1] ^= 0xff;
    assert_eq!(session.process_downlink(&forged).err(), Some(DownlinkError::Replay));
}

#[test]
fn downlink_port_zero_and_confirmation() {
    let mut session = joined();
    let d = session.process_downlink(&hex("a00403020100060000e9cc8ef42c99496b00")).unwrap();
    assert_eq!(d.fport, Some(0));
    assert!(d.payload.is_empty());
    assert!(d.confirmed);
    assert_eq!(
        d.mac_commands,
        vec![DownlinkMacCommand::LinkADRReq { data_rate: 5, tx_power: 3, channel_mask: 7, redundancy: 0 }]
    );
    assert!(session.uplink.confirms_downlink());
}

#[test]
fn downlink_errors() {
    let mut session = joined();
    let good = hex("6004030201030500020702034aab9163aea9");
    let mut bad_mic = good.clone();
    bad_mic[17] ^= 1;
    assert_eq!(session.process_downlink(&bad_mic).err(), Some(DownlinkError::MicMismatch));
    let mut other = good.clone();
    other[1] = 9;
    assert_eq!(session.process_downlink(&other).err(), Some(DownlinkError::WrongAddress));
    assert_eq!(session.process_downlink(&good[..11]).err(), Some(DownlinkError::Malformed));
    let mut uplink_type = good.clone();
    uplink_type[0] = 0x40;
    assert_eq!(session.process_downlink(&uplink_type).err(), Some(DownlinkError::Malformed));
    assert!(!session.downlink_seen);
    assert!(session.process_downlink(&good).is_ok());
}

#[test]
fn session_getters() {
    let s = Session::new(NwkSKey([1; 16]), AppSKey([2; 16]), DevAddr([1, 2, 3, 4]));
    assert_eq!(s.devaddr(), &DevAddr([1, 2, 3, 4]));
    assert_eq!(s.newskey(), &NwkSKey([1; 16]));
    let k = s.get_session_keys().unwrap();
    assert_eq!(k.appskey, AppSKey([2; 16]));
    assert_eq!(s.fcnt_up, 0);
}

#[test]
fn join_accept_with_cf_list() {
    let creds = credentials();
    let frame = hex("20d5138da1d5852b11e8a2c0738b8d7da95f358630a833d31a8124e21eb8d26f3a");
    let accept = decrypt_join_accept(&creds.app_key, &frame).unwrap();
    assert_eq!(accept.app_nonce, [9, 8, 7]);
    assert_eq!(accept.dev_addr, DevAddr([0xaa, 0xbb, 0xcc, 0xdd]));
    assert_eq!(accept.dl_settings, 0x12);
    assert_eq!(accept.rx_delay, 5);
    let cf = accept.cf_list.unwrap();
    assert_eq!(&cf[..3], &[0x18, 0x4f, 0x84]);
    assert_eq!(cf[15], 0);
}

#[test]
fn counter_increment_after_downlink() {
    let mut session = joined();
    assert!(session.fcnt_up_increment());
    assert_eq!(session.fcnt_up, 1);
    session.fcnt_up = 0xFFFF_FFFF;
    assert!(!session.fcnt_up_increment());
    assert_eq!(session.fcnt_up, 0xFFFF_FFFF);
}

#[test]
fn session_keys_from_session() {
    let s = Session::new(NwkSKey([1; 16]), AppSKey([2; 16]), DevAddr([1, 2, 3, 4]));
    let k = lorawan_device::session::SessionKeys::from(s);
    assert_eq!(k.nwkskey, NwkSKey([1; 16]));
    assert_eq!(k.appskey, AppSKey([2; 16]));
    assert_eq!(k.devaddr, DevAddr([1, 2, 3, 4]));
}

#[test]
fn derived_session_starts_unconfirmed() {
    let s = joined();
    assert!(!s.confirmed);
    assert!(!s.uplink.confirms_downlink());
    assert_eq!(s.fcnt_down, 0);
}

#[test]
fn replayed_confirmed_downlink_has_no_effect() {
    let mut session = joined();
    let confirmed = hex("a00403020100060000e9cc8ef42c99496b00");
    session.process_downlink(&confirmed).unwrap();
    let mut tx = Vec::new();
    let data = SendData { data: &[0xaa], fport: 4, confirmed: false };
    session.prepare_buffer(&data, &mut tx).unwrap();
    assert_eq!(tx[5], 0x20);
    assert_eq!(session.process_downlink(&confirmed).err(), Some(DownlinkError::Replay));
    assert!(!session.uplink.confirms_downlink());
    assert_eq!(session.fcnt_down, 6);
    assert_eq!(session.prepare_buffer(&data, &mut tx), Ok(0));
    assert_eq!(tx[5], 0x00);
}
