//! Over-the-air activation: the join request, the join accept, and the
//! session derived from them.
use vstd::prelude::*;

use crate::codec::le_bytes;
use crate::crypto::{
    aes128_encrypt, compute_join_mic, decrypt_join_blocks, derive_session_key, join_mic,
    session_key,
};
use crate::session::{AppKey, AppSKey, DevAddr, NwkSKey, Session};

verus! {

/// A join attempt's nonce; each attempt with the same root key must use a
/// new one.
#[derive(Debug, Clone, Copy, PartialEq, Eq, Structural)]
pub struct DevNonce(pub u16);

/// What a device joins with: its identifiers, as they go on the wire, and
/// its root key.
#[derive(Debug, Clone, Copy, PartialEq, Eq)]
pub struct NetworkCredentials {
    pub app_eui: [u8; 8],
    pub dev_eui: [u8; 8],
    pub app_key: AppKey,
}

impl NetworkCredentials {
    pub fn appkey(&self) -> (r: &AppKey)
        ensures
            *r == self.app_key,
    {
        &self.app_key
    }
}

/// The bytes of a join request before its MIC.
pub open spec fn join_request_body(creds: NetworkCredentials, dev_nonce: u16) -> Seq<u8> {
    seq![0x00u8] + creds.app_eui@ + creds.dev_eui@ + le_bytes(dev_nonce as nat, 2)
}

/// Builds the join request for `dev_nonce`: MHDR, AppEUI, DevEUI, DevNonce
/// and the MIC under the root key.
pub fn build_join_request(creds: &NetworkCredentials, dev_nonce: DevNonce) -> (r: Vec<u8>)
    ensures
        r@ == join_request_body(*creds, dev_nonce.0) + join_mic(
            creds.app_key.0@,
            join_request_body(*creds, dev_nonce.0),
        ),
{
    let mut msg: Vec<u8> = Vec::new();
    msg.push(0x00);
    let mut i: usize = 0;
    while i < 8
        invariant
            i <= 8,
            msg@ == seq![0x00u8] + creds.app_eui@.subrange(0, i as int),
        decreases 8 - i,
    {
        msg.push(creds.app_eui[i]);
        i = i + 1;
    }
    let ghost head = msg@;
    let mut i: usize = 0;
    while i < 8
        invariant
            i <= 8,
            msg@ == head + creds.dev_eui@.subrange(0, i as int),
        decreases 8 - i,
    {
        msg.push(creds.dev_eui[i]);
        i = i + 1;
    }
    msg.push((dev_nonce.0 % 256) as u8);
    msg.push((dev_nonce.0 / 256) as u8);
    proof {
        reveal_with_fuel(le_bytes, 3);
    }
    assert(creds.app_eui@.subrange(0, 8) =~= creds.app_eui@);
    assert(creds.dev_eui@.subrange(0, 8) =~= creds.dev_eui@);
    assert(msg@ =~= join_request_body(*creds, dev_nonce.0));
    let mic = compute_join_mic(&creds.app_key.0, msg.as_slice());
    let ghost body = msg@;
    msg.push(mic[0]);
    msg.push(mic[1]);
    msg.push(mic[2]);
    msg.push(mic[3]);
    assert(msg@ =~= body + mic@);
    msg
}

/// The fields of an accepted join.
#[derive(Debug, Clone, Copy, PartialEq, Eq)]
pub struct JoinAccept {
    pub app_nonce: [u8; 3],
    pub net_id: [u8; 3],
    pub dev_addr: DevAddr,
    pub dl_settings: u8,
    pub rx_delay: u8,
    pub cf_list: Option<[u8; 16]>,
}

/// Why a join accept was refused.
#[derive(Debug, Clone, Copy, PartialEq, Eq, Structural)]
pub enum JoinError {
    /// Not 17 or 33 bytes, or not a join accept.
    Malformed,
    /// Its MIC does not match under the root key.
    MicMismatch,
}

/// The decrypted part of a join accept (everything after MHDR): the network
/// encrypts it with AES decryption, so the device applies AES encryption to
/// each 16-byte block.
pub open spec fn join_accept_plain(app_key: Seq<u8>, f: Seq<u8>) -> Seq<u8> {
    if f.len() == 17 {
        aes128_encrypt(app_key, f.subrange(1, 17))
    } else {
        aes128_encrypt(app_key, f.subrange(1, 17)) + aes128_encrypt(app_key, f.subrange(17, 33))
    }
}

/// A join accept's MIC matches its decrypted bytes.
pub open spec fn join_accept_mic_ok(app_key: Seq<u8>, f: Seq<u8>) -> bool {
    let p = join_accept_plain(app_key, f);
    p.subrange(p.len() - 4, p.len() as int) == join_mic(
        app_key,
        seq![f[0]] + p.subrange(0, p.len() - 4),
    )
}

/// Decrypts and checks a join accept and reads its fields.
pub fn decrypt_join_accept(app_key: &AppKey, frame: &[u8]) -> (r: Result<JoinAccept, JoinError>)
    ensures
        !((frame@.len() == 17 || frame@.len() == 33) && frame@[0] == 0x20) ==> r
            == Err::<JoinAccept, JoinError>(JoinError::Malformed),
        (frame@.len() == 17 || frame@.len() == 33) && frame@[0] == 0x20 ==> ({
            let p = join_accept_plain(app_key.0@, frame@);
            &&& !join_accept_mic_ok(app_key.0@, frame@) ==> r == Err::<JoinAccept, JoinError>(
                JoinError::MicMismatch,
            )
            &&& join_accept_mic_ok(app_key.0@, frame@) ==> r is Ok && r->Ok_0.app_nonce@
                == p.subrange(0, 3) && r->Ok_0.net_id@ == p.subrange(3, 6)
                && r->Ok_0.dev_addr.0@ == p.subrange(6, 10) && r->Ok_0.dl_settings == p[10]
                && r->Ok_0.rx_delay == p[11] && (frame@.len() == 17 <==> r->Ok_0.cf_list is None)
                && (frame@.len() == 33 ==> r->Ok_0.cf_list->0@ == p.subrange(12, 28))
        }),
{
    let len = frame.len();
    if !((len == 17 || len == 33) && frame[0] == 0x20) {
        return Err(JoinError::Malformed);
    }
    let mut enc: Vec<u8> = Vec::new();
    let mut i: usize = 1;
    while i < len
        invariant
            1 <= i <= len,
            len == frame@.len(),
            enc@ == frame@.subrange(1, i as int),
        decreases len - i,
    {
        enc.push(frame[i]);
        i = i + 1;
    }
    let p = decrypt_join_blocks(&app_key.0, enc.as_slice());
    proof {
        assert(enc@.subrange(0, 16) =~= frame@.subrange(1, 17));
        assert(p@.subrange(16 * 0int, 16 * 0int + 16) == aes128_encrypt(
            app_key.0@,
            enc@.subrange(16 * 0int, 16 * 0int + 16),
        ));
        if len == 17 {
            assert(p@ =~= p@.subrange(0, 16));
        } else {
            assert(enc@.subrange(16, 32) =~= frame@.subrange(17, 33));
            assert(p@.subrange(16 * 1int, 16 * 1int + 16) == aes128_encrypt(
                app_key.0@,
                enc@.subrange(16 * 1int, 16 * 1int + 16),
            ));
            assert(p@ =~= p@.subrange(0, 16) + p@.subrange(16, 32));
        }
    }
    let n = p.len();
    let mut msg: Vec<u8> = Vec::new();
    msg.push(frame[0]);
    let mut i: usize = 0;
    while i < n - 4
        invariant
            n == p@.len(),
            n >= 16,
            i <= n - 4,
            msg@ == seq![frame@[0]] + p@.subrange(0, i as int),
        decreases n - 4 - i,
    {
        msg.push(p[i]);
        i = i + 1;
    }
    let mic = compute_join_mic(&app_key.0, msg.as_slice());
    if !(p[n - 4] == mic[0] && p[n - 3] == mic[1] && p[n - 2] == mic[2] && p[n - 1] == mic[3]) {
        assert(!join_accept_mic_ok(app_key.0@, frame@)) by {
            let got = p@.subrange(n - 4, n as int);
            if got == mic@ {
                assert(got[0] == p@[n - 4]);
                assert(got[1] == p@[n - 3]);
                assert(got[2] == p@[n - 2]);
                assert(got[3] == p@[n - 1]);
            }
        }
        return Err(JoinError::MicMismatch);
    }
    assert(p@.subrange(n - 4, n as int) =~= mic@);
    let app_nonce = [p[0], p[1], p[2]];
    let net_id = [p[3], p[4], p[5]];
    let dev_addr = DevAddr([p[6], p[7], p[8], p[9]]);
    assert(app_nonce@ =~= p@.subrange(0, 3));
    assert(net_id@ =~= p@.subrange(3, 6));
    assert(dev_addr.0@ =~= p@.subrange(6, 10));
    let cf_list = if len == 33 {
        let c = [
            p[12],
            p[13],
            p[14],
            p[15],
            p[16],
            p[17],
            p[18],
            p[19],
            p[20],
            p[21],
            p[22],
            p[23],
            p[24],
            p[25],
            p[26],
            p[27],
        ];
        assert(c@ =~= p@.subrange(12, 28));
        Some(c)
    } else {
        None
    };
    Ok(JoinAccept { app_nonce, net_id, dev_addr, dl_settings: p[10], rx_delay: p[11], cf_list })
}

impl Session {
    /// The session that a join accept opens: keys derived from the root key,
    /// the join's nonces and the network identifier; the address the network
    /// assigned; both counters at zero.
    pub fn derive_new(
        decrypt: &JoinAccept,
        devnonce: DevNonce,
        credentials: &NetworkCredentials,
    ) -> (r: Session)
        ensures
            r.nwkskey.0@ == session_key(
                credentials.app_key.0@,
                1,
                decrypt.app_nonce@,
                decrypt.net_id@,
                devnonce.0,
            ),
            r.appskey.0@ == session_key(
                credentials.app_key.0@,
                2,
                decrypt.app_nonce@,
                decrypt.net_id@,
                devnonce.0,
            ),
            r.devaddr == decrypt.dev_addr,
            r.fcnt_up == 0,
            r.fcnt_down == 0,
            !r.downlink_seen,
            !r.confirmed,
            !r.uplink.confirm_downlink,
            r.uplink.commands().len() == 0,
    {
        let app_key = credentials.appkey();
        let nwk = derive_session_key(
            &app_key.0,
            1,
            &decrypt.app_nonce,
            &decrypt.net_id,
            devnonce.0,
        );
        let app = derive_session_key(
            &app_key.0,
            2,
            &decrypt.app_nonce,
            &decrypt.net_id,
            devnonce.0,
        );
        Session::new(NwkSKey(nwk), AppSKey(app), DevAddr(decrypt.dev_addr.0))
    }
}

} // verus!
