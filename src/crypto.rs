//! The cryptographic binding of LoRaWAN 1.0: session key derivation, payload
//! encryption and message integrity codes, built on AES-128 and AES-CMAC.
use vstd::prelude::*;

use aes::cipher::generic_array::GenericArray;
use aes::cipher::{BlockEncrypt, KeyInit};
use cmac::Mac;

use crate::codec::le_bytes;

verus! {

/// AES-128 encryption of one 16-byte block under a 16-byte key.
pub uninterp spec fn aes128_encrypt(key: Seq<u8>, block: Seq<u8>) -> Seq<u8>;

/// The 16-byte AES-CMAC of a message under a 16-byte key.
pub uninterp spec fn aes128_cmac(key: Seq<u8>, msg: Seq<u8>) -> Seq<u8>;

/// Relies on aes::Aes128 (KeyInit::new, BlockEncrypt::encrypt_block): one
/// block encrypted under the key.
#[verifier::external_body]
fn aes_encrypt_block(key: &[u8; 16], block: &[u8; 16]) -> (r: [u8; 16])
    ensures
        r@ == aes128_encrypt(key@, block@),
{
    let cipher = aes::Aes128::new(GenericArray::from_slice(key));
    let mut b = GenericArray::clone_from_slice(block);
    cipher.encrypt_block(&mut b);
    b.into()
}

/// Relies on cmac::Cmac<aes::Aes128> (Mac::new, Mac::update, Mac::finalize):
/// the 16-byte tag of the message under the key.
#[verifier::external_body]
fn aes_cmac(key: &[u8; 16], msg: &[u8]) -> (r: [u8; 16])
    ensures
        r@ == aes128_cmac(key@, msg@),
{
    let mut mac = <cmac::Cmac<aes::Aes128> as Mac>::new(GenericArray::from_slice(key));
    mac.update(msg);
    mac.finalize().into_bytes().into()
}

/// Direction byte of uplink frames.
pub const UPLINK: u8 = 0;

/// Direction byte of downlink frames.
pub const DOWNLINK: u8 = 1;

/// Block `A_i` whose encryption gives the key stream for bytes `16 * (i - 1)`
/// to `16 * i - 1` of a frame payload.
pub open spec fn a_block(dir: u8, dev_addr: Seq<u8>, fcnt: u32, i: u8) -> Seq<u8> {
    seq![0x01u8, 0u8, 0u8, 0u8, 0u8, dir] + dev_addr + le_bytes(fcnt as nat, 4) + seq![0u8, i]
}

/// Block `B0` that precedes a data frame in its integrity code.
pub open spec fn b0_block(dir: u8, dev_addr: Seq<u8>, fcnt: u32, len: u8) -> Seq<u8> {
    seq![0x49u8, 0u8, 0u8, 0u8, 0u8, dir] + dev_addr + le_bytes(fcnt as nat, 4) + seq![0u8, len]
}

/// A frame payload encrypted (or decrypted: the operation is its own
/// inverse) under `key`.
pub open spec fn frm_crypt(key: Seq<u8>, dir: u8, dev_addr: Seq<u8>, fcnt: u32, payload: Seq<u8>) -> Seq<u8> {
    Seq::new(
        payload.len(),
        |j: int| payload[j] ^ aes128_encrypt(key, a_block(dir, dev_addr, fcnt, (j / 16 + 1) as u8))[j % 16],
    )
}

/// The 4-byte integrity code of a data frame's bytes `msg`.
pub open spec fn data_mic(nwkskey: Seq<u8>, dir: u8, dev_addr: Seq<u8>, fcnt: u32, msg: Seq<u8>) -> Seq<u8> {
    aes128_cmac(nwkskey, b0_block(dir, dev_addr, fcnt, msg.len() as u8) + msg).subrange(0, 4)
}

/// The 4-byte integrity code of a join frame's bytes `msg`.
pub open spec fn join_mic(app_key: Seq<u8>, msg: Seq<u8>) -> Seq<u8> {
    aes128_cmac(app_key, msg).subrange(0, 4)
}

/// The block encrypted under the root key to derive a session key: `kind` 1
/// gives the network key, 2 the application key.
pub open spec fn key_block(kind: u8, app_nonce: Seq<u8>, net_id: Seq<u8>, dev_nonce: u16) -> Seq<u8> {
    seq![kind] + app_nonce + net_id + le_bytes(dev_nonce as nat, 2) + seq![
        0u8,
        0u8,
        0u8,
        0u8,
        0u8,
        0u8,
        0u8,
    ]
}

/// A session key: the key block encrypted under the root key.
pub open spec fn session_key(app_key: Seq<u8>, kind: u8, app_nonce: Seq<u8>, net_id: Seq<u8>, dev_nonce: u16) -> Seq<u8> {
    aes128_encrypt(app_key, key_block(kind, app_nonce, net_id, dev_nonce))
}

fn push_le32(out: &mut [u8; 16], at: usize, v: u32)
    requires
        at + 4 <= 16,
    ensures
        final(out)@ == old(out)@.subrange(0, at as int) + le_bytes(v as nat, 4) + old(out)@.subrange(
            at + 4,
            16,
        ),
{
    reveal_with_fuel(le_bytes, 5);
    out[at] = (v % 256) as u8;
    out[at + 1] = ((v / 256) % 256) as u8;
    out[at + 2] = ((v / 65536) % 256) as u8;
    out[at + 3] = ((v / 16777216) % 256) as u8;
    assert(v as nat / 256 / 256 == v as nat / 65536) by (nonlinear_arith);
    assert(v as nat / 256 / 256 / 256 == v as nat / 16777216) by (nonlinear_arith);
    assert(final(out)@ =~= old(out)@.subrange(0, at as int) + le_bytes(v as nat, 4) + old(
        out,
    )@.subrange(at + 4, 16));
}

/// Builds `A_i` or `B0`: `first`, four zeros, the direction, the address, the
/// counter, a zero and `last`.
fn counter_block(first: u8, dir: u8, dev_addr: &[u8; 4], fcnt: u32, last: u8) -> (r: [u8; 16])
    ensures
        r@ == seq![first, 0u8, 0u8, 0u8, 0u8, dir] + dev_addr@ + le_bytes(fcnt as nat, 4) + seq![
            0u8,
            last,
        ],
{
    let mut b = [0u8; 16];
    b[0] = first;
    b[5] = dir;
    b[6] = dev_addr[0];
    b[7] = dev_addr[1];
    b[8] = dev_addr[2];
    b[9] = dev_addr[3];
    push_le32(&mut b, 10, fcnt);
    b[15] = last;
    proof {
        lemma_le_bytes_4(fcnt as nat);
    }
    assert(b@ =~= seq![first, 0u8, 0u8, 0u8, 0u8, dir] + dev_addr@ + le_bytes(fcnt as nat, 4)
        + seq![0u8, last]);
    b
}

proof fn lemma_le_bytes_4(v: nat)
    ensures
        le_bytes(v, 4).len() == 4,
{
    reveal_with_fuel(le_bytes, 5);
}

/// Encrypts or decrypts a frame payload under `key`.
pub fn crypt_frm_payload(key: &[u8; 16], dir: u8, dev_addr: &[u8; 4], fcnt: u32, payload: &[u8]) -> (r: Vec<u8>)
    requires
        payload@.len() <= 255,
    ensures
        r@ == frm_crypt(key@, dir, dev_addr@, fcnt, payload@),
{
    let mut out: Vec<u8> = Vec::new();
    let mut j: usize = 0;
    let mut stream = [0u8; 16];
    while j < payload.len()
        invariant
            payload@.len() <= 255,
            j <= payload@.len(),
            out@.len() == j,
            j % 16 != 0 ==> stream@ == aes128_encrypt(
                key@,
                a_block(dir, dev_addr@, fcnt, (j / 16 + 1) as u8),
            ),
            forall|k: int|
                0 <= k < j ==> out@[k] == payload@[k] ^ aes128_encrypt(
                    key@,
                    a_block(dir, dev_addr@, fcnt, (k / 16 + 1) as u8),
                )[k % 16],
        decreases payload@.len() - j,
    {
        if j % 16 == 0 {
            let a = counter_block(0x01, dir, dev_addr, fcnt, (j / 16 + 1) as u8);
            stream = aes_encrypt_block(key, &a);
        }
        out.push(payload[j] ^ stream[j % 16]);
        j = j + 1;
    }
    assert(out@ =~= frm_crypt(key@, dir, dev_addr@, fcnt, payload@));
    out
}

/// The integrity code of a data frame whose bytes before the code are `msg`.
pub fn compute_data_mic(nwkskey: &[u8; 16], dir: u8, dev_addr: &[u8; 4], fcnt: u32, msg: &[u8]) -> (r: [u8; 4])
    requires
        msg@.len() <= 255,
    ensures
        r@ == data_mic(nwkskey@, dir, dev_addr@, fcnt, msg@),
{
    let b0 = counter_block(0x49, dir, dev_addr, fcnt, msg.len() as u8);
    let mut input: Vec<u8> = Vec::new();
    let mut i: usize = 0;
    while i < 16
        invariant
            i <= 16,
            input@ == b0@.subrange(0, i as int),
        decreases 16 - i,
    {
        input.push(b0[i]);
        i = i + 1;
    }
    let mut i: usize = 0;
    while i < msg.len()
        invariant
            i <= msg@.len(),
            input@ == b0@ + msg@.subrange(0, i as int),
        decreases msg@.len() - i,
    {
        input.push(msg[i]);
        i = i + 1;
    }
    assert(b0@.subrange(0, 16) =~= b0@);
    assert(msg@.subrange(0, msg@.len() as int) =~= msg@);
    let tag = aes_cmac(nwkskey, input.as_slice());
    let r = [tag[0], tag[1], tag[2], tag[3]];
    assert(r@ =~= tag@.subrange(0, 4));
    r
}

/// The integrity code of a join frame whose bytes before the code are `msg`.
pub fn compute_join_mic(app_key: &[u8; 16], msg: &[u8]) -> (r: [u8; 4])
    ensures
        r@ == join_mic(app_key@, msg@),
{
    let tag = aes_cmac(app_key, msg);
    let r = [tag[0], tag[1], tag[2], tag[3]];
    assert(r@ =~= tag@.subrange(0, 4));
    r
}

/// Derives a session key from the root key and the values of a join:
/// `kind` 1 for the network key, 2 for the application key.
pub fn derive_session_key(app_key: &[u8; 16], kind: u8, app_nonce: &[u8; 3], net_id: &[u8; 3], dev_nonce: u16) -> (r: [u8; 16])
    ensures
        r@ == session_key(app_key@, kind, app_nonce@, net_id@, dev_nonce),
{
    reveal_with_fuel(le_bytes, 3);
    let mut b = [0u8; 16];
    b[0] = kind;
    b[1] = app_nonce[0];
    b[2] = app_nonce[1];
    b[3] = app_nonce[2];
    b[4] = net_id[0];
    b[5] = net_id[1];
    b[6] = net_id[2];
    b[7] = (dev_nonce % 256) as u8;
    b[8] = (dev_nonce / 256) as u8;
    assert(b@ =~= key_block(kind, app_nonce@, net_id@, dev_nonce));
    aes_encrypt_block(app_key, &b)
}

/// Decrypts the blocks of a join-accept: the network encrypts them with AES
/// decryption, so the device applies AES encryption to each 16-byte block.
pub fn decrypt_join_blocks(app_key: &[u8; 16], enc: &[u8]) -> (r: Vec<u8>)
    requires
        enc@.len() % 16 == 0,
    ensures
        r@.len() == enc@.len(),
        forall|k: int|
            0 <= k < enc@.len() / 16 ==> #[trigger] r@.subrange(16 * k, 16 * k + 16) == aes128_encrypt(
                app_key@,
                enc@.subrange(16 * k, 16 * k + 16),
            ),
{
    let mut out: Vec<u8> = Vec::new();
    let mut k: usize = 0;
    while k < enc.len() / 16
        invariant
            enc@.len() % 16 == 0,
            k <= enc@.len() / 16,
            out@.len() == 16 * k,
            forall|m: int|
                0 <= m < k ==> #[trigger] out@.subrange(16 * m, 16 * m + 16) == aes128_encrypt(
                    app_key@,
                    enc@.subrange(16 * m, 16 * m + 16),
                ),
        decreases enc@.len() / 16 - k,
    {
        let mut block = [0u8; 16];
        assert(16 * k + 16 <= enc@.len()) by (nonlinear_arith)
            requires
                k < enc@.len() / 16,
        ;
        let base: usize = 16 * k;
        let mut i: usize = 0;
        while i < 16
            invariant
                base == 16 * k,
                16 * k + 16 <= enc@.len(),
                k < enc@.len() / 16,
                enc@.len() % 16 == 0,
                i <= 16,
                block@.len() == 16,
                forall|t: int| 0 <= t < i ==> block@[t] == enc@[16 * k + t],
            decreases 16 - i,
        {
            block[i] = enc[base + i];
            i = i + 1;
        }
        assert(block@ =~= enc@.subrange(16 * k, 16 * k + 16));
        let plain = aes_encrypt_block(app_key, &block);
        let ghost before = out@;
        let mut i: usize = 0;
        while i < 16
            invariant
                i <= 16,
                out@ == before + plain@.subrange(0, i as int),
                plain@.len() == 16,
            decreases 16 - i,
        {
            out.push(plain[i]);
            i = i + 1;
        }
        assert(plain@.subrange(0, 16) =~= plain@);
        assert forall|m: int| 0 <= m < k + 1 implies #[trigger] out@.subrange(16 * m, 16 * m + 16)
            == aes128_encrypt(app_key@, enc@.subrange(16 * m, 16 * m + 16)) by {
            if m < k {
                assert(out@.subrange(16 * m, 16 * m + 16) =~= before.subrange(16 * m, 16 * m + 16));
            } else {
                assert(out@.subrange(16 * m, 16 * m + 16) =~= plain@);
            }
        }
        k = k + 1;
    }
    out
}

} // verus!
