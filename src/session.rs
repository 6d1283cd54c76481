//! The session: keys, device address, frame counters and the MAC answers
//! waiting for the next uplink; building uplinks and checking downlinks.
use vstd::prelude::*;

use crate::codec::{
    decode_downlink_all, le_bytes, parse_downlink_mac_commands, wire_all, DownlinkMacCommand,
    UplinkMacCommand,
};
use crate::crypto::{
    compute_data_mic, crypt_frm_payload, data_mic, frm_crypt, session_key, derive_session_key,
    DOWNLINK, UPLINK,
};
use crate::maccommands::{build_mac_commands, Error};

verus! {

#[verifier::external_type_specification]
#[verifier::external_body]
#[verifier::reject_recursive_types(T)]
pub struct ExHeaplessVec<T, const N: usize>(heapless::Vec<T, N>);

/// The commands held by a queue of pending MAC answers, oldest first.
pub uninterp spec fn queued(q: heapless::Vec<UplinkMacCommand, 8>) -> Seq<UplinkMacCommand>;

/// Relies on heapless::Vec::new: an empty vector.
#[verifier::external_body]
fn queue_new() -> (r: heapless::Vec<UplinkMacCommand, 8>)
    ensures
        queued(r) == Seq::<UplinkMacCommand>::empty(),
{
    heapless::Vec::new()
}

/// Relies on heapless::Vec::push: appends when fewer than 8 items are held,
/// else hands the item back and changes nothing.
#[verifier::external_body]
fn queue_push(
    q: &mut heapless::Vec<UplinkMacCommand, 8>,
    c: UplinkMacCommand,
) -> (r: Result<(), UplinkMacCommand>)
    ensures
        queued(*old(q)).len() < 8 ==> r is Ok && queued(*final(q)) == queued(*old(q)).push(c),
        queued(*old(q)).len() >= 8 ==> r is Err && r->Err_0 == c && queued(*final(q)) == queued(
            *old(q),
        ),
        queued(*final(q)).len() <= 8,
{
    q.push(c)
}

/// Relies on heapless::Vec::clear: removes every item.
#[verifier::external_body]
fn queue_clear(q: &mut heapless::Vec<UplinkMacCommand, 8>)
    ensures
        queued(*final(q)) == Seq::<UplinkMacCommand>::empty(),
{
    q.clear()
}

/// Relies on heapless::Vec::as_slice: the items in order.
#[verifier::external_body]
fn queue_as_slice(q: &heapless::Vec<UplinkMacCommand, 8>) -> (r: &[UplinkMacCommand])
    ensures
        r@ == queued(*q),
{
    q.as_slice()
}

/// Network session key.
#[derive(Debug, Clone, Copy, PartialEq, Eq)]
pub struct NwkSKey(pub [u8; 16]);

/// Application session key.
#[derive(Debug, Clone, Copy, PartialEq, Eq)]
pub struct AppSKey(pub [u8; 16]);

/// Root key from which a join derives the session keys.
#[derive(Debug, Clone, Copy, PartialEq, Eq)]
pub struct AppKey(pub [u8; 16]);

/// Device address, least significant byte first as on the wire.
#[derive(Debug, Clone, Copy, PartialEq, Eq)]
pub struct DevAddr(pub [u8; 4]);

/// The keys and address of a session.
#[derive(Debug, Clone, Copy, PartialEq, Eq)]
pub struct SessionKeys {
    pub nwkskey: NwkSKey,
    pub appskey: AppSKey,
    pub devaddr: DevAddr,
}

impl From<Session> for SessionKeys {
    fn from(session: Session) -> (r: Self)
        ensures
            r == session.keys(),
    {
        SessionKeys { nwkskey: session.nwkskey, appskey: session.appskey, devaddr: session.devaddr }
    }
}

impl vstd::std_specs::convert::FromSpecImpl<Session> for SessionKeys {
    open spec fn obeys_from_spec() -> bool {
        true
    }

    open spec fn from_spec(session: Session) -> Self {
        session.keys()
    }
}

/// MAC answers waiting for the next uplink, and whether that uplink must
/// acknowledge a confirmed downlink.
pub struct Uplink {
    pub pending: heapless::Vec<UplinkMacCommand, 8>,
    pub confirm_downlink: bool,
}

impl Uplink {
    /// The waiting answers, oldest first.
    pub open spec fn commands(&self) -> Seq<UplinkMacCommand> {
        queued(self.pending)
    }

    pub fn new() -> (r: Self)
        ensures
            r.commands() == Seq::<UplinkMacCommand>::empty(),
            !r.confirm_downlink,
    {
        Uplink { pending: queue_new(), confirm_downlink: false }
    }

    /// Queues an answer; when 8 are already waiting it is handed back.
    pub fn add_mac_command(&mut self, cmd: UplinkMacCommand) -> (r: Result<(), UplinkMacCommand>)
        ensures
            final(self).confirm_downlink == old(self).confirm_downlink,
            old(self).commands().len() < 8 ==> r is Ok && final(self).commands() == old(
                self,
            ).commands().push(cmd),
            old(self).commands().len() >= 8 ==> r == Err::<(), UplinkMacCommand>(cmd)
                && final(self).commands() == old(self).commands(),
    {
        queue_push(&mut self.pending, cmd)
    }

    pub fn confirms_downlink(&self) -> (r: bool)
        ensures
            r == self.confirm_downlink,
    {
        self.confirm_downlink
    }

    pub fn set_downlink_confirmation(&mut self)
        ensures
            final(self).confirm_downlink,
            final(self).commands() == old(self).commands(),
    {
        self.confirm_downlink = true;
    }

    pub fn clear_downlink_confirmation(&mut self)
        ensures
            !final(self).confirm_downlink,
            final(self).commands() == old(self).commands(),
    {
        self.confirm_downlink = false;
    }
}

/// Highest uplink counter; a session that reaches it has expired.
pub const FCNT_MAX: u32 = 0xFFFF_FFFF;

/// An active session.
pub struct Session {
    pub uplink: Uplink,
    pub confirmed: bool,
    pub nwkskey: NwkSKey,
    pub appskey: AppSKey,
    pub devaddr: DevAddr,
    pub fcnt_up: u32,
    pub fcnt_down: u32,
    /// Whether a downlink has been accepted, so that `fcnt_down` holds its counter.
    pub downlink_seen: bool,
}

/// What the end of a send-receive cycle means for the caller.
#[derive(Debug, Clone, Copy, PartialEq, Eq, Structural)]
pub enum Response {
    /// The uplink counter is used up: join again.
    SessionExpired,
    /// A confirmed uplink got no acknowledgement.
    NoAck,
    /// An unconfirmed uplink's receive windows closed.
    RxComplete,
}

/// What an application hands over to be sent.
pub struct SendData<'a> {
    pub data: &'a [u8],
    pub fport: u8,
    pub confirmed: bool,
}

/// Why an uplink could not be built.
#[derive(Debug, Clone, Copy, PartialEq, Eq, Structural)]
pub enum SendError {
    /// The uplink counter is used up.
    SessionExpired,
    /// The waiting MAC answers take more than the 15 bytes of FOpts.
    MacCommandsTooLong,
    /// The frame would exceed 255 bytes.
    PayloadTooLong,
}

/// Why a downlink was dropped.
#[derive(Debug, Clone, Copy, PartialEq, Eq, Structural)]
pub enum DownlinkError {
    /// Too short, too long, not a data downlink, or inconsistent lengths.
    Malformed,
    /// Addressed to another device.
    WrongAddress,
    /// Its counter is not above the last accepted downlink's.
    Replay,
    /// Its integrity code does not match.
    MicMismatch,
    /// Its MAC commands cannot be read.
    BadMacCommands,
}

/// A downlink that passed every check.
pub struct Downlink {
    pub fcnt: u32,
    pub fport: Option<u8>,
    pub payload: Vec<u8>,
    pub mac_commands: Vec<DownlinkMacCommand>,
    pub ack: bool,
    pub confirmed: bool,
}

/// The bytes of an uplink data frame.
pub open spec fn uplink_frame(
    keys: SessionKeys,
    fcnt: u32,
    confirmed: bool,
    ack: bool,
    fopts: Seq<u8>,
    fport: u8,
    payload: Seq<u8>,
) -> Seq<u8> {
    let addr = keys.devaddr.0@;
    let key = if fport == 0 {
        keys.nwkskey.0@
    } else {
        keys.appskey.0@
    };
    let msg = seq![if confirmed { 0x80u8 } else { 0x40u8 }] + addr + seq![
        (if ack { 0x20int } else { 0int } + fopts.len()) as u8,
    ] + le_bytes((fcnt % 65536) as nat, 2) + fopts + seq![fport] + frm_crypt(
        key,
        UPLINK,
        addr,
        fcnt,
        payload,
    );
    msg + data_mic(keys.nwkskey.0@, UPLINK, addr, fcnt, msg)
}

/// The session operations that touch the uplink counter.
#[derive(Debug, Clone, Copy, PartialEq, Eq, Structural)]
pub enum SessionCall {
    PrepareBuffer,
    Rx2Complete,
    FcntUpIncrement,
}

/// The uplink counter after one call: `prepare_buffer` leaves it, and
/// `rx2_complete` and `fcnt_up_increment` move it on by one until it is used
/// up.
pub open spec fn counter_step(fcnt: u32, call: SessionCall) -> u32 {
    match call {
        SessionCall::PrepareBuffer => fcnt,
        _ => if fcnt == FCNT_MAX {
            fcnt
        } else {
            (fcnt + 1) as u32
        },
    }
}

/// The uplink counter after a run of calls.
pub open spec fn counter_after(fcnt: u32, calls: Seq<SessionCall>) -> u32
    decreases calls.len(),
{
    if calls.len() == 0 {
        fcnt
    } else {
        counter_step(counter_after(fcnt, calls.drop_last()), calls.last())
    }
}

/// Over any run of `prepare_buffer`, `rx2_complete` and `fcnt_up_increment`
/// calls the uplink counter never goes back; each call that closes a cycle
/// before the counter is used up moves it on by exactly one, so no two
/// cycles share a counter; and once it is used up it stays so, so that every
/// later `prepare_buffer` fails.
pub proof fn lemma_uplink_counter(start: u32, calls: Seq<SessionCall>)
    ensures
        forall|i: int, j: int|
            0 <= i <= j <= calls.len() ==> counter_after(start, #[trigger] calls.take(i))
                <= counter_after(start, #[trigger] calls.take(j)),
        forall|i: int|
            0 <= i < calls.len() && calls[i] != SessionCall::PrepareBuffer && counter_after(
                start,
                #[trigger] calls.take(i),
            ) < FCNT_MAX ==> counter_after(start, calls.take(i + 1)) == counter_after(
                start,
                calls.take(i),
            ) + 1,
        forall|i: int|
            0 <= i <= calls.len() && counter_after(start, #[trigger] calls.take(i)) == FCNT_MAX
                ==> counter_after(start, calls) == FCNT_MAX,
    decreases calls.len(),
{
    if calls.len() > 0 {
        let init = calls.drop_last();
        lemma_uplink_counter(start, init);
        assert forall|i: int| 0 <= i <= init.len() implies #[trigger] calls.take(i) == init.take(
            i,
        ) by {
            assert(calls.take(i) =~= init.take(i));
        }
        assert(calls.take(calls.len() as int) =~= calls);
        assert(calls.take(calls.len() as int).drop_last() =~= init);
        assert forall|i: int| 0 <= i < calls.len() implies #[trigger] calls.take(i + 1).drop_last()
            == calls.take(i) && calls.take(i + 1).last() == calls[i] by {
            assert(calls.take(i + 1).drop_last() =~= calls.take(i));
        }
        assert(init.take(init.len() as int) =~= init);
    } else {
        assert forall|i: int| 0 <= i <= calls.len() implies #[trigger] calls.take(i) =~= calls by {}
    }
}

/// A data downlink's shape: length, message type, and FOpts that fit.
pub open spec fn downlink_well_formed(f: Seq<u8>) -> bool {
    &&& 12 <= f.len() <= 255
    &&& f[0] == 0x60 || f[0] == 0xa0
    &&& 12 + f[5] % 16 <= f.len()
}

/// The 32-bit counter of a downlink: the 16 bits it carries, in the window
/// of 65536 values where the last accepted counter lies.
pub open spec fn downlink_counter(last: u32, f: Seq<u8>) -> u32 {
    ((last / 65536) * 65536 + f[6] + 256 * f[7]) as u32
}

/// FOpts of a well-formed downlink.
pub open spec fn downlink_fopts(f: Seq<u8>) -> Seq<u8> {
    f.subrange(8, 8 + f[5] % 16)
}

/// FPort and FRMPayload of a well-formed downlink.
pub open spec fn downlink_body(f: Seq<u8>) -> Seq<u8> {
    f.subrange(8 + f[5] % 16, f.len() - 4)
}

/// The MIC carried by a well-formed downlink matches its bytes.
pub open spec fn downlink_mic_ok(keys: SessionKeys, counter: u32, f: Seq<u8>) -> bool {
    f.subrange(f.len() - 4, f.len() as int) == data_mic(
        keys.nwkskey.0@,
        DOWNLINK,
        keys.devaddr.0@,
        counter,
        f.subrange(0, f.len() - 4),
    )
}

/// The decrypted FRMPayload of a well-formed downlink (empty without FPort).
pub open spec fn downlink_plain(keys: SessionKeys, counter: u32, f: Seq<u8>) -> Seq<u8> {
    let body = downlink_body(f);
    if body.len() == 0 {
        seq![]
    } else {
        let key = if body[0] == 0 {
            keys.nwkskey.0@
        } else {
            keys.appskey.0@
        };
        frm_crypt(key, DOWNLINK, keys.devaddr.0@, counter, body.subrange(1, body.len() as int))
    }
}

/// Where a downlink's MAC commands are: the payload on port 0, else FOpts.
pub open spec fn downlink_command_bytes(keys: SessionKeys, counter: u32, f: Seq<u8>) -> Seq<u8> {
    let body = downlink_body(f);
    if body.len() > 0 && body[0] == 0 {
        downlink_plain(keys, counter, f)
    } else {
        downlink_fopts(f)
    }
}

/// Whether a session accepts a downlink: every check passes.
pub open spec fn downlink_ok(s: Session, f: Seq<u8>) -> bool {
    let counter = downlink_counter(s.fcnt_down, f);
    &&& downlink_well_formed(f)
    &&& f.subrange(1, 5) == s.keys().devaddr.0@
    &&& !(s.downlink_seen && counter <= s.fcnt_down)
    &&& downlink_mic_ok(s.keys(), counter, f)
    &&& decode_downlink_all(downlink_command_bytes(s.keys(), counter, f)) is Ok
}

/// A downlink whose counter is not above the last accepted one is never
/// accepted, whether or not its MIC is valid; `process_downlink` then
/// refuses it and leaves the session as it was.
pub proof fn lemma_replay_refused(s: Session, f: Seq<u8>)
    requires
        s.downlink_seen,
        downlink_well_formed(f),
        downlink_counter(s.fcnt_down, f) <= s.fcnt_down,
    ensures
        !downlink_ok(s, f),
{
}

fn copy_range(f: &[u8], lo: usize, hi: usize) -> (r: Vec<u8>)
    requires
        lo <= hi <= f@.len(),
    ensures
        r@ == f@.subrange(lo as int, hi as int),
{
    let mut out: Vec<u8> = Vec::new();
    let mut i: usize = lo;
    while i < hi
        invariant
            lo <= i <= hi,
            hi <= f@.len(),
            out@ == f@.subrange(lo as int, i as int),
        decreases hi - i,
    {
        out.push(f[i]);
        i = i + 1;
    }
    out
}

impl Session {
    pub open spec fn keys(&self) -> SessionKeys {
        SessionKeys { nwkskey: self.nwkskey, appskey: self.appskey, devaddr: self.devaddr }
    }

    /// A fresh session: both counters at zero, nothing waiting.
    pub fn new(nwkskey: NwkSKey, appskey: AppSKey, devaddr: DevAddr) -> (r: Self)
        ensures
            r.nwkskey == nwkskey,
            r.appskey == appskey,
            r.devaddr == devaddr,
            r.fcnt_up == 0,
            r.fcnt_down == 0,
            !r.downlink_seen,
            !r.confirmed,
            r.uplink.commands() == Seq::<UplinkMacCommand>::empty(),
            !r.uplink.confirm_downlink,
    {
        Session {
            nwkskey,
            appskey,
            devaddr,
            confirmed: false,
            fcnt_down: 0,
            fcnt_up: 0,
            downlink_seen: false,
            uplink: Uplink::new(),
        }
    }

    pub fn devaddr(&self) -> (r: &DevAddr)
        ensures
            *r == self.devaddr,
    {
        &self.devaddr
    }

    pub fn appskey(&self) -> (r: &AppSKey)
        ensures
            *r == self.appskey,
    {
        &self.appskey
    }

    /// The network session key, under its former name.
    pub fn newskey(&self) -> (r: &NwkSKey)
        ensures
            *r == self.nwkskey,
    {
        &self.nwkskey
    }

    pub fn nwkskey(&self) -> (r: &NwkSKey)
        ensures
            *r == self.nwkskey,
    {
        &self.nwkskey
    }

    pub fn get_session_keys(&self) -> (r: Option<SessionKeys>)
        ensures
            r == Some(self.keys()),
    {
        Some(SessionKeys { nwkskey: self.nwkskey, appskey: self.appskey, devaddr: self.devaddr })
    }

    /// Closes a send-receive cycle that got no downlink: the uplink counter
    /// moves on, unless it is used up, in which case the session has expired.
    pub fn rx2_complete(&mut self) -> (r: Response)
        ensures
            final(self).fcnt_up == counter_step(old(self).fcnt_up, SessionCall::Rx2Complete),
            old(self).fcnt_up == FCNT_MAX ==> r == Response::SessionExpired && *final(self) == *old(
                self,
            ),
            old(self).fcnt_up < FCNT_MAX ==> final(self).fcnt_up == old(self).fcnt_up + 1 && r == (
            if old(self).confirmed {
                Response::NoAck
            } else {
                Response::RxComplete
            }) && *final(self) == (Session { fcnt_up: final(self).fcnt_up, ..*old(self) }),
    {
        if self.fcnt_up == FCNT_MAX {
            return Response::SessionExpired;
        }
        self.fcnt_up = self.fcnt_up + 1;
        if self.confirmed {
            Response::NoAck
        } else {
            Response::RxComplete
        }
    }

    /// Builds the next uplink into `tx_buffer` and returns the counter it
    /// carries. The counter itself moves on only in `rx2_complete`. The
    /// waiting MAC answers go into FOpts and leave the queue, and a pending
    /// downlink acknowledgement is sent and cleared. On an error nothing
    /// changes but `tx_buffer`, which is left empty.
    #[verifier::rlimit(40)]
    pub fn prepare_buffer(&mut self, data: &SendData, tx_buffer: &mut Vec<u8>) -> (r: Result<
        u32,
        SendError,
    >)
        ensures
            ({
                let fopts = wire_all(old(self).uplink.commands());
                &&& final(self).fcnt_up == counter_step(old(self).fcnt_up, SessionCall::PrepareBuffer)
                &&& old(self).fcnt_up == FCNT_MAX ==> r == Err::<u32, SendError>(
                    SendError::SessionExpired,
                )
                &&& old(self).fcnt_up < FCNT_MAX && fopts.len() > 15 ==> r == Err::<u32, SendError>(
                    SendError::MacCommandsTooLong,
                )
                &&& old(self).fcnt_up < FCNT_MAX && fopts.len() <= 15 && 13 + fopts.len()
                    + data.data@.len() > 255 ==> r == Err::<u32, SendError>(
                    SendError::PayloadTooLong,
                )
                &&& old(self).fcnt_up < FCNT_MAX && fopts.len() <= 15 && 13 + fopts.len()
                    + data.data@.len() <= 255 ==> r is Ok
                &&& r is Err ==> *final(self) == *old(self) && final(tx_buffer)@.len() == 0
                &&& r is Ok ==> {
                    &&& r->Ok_0 == old(self).fcnt_up
                    &&& final(tx_buffer)@.len() == 13 + fopts.len() + data.data@.len()
                    &&& final(tx_buffer)@ == uplink_frame(
                        old(self).keys(),
                        old(self).fcnt_up,
                        data.confirmed,
                        old(self).uplink.confirm_downlink,
                        fopts,
                        data.fport,
                        data.data@,
                    )
                    &&& final(self).uplink.commands() == Seq::<UplinkMacCommand>::empty()
                    &&& !final(self).uplink.confirm_downlink
                    &&& final(self).confirmed == data.confirmed
                    &&& final(self).fcnt_up == old(self).fcnt_up
                    &&& final(self).fcnt_down == old(self).fcnt_down
                    &&& final(self).downlink_seen == old(self).downlink_seen
                    &&& final(self).keys() == old(self).keys()
                }
            }),
    {
        tx_buffer.clear();
        if self.fcnt_up == FCNT_MAX {
            return Err(SendError::SessionExpired);
        }
        let mut fopts = [0u8; 15];
        let n = match build_mac_commands(queue_as_slice(&self.uplink.pending), &mut fopts) {
            Ok(n) => n,
            Err(_) => {
                return Err(SendError::MacCommandsTooLong);
            },
        };
        let ghost opts = wire_all(self.uplink.commands());
        assert(fopts@.subrange(0, n as int) =~= opts);
        if data.data.len() > 242 - n {
            return Err(SendError::PayloadTooLong);
        }
        let fcnt = self.fcnt_up;
        let ack = self.uplink.confirms_downlink();
        let addr = self.devaddr.0;
        let mut msg: Vec<u8> = Vec::new();
        msg.push(if data.confirmed { 0x80u8 } else { 0x40u8 });
        msg.push(addr[0]);
        msg.push(addr[1]);
        msg.push(addr[2]);
        msg.push(addr[3]);
        let fctrl: u8 = if ack {
            0x20u8 + n as u8
        } else {
            n as u8
        };
        msg.push(fctrl);
        let low = fcnt % 65536;
        msg.push((low % 256) as u8);
        msg.push((low / 256) as u8);
        proof {
            reveal_with_fuel(le_bytes, 3);
        }
        let ghost head = msg@;
        let mut i: usize = 0;
        while i < n
            invariant
                n <= 15,
                i <= n,
                msg@ == head + fopts@.subrange(0, i as int),
            decreases n - i,
        {
            msg.push(fopts[i]);
            i = i + 1;
        }
        msg.push(data.fport);
        let key = if data.fport == 0 {
            &self.nwkskey.0
        } else {
            &self.appskey.0
        };
        let enc = crypt_frm_payload(key, UPLINK, &addr, fcnt, data.data);
        let ghost before_enc = msg@;
        let mut i: usize = 0;
        while i < enc.len()
            invariant
                i <= enc@.len(),
                msg@ == before_enc + enc@.subrange(0, i as int),
            decreases enc@.len() - i,
        {
            msg.push(enc[i]);
            i = i + 1;
        }
        assert(enc@.subrange(0, enc@.len() as int) =~= enc@);
        let ghost ack_flag: int = if ack {
            0x20int
        } else {
            0int
        };
        assert(fctrl == (ack_flag + opts.len()) as u8);
        assert(msg@ =~= seq![if data.confirmed { 0x80u8 } else { 0x40u8 }] + addr@ + seq![
            (ack_flag + opts.len()) as u8,
        ] + le_bytes((fcnt % 65536) as nat, 2) + opts + seq![data.fport] + frm_crypt(
            key@,
            UPLINK,
            addr@,
            fcnt,
            data.data@,
        ));
        let mic = compute_data_mic(&self.nwkskey.0, UPLINK, &addr, fcnt, msg.as_slice());
        let ghost body = msg@;
        msg.push(mic[0]);
        msg.push(mic[1]);
        msg.push(mic[2]);
        msg.push(mic[3]);
        assert(msg@ =~= body + mic@);
        assert(enc@.len() == data.data@.len());
        assert(body.len() == 9 + opts.len() + data.data@.len());
        assert(msg@.len() == 13 + opts.len() + data.data@.len());
        *tx_buffer = msg;
        self.confirmed = data.confirmed;
        self.uplink.clear_downlink_confirmation();
        queue_clear(&mut self.uplink.pending);
        Ok(fcnt)
    }

    /// Checks a received frame and, when it passes, accepts it: its counter
    /// becomes the last accepted one, and a confirmed downlink is to be
    /// acknowledged by the next uplink. The checks come in this order: shape,
    /// address, counter (a counter not above the last accepted one is refused
    /// before the MIC is looked at), MIC, MAC commands. A refused frame
    /// changes nothing.
    pub fn process_downlink(&mut self, frame: &[u8]) -> (r: Result<Downlink, DownlinkError>)
        ensures
            ({
                let f = frame@;
                let keys = old(self).keys();
                let counter = downlink_counter(old(self).fcnt_down, f);
                let body = downlink_body(f);
                &&& !downlink_well_formed(f) ==> r is Err && r->Err_0 == DownlinkError::Malformed
                &&& downlink_well_formed(f) && f.subrange(1, 5) != keys.devaddr.0@ ==> r is Err
                    && r->Err_0 == DownlinkError::WrongAddress
                &&& downlink_well_formed(f) && f.subrange(1, 5) == keys.devaddr.0@ && old(
                    self,
                ).downlink_seen && counter <= old(self).fcnt_down ==> r is Err && r->Err_0
                    == DownlinkError::Replay
                &&& downlink_well_formed(f) && f.subrange(1, 5) == keys.devaddr.0@ && !(old(
                    self,
                ).downlink_seen && counter <= old(self).fcnt_down) && !downlink_mic_ok(
                    keys,
                    counter,
                    f,
                ) ==> r is Err && r->Err_0 == DownlinkError::MicMismatch
                &&& downlink_well_formed(f) && f.subrange(1, 5) == keys.devaddr.0@ && !(old(
                    self,
                ).downlink_seen && counter <= old(self).fcnt_down) && downlink_mic_ok(
                    keys,
                    counter,
                    f,
                ) && decode_downlink_all(downlink_command_bytes(keys, counter, f)) is Err ==> r is Err
                    && r->Err_0 == DownlinkError::BadMacCommands
                &&& r is Ok <==> downlink_ok(*old(self), f)
                &&& r is Err ==> *final(self) == *old(self)
                &&& r is Ok ==> {
                    &&& downlink_well_formed(f)
                    &&& f.subrange(1, 5) == keys.devaddr.0@
                    &&& !(old(self).downlink_seen && counter <= old(self).fcnt_down)
                    &&& downlink_mic_ok(keys, counter, f)
                    &&& decode_downlink_all(downlink_command_bytes(keys, counter, f)) == Ok::<
                        Seq<DownlinkMacCommand>,
                        Error,
                    >(r->Ok_0.mac_commands@)
                    &&& r->Ok_0.fcnt == counter
                    &&& r->Ok_0.fport == if body.len() > 0 {
                        Some(body[0])
                    } else {
                        None::<u8>
                    }
                    &&& r->Ok_0.payload@ == if body.len() > 0 && body[0] != 0 {
                        downlink_plain(keys, counter, f)
                    } else {
                        Seq::<u8>::empty()
                    }
                    &&& r->Ok_0.ack == ((f[5] / 32) % 2 == 1)
                    &&& r->Ok_0.confirmed == (f[0] == 0xa0)
                    &&& final(self).fcnt_down == counter
                    &&& final(self).downlink_seen
                    &&& final(self).uplink.confirm_downlink == (old(self).uplink.confirm_downlink
                        || f[0] == 0xa0)
                    &&& final(self).uplink.commands() == old(self).uplink.commands()
                    &&& final(self).keys() == keys
                    &&& final(self).fcnt_up == old(self).fcnt_up
                    &&& final(self).confirmed == old(self).confirmed
                }
            }),
    {
        let len = frame.len();
        if len < 12 || len > 255 || !(frame[0] == 0x60 || frame[0] == 0xa0) {
            return Err(DownlinkError::Malformed);
        }
        let fopts_len = (frame[5] % 16) as usize;
        if 12 + fopts_len > len {
            return Err(DownlinkError::Malformed);
        }
        let addr = self.devaddr.0;
        if !(frame[1] == addr[0] && frame[2] == addr[1] && frame[3] == addr[2] && frame[4]
            == addr[3]) {
            assert(frame@.subrange(1, 5) != addr@) by {
                if frame@.subrange(1, 5) == addr@ {
                    assert(frame@.subrange(1, 5)[0] == frame@[1]);
                    assert(frame@.subrange(1, 5)[1] == frame@[2]);
                    assert(frame@.subrange(1, 5)[2] == frame@[3]);
                    assert(frame@.subrange(1, 5)[3] == frame@[4]);
                }
            }
            return Err(DownlinkError::WrongAddress);
        }
        assert(frame@.subrange(1, 5) =~= addr@);
        let counter: u32 = (self.fcnt_down / 65536) * 65536 + frame[6] as u32 + 256
            * frame[7] as u32;
        if self.downlink_seen && counter <= self.fcnt_down {
            return Err(DownlinkError::Replay);
        }
        let body_start = 8 + fopts_len;
        let mic_start = len - 4;
        let mic = compute_data_mic(
            &self.nwkskey.0,
            DOWNLINK,
            &addr,
            counter,
            copy_range(frame, 0, mic_start).as_slice(),
        );
        if !(frame[mic_start] == mic[0] && frame[mic_start + 1] == mic[1] && frame[mic_start + 2]
            == mic[2] && frame[mic_start + 3] == mic[3]) {
            assert(!downlink_mic_ok(self.keys(), counter, frame@)) by {
                let got = frame@.subrange(mic_start as int, len as int);
                if got == mic@ {
                    assert(got[0] == frame@[mic_start as int]);
                    assert(got[1] == frame@[mic_start + 1]);
                    assert(got[2] == frame@[mic_start + 2]);
                    assert(got[3] == frame@[mic_start + 3]);
                }
            }
            return Err(DownlinkError::MicMismatch);
        }
        assert(frame@.subrange(mic_start as int, len as int) =~= mic@);
        let ghost body = downlink_body(frame@);
        let (fport, plain) = if body_start < mic_start {
            let port = frame[body_start];
            let enc = copy_range(frame, body_start + 1, mic_start);
            assert(enc@ =~= body.subrange(1, body.len() as int));
            assert(body[0] == port);
            let key = if port == 0 {
                &self.nwkskey.0
            } else {
                &self.appskey.0
            };
            (Some(port), crypt_frm_payload(key, DOWNLINK, &addr, counter, enc.as_slice()))
        } else {
            (None, Vec::new())
        };
        assert(plain@ == downlink_plain(self.keys(), counter, frame@));
        let parsed = if fport == Some(0u8) {
            parse_downlink_mac_commands(plain.as_slice())
        } else {
            let fopts = copy_range(frame, 8, body_start);
            parse_downlink_mac_commands(fopts.as_slice())
        };
        let mac_commands = match parsed {
            Ok(c) => c,
            Err(_) => {
                return Err(DownlinkError::BadMacCommands);
            },
        };
        let confirmed = frame[0] == 0xa0;
        self.fcnt_down = counter;
        self.downlink_seen = true;
        if confirmed {
            self.uplink.set_downlink_confirmation();
        }
        let payload = if fport.is_some() && fport != Some(0u8) {
            plain
        } else {
            Vec::new()
        };
        Ok(
            Downlink {
                fcnt: counter,
                fport,
                payload,
                mac_commands,
                ack: (frame[5] / 32) % 2 == 1,
                confirmed,
            },
        )
    }

    /// Closes a send-receive cycle that got a downlink: the uplink counter
    /// moves on unless it is used up. Returns whether it moved.
    pub fn fcnt_up_increment(&mut self) -> (r: bool)
        ensures
            final(self).fcnt_up == counter_step(old(self).fcnt_up, SessionCall::FcntUpIncrement),
            r == (old(self).fcnt_up < FCNT_MAX),
            *final(self) == (Session { fcnt_up: final(self).fcnt_up, ..*old(self) }),
    {
        if self.fcnt_up == FCNT_MAX {
            return false;
        }
        self.fcnt_up = self.fcnt_up + 1;
        true
    }
}

} // verus!
