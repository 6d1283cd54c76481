//! The device state machine: joining, the send-receive cycle, and applying
//! the MAC commands that downlinks carry. It performs no I/O: each method is
//! one decision, and the caller does the radio work and the waiting that it
//! asks for, then reports back with the next call.
use vstd::prelude::*;

use crate::codec::{le_bytes, wire_all, DownlinkMacCommand, UplinkMacCommand};
use crate::crypto::session_key;
use crate::otaa::{
    build_join_request, decrypt_join_accept, join_accept_mic_ok, join_accept_plain, DevNonce,
    JoinError, NetworkCredentials,
};
use crate::region::{DynamicChannelPlan, DynamicChannelRegion};
use crate::session::{
    counter_step, downlink_ok, uplink_frame, Downlink, DownlinkError, Response, SendData, SendError, Session,
    SessionCall, FCNT_MAX,
};

verus! {

/// Where the device is in its cycle.
#[derive(Debug, Clone, Copy, PartialEq, Eq, Structural)]
pub enum State {
    Idle,
    Joining,
    WaitingForTx,
    WaitingRx1,
    WaitingRx2,
    /// The uplink counter is used up; only a new join leaves this state.
    SessionExpired,
}

/// Why a join could not start or go on.
#[derive(Debug, Clone, Copy, PartialEq, Eq, Structural)]
pub enum JoinStartError {
    /// A send-receive cycle or a join is under way.
    Busy,
    /// Every DevNonce has been used with this root key.
    NonceExhausted,
    /// The configured number of attempts is spent; the device is idle.
    AttemptsExhausted,
}

/// Why a call does not fit the current state.
#[derive(Debug, Clone, Copy, PartialEq, Eq, Structural)]
pub enum CycleError {
    WrongState,
    NoSession,
    Send(SendError),
    Downlink(DownlinkError),
    Join(JoinError),
}

/// The device: its state, channel plan, session, and what MAC commands set.
pub struct Mac<R> {
    pub state: State,
    pub plan: DynamicChannelPlan<R>,
    pub session: Option<Session>,
    /// The DevNonce that the next join request will carry.
    pub dev_nonce: u16,
    /// The DevNonce of the join in flight.
    pub join_nonce: u16,
    pub join_attempts: u8,
    pub max_join_attempts: u8,
    /// Seconds from the end of an uplink to the first receive window.
    pub rx1_delay: u8,
    /// The aggregated duty cycle is `1 / 2^max_duty_cycle`.
    pub max_duty_cycle: u8,
    pub uplink_dwell_time: bool,
    pub downlink_dwell_time: bool,
    pub max_eirp: u8,
    /// Margin and gateway count of the last LinkCheckAns.
    pub link_check: Option<(u8, u8)>,
    /// Seconds and fraction of the last DeviceTimeAns.
    pub device_time: Option<(u32, u8)>,
}

/// Identifier of a downlink command.
pub open spec fn request_cid(c: DownlinkMacCommand) -> u8 {
    c.encoded()[0]
}

/// Whether the device answers a downlink command: every request is answered;
/// LinkCheckAns and DeviceTimeAns are themselves answers.
pub open spec fn needs_answer(c: DownlinkMacCommand) -> bool {
    !(c is LinkCheckAns || c is DeviceTimeAns)
}

/// Identifiers of the answers that a run of commands calls for, in order.
pub open spec fn answer_cids(cmds: Seq<DownlinkMacCommand>) -> Seq<u8>
    decreases cmds.len(),
{
    if cmds.len() == 0 {
        seq![]
    } else if needs_answer(cmds.last()) {
        answer_cids(cmds.drop_last()).push(request_cid(cmds.last()))
    } else {
        answer_cids(cmds.drop_last())
    }
}

/// A prefix of the commands calls for no more answers than the whole.
proof fn lemma_answer_cids_prefix(cmds: Seq<DownlinkMacCommand>, k: int)
    requires
        0 <= k <= cmds.len(),
    ensures
        answer_cids(cmds.take(k)).len() <= answer_cids(cmds).len(),
    decreases cmds.len() - k,
{
    if k < cmds.len() {
        lemma_answer_cids_prefix(cmds, k + 1);
        assert(cmds.take(k + 1).drop_last() =~= cmds.take(k));
    } else {
        assert(cmds.take(k) =~= cmds);
    }
}

/// A frequency in units of 100 Hz, in Hz; one that does not fit in 32 bits
/// becomes the highest value, which no region accepts.
pub open spec fn hz_of(f: u32) -> u32 {
    if f <= 42_949_672 {
        (f * 100) as u32
    } else {
        u32::MAX
    }
}

fn to_hz(f: u32) -> (r: u32)
    ensures
        r == hz_of(f),
{
    if f <= 42_949_672 {
        f * 100
    } else {
        u32::MAX
    }
}

/// The margin reported in DevStatusAns: the demodulation margin held to the
/// -32 to 31 dB that the field carries.
pub open spec fn status_margin(snr: i8) -> i8 {
    if snr < -32 {
        -32i8
    } else if snr > 31 {
        31i8
    } else {
        snr
    }
}

impl<R: DynamicChannelRegion> Mac<R> {
    pub open spec fn wf(&self) -> bool {
        &&& self.plan.wf()
        &&& (self.state is WaitingForTx || self.state is WaitingRx1 || self.state is WaitingRx2
            || self.state is SessionExpired) ==> self.session is Some
    }

    /// A device that has not joined, idle, with the given plan.
    pub fn new(plan: DynamicChannelPlan<R>, max_join_attempts: u8) -> (r: Self)
        requires
            plan.wf(),
        ensures
            r.wf(),
            r.state == State::Idle,
            r.session is None,
            r.dev_nonce == 0,
            r.plan == plan,
            r.max_join_attempts == max_join_attempts,
    {
        Mac {
            state: State::Idle,
            plan,
            session: None,
            dev_nonce: 0,
            join_nonce: 0,
            join_attempts: 0,
            max_join_attempts,
            rx1_delay: 1,
            max_duty_cycle: 0,
            uplink_dwell_time: false,
            downlink_dwell_time: false,
            max_eirp: 0,
            link_check: None,
            device_time: None,
        }
    }

    fn next_join_request(&mut self, creds: &NetworkCredentials) -> (r: Result<Vec<u8>, JoinStartError>)
        requires
            old(self).wf(),
        ensures
            final(self).wf(),
            old(self).dev_nonce == u16::MAX ==> r == Err::<Vec<u8>, JoinStartError>(
                JoinStartError::NonceExhausted,
            ) && *final(self) == *old(self),
            old(self).dev_nonce < u16::MAX ==> r is Ok && r->Ok_0@ == build_join_request_spec(
                *creds,
                old(self).dev_nonce,
            ) && *final(self) == (Mac {
                state: State::Joining,
                dev_nonce: (old(self).dev_nonce + 1) as u16,
                join_nonce: old(self).dev_nonce,
                ..*old(self)
            }),
    {
        if self.dev_nonce == u16::MAX {
            return Err(JoinStartError::NonceExhausted);
        }
        let nonce = self.dev_nonce;
        self.join_nonce = nonce;
        self.dev_nonce = nonce + 1;
        self.state = State::Joining;
        Ok(build_join_request(creds, DevNonce(nonce)))
    }

    /// Starts a join from idle or from an expired session: the next DevNonce
    /// goes out in a join request, and is never used again.
    pub fn join(&mut self, creds: &NetworkCredentials) -> (r: Result<Vec<u8>, JoinStartError>)
        requires
            old(self).wf(),
        ensures
            final(self).wf(),
            !(old(self).state is Idle || old(self).state is SessionExpired) ==> r
                == Err::<Vec<u8>, JoinStartError>(JoinStartError::Busy) && *final(self) == *old(
                self,
            ),
            (old(self).state is Idle || old(self).state is SessionExpired) && old(self).dev_nonce
                == u16::MAX ==> r == Err::<Vec<u8>, JoinStartError>(JoinStartError::NonceExhausted)
                && *final(self) == *old(self),
            (old(self).state is Idle || old(self).state is SessionExpired) && old(self).dev_nonce
                < u16::MAX ==> r is Ok && r->Ok_0@ == build_join_request_spec(
                *creds,
                old(self).dev_nonce,
            ) && *final(self) == (Mac {
                state: State::Joining,
                dev_nonce: (old(self).dev_nonce + 1) as u16,
                join_nonce: old(self).dev_nonce,
                join_attempts: 1,
                ..*old(self)
            }),
    {
        if !(self.state == State::Idle || self.state == State::SessionExpired) {
            return Err(JoinStartError::Busy);
        }
        let req = self.next_join_request(creds)?;
        self.join_attempts = 1;
        Ok(req)
    }

    /// No valid join accept came in time: try again with a new DevNonce
    /// while attempts remain, else give up and go idle.
    pub fn join_timeout(&mut self, creds: &NetworkCredentials) -> (r: Result<Vec<u8>, JoinStartError>)
        requires
            old(self).wf(),
        ensures
            final(self).wf(),
            !(old(self).state is Joining) ==> r == Err::<Vec<u8>, JoinStartError>(
                JoinStartError::Busy,
            ) && *final(self) == *old(self),
            old(self).state is Joining && old(self).join_attempts >= old(self).max_join_attempts
                ==> r == Err::<Vec<u8>, JoinStartError>(JoinStartError::AttemptsExhausted)
                && *final(self) == (Mac { state: State::Idle, ..*old(self) }),
            old(self).state is Joining && old(self).join_attempts < old(self).max_join_attempts
                && old(self).dev_nonce == u16::MAX ==> r == Err::<Vec<u8>, JoinStartError>(
                JoinStartError::NonceExhausted,
            ) && *final(self) == (Mac { state: State::Idle, ..*old(self) }),
            old(self).state is Joining && old(self).join_attempts < old(self).max_join_attempts
                && old(self).dev_nonce < u16::MAX ==> r is Ok && r->Ok_0@ == build_join_request_spec(
                *creds,
                old(self).dev_nonce,
            ) && *final(self) == (Mac {
                state: State::Joining,
                dev_nonce: (old(self).dev_nonce + 1) as u16,
                join_nonce: old(self).dev_nonce,
                join_attempts: (old(self).join_attempts + 1) as u8,
                ..*old(self)
            }),
    {
        if self.state != State::Joining {
            return Err(JoinStartError::Busy);
        }
        if self.join_attempts >= self.max_join_attempts {
            self.state = State::Idle;
            return Err(JoinStartError::AttemptsExhausted);
        }
        match self.next_join_request(creds) {
            Ok(req) => {
                self.join_attempts = self.join_attempts + 1;
                Ok(req)
            },
            Err(e) => {
                self.state = State::Idle;
                Err(e)
            },
        }
    }

    /// A frame came in while joining. A valid join accept opens the session
    /// (keys from the DevNonce of this attempt) and the device goes idle; a
    /// frame that fails is dropped and the device keeps listening.
    pub fn handle_join_accept(&mut self, creds: &NetworkCredentials, frame: &[u8]) -> (r: Result<(), CycleError>)
        requires
            old(self).wf(),
        ensures
            final(self).wf(),
            !(old(self).state is Joining) ==> r == Err::<(), CycleError>(CycleError::WrongState)
                && *final(self) == *old(self),
            old(self).state is Joining ==> (r is Ok <==> join_accept_ok(creds.app_key.0@, frame@)),
            r is Err ==> *final(self) == *old(self),
            r is Ok ==> ({
                let p = join_accept_plain(creds.app_key.0@, frame@);
                let s = final(self).session->0;
                &&& final(self).state == State::Idle
                &&& final(self).session is Some
                &&& s.nwkskey.0@ == session_key(
                    creds.app_key.0@,
                    1,
                    p.subrange(0, 3),
                    p.subrange(3, 6),
                    old(self).join_nonce,
                )
                &&& s.appskey.0@ == session_key(
                    creds.app_key.0@,
                    2,
                    p.subrange(0, 3),
                    p.subrange(3, 6),
                    old(self).join_nonce,
                )
                &&& s.devaddr.0@ == p.subrange(6, 10)
                &&& s.fcnt_up == 0
                &&& s.fcnt_down == 0
                &&& !s.downlink_seen
                &&& final(self).dev_nonce == old(self).dev_nonce
                &&& final(self).plan == old(self).plan
                &&& final(self).rx1_delay == if p[11] % 16 == 0 {
                    1
                } else {
                    p[11] % 16
                }
            }),
    {
        if self.state != State::Joining {
            return Err(CycleError::WrongState);
        }
        match decrypt_join_accept(&creds.app_key, frame) {
            Err(e) => Err(CycleError::Join(e)),
            Ok(accept) => {
                self.session = Some(Session::derive_new(&accept, DevNonce(self.join_nonce), creds));
                self.rx1_delay = if accept.rx_delay % 16 == 0 {
                    1
                } else {
                    accept.rx_delay % 16
                };
                self.state = State::Idle;
                Ok(())
            },
        }
    }

    /// Builds an uplink from idle; the caller transmits `tx_buffer` and then
    /// calls `tx_done`.
    pub fn send(&mut self, data: &SendData, tx_buffer: &mut Vec<u8>) -> (r: Result<u32, CycleError>)
        requires
            old(self).wf(),
        ensures
            final(self).wf(),
            !(old(self).state is Idle) ==> r == Err::<u32, CycleError>(CycleError::WrongState)
                && *final(self) == *old(self),
            old(self).state is Idle && old(self).session is None ==> r == Err::<u32, CycleError>(
                CycleError::NoSession,
            ) && *final(self) == *old(self),
            old(self).state is Idle && old(self).session is Some ==> (r is Ok <==> send_ok(
                old(self).session->0,
                *data,
            )),
            r is Ok ==> ({
                let s = old(self).session->0;
                &&& old(self).state is Idle
                &&& final(self).state == State::WaitingForTx
                &&& r->Ok_0 == s.fcnt_up
                &&& final(self).session->0.fcnt_up == s.fcnt_up
                &&& final(tx_buffer)@ == uplink_frame(
                    s.keys(),
                    s.fcnt_up,
                    data.confirmed,
                    s.uplink.confirm_downlink,
                    wire_all(s.uplink.commands()),
                    data.fport,
                    data.data@,
                )
            }),
            r is Err ==> final(self).state == old(self).state,
    {
        if self.state != State::Idle {
            return Err(CycleError::WrongState);
        }
        match &mut self.session {
            None => Err(CycleError::NoSession),
            Some(session) => match session.prepare_buffer(data, tx_buffer) {
                Ok(fcnt) => {
                    self.state = State::WaitingForTx;
                    Ok(fcnt)
                },
                Err(e) => Err(CycleError::Send(e)),
            },
        }
    }

    /// The radio finished sending: wait for the first receive window.
    pub fn tx_done(&mut self) -> (r: Result<(), CycleError>)
        requires
            old(self).wf(),
        ensures
            final(self).wf(),
            old(self).state is WaitingForTx ==> r is Ok && *final(self) == (Mac {
                state: State::WaitingRx1,
                ..*old(self)
            }),
            !(old(self).state is WaitingForTx) ==> r == Err::<(), CycleError>(
                CycleError::WrongState,
            ) && *final(self) == *old(self),
    {
        if self.state != State::WaitingForTx {
            return Err(CycleError::WrongState);
        }
        self.state = State::WaitingRx1;
        Ok(())
    }

    /// The first window closed empty: open the second.
    pub fn rx1_timeout(&mut self) -> (r: Result<(), CycleError>)
        requires
            old(self).wf(),
        ensures
            final(self).wf(),
            old(self).state is WaitingRx1 ==> r is Ok && *final(self) == (Mac {
                state: State::WaitingRx2,
                ..*old(self)
            }),
            !(old(self).state is WaitingRx1) ==> r == Err::<(), CycleError>(
                CycleError::WrongState,
            ) && *final(self) == *old(self),
    {
        if self.state != State::WaitingRx1 {
            return Err(CycleError::WrongState);
        }
        self.state = State::WaitingRx2;
        Ok(())
    }

    /// The second window closed empty: the cycle ends, and the uplink counter
    /// moves on, or the session expires when it is used up.
    pub fn rx2_timeout(&mut self) -> (r: Result<Response, CycleError>)
        requires
            old(self).wf(),
        ensures
            final(self).wf(),
            !(old(self).state is WaitingRx2) ==> r == Err::<Response, CycleError>(
                CycleError::WrongState,
            ) && *final(self) == *old(self),
            old(self).state is WaitingRx2 ==> r is Ok && final(self).session is Some
                && final(self).session->0.fcnt_up == counter_step(
                old(self).session->0.fcnt_up,
                SessionCall::Rx2Complete,
            ) && (r->Ok_0 == Response::SessionExpired <==> old(self).session->0.fcnt_up
                == FCNT_MAX) && final(self).state == if old(self).session->0.fcnt_up == FCNT_MAX {
                State::SessionExpired
            } else {
                State::Idle
            },
            old(self).state is WaitingRx2 && old(self).session->0.fcnt_up < FCNT_MAX ==> r
                == Ok::<Response, CycleError>(
                if old(self).session->0.confirmed {
                    Response::NoAck
                } else {
                    Response::RxComplete
                },
            ),
    {
        if self.state != State::WaitingRx2 {
            return Err(CycleError::WrongState);
        }
        match &mut self.session {
            None => Err(CycleError::NoSession),
            Some(session) => {
                let resp = session.rx2_complete();
                self.state = if resp == Response::SessionExpired {
                    State::SessionExpired
                } else {
                    State::Idle
                };
                Ok(resp)
            },
        }
    }
}

impl<R: DynamicChannelRegion> Mac<R> {
    /// One more command extends a run that `commands_post` describes.
    proof fn lemma_commands_post_step(
        self,
        mid: Self,
        new: Self,
        cmds: Seq<DownlinkMacCommand>,
        battery: u8,
        snr_margin: i8,
        answers: Seq<UplinkMacCommand>,
        r: Option<UplinkMacCommand>,
    )
        requires
            cmds.len() > 0,
            mid.command_post(new, cmds.last(), battery, snr_margin, r),
            r is Some ==> answers.len() > 0 && r == Some(answers.last()) && self.commands_post(
                mid,
                cmds.drop_last(),
                battery,
                snr_margin,
                answers.drop_last(),
            ),
            r is None ==> self.commands_post(mid, cmds.drop_last(), battery, snr_margin, answers),
        ensures
            self.commands_post(new, cmds, battery, snr_margin, answers),
    {
        if r is Some {
            assert(needs_answer(cmds.last()));
            assert(self.commands_post(mid, cmds.drop_last(), battery, snr_margin, answers.drop_last())
                && mid.command_post(new, cmds.last(), battery, snr_margin, Some(answers.last())));
        } else {
            assert(!needs_answer(cmds.last()));
            assert(self.commands_post(mid, cmds.drop_last(), battery, snr_margin, answers)
                && mid.command_post(new, cmds.last(), battery, snr_margin, None));
        }
    }

    /// What applying one received MAC command does: the answer it gives
    /// (`None` for a command that needs none) and the device after it.
    pub open spec fn command_post(
        self,
        new: Self,
        cmd: DownlinkMacCommand,
        battery: u8,
        snr_margin: i8,
        r: Option<UplinkMacCommand>,
    ) -> bool {
        &&& new.state == self.state
        &&& new.session == self.session
        &&& needs_answer(cmd) <==> r is Some
        &&& r is Some ==> r->0.encoded()[0] == request_cid(cmd)
        &&& match cmd {
            DownlinkMacCommand::LinkCheckAns { margin, gateway_count } => new == (Mac {
                link_check: Some((margin, gateway_count)),
                ..self
            }),
            DownlinkMacCommand::LinkADRReq { data_rate, tx_power, channel_mask, redundancy } =>
                self.plan.link_adr_post(
                new.plan,
                r->0,
                data_rate,
                tx_power,
                le_bytes(channel_mask as nat, 2),
                redundancy,
            ) && new == (Mac { plan: new.plan, ..self }),
            DownlinkMacCommand::DutyCycleReq { max_duty_cycle } => r == Some(
                UplinkMacCommand::DutyCycleAns,
            ) && new == (Mac { max_duty_cycle, ..self }),
            DownlinkMacCommand::RXParamSetupReq { dl_settings, frequency } =>
                self.plan.rx_param_setup_post(
                new.plan,
                r->0,
                dl_settings,
                hz_of(frequency),
            ) && new == (Mac { plan: new.plan, ..self }),
            DownlinkMacCommand::DevStatusReq => r == Some(
                UplinkMacCommand::DevStatusAns { battery, margin: status_margin(snr_margin) },
            ) && new == self,
            DownlinkMacCommand::NewChannelReq { channel_index, frequency, data_rate_range } =>
                self.plan.new_channel_post(
                new.plan,
                r->0,
                channel_index,
                hz_of(frequency),
                data_rate_range,
            ) && new == (Mac { plan: new.plan, ..self }),
            DownlinkMacCommand::RXTimingSetupReq { delay } => r == Some(
                UplinkMacCommand::RXTimingSetupAns,
            ) && new == (Mac {
                rx1_delay: if delay % 16 == 0 {
                    1
                } else {
                    delay % 16
                },
                ..self
            }),
            DownlinkMacCommand::TXParamSetupReq {
                downlink_dwell_time,
                uplink_dwell_time,
                max_eirp,
            } => r == Some(UplinkMacCommand::TXParamSetupAns) && new == (Mac {
                downlink_dwell_time,
                uplink_dwell_time,
                max_eirp,
                ..self
            }),
            DownlinkMacCommand::DlChannelReq { channel_index, frequency } =>
                self.plan.dl_channel_post(
                new.plan,
                r->0,
                channel_index,
                hz_of(frequency),
            ) && new == (Mac { plan: new.plan, ..self }),
            DownlinkMacCommand::DeviceTimeAns { seconds, fractional } => new == (Mac {
                device_time: Some((seconds, fractional)),
                ..self
            }),
        }
    }

    /// The device without its session and cycle state: what MAC commands
    /// change.
    pub open spec fn settings(self) -> Self {
        Mac { session: None, state: State::Idle, ..self }
    }

    /// Applying `cmds` in order takes the device from `self` to `new` and
    /// gives `answers`, one for each command that needs an answer, in order.
    pub open spec fn commands_post(
        self,
        new: Self,
        cmds: Seq<DownlinkMacCommand>,
        battery: u8,
        snr_margin: i8,
        answers: Seq<UplinkMacCommand>,
    ) -> bool
        decreases cmds.len(),
    {
        if cmds.len() == 0 {
            new == self && answers.len() == 0
        } else if needs_answer(cmds.last()) {
            answers.len() > 0 && exists|mid: Self|
                self.commands_post(mid, cmds.drop_last(), battery, snr_margin, answers.drop_last())
                    && #[trigger] mid.command_post(new, cmds.last(), battery, snr_margin, Some(answers.last()))
        } else {
            exists|mid: Self|
                self.commands_post(mid, cmds.drop_last(), battery, snr_margin, answers)
                    && #[trigger] mid.command_post(new, cmds.last(), battery, snr_margin, None)
        }
    }

}

impl<R: DynamicChannelRegion> Mac<R> {
    /// Applies one received MAC command and returns the answer it calls for.
    /// Frequencies arrive in units of 100 Hz. A command that fails its
    /// checks still gets an answer, with the negative bits.
    pub fn apply_mac_command(&mut self, cmd: DownlinkMacCommand, battery: u8, snr_margin: i8) -> (r: Option<UplinkMacCommand>)
        requires
            old(self).wf(),
        ensures
            final(self).wf(),
            final(self).state == old(self).state,
            final(self).session == old(self).session,
            old(self).command_post(*final(self), cmd, battery, snr_margin, r),

    {
        match cmd {
            DownlinkMacCommand::LinkCheckAns { margin, gateway_count } => {
                self.link_check = Some((margin, gateway_count));
                None
            },
            DownlinkMacCommand::LinkADRReq { data_rate, tx_power, channel_mask, redundancy } => {
                let mask = [(channel_mask % 256) as u8, (channel_mask / 256) as u8];
                proof {
                    reveal_with_fuel(le_bytes, 3);
                    assert(mask@ =~= le_bytes(channel_mask as nat, 2));
                }
                Some(self.plan.handle_link_adr_req(data_rate, tx_power, mask, redundancy))
            },
            DownlinkMacCommand::DutyCycleReq { max_duty_cycle } => {
                self.max_duty_cycle = max_duty_cycle;
                Some(UplinkMacCommand::DutyCycleAns)
            },
            DownlinkMacCommand::RXParamSetupReq { dl_settings, frequency } => {
                Some(self.plan.handle_rx_param_setup_req(dl_settings, to_hz(frequency)))
            },
            DownlinkMacCommand::DevStatusReq => {
                let margin: i8 = if snr_margin < -32 {
                    -32
                } else if snr_margin > 31 {
                    31
                } else {
                    snr_margin
                };
                Some(UplinkMacCommand::DevStatusAns { battery, margin })
            },
            DownlinkMacCommand::NewChannelReq { channel_index, frequency, data_rate_range } => {
                Some(
                    self.plan.handle_new_channel_req(
                        channel_index,
                        to_hz(frequency),
                        data_rate_range,
                    ),
                )
            },
            DownlinkMacCommand::RXTimingSetupReq { delay } => {
                self.rx1_delay = if delay % 16 == 0 {
                    1
                } else {
                    delay % 16
                };
                Some(UplinkMacCommand::RXTimingSetupAns)
            },
            DownlinkMacCommand::TXParamSetupReq {
                downlink_dwell_time,
                uplink_dwell_time,
                max_eirp,
            } => {
                self.downlink_dwell_time = downlink_dwell_time;
                self.uplink_dwell_time = uplink_dwell_time;
                self.max_eirp = max_eirp;
                Some(UplinkMacCommand::TXParamSetupAns)
            },
            DownlinkMacCommand::DlChannelReq { channel_index, frequency } => {
                Some(self.plan.handle_dl_channel_req(channel_index, to_hz(frequency)))
            },
            DownlinkMacCommand::DeviceTimeAns { seconds, fractional } => {
                self.device_time = Some((seconds, fractional));
                None
            },
        }
    }
}

impl<R: DynamicChannelRegion> Mac<R> {
    /// Applies the commands in order and queues their answers for the next
    /// uplink. When the queue is full, the answer that does not fit is handed
    /// back and the commands after it are left unapplied.
    pub fn apply_mac_commands(&mut self, cmds: &[DownlinkMacCommand], battery: u8, snr_margin: i8) -> (r: Result<(), UplinkMacCommand>)
        requires
            old(self).wf(),
            old(self).session is Some,
        ensures
            final(self).wf(),
            final(self).state == old(self).state,
            final(self).session is Some,
            final(self).session->0 == (Session {
                uplink: final(self).session->0.uplink,
                ..old(self).session->0
            }),
            old(self).session->0.uplink.commands().len() + answer_cids(cmds@).len() <= 8 ==> r is Ok,
            r is Ok ==> {
                let before = old(self).session->0.uplink.commands();
                let after = final(self).session->0.uplink.commands();
                let cids = answer_cids(cmds@);
                &&& after.len() == before.len() + cids.len()
                &&& forall|i: int| 0 <= i < before.len() ==> after[i] == before[i]
                &&& forall|k: int|
                    0 <= k < cids.len() ==> #[trigger] after[before.len() + k].encoded()[0]
                        == cids[k]
                &&& old(self).settings().commands_post(
                    final(self).settings(),
                    cmds@,
                    battery,
                    snr_margin,
                    after.subrange(before.len() as int, after.len() as int),
                )
            },
    {
        let ghost before = self.session->0.uplink.commands();
        assert(before.subrange(before.len() as int, before.len() as int) =~= Seq::<
            UplinkMacCommand,
        >::empty());
        assert(cmds@.take(0) =~= Seq::<DownlinkMacCommand>::empty());
        let mut i: usize = 0;
        while i < cmds.len()
            invariant
                self.wf(),
                self.state == old(self).state,
                self.session is Some,
                self.session->0 == (Session { uplink: self.session->0.uplink, ..old(self).session->0 }),
                before == old(self).session->0.uplink.commands(),
                i <= cmds@.len(),
                ({
                    let after = self.session->0.uplink.commands();
                    let cids = answer_cids(cmds@.take(i as int));
                    &&& after.len() == before.len() + cids.len()
                    &&& forall|j: int| 0 <= j < before.len() ==> after[j] == before[j]
                    &&& forall|k: int|
                        0 <= k < cids.len() ==> #[trigger] after[before.len() + k].encoded()[0]
                            == cids[k]
                    &&& old(self).settings().commands_post(
                        self.settings(),
                        cmds@.take(i as int),
                        battery,
                        snr_margin,
                        after.subrange(before.len() as int, after.len() as int),
                    )
                }),
            decreases cmds@.len() - i,
        {
            let ghost prev = self.session->0.uplink.commands();
            let ghost prev_cids = answer_cids(cmds@.take(i as int));
            let ghost pre = self.settings();
            let ghost prev_answers = prev.subrange(before.len() as int, prev.len() as int);
            proof {
                lemma_answer_cids_prefix(cmds@, i + 1);
            }
            assert(cmds@.take(i + 1).drop_last() =~= cmds@.take(i as int));
            assert(cmds@.take(i + 1).last() == cmds@[i as int]);
            let ghost pre_full = *self;
            let ans = self.apply_mac_command(cmds[i], battery, snr_margin);
            assert(pre_full.settings() == pre);
            assert(pre.command_post(self.settings(), cmds@[i as int], battery, snr_margin, ans));
            let ghost post = self.settings();
            if let Some(a) = ans {
                match &mut self.session {
                    Some(session) => {
                        match session.uplink.add_mac_command(a) {
                            Ok(()) => {},
                            Err(back) => {
                                return Err(back);
                            },
                        }
                    },
                    None => {},
                }
                proof {
                    let after = self.session->0.uplink.commands();
                    assert(after.subrange(before.len() as int, after.len() as int) =~= prev_answers.push(a));
                    assert(prev_answers.push(a).drop_last() =~= prev_answers);
                    assert(old(self).settings().commands_post(
                        pre,
                        cmds@.take(i + 1).drop_last(),
                        battery,
                        snr_margin,
                        prev_answers.push(a).drop_last(),
                    ));
                    assert(self.settings() == post);
                    assert(prev_answers.push(a).last() == a);
                    assert(needs_answer(cmds@.take(i + 1).last()));
                    assert(pre.command_post(
                        self.settings(),
                        cmds@.take(i + 1).last(),
                        battery,
                        snr_margin,
                        Some(prev_answers.push(a).last()),
                    ));
                    old(self).settings().lemma_commands_post_step(
                        pre,
                        self.settings(),
                        cmds@.take(i + 1),
                        battery,
                        snr_margin,
                        prev_answers.push(a),
                        ans,
                    );
                    let cids = answer_cids(cmds@.take(i + 1));
                    assert(cids == prev_cids.push(request_cid(cmds@[i as int])));
                    assert forall|k: int| 0 <= k < cids.len() implies #[trigger] after[before.len()
                        + k].encoded()[0] == cids[k] by {
                        if k < prev_cids.len() {
                            assert(after[before.len() + k] == prev[before.len() + k]);
                        }
                    }
                }
            } else {
                assert(old(self).settings().commands_post(
                    pre,
                    cmds@.take(i + 1).drop_last(),
                    battery,
                    snr_margin,
                    prev_answers,
                ));
                assert(self.session->0.uplink.commands() == prev);
                assert(!needs_answer(cmds@.take(i + 1).last()));
                assert(pre.command_post(
                    self.settings(),
                    cmds@.take(i + 1).last(),
                    battery,
                    snr_margin,
                    None,
                ));
                proof {
                    old(self).settings().lemma_commands_post_step(
                        pre,
                        self.settings(),
                        cmds@.take(i + 1),
                        battery,
                        snr_margin,
                        prev_answers,
                        ans,
                    );
                }
            }
            i = i + 1;
        }
        assert(cmds@.take(cmds@.len() as int) =~= cmds@);
        Ok(())
    }

    /// A frame came in during a receive window. One that passes the session's
    /// checks ends the cycle: the uplink counter moves on (or the session
    /// expires when it is used up), its MAC commands are applied and their
    /// answers queued, and the device goes idle. One that fails is dropped
    /// and the device keeps listening. The flag tells whether every answer
    /// found room in the queue.
    pub fn handle_downlink(&mut self, frame: &[u8], battery: u8, snr_margin: i8) -> (r: Result<(Downlink, bool), CycleError>)
        requires
            old(self).wf(),
        ensures
            final(self).wf(),
            !(old(self).state is WaitingRx1 || old(self).state is WaitingRx2) ==> r
                == Err::<(Downlink, bool), CycleError>(CycleError::WrongState) && *final(self)
                == *old(self),
            (old(self).state is WaitingRx1 || old(self).state is WaitingRx2) ==> (r is Ok
                <==> downlink_ok(old(self).session->0, frame@)),
            r is Err ==> final(self).state == old(self).state && final(self).session == old(
                self,
            ).session,
            r is Ok ==> {
                &&& old(self).state is WaitingRx1 || old(self).state is WaitingRx2
                &&& final(self).session is Some
                &&& final(self).session->0.fcnt_up == counter_step(
                    old(self).session->0.fcnt_up,
                    SessionCall::FcntUpIncrement,
                )
                &&& final(self).state == if old(self).session->0.fcnt_up == FCNT_MAX {
                    State::SessionExpired
                } else {
                    State::Idle
                }
                &&& final(self).session->0.fcnt_down == r->Ok_0.0.fcnt
                &&& final(self).session->0.downlink_seen
                &&& old(self).session->0.uplink.commands().len() + answer_cids(
                    r->Ok_0.0.mac_commands@,
                ).len() <= 8 ==> r->Ok_0.1
                &&& r->Ok_0.1 ==> ({
                    let before = old(self).session->0.uplink.commands();
                    let after = final(self).session->0.uplink.commands();
                    old(self).settings().commands_post(
                        final(self).settings(),
                        r->Ok_0.0.mac_commands@,
                        battery,
                        snr_margin,
                        after.subrange(before.len() as int, after.len() as int),
                    )
                })
            },
    {
        if !(self.state == State::WaitingRx1 || self.state == State::WaitingRx2) {
            return Err(CycleError::WrongState);
        }
        let (downlink, moved) = match &mut self.session {
            None => {
                return Err(CycleError::NoSession);
            },
            Some(session) => match session.process_downlink(frame) {
                Err(e) => {
                    return Err(CycleError::Downlink(e));
                },
                Ok(d) => {
                    let moved = session.fcnt_up_increment();
                    (d, moved)
                },
            },
        };
        assert(self.settings() == old(self).settings());
        let queued = self.apply_mac_commands(downlink.mac_commands.as_slice(), battery, snr_margin).is_ok();
        let ghost applied = self.settings();
        self.state = if moved {
            State::Idle
        } else {
            State::SessionExpired
        };
        assert(self.settings() == applied);
        Ok((downlink, queued))
    }
}

/// A join accept that is well formed and whose MIC matches under the root key.
pub open spec fn join_accept_ok(app_key: Seq<u8>, f: Seq<u8>) -> bool {
    (f.len() == 17 || f.len() == 33) && f[0] == 0x20 && join_accept_mic_ok(app_key, f)
}

/// An uplink can be built from `data` in this session.
pub open spec fn send_ok(s: Session, data: SendData) -> bool {
    let fopts = wire_all(s.uplink.commands());
    s.fcnt_up < FCNT_MAX && fopts.len() <= 15 && 13 + fopts.len() + data.data@.len() <= 255
}

/// The join request that `build_join_request` writes for a DevNonce.
pub open spec fn build_join_request_spec(creds: NetworkCredentials, dev_nonce: u16) -> Seq<u8> {
    crate::otaa::join_request_body(creds, dev_nonce) + crate::crypto::join_mic(
        creds.app_key.0@,
        crate::otaa::join_request_body(creds, dev_nonce),
    )
}

} // verus!
