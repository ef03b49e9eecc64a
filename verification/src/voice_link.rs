//! The client's view of its voice call: the link state machine, reconnects,
//! restoring a call after the signalling stream drops, and which sound cue a
//! presence change plays.
//!
//! Every handler takes an event and returns the effects the caller performs:
//! commands for the voice actor, at most one cue, and at most one timer.
//! Events tagged with an epoch that is not the call's current epoch come from
//! an earlier attempt and are ignored.

use vstd::prelude::*;
use std::collections::HashMap;
use crate::convert::Channel;
use crate::domain::DisplayVoiceUser;

verus! {

broadcast use vstd::std_specs::hash::group_hash_axioms;

/// How many reconnect attempts are made before the call is given up.
pub const MAX_RECONNECT_ATTEMPTS: u32 = 4;

/// The call's connection, as the user sees it.
#[derive(Debug)]
pub enum LinkState {
    /// Closed, or never started.
    Idle,
    /// The peer connection is new or connecting.
    Connecting,
    /// Connected.
    Live,
    /// Disconnected, within the grace window in which it may recover.
    Unstable,
    /// The client is driving recovery; `attempt` counts from 1.
    Reconnecting { attempt: u32 },
    /// Given up.
    Lost { reason: String },
}

/// Whether inbound audio is arriving.
#[derive(Clone, Copy, Debug, PartialEq, Eq, Structural)]
pub enum MediaHealth {
    /// No baseline yet.
    Unknown,
    /// Inbound audio bytes are climbing.
    Flowing,
    /// Connected, but no inbound audio for a while.
    NoAudio,
    /// The nominated candidate pair stopped getting responses.
    TransportDegraded,
}

/// The state the peer connection reports.
#[derive(Clone, Copy, Debug, PartialEq, Eq, Structural)]
pub enum PeerConnectionState {
    Unspecified,
    New,
    Connecting,
    Connected,
    Disconnected,
    Failed,
    Closed,
}

/// Every presence event the client plays a sound for.
#[derive(Clone, Copy, Debug, PartialEq, Eq, Hash, Structural)]
pub enum Cue {
    Join,
    Leave,
    Mute,
    Unmute,
    Deafen,
    Undeafen,
    PeerJoin,
    PeerLeave,
}

/// A command for the voice actor that owns the call's media.
#[derive(Clone, Copy, Debug, PartialEq, Eq, Structural)]
pub enum CallCommand {
    Join { voice_channel_id: u128, epoch: u32 },
    Leave,
    SubscribeServer { server_id: u128 },
    SetMuted(bool),
    SetDeafened(bool),
}

/// A timer the caller arms; when it fires it is fed back as an event.
#[derive(Clone, Copy, Debug, PartialEq, Eq, Structural)]
pub enum Timer {
    /// After the grace window, `grace_expired(epoch)`.
    Grace { epoch: u32 },
    /// After the rejoin window, `rejoin_timed_out(id)`.
    RejoinTimeout { id: u32 },
}

/// What the caller does after a handler returns.
pub struct Effects {
    pub commands: Vec<CallCommand>,
    pub cue: Option<Cue>,
    pub timer: Option<Timer>,
}

/// Effects with no command, cue or timer.
pub open spec fn no_effects(e: Effects) -> bool {
    e.commands@.len() == 0 && e.cue.is_none() && e.timer.is_none()
}

fn nothing() -> (e: Effects)
    ensures
        no_effects(e),
{
    Effects { commands: Vec::new(), cue: None, timer: None }
}

/// The plain state of the current voice call.
pub struct CallState {
    pub link_state: LinkState,
    pub media: MediaHealth,
    pub latency_ms: u32,
    /// The voice channel the call is in, once the join succeeded.
    pub voice_call_id: Option<u128>,
    /// Bumped on every (re)join, so events of an earlier attempt are told apart.
    pub epoch: u32,
    pub presence_snapshot: Vec<DisplayVoiceUser>,
    pub muted: bool,
    pub deafened: bool,
    pub input_ok: bool,
    pub output_ok: bool,
    pub mic_receiving: bool,
}

/// The call to restore after the signalling stream drops and reconnects.
#[derive(Clone, Copy, Debug, PartialEq, Eq, Structural)]
pub struct PendingRejoin {
    pub voice_channel_id: u128,
    pub muted: bool,
    pub deafened: bool,
    /// Stamp from the session's reconnect counter, so a stale timeout only
    /// drops the rejoin it was armed for.
    pub id: u32,
}

/// The voice part of the client's model.
pub struct VoiceSession {
    pub call: Option<CallState>,
    pub pending_rejoin: Option<PendingRejoin>,
    pub reconnect_seq: u32,
    pub active_server_id: Option<u128>,
    /// Latest membership of every watched call, keyed by voice channel.
    pub room_presence: HashMap<u128, Vec<DisplayVoiceUser>>,
}

/// Reconnect attempts stay within 1..=MAX.
pub open spec fn link_ok(l: LinkState) -> bool {
    match l {
        LinkState::Reconnecting { attempt } => 1 <= attempt <= MAX_RECONNECT_ATTEMPTS,
        _ => true,
    }
}

/// The epoch can still be bumped.
pub open spec fn epoch_ok(c: CallState) -> bool {
    c.epoch < u32::MAX
}

/// Whether the link is recovering.
pub open spec fn is_reconnecting(l: LinkState) -> bool {
    l is Reconnecting
}

/// The attempt a reconnect from link state `l` would make (0: none is made).
pub open spec fn next_attempt(l: LinkState) -> u32 {
    match l {
        LinkState::Reconnecting { attempt } => (attempt + 1) as u32,
        LinkState::Live | LinkState::Connecting | LinkState::Unstable => 1,
        LinkState::Idle | LinkState::Lost { .. } => 0,
    }
}

/// `a` and `b` are equal except possibly for the listed fields.
pub open spec fn same_call_except_link_epoch(a: CallState, b: CallState) -> bool {
    &&& a.media == b.media
    &&& a.latency_ms == b.latency_ms
    &&& a.voice_call_id == b.voice_call_id
    &&& a.presence_snapshot@ == b.presence_snapshot@
    &&& a.muted == b.muted
    &&& a.deafened == b.deafened
    &&& a.input_ok == b.input_ok
    &&& a.output_ok == b.output_ok
    &&& a.mic_receiving == b.mic_receiving
}

/// Result of a reconnect on `c` towards channel `id`, with the commands it issues.
pub open spec fn reconnect_spec(c: CallState, id: u128, r: CallState, cmds: Seq<CallCommand>) -> bool {
    let attempt = next_attempt(c.link_state);
    &&& same_call_except_link_epoch(c, r)
    &&& if attempt == 0 {
        r.link_state == c.link_state && r.epoch == c.epoch && cmds.len() == 0
    } else if attempt > MAX_RECONNECT_ATTEMPTS {
        r.link_state == (LinkState::Lost { reason: r.link_state->reason })
            && r.link_state->reason@ == "Too many attempts"@ && r.epoch == c.epoch && cmds.len() == 0
    } else {
        r.link_state == (LinkState::Reconnecting { attempt })
            && r.epoch == c.epoch + 1
            && cmds == seq![CallCommand::Leave, CallCommand::Join { voice_channel_id: id, epoch: r.epoch }]
    }
}

fn copy_link(l: &LinkState) -> (r: LinkState)
    ensures
        r == *l,
{
    match l {
        LinkState::Idle => LinkState::Idle,
        LinkState::Connecting => LinkState::Connecting,
        LinkState::Live => LinkState::Live,
        LinkState::Unstable => LinkState::Unstable,
        LinkState::Reconnecting { attempt } => LinkState::Reconnecting { attempt: *attempt },
        LinkState::Lost { reason } => LinkState::Lost { reason: reason.clone() },
    }
}

impl CallState {
    /// A call freshly set up on a new signalling stream: connecting, epoch 1,
    /// not muted, devices assumed fine until told otherwise.
    pub fn fresh() -> (c: CallState)
        ensures
            c.link_state == LinkState::Connecting,
            c.media == MediaHealth::Unknown,
            c.latency_ms == 0,
            c.voice_call_id.is_none(),
            c.epoch == 1,
            c.presence_snapshot@.len() == 0,
            !c.muted && !c.deafened,
            c.input_ok && c.output_ok && c.mic_receiving,
    {
        CallState {
            link_state: LinkState::Connecting,
            media: MediaHealth::Unknown,
            latency_ms: 0,
            voice_call_id: None,
            epoch: 1,
            presence_snapshot: Vec::new(),
            muted: false,
            deafened: false,
            input_ok: true,
            output_ok: true,
            mic_receiving: true,
        }
    }

    /// Restart the call towards channel `id` after a failure, or give it up
    /// once the attempts are exhausted. Idle and lost calls are left alone.
    pub fn reconnect(&mut self, id: u128) -> (cmds: Vec<CallCommand>)
        requires
            link_ok(old(self).link_state),
            epoch_ok(*old(self)),
        ensures
            reconnect_spec(*old(self), id, *final(self), cmds@),
            link_ok(final(self).link_state),
    {
        let attempt: u32 = match &self.link_state {
            LinkState::Reconnecting { attempt } => *attempt + 1,
            LinkState::Live | LinkState::Connecting | LinkState::Unstable => 1,
            LinkState::Idle | LinkState::Lost { .. } => {
                return Vec::new();
            },
        };
        if attempt > MAX_RECONNECT_ATTEMPTS {
            self.link_state = LinkState::Lost { reason: String::from_str("Too many attempts") };
            return Vec::new();
        }
        self.epoch = self.epoch + 1;
        self.link_state = LinkState::Reconnecting { attempt };
        let mut cmds = Vec::new();
        cmds.push(CallCommand::Leave);
        cmds.push(CallCommand::Join { voice_channel_id: id, epoch: self.epoch });
        proof {
            assert(cmds@ == seq![CallCommand::Leave, CallCommand::Join { voice_channel_id: id, epoch: self.epoch }]);
        }
        cmds
    }
}

/// The peer connection reported `state` for attempt `epoch`: the resulting
/// call and effects (spec of `VoiceSession::peer_state_changed` on a call in a
/// channel whose epoch matches).
pub open spec fn peer_state_spec(c: CallState, id: u128, state: PeerConnectionState, r: CallState, e: Effects) -> bool {
    match state {
        PeerConnectionState::New | PeerConnectionState::Connecting =>
            r.link_state == LinkState::Connecting && same_call_except_link_epoch(c, r) && r.epoch == c.epoch && no_effects(e),
        PeerConnectionState::Connected =>
            r.link_state == LinkState::Live && same_call_except_link_epoch(c, r) && r.epoch == c.epoch
                && e.commands@.len() == 0 && e.timer.is_none()
                && e.cue == (if is_reconnecting(c.link_state) { Some(Cue::Join) } else { None }),
        PeerConnectionState::Disconnected =>
            if c.link_state is Live || c.link_state is Connecting {
                r.link_state == LinkState::Unstable && same_call_except_link_epoch(c, r) && r.epoch == c.epoch
                    && e.commands@.len() == 0 && e.cue.is_none() && e.timer == Some(Timer::Grace { epoch: c.epoch })
            } else {
                r == c && no_effects(e)
            },
        PeerConnectionState::Failed =>
            reconnect_spec(c, id, r, e.commands@) && e.cue.is_none() && e.timer.is_none(),
        PeerConnectionState::Closed =>
            if is_reconnecting(c.link_state) {
                r == c && no_effects(e)
            } else {
                reconnect_spec(c, id, r, e.commands@) && e.cue.is_none() && e.timer.is_none()
            },
        PeerConnectionState::Unspecified => r == c && no_effects(e),
    }
}

/// The session is in a state its handlers keep.
pub open spec fn session_ok(s: VoiceSession) -> bool {
    match s.call {
        Some(c) => link_ok(c.link_state),
        None => true,
    }
}

/// The call's epoch, when a call exists, can still be bumped.
pub open spec fn session_epoch_ok(s: VoiceSession) -> bool {
    match s.call {
        Some(c) => epoch_ok(c),
        None => true,
    }
}

/// The call is present, in a channel, and `epoch` is its current epoch.
pub open spec fn current_attempt(s: VoiceSession, epoch: u32) -> bool {
    s.call is Some && s.call->0.voice_call_id is Some && s.call->0.epoch == epoch
}

impl VoiceSession {
    /// A logged-out session: no call, nothing pending, nothing watched.
    pub fn new() -> (s: VoiceSession)
        ensures
            s.call.is_none(),
            s.pending_rejoin.is_none(),
            s.reconnect_seq == 0,
            s.active_server_id.is_none(),
            s.room_presence@ == Map::<u128, Vec<DisplayVoiceUser>>::empty(),
    {
        VoiceSession {
            call: None,
            pending_rejoin: None,
            reconnect_seq: 0,
            active_server_id: None,
            room_presence: HashMap::new(),
        }
    }

    /// The user asked to join a voice channel.
    pub fn join_voice(&mut self, voice_channel_id: u128) -> (e: Effects)
        requires
            session_epoch_ok(*old(self)),
        ensures
            match old(self).call {
                Some(c) => {
                    let n = final(self).call->0;
                    &&& final(self).call is Some
                    &&& n.epoch == c.epoch + 1
                    &&& n.link_state == LinkState::Connecting
                    &&& n.mic_receiving && n.input_ok && n.output_ok
                    &&& n.media == c.media && n.latency_ms == c.latency_ms
                    &&& n.voice_call_id == c.voice_call_id
                    &&& n.presence_snapshot@ == c.presence_snapshot@
                    &&& n.muted == c.muted && n.deafened == c.deafened
                    &&& e.commands@ == seq![CallCommand::Join { voice_channel_id, epoch: n.epoch }]
                    &&& e.cue.is_none() && e.timer.is_none()
                },
                None => final(self).call.is_none() && no_effects(e),
            },
            final(self).pending_rejoin == old(self).pending_rejoin,
            final(self).reconnect_seq == old(self).reconnect_seq,
            final(self).active_server_id == old(self).active_server_id,
            final(self).room_presence@ == old(self).room_presence@,
            session_ok(*old(self)) ==> session_ok(*final(self)),
    {
        match &mut self.call {
            Some(c) => {
                c.epoch = c.epoch + 1;
                c.link_state = LinkState::Connecting;
                c.mic_receiving = true;
                c.input_ok = true;
                c.output_ok = true;
                let mut commands = Vec::new();
                commands.push(CallCommand::Join { voice_channel_id, epoch: c.epoch });
                proof { assert(commands@ == seq![CallCommand::Join { voice_channel_id, epoch: c.epoch }]); }
                Effects { commands, cue: None, timer: None }
            },
            None => nothing(),
        }
    }

    /// The user left the call (or gave up a pending rejoin).
    pub fn leave_voice(&mut self) -> (e: Effects)
        ensures
            final(self).pending_rejoin.is_none(),
            match old(self).call {
                Some(c) => {
                    let n = final(self).call->0;
                    &&& final(self).call is Some
                    &&& n.voice_call_id.is_none()
                    &&& n.link_state == LinkState::Idle
                    &&& n.epoch == c.epoch
                    &&& n.muted == c.muted && n.deafened == c.deafened
                    &&& e.commands@ == seq![CallCommand::Leave]
                },
                None => final(self).call.is_none() && e.commands@.len() == 0,
            },
            e.cue == (if old(self).call.is_some() || old(self).pending_rejoin.is_some() { Some(Cue::Leave) } else { None }),
            e.timer.is_none(),
            final(self).reconnect_seq == old(self).reconnect_seq,
            final(self).active_server_id == old(self).active_server_id,
            final(self).room_presence@ == old(self).room_presence@,
            session_ok(*old(self)) ==> session_ok(*final(self)),
    {
        let was_reconnecting = self.pending_rejoin.is_some();
        self.pending_rejoin = None;
        let mut commands = Vec::new();
        let in_call = match &mut self.call {
            Some(c) => {
                commands.push(CallCommand::Leave);
                c.voice_call_id = None;
                c.link_state = LinkState::Idle;
                true
            },
            None => false,
        };
        proof {
            if in_call {
                assert(commands@ == seq![CallCommand::Leave]);
            }
        }
        let cue = if in_call || was_reconnecting { Some(Cue::Leave) } else { None };
        Effects { commands, cue, timer: None }
    }

    /// The chat screen switched to another server: watch its call presence.
    pub fn active_server_changed(&mut self, server_id: u128) -> (e: Effects)
        ensures
            final(self).active_server_id == Some(server_id),
            e.commands@ == (if old(self).call.is_some() {
                seq![CallCommand::SubscribeServer { server_id }]
            } else {
                Seq::<CallCommand>::empty()
            }),
            e.cue.is_none() && e.timer.is_none(),
            final(self).call == old(self).call,
            final(self).pending_rejoin == old(self).pending_rejoin,
            final(self).reconnect_seq == old(self).reconnect_seq,
            final(self).room_presence@ == old(self).room_presence@,
    {
        self.active_server_id = Some(server_id);
        let mut commands = Vec::new();
        if self.call.is_some() {
            commands.push(CallCommand::SubscribeServer { server_id });
            proof { assert(commands@ == seq![CallCommand::SubscribeServer { server_id }]); }
        }
        Effects { commands, cue: None, timer: None }
    }

    /// Toggle self-mute.
    pub fn toggle_mute(&mut self) -> (e: Effects)
        ensures
            match old(self).call {
                Some(c) => {
                    let n = final(self).call->0;
                    &&& final(self).call is Some
                    &&& n.muted == !c.muted
                    &&& n.deafened == c.deafened
                    &&& n.link_state == c.link_state && n.epoch == c.epoch
                    &&& n.voice_call_id == c.voice_call_id
                    &&& e.commands@ == seq![CallCommand::SetMuted(n.muted)]
                    &&& e.cue == Some(if n.muted { Cue::Mute } else { Cue::Unmute })
                },
                None => final(self).call.is_none() && no_effects(e),
            },
            e.timer.is_none(),
            final(self).pending_rejoin == old(self).pending_rejoin,
            final(self).reconnect_seq == old(self).reconnect_seq,
            final(self).active_server_id == old(self).active_server_id,
            final(self).room_presence@ == old(self).room_presence@,
            session_ok(*old(self)) ==> session_ok(*final(self)),
    {
        match &mut self.call {
            Some(c) => {
                c.muted = !c.muted;
                let mut commands = Vec::new();
                commands.push(CallCommand::SetMuted(c.muted));
                proof { assert(commands@ == seq![CallCommand::SetMuted(c.muted)]); }
                let cue = if c.muted { Cue::Mute } else { Cue::Unmute };
                Effects { commands, cue: Some(cue), timer: None }
            },
            None => nothing(),
        }
    }

    /// Toggle deafen. Deafening also mutes; undeafening also unmutes.
    pub fn toggle_deafen(&mut self) -> (e: Effects)
        ensures
            match old(self).call {
                Some(c) => {
                    let n = final(self).call->0;
                    &&& final(self).call is Some
                    &&& n.deafened == !c.deafened
                    &&& n.muted == n.deafened
                    &&& n.link_state == c.link_state && n.epoch == c.epoch
                    &&& n.voice_call_id == c.voice_call_id
                    &&& e.commands@ == seq![CallCommand::SetDeafened(n.deafened), CallCommand::SetMuted(n.muted)]
                    &&& e.cue == Some(if n.deafened { Cue::Deafen } else { Cue::Undeafen })
                },
                None => final(self).call.is_none() && no_effects(e),
            },
            e.timer.is_none(),
            final(self).pending_rejoin == old(self).pending_rejoin,
            final(self).reconnect_seq == old(self).reconnect_seq,
            final(self).active_server_id == old(self).active_server_id,
            final(self).room_presence@ == old(self).room_presence@,
            session_ok(*old(self)) ==> session_ok(*final(self)),
    {
        match &mut self.call {
            Some(c) => {
                c.deafened = !c.deafened;
                c.muted = c.deafened;
                let mut commands = Vec::new();
                commands.push(CallCommand::SetDeafened(c.deafened));
                commands.push(CallCommand::SetMuted(c.muted));
                proof {
                    assert(commands@ == seq![CallCommand::SetDeafened(c.deafened), CallCommand::SetMuted(c.muted)]);
                }
                let cue = if c.deafened { Cue::Deafen } else { Cue::Undeafen };
                Effects { commands, cue: Some(cue), timer: None }
            },
            None => nothing(),
        }
    }
}

impl VoiceSession {
    /// The voice signalling stream (re)connected: set up a fresh call, watch
    /// the active server, and rejoin the call that was pending restore.
    pub fn signal_connected(&mut self) -> (e: Effects)
        ensures
            final(self).call is Some,
            ({
                let n = final(self).call->0;
                let sub = match old(self).active_server_id {
                    Some(sid) => seq![CallCommand::SubscribeServer { server_id: sid }],
                    None => Seq::<CallCommand>::empty(),
                };
                &&& n.epoch == 1
                &&& n.voice_call_id.is_none()
                &&& n.media == MediaHealth::Unknown
                &&& n.latency_ms == 0
                &&& n.presence_snapshot@.len() == 0
                &&& n.input_ok && n.output_ok && n.mic_receiving
                &&& match old(self).pending_rejoin {
                    Some(r) => {
                        &&& n.muted == r.muted && n.deafened == r.deafened
                        &&& n.link_state == (LinkState::Reconnecting { attempt: 1 })
                        &&& e.commands@ == sub + seq![
                            CallCommand::SetDeafened(r.deafened),
                            CallCommand::SetMuted(r.muted),
                            CallCommand::Join { voice_channel_id: r.voice_channel_id, epoch: 1 },
                        ]
                    },
                    None => {
                        &&& !n.muted && !n.deafened
                        &&& n.link_state == LinkState::Connecting
                        &&& e.commands@ == sub
                    },
                }
            }),
            e.cue.is_none() && e.timer.is_none(),
            final(self).pending_rejoin == old(self).pending_rejoin,
            final(self).reconnect_seq == old(self).reconnect_seq,
            final(self).active_server_id == old(self).active_server_id,
            final(self).room_presence@ == Map::<u128, Vec<DisplayVoiceUser>>::empty(),
            session_ok(*final(self)),
    {
        let mut call = CallState::fresh();
        let mut commands: Vec<CallCommand> = Vec::new();
        match self.active_server_id {
            Some(server_id) => {
                commands.push(CallCommand::SubscribeServer { server_id });
            },
            None => {},
        }
        let ghost sub = commands@;
        match self.pending_rejoin {
            Some(r) => {
                call.muted = r.muted;
                call.deafened = r.deafened;
                commands.push(CallCommand::SetDeafened(r.deafened));
                commands.push(CallCommand::SetMuted(r.muted));
                call.link_state = LinkState::Reconnecting { attempt: 1 };
                commands.push(CallCommand::Join { voice_channel_id: r.voice_channel_id, epoch: call.epoch });
                proof {
                    assert(commands@ =~= sub + seq![
                        CallCommand::SetDeafened(r.deafened),
                        CallCommand::SetMuted(r.muted),
                        CallCommand::Join { voice_channel_id: r.voice_channel_id, epoch: 1 },
                    ]);
                }
            },
            None => {},
        }
        self.room_presence.clear();
        self.call = Some(call);
        Effects { commands, cue: None, timer: None }
    }

    /// The voice signalling stream dropped. The call is torn down; if it was
    /// in a channel (and no rejoin is already pending), remember it for a
    /// rejoin and arm the rejoin timeout.
    pub fn signal_disconnected(&mut self) -> (e: Effects)
        ensures
            final(self).call.is_none(),
            e.commands@.len() == 0,
            e.cue.is_none(),
            ({
                let armed = old(self).call is Some && old(self).call->0.voice_call_id is Some
                    && old(self).pending_rejoin.is_none();
                if armed {
                    let c = old(self).call->0;
                    let id = if old(self).reconnect_seq == u32::MAX { 0u32 } else { (old(self).reconnect_seq + 1) as u32 };
                    &&& final(self).reconnect_seq == id
                    &&& final(self).pending_rejoin == Some(PendingRejoin {
                        voice_channel_id: c.voice_call_id->0,
                        muted: c.muted,
                        deafened: c.deafened,
                        id,
                    })
                    &&& e.timer == Some(Timer::RejoinTimeout { id })
                } else {
                    &&& final(self).reconnect_seq == old(self).reconnect_seq
                    &&& final(self).pending_rejoin == old(self).pending_rejoin
                    &&& e.timer.is_none()
                }
            }),
            final(self).active_server_id == old(self).active_server_id,
            final(self).room_presence@ == old(self).room_presence@,
            session_ok(*final(self)),
    {
        let in_call: Option<(u128, bool, bool)> = match &self.call {
            Some(c) => match c.voice_call_id {
                Some(id) => Some((id, c.muted, c.deafened)),
                None => None,
            },
            None => None,
        };
        self.call = None;
        if self.pending_rejoin.is_some() {
            return nothing();
        }
        match in_call {
            Some((voice_channel_id, muted, deafened)) => {
                self.reconnect_seq = self.reconnect_seq.wrapping_add(1);
                let id = self.reconnect_seq;
                self.pending_rejoin = Some(PendingRejoin { voice_channel_id, muted, deafened, id });
                Effects { commands: Vec::new(), cue: None, timer: Some(Timer::RejoinTimeout { id }) }
            },
            None => nothing(),
        }
    }

    /// The rejoin window armed with stamp `id` elapsed. Only the rejoin it was
    /// armed for is dropped (with the leave cue); a newer one is kept.
    pub fn rejoin_timed_out(&mut self, id: u32) -> (e: Effects)
        ensures
            match old(self).pending_rejoin {
                Some(r) if r.id == id => final(self).pending_rejoin.is_none() && e.cue == Some(Cue::Leave),
                _ => final(self).pending_rejoin == old(self).pending_rejoin && e.cue.is_none(),
            },
            e.commands@.len() == 0 && e.timer.is_none(),
            final(self).call == old(self).call,
            final(self).reconnect_seq == old(self).reconnect_seq,
            final(self).active_server_id == old(self).active_server_id,
            final(self).room_presence@ == old(self).room_presence@,
    {
        match self.pending_rejoin {
            Some(r) => {
                if r.id == id {
                    self.pending_rejoin = None;
                    return Effects { commands: Vec::new(), cue: Some(Cue::Leave), timer: None };
                }
                nothing()
            },
            None => nothing(),
        }
    }

    /// The voice actor joined `voice_channel_id`. A first join plays the join
    /// cue; completing a reconnect does not (the call was never left).
    pub fn join_successful(&mut self, voice_channel_id: u128) -> (e: Effects)
        ensures
            final(self).pending_rejoin.is_none(),
            match old(self).call {
                Some(c) => {
                    let n = final(self).call->0;
                    &&& final(self).call is Some
                    &&& n.voice_call_id == Some(voice_channel_id)
                    &&& n.link_state == c.link_state && n.epoch == c.epoch
                    &&& n.muted == c.muted && n.deafened == c.deafened
                    &&& e.cue == (if is_reconnecting(c.link_state) { None } else { Some(Cue::Join) })
                },
                None => final(self).call.is_none() && e.cue.is_none(),
            },
            e.commands@.len() == 0 && e.timer.is_none(),
            final(self).reconnect_seq == old(self).reconnect_seq,
            final(self).active_server_id == old(self).active_server_id,
            final(self).room_presence@ == old(self).room_presence@,
            session_ok(*old(self)) ==> session_ok(*final(self)),
    {
        self.pending_rejoin = None;
        match &mut self.call {
            Some(c) => {
                c.voice_call_id = Some(voice_channel_id);
                let reconnecting = match c.link_state {
                    LinkState::Reconnecting { .. } => true,
                    _ => false,
                };
                let cue = if reconnecting { None } else { Some(Cue::Join) };
                Effects { commands: Vec::new(), cue, timer: None }
            },
            None => nothing(),
        }
    }

    /// The peer connection of attempt `epoch` changed state.
    pub fn peer_state_changed(&mut self, state: PeerConnectionState, epoch: u32) -> (e: Effects)
        requires
            session_ok(*old(self)),
            session_epoch_ok(*old(self)),
        ensures
            current_attempt(*old(self), epoch) ==> final(self).call is Some && peer_state_spec(
                old(self).call->0,
                old(self).call->0.voice_call_id->0,
                state,
                final(self).call->0,
                e,
            ),
            !current_attempt(*old(self), epoch) ==> final(self).call == old(self).call && no_effects(e),
            final(self).pending_rejoin == old(self).pending_rejoin,
            final(self).reconnect_seq == old(self).reconnect_seq,
            final(self).active_server_id == old(self).active_server_id,
            final(self).room_presence@ == old(self).room_presence@,
            session_ok(*final(self)),
    {
        let c = match &mut self.call {
            Some(c) => c,
            None => { return nothing(); },
        };
        let id = match c.voice_call_id {
            Some(id) => id,
            None => { return nothing(); },
        };
        if epoch != c.epoch {
            return nothing();
        }
        match state {
            PeerConnectionState::New | PeerConnectionState::Connecting => {
                c.link_state = LinkState::Connecting;
                nothing()
            },
            PeerConnectionState::Connected => {
                let reconnecting = match c.link_state {
                    LinkState::Reconnecting { .. } => true,
                    _ => false,
                };
                c.link_state = LinkState::Live;
                let cue = if reconnecting { Some(Cue::Join) } else { None };
                Effects { commands: Vec::new(), cue, timer: None }
            },
            PeerConnectionState::Disconnected => {
                let settled = match c.link_state {
                    LinkState::Live | LinkState::Connecting => true,
                    _ => false,
                };
                if settled {
                    c.link_state = LinkState::Unstable;
                    Effects { commands: Vec::new(), cue: None, timer: Some(Timer::Grace { epoch: c.epoch }) }
                } else {
                    nothing()
                }
            },
            PeerConnectionState::Failed => {
                let commands = c.reconnect(id);
                Effects { commands, cue: None, timer: None }
            },
            PeerConnectionState::Closed => {
                let reconnecting = match c.link_state {
                    LinkState::Reconnecting { .. } => true,
                    _ => false,
                };
                if reconnecting {
                    // the old connection dying during our own reconnect
                    nothing()
                } else {
                    let commands = c.reconnect(id);
                    Effects { commands, cue: None, timer: None }
                }
            },
            PeerConnectionState::Unspecified => nothing(),
        }
    }

    /// The grace window of attempt `epoch` elapsed: a link still unstable is
    /// reconnected.
    pub fn grace_expired(&mut self, epoch: u32) -> (e: Effects)
        requires
            session_ok(*old(self)),
            session_epoch_ok(*old(self)),
        ensures
            (current_attempt(*old(self), epoch) && old(self).call->0.link_state is Unstable) ==> {
                &&& final(self).call is Some
                &&& reconnect_spec(old(self).call->0, old(self).call->0.voice_call_id->0, final(self).call->0, e.commands@)
            },
            !(current_attempt(*old(self), epoch) && old(self).call->0.link_state is Unstable)
                ==> final(self).call == old(self).call && e.commands@.len() == 0,
            e.cue.is_none() && e.timer.is_none(),
            final(self).pending_rejoin == old(self).pending_rejoin,
            final(self).reconnect_seq == old(self).reconnect_seq,
            final(self).active_server_id == old(self).active_server_id,
            final(self).room_presence@ == old(self).room_presence@,
            session_ok(*final(self)),
    {
        let c = match &mut self.call {
            Some(c) => c,
            None => { return nothing(); },
        };
        let id = match c.voice_call_id {
            Some(id) => id,
            None => { return nothing(); },
        };
        if epoch != c.epoch {
            return nothing();
        }
        match c.link_state {
            LinkState::Unstable => {
                let commands = c.reconnect(id);
                Effects { commands, cue: None, timer: None }
            },
            _ => nothing(),
        }
    }

    /// Inbound media health of attempt `epoch`.
    pub fn media_health(&mut self, epoch: u32, health: MediaHealth)
        ensures
            (old(self).call is Some && old(self).call->0.epoch == epoch) ==> {
                let c = old(self).call->0;
                let n = final(self).call->0;
                &&& final(self).call is Some
                &&& n.media == health
                &&& n.link_state == c.link_state && n.epoch == c.epoch && n.voice_call_id == c.voice_call_id
                &&& n.input_ok == c.input_ok && n.output_ok == c.output_ok && n.mic_receiving == c.mic_receiving
                &&& n.latency_ms == c.latency_ms && n.presence_snapshot@ == c.presence_snapshot@
                &&& n.muted == c.muted && n.deafened == c.deafened
            },
            !(old(self).call is Some && old(self).call->0.epoch == epoch) ==> final(self).call == old(self).call,
            final(self).pending_rejoin == old(self).pending_rejoin,
            final(self).reconnect_seq == old(self).reconnect_seq,
            final(self).room_presence@ == old(self).room_presence@,
            final(self).active_server_id == old(self).active_server_id,
            session_ok(*old(self)) ==> session_ok(*final(self)),
    {
        if let Some(c) = &mut self.call {
            if c.epoch == epoch {
                c.media = health;
            }
        }
    }

    /// Whether the microphone and the speaker of attempt `epoch` opened.
    pub fn device_health(&mut self, epoch: u32, input_ok: bool, output_ok: bool)
        ensures
            (old(self).call is Some && old(self).call->0.epoch == epoch) ==> {
                let c = old(self).call->0;
                let n = final(self).call->0;
                &&& final(self).call is Some
                &&& n.input_ok == input_ok && n.output_ok == output_ok
                &&& n.link_state == c.link_state && n.epoch == c.epoch && n.voice_call_id == c.voice_call_id
                &&& n.media == c.media && n.mic_receiving == c.mic_receiving
                &&& n.latency_ms == c.latency_ms && n.presence_snapshot@ == c.presence_snapshot@
                &&& n.muted == c.muted && n.deafened == c.deafened
            },
            !(old(self).call is Some && old(self).call->0.epoch == epoch) ==> final(self).call == old(self).call,
            final(self).pending_rejoin == old(self).pending_rejoin,
            final(self).reconnect_seq == old(self).reconnect_seq,
            final(self).room_presence@ == old(self).room_presence@,
            final(self).active_server_id == old(self).active_server_id,
            session_ok(*old(self)) ==> session_ok(*final(self)),
    {
        if let Some(c) = &mut self.call {
            if c.epoch == epoch {
                c.input_ok = input_ok;
                c.output_ok = output_ok;
            }
        }
    }

    /// Whether the microphone of attempt `epoch` is delivering signal.
    pub fn mic_activity(&mut self, epoch: u32, receiving: bool)
        ensures
            (old(self).call is Some && old(self).call->0.epoch == epoch) ==> {
                let c = old(self).call->0;
                let n = final(self).call->0;
                &&& final(self).call is Some
                &&& n.mic_receiving == receiving
                &&& n.link_state == c.link_state && n.epoch == c.epoch && n.voice_call_id == c.voice_call_id
                &&& n.media == c.media && n.input_ok == c.input_ok && n.output_ok == c.output_ok
                &&& n.latency_ms == c.latency_ms && n.presence_snapshot@ == c.presence_snapshot@
                &&& n.muted == c.muted && n.deafened == c.deafened
            },
            !(old(self).call is Some && old(self).call->0.epoch == epoch) ==> final(self).call == old(self).call,
            final(self).pending_rejoin == old(self).pending_rejoin,
            final(self).reconnect_seq == old(self).reconnect_seq,
            final(self).room_presence@ == old(self).room_presence@,
            final(self).active_server_id == old(self).active_server_id,
            session_ok(*old(self)) ==> session_ok(*final(self)),
    {
        if let Some(c) = &mut self.call {
            if c.epoch == epoch {
                c.mic_receiving = receiving;
            }
        }
    }

    /// The chat stream measured a round trip.
    pub fn latency_updated(&mut self, latency_ms: u32)
        ensures
            match old(self).call {
                Some(c) => {
                    let n = final(self).call->0;
                    &&& final(self).call is Some
                    &&& n.latency_ms == latency_ms
                    &&& n.link_state == c.link_state && n.epoch == c.epoch && n.voice_call_id == c.voice_call_id
                    &&& n.media == c.media && n.presence_snapshot@ == c.presence_snapshot@
                    &&& n.muted == c.muted && n.deafened == c.deafened
                    &&& n.input_ok == c.input_ok && n.output_ok == c.output_ok && n.mic_receiving == c.mic_receiving
                },
                None => final(self).call.is_none(),
            },
            final(self).pending_rejoin == old(self).pending_rejoin,
            final(self).reconnect_seq == old(self).reconnect_seq,
            final(self).active_server_id == old(self).active_server_id,
            final(self).room_presence@ == old(self).room_presence@,
            session_ok(*old(self)) ==> session_ok(*final(self)),
    {
        if let Some(c) = &mut self.call {
            c.latency_ms = latency_ms;
        }
    }

    /// The server sent the membership of the call in `voice_channel_id`. It is
    /// recorded for the channel list; if it is our own call, a shrinking list
    /// plays the peer-leave cue and a growing one the peer-join cue.
    pub fn presence_snapshot(&mut self, voice_channel_id: u128, peers: Vec<DisplayVoiceUser>) -> (e: Effects)
        ensures
            final(self).room_presence@ == old(self).room_presence@.insert(voice_channel_id, peers),
            (old(self).call is Some && old(self).call->0.voice_call_id == Some(voice_channel_id)) ==> {
                let c = old(self).call->0;
                let n = final(self).call->0;
                &&& final(self).call is Some
                &&& n.presence_snapshot@ == peers@
                &&& n.link_state == c.link_state && n.epoch == c.epoch && n.voice_call_id == c.voice_call_id
                &&& e.cue == (if c.presence_snapshot@.len() > peers@.len() {
                    Some(Cue::PeerLeave)
                } else if c.presence_snapshot@.len() < peers@.len() {
                    Some(Cue::PeerJoin)
                } else {
                    None
                })
            },
            !(old(self).call is Some && old(self).call->0.voice_call_id == Some(voice_channel_id))
                ==> final(self).call == old(self).call && e.cue.is_none(),
            e.commands@.len() == 0 && e.timer.is_none(),
            final(self).pending_rejoin == old(self).pending_rejoin,
            final(self).reconnect_seq == old(self).reconnect_seq,
            final(self).active_server_id == old(self).active_server_id,
            session_ok(*old(self)) ==> session_ok(*final(self)),
    {
        let mut cue: Option<Cue> = None;
        match &mut self.call {
            Some(c) => {
                if c.voice_call_id == Some(voice_channel_id) {
                    let old_len = c.presence_snapshot.len();
                    let new_len = peers.len();
                    if old_len > new_len {
                        cue = Some(Cue::PeerLeave);
                    } else if old_len < new_len {
                        cue = Some(Cue::PeerJoin);
                    }
                    let mut copy: Vec<DisplayVoiceUser> = Vec::new();
                    let mut i: usize = 0;
                    while i < peers.len()
                        invariant
                            i <= peers@.len(),
                            copy@.len() == i,
                            forall|k: int| 0 <= k < i ==> #[trigger] copy@[k] == peers@[k],
                        decreases peers@.len() - i,
                    {
                        copy.push(peers[i].clone());
                        i += 1;
                    }
                    proof { assert(copy@ =~= peers@); }
                    c.presence_snapshot = copy;
                }
            },
            None => {},
        }
        self.room_presence.insert(voice_channel_id, peers);
        Effects { commands: Vec::new(), cue, timer: None }
    }

    /// The user logged out: drop the call, the pending rejoin and everything watched.
    pub fn log_out(&mut self)
        ensures
            final(self).call.is_none(),
            final(self).pending_rejoin.is_none(),
            final(self).active_server_id.is_none(),
            final(self).room_presence@ == Map::<u128, Vec<DisplayVoiceUser>>::empty(),
            final(self).reconnect_seq == old(self).reconnect_seq,
    {
        self.call = None;
        self.pending_rejoin = None;
        self.active_server_id = None;
        self.room_presence.clear();
    }
}

/// How healthy something looks, from idle to bad.
#[derive(Clone, Copy, Debug, PartialEq, Eq, Structural)]
pub enum Tone {
    Idle,
    Pending,
    Good,
    Warn,
    Bad,
}

/// The status line, tone and hint shown for the call (spec of `describe_voice`).
pub open spec fn describe_spec(
    link: LinkState,
    media: MediaHealth,
    input_ok: bool,
    output_ok: bool,
    mic_receiving: bool,
) -> (Seq<char>, Tone, Option<Seq<char>>) {
    let connected = link is Live || link is Unstable;
    let mic_down = !input_ok || !mic_receiving;
    let speaker_down = !output_ok;
    let device_hint: Option<Seq<char>> = if connected && mic_down && speaker_down {
        Some("No mic or speaker \u{2014} check Settings"@)
    } else if connected && mic_down {
        Some("No mic \u{2014} others can't hear you"@)
    } else if connected && speaker_down {
        Some("No speaker \u{2014} you can't hear others"@)
    } else {
        None
    };
    let (status, tone): (Seq<char>, Tone) = match link {
        LinkState::Idle => ("Idle..."@, Tone::Idle),
        LinkState::Connecting => ("Connecting..."@, Tone::Pending),
        LinkState::Reconnecting { .. } => ("Reconnecting..."@, Tone::Warn),
        LinkState::Lost { reason } => ("Voice Lost: "@ + reason@, Tone::Bad),
        LinkState::Unstable => ("Voice Connected - Unstable"@, Tone::Warn),
        LinkState::Live => if media == MediaHealth::TransportDegraded {
            ("Voice Connected - Unstable"@, Tone::Warn)
        } else {
            ("Voice Connected"@, Tone::Good)
        },
    };
    match device_hint {
        Some(hint) => (status, Tone::Warn, Some(hint)),
        None => (status, tone, None),
    }
}

/// Describe the call for the call controller: a status line, its tone, and a
/// hint. A dead microphone or speaker on a connected call downgrades the tone
/// to a warning and shows how to fix it.
pub fn describe_voice(
    link: &LinkState,
    media: MediaHealth,
    input_ok: bool,
    output_ok: bool,
    mic_receiving: bool,
) -> (r: (String, Tone, Option<String>))
    ensures
        ({
            let d = describe_spec(*link, media, input_ok, output_ok, mic_receiving);
            &&& r.0@ == d.0
            &&& r.1 == d.1
            &&& match r.2 {
                Some(h) => d.2 == Some(h@),
                None => d.2.is_none(),
            }
        }),
{
    let connected = match link {
        LinkState::Live | LinkState::Unstable => true,
        _ => false,
    };
    let mic_down = !input_ok || !mic_receiving;
    let speaker_down = !output_ok;
    let device_hint: Option<String> = if connected && mic_down && speaker_down {
        Some(String::from_str("No mic or speaker \u{2014} check Settings"))
    } else if connected && mic_down {
        Some(String::from_str("No mic \u{2014} others can't hear you"))
    } else if connected && speaker_down {
        Some(String::from_str("No speaker \u{2014} you can't hear others"))
    } else {
        None
    };
    let (status, tone): (String, Tone) = match link {
        LinkState::Idle => (String::from_str("Idle..."), Tone::Idle),
        LinkState::Connecting => (String::from_str("Connecting..."), Tone::Pending),
        LinkState::Reconnecting { .. } => (String::from_str("Reconnecting..."), Tone::Warn),
        LinkState::Lost { reason } => (String::from_str("Voice Lost: ").concat(reason.as_str()), Tone::Bad),
        LinkState::Unstable => (String::from_str("Voice Connected - Unstable"), Tone::Warn),
        LinkState::Live => match media {
            MediaHealth::TransportDegraded => (String::from_str("Voice Connected - Unstable"), Tone::Warn),
            MediaHealth::NoAudio | MediaHealth::Flowing | MediaHealth::Unknown => {
                (String::from_str("Voice Connected"), Tone::Good)
            },
        },
    };
    match device_hint {
        Some(hint) => (status, Tone::Warn, Some(hint)),
        None => (status, tone, None),
    }
}

/// On a connected call (live or unstable) a dead device always shows a hint
/// and turns the tone to a warning: a microphone that failed to open or
/// delivers no signal, a speaker that failed, or both. Without a dead device,
/// or off a connected call, no hint is shown. The status line never depends
/// on the devices.
pub proof fn lemma_dead_device_warns(
    link: LinkState,
    media: MediaHealth,
    input_ok: bool,
    output_ok: bool,
    mic_receiving: bool,
)
    ensures
        ({
            let d = describe_spec(link, media, input_ok, output_ok, mic_receiving);
            let connected = link is Live || link is Unstable;
            &&& d.0 == describe_spec(link, media, true, true, true).0
            &&& (connected && (!input_ok || !mic_receiving) && output_ok) ==> d.1 == Tone::Warn && d.2 == Some(
                "No mic \u{2014} others can't hear you"@,
            )
            &&& (connected && input_ok && mic_receiving && !output_ok) ==> d.1 == Tone::Warn && d.2 == Some(
                "No speaker \u{2014} you can't hear others"@,
            )
            &&& (connected && (!input_ok || !mic_receiving) && !output_ok) ==> d.1 == Tone::Warn && d.2 == Some(
                "No mic or speaker \u{2014} check Settings"@,
            )
            &&& (!connected || (input_ok && mic_receiving && output_ok)) ==> d.2.is_none()
                && d.1 == describe_spec(link, media, true, true, true).1
        }),
{
}

/// The tone of a measured round trip: good up to 150 ms, a warning up to 300 ms.
pub fn latency_tone(ms: u32) -> (t: Tone)
    ensures
        t == (if ms <= 150 { Tone::Good } else if ms <= 300 { Tone::Warn } else { Tone::Bad }),
{
    if ms <= 150 {
        Tone::Good
    } else if ms <= 300 {
        Tone::Warn
    } else {
        Tone::Bad
    }
}

/// A call that has used up its reconnect attempts is given up at the next
/// failure: it is lost, and no further join is issued.
pub proof fn lemma_reconnects_are_bounded(c: CallState, id: u128, r: CallState, cmds: Seq<CallCommand>)
    requires
        link_ok(c.link_state),
        c.link_state == (LinkState::Reconnecting { attempt: MAX_RECONNECT_ATTEMPTS }),
        reconnect_spec(c, id, r, cmds),
    ensures
        r.link_state is Lost,
        cmds.len() == 0,
        r.epoch == c.epoch,
{
}

/// Every reconnect that rejoins moves to a new epoch, so every event still in
/// flight from the previous attempt is ignored afterwards; and it never makes
/// more than the allowed number of attempts.
pub proof fn lemma_reconnect_obsoletes_previous_attempt(c: CallState, id: u128, r: CallState, cmds: Seq<CallCommand>)
    requires
        link_ok(c.link_state),
        reconnect_spec(c, id, r, cmds),
        cmds.len() > 0,
    ensures
        r.epoch != c.epoch,
        r.link_state is Reconnecting,
        1 <= r.link_state->attempt <= MAX_RECONNECT_ATTEMPTS,
        cmds.last() == (CallCommand::Join { voice_channel_id: id, epoch: r.epoch }),
{
}

/// An idle or lost call is never reconnected.
pub proof fn lemma_idle_or_lost_never_reconnects(c: CallState, id: u128, r: CallState, cmds: Seq<CallCommand>)
    requires
        c.link_state is Idle || c.link_state is Lost,
        reconnect_spec(c, id, r, cmds),
    ensures
        cmds.len() == 0,
        r.link_state == c.link_state,
        r.epoch == c.epoch,
{
}

/// What the call controller shows.
#[derive(Debug)]
pub struct CallPanel {
    pub channel_name: String,
    pub status: String,
    pub tone: Tone,
    pub hint: Option<String>,
    /// The round trip in milliseconds and its tone, shown while connected.
    pub latency: Option<(u32, Tone)>,
}

/// The voice channel shown as the user's call: the channel of the call, or
/// else the one being rejoined.
pub open spec fn current_call_spec(s: VoiceSession) -> Option<u128> {
    let in_call = match s.call {
        Some(c) => c.voice_call_id,
        None => None,
    };
    match in_call {
        Some(id) => Some(id),
        None => match s.pending_rejoin {
            Some(p) => Some(p.voice_channel_id),
            None => None,
        },
    }
}

/// The name the call controller gives channel `id`: the first channel of
/// `cs` with that id, else "Voice".
pub open spec fn call_channel_name(cs: Seq<Channel>, id: u128) -> Seq<char> {
    if exists|j: int| 0 <= j < cs.len() && #[trigger] cs[j].id == id {
        let j = choose|j: int| 0 <= j < cs.len() && cs[j].id == id && forall|k: int| 0 <= k < j ==> #[trigger] cs[k].id != id;
        cs[j].name@
    } else {
        "Voice"@
    }
}

/// The call controller's contents (spec of `call_panel`), as
/// (channel name, status, tone, hint, latency); none without a call.
pub open spec fn panel_spec(s: VoiceSession, cs: Seq<Channel>) -> Option<(Seq<char>, Seq<char>, Tone, Option<Seq<char>>, Option<(u32, Tone)>)> {
    match current_call_spec(s) {
        None => None,
        Some(id) => match s.call {
            Some(c) => {
                let d = describe_spec(c.link_state, c.media, c.input_ok, c.output_ok, c.mic_receiving);
                let connected = c.link_state is Live || c.link_state is Unstable;
                let latency = if connected && c.latency_ms > 0 {
                    Some((c.latency_ms, latency_tone_spec(c.latency_ms)))
                } else {
                    None
                };
                Some((call_channel_name(cs, id), d.0, d.1, d.2, latency))
            },
            None => if s.pending_rejoin matches Some(p) && p.voice_channel_id == id {
                Some((call_channel_name(cs, id), "Reconnecting…"@, Tone::Warn, None, None))
            } else {
                None
            },
        },
    }
}

/// The tone of a measured round trip (spec of `latency_tone`).
pub open spec fn latency_tone_spec(ms: u32) -> Tone {
    if ms <= 150 { Tone::Good } else if ms <= 300 { Tone::Warn } else { Tone::Bad }
}

/// The view of an optional string.
pub open spec fn opt_text(o: Option<String>) -> Option<Seq<char>> {
    match o {
        Some(s) => Some(s@),
        None => None,
    }
}

impl VoiceSession {
    /// The voice channel shown as the user's call.
    pub fn current_call_id(&self) -> (r: Option<u128>)
        ensures
            r == current_call_spec(*self),
    {
        let in_call = match &self.call {
            Some(c) => c.voice_call_id,
            None => None,
        };
        match in_call {
            Some(id) => Some(id),
            None => match self.pending_rejoin {
                Some(p) => Some(p.voice_channel_id),
                None => None,
            },
        }
    }

    /// What the call controller shows, given the server's channels; nothing
    /// when there is no call.
    pub fn call_panel(&self, channels: &Vec<Channel>) -> (r: Option<CallPanel>)
        ensures
            match panel_spec(*self, channels@) {
                None => r is None,
                Some(p) => r matches Some(q) && q.channel_name@ == p.0 && q.status@ == p.1 && q.tone == p.2
                    && opt_text(q.hint) == p.3 && q.latency == p.4,
            },
    {
        let id = match self.current_call_id() {
            Some(id) => id,
            None => return None,
        };
        let mut j: usize = 0;
        while j < channels.len() && channels[j].id != id
            invariant
                j <= channels@.len(),
                forall|k: int| 0 <= k < j ==> #[trigger] channels@[k].id != id,
            decreases channels@.len() - j,
        {
            j += 1;
        }
        let channel_name = if j < channels.len() {
            proof {
                let cs = channels@;
                let c = choose|c: int| 0 <= c < cs.len() && cs[c].id == id && forall|k: int| 0 <= k < c ==> #[trigger] cs[k].id != id;
                assert(0 <= j < cs.len() && cs[j as int].id == id && forall|k: int| 0 <= k < j ==> #[trigger] cs[k].id != id);
                assert(c == j) by {
                    if c < j {
                        assert(cs[c].id != id);
                    } else if c > j {
                        assert(cs[j as int].id != id);
                    }
                }
            }
            channels[j].name.clone()
        } else {
            String::from_str("Voice")
        };
        match &self.call {
            Some(c) => {
                let (status, tone, hint) = describe_voice(&c.link_state, c.media, c.input_ok, c.output_ok, c.mic_receiving);
                let connected = match c.link_state {
                    LinkState::Live | LinkState::Unstable => true,
                    _ => false,
                };
                let latency = if connected && c.latency_ms > 0 {
                    Some((c.latency_ms, latency_tone(c.latency_ms)))
                } else {
                    None
                };
                Some(CallPanel { channel_name, status, tone, hint, latency })
            },
            None => {
                let reconnecting = match self.pending_rejoin {
                    Some(p) => p.voice_channel_id == id,
                    None => false,
                };
                if reconnecting {
                    Some(
                        CallPanel {
                            channel_name,
                            status: String::from_str("Reconnecting…"),
                            tone: Tone::Warn,
                            hint: None,
                            latency: None,
                        },
                    )
                } else {
                    None
                }
            },
        }
    }
}

} // verus!
