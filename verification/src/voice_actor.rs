//! Decisions of the client's voice actor: which signalling messages a command
//! sends, what it reports back to the UI, and how a device switch in a live
//! call is carried out.
//!
//! The actor's media work (peer connection, audio devices) is done by the
//! caller between the steps; each step takes the outcome of that work.

use vstd::prelude::*;

verus! {

/// A signalling message to the server.
#[derive(Clone, Copy, Debug, PartialEq, Eq, Structural)]
pub enum Signal {
    LeaveRoom { voice_channel_id: u128 },
    SubscribeServer { server_id: u128 },
    SetMuted { muted: bool, voice_channel_id: u128 },
    SetDeafened { deafened: bool, voice_channel_id: u128 },
}

/// A report to the UI.
#[derive(Clone, Copy, Debug, PartialEq, Eq, Structural)]
pub enum Report {
    JoinVoiceSuccessful { voice_channel_id: u128 },
    DeviceHealth { epoch: u32, input_ok: bool, output_ok: bool },
    /// The new output device runs at another rate: rebuild the call.
    RejoinForSettings { voice_channel_id: u128 },
}

/// The media of the call in progress, as far as decisions need it.
#[derive(Clone, Copy, Debug, PartialEq, Eq, Structural)]
pub struct ActiveCall {
    pub mic_ok: bool,
    pub speaker_ok: bool,
    pub in_rate: u32,
    pub out_rate: u32,
    pub epoch: u32,
}

/// The actor's own state. Mute and deafen persist across calls.
#[derive(Clone, Copy, Debug, PartialEq, Eq)]
pub struct VoiceActor {
    pub call: Option<ActiveCall>,
    pub room_id: Option<u128>,
    pub muted: bool,
    pub deafened: bool,
}

/// What a step asks the caller to do.
pub struct Step {
    /// Close the current peer connection first.
    pub teardown: bool,
    pub signals: Vec<Signal>,
    pub reports: Vec<Report>,
}

/// The leave message for the room the actor is in, if any.
pub open spec fn leave_signals(room_id: Option<u128>) -> Seq<Signal> {
    match room_id {
        Some(id) => seq![Signal::LeaveRoom { voice_channel_id: id }],
        None => Seq::empty(),
    }
}

/// The outcome of opening a device: its sample rate, or failure.
#[derive(Clone, Copy, Debug, PartialEq, Eq, Structural)]
pub enum DeviceOutcome {
    Opened { rate: u32 },
    Failed,
}

/// What to do with the capture path after the input device was switched.
#[derive(Clone, Copy, Debug, PartialEq, Eq, Structural)]
pub enum CaptureChange {
    /// Nothing to tell the capture path.
    Keep,
    /// The new device runs at this rate: rebuild the capture resampler.
    Rate(u32),
}

impl VoiceActor {
    pub fn new() -> (a: VoiceActor)
        ensures
            a.call.is_none() && a.room_id.is_none() && !a.muted && !a.deafened,
    {
        VoiceActor { call: None, room_id: None, muted: false, deafened: false }
    }

    fn leave_current(&mut self) -> (r: (bool, Vec<Signal>))
        ensures
            r.0 == old(self).call.is_some(),
            r.0 ==> r.1@ == leave_signals(old(self).room_id) && final(self).room_id.is_none(),
            !r.0 ==> r.1@.len() == 0 && final(self).room_id == old(self).room_id,
            final(self).call.is_none(),
            final(self).muted == old(self).muted && final(self).deafened == old(self).deafened,
    {
        let mut signals = Vec::new();
        if self.call.is_none() {
            return (false, signals);
        }
        self.call = None;
        if let Some(id) = self.room_id {
            signals.push(Signal::LeaveRoom { voice_channel_id: id });
            proof { assert(signals@ == seq![Signal::LeaveRoom { voice_channel_id: id }]); }
        }
        self.room_id = None;
        (true, signals)
    }

    /// A join was requested: leave the current call first (if any). The
    /// caller then builds the new call and reports it with `joined`.
    pub fn begin_join(&mut self) -> (s: Step)
        ensures
            s.teardown == old(self).call.is_some(),
            s.teardown ==> s.signals@ == leave_signals(old(self).room_id) && final(self).room_id.is_none(),
            !s.teardown ==> s.signals@.len() == 0 && final(self).room_id == old(self).room_id,
            s.reports@.len() == 0,
            final(self).call.is_none(),
            final(self).muted == old(self).muted && final(self).deafened == old(self).deafened,
    {
        let (teardown, signals) = self.leave_current();
        Step { teardown, signals, reports: Vec::new() }
    }

    /// The call to `voice_channel_id` for UI epoch `epoch` was built, with or
    /// without a working microphone and speaker. The UI learns that the join
    /// succeeded and which devices work; the server, which starts every
    /// participant un-muted, is told the persisted mute and deafen state.
    pub fn joined(&mut self, voice_channel_id: u128, epoch: u32, mic_ok: bool, speaker_ok: bool, in_rate: u32, out_rate: u32) -> (s: Step)
        ensures
            final(self).call == Some(ActiveCall { mic_ok, speaker_ok, in_rate, out_rate, epoch }),
            final(self).room_id == Some(voice_channel_id),
            final(self).muted == old(self).muted && final(self).deafened == old(self).deafened,
            !s.teardown,
            s.reports@ == seq![
                Report::JoinVoiceSuccessful { voice_channel_id },
                Report::DeviceHealth { epoch, input_ok: mic_ok, output_ok: speaker_ok },
            ],
            s.signals@ == (if old(self).muted {
                seq![Signal::SetMuted { muted: true, voice_channel_id }]
            } else {
                Seq::empty()
            }) + (if old(self).deafened {
                seq![Signal::SetDeafened { deafened: true, voice_channel_id }]
            } else {
                Seq::empty()
            }),
    {
        let mut reports = Vec::new();
        reports.push(Report::JoinVoiceSuccessful { voice_channel_id });
        reports.push(Report::DeviceHealth { epoch, input_ok: mic_ok, output_ok: speaker_ok });
        self.call = Some(ActiveCall { mic_ok, speaker_ok, in_rate, out_rate, epoch });
        self.room_id = Some(voice_channel_id);
        let mut signals = Vec::new();
        if self.muted {
            signals.push(Signal::SetMuted { muted: true, voice_channel_id });
        }
        let ghost first = signals@;
        if self.deafened {
            signals.push(Signal::SetDeafened { deafened: true, voice_channel_id });
        }
        proof {
            assert(signals@ =~= first + (if self.deafened {
                seq![Signal::SetDeafened { deafened: true, voice_channel_id }]
            } else {
                Seq::empty()
            }));
            assert(reports@ =~= seq![
                Report::JoinVoiceSuccessful { voice_channel_id },
                Report::DeviceHealth { epoch, input_ok: mic_ok, output_ok: speaker_ok },
            ]);
        }
        Step { teardown: false, signals, reports }
    }

    /// Leave the call, if there is one.
    pub fn leave(&mut self) -> (s: Step)
        ensures
            s.teardown == old(self).call.is_some(),
            s.teardown ==> s.signals@ == leave_signals(old(self).room_id) && final(self).room_id.is_none(),
            !s.teardown ==> s.signals@.len() == 0 && final(self).room_id == old(self).room_id,
            s.reports@.len() == 0,
            final(self).call.is_none(),
            final(self).muted == old(self).muted && final(self).deafened == old(self).deafened,
    {
        let (teardown, signals) = self.leave_current();
        Step { teardown, signals, reports: Vec::new() }
    }

    /// Set self-mute; the server is told only while in a room.
    pub fn set_muted(&mut self, muted: bool) -> (signals: Vec<Signal>)
        ensures
            *final(self) == (VoiceActor { muted, ..*old(self) }),
            signals@ == (match old(self).room_id {
                Some(id) => seq![Signal::SetMuted { muted, voice_channel_id: id }],
                None => Seq::empty(),
            }),
    {
        self.muted = muted;
        let mut signals = Vec::new();
        if let Some(id) = self.room_id {
            signals.push(Signal::SetMuted { muted, voice_channel_id: id });
            proof { assert(signals@ == seq![Signal::SetMuted { muted, voice_channel_id: id }]); }
        }
        signals
    }

    /// Set deafen; the server is told only while in a room.
    pub fn set_deafened(&mut self, deafened: bool) -> (signals: Vec<Signal>)
        ensures
            *final(self) == (VoiceActor { deafened, ..*old(self) }),
            signals@ == (match old(self).room_id {
                Some(id) => seq![Signal::SetDeafened { deafened, voice_channel_id: id }],
                None => Seq::empty(),
            }),
    {
        self.deafened = deafened;
        let mut signals = Vec::new();
        if let Some(id) = self.room_id {
            signals.push(Signal::SetDeafened { deafened, voice_channel_id: id });
            proof { assert(signals@ == seq![Signal::SetDeafened { deafened, voice_channel_id: id }]); }
        }
        signals
    }

    /// The input device of the live call was switched and the new one opened
    /// (or not). A new rate rebuilds the capture resampler; a failure leaves
    /// the call without a microphone. The UI gets the device health. Without
    /// a call nothing happens (the choice only applies to the next join).
    pub fn input_switched(&mut self, outcome: DeviceOutcome) -> (r: (CaptureChange, Vec<Report>))
        ensures
            match old(self).call {
                None => *final(self) == *old(self) && r.0 == CaptureChange::Keep && r.1@.len() == 0,
                Some(c) => {
                    let n = final(self).call->0;
                    &&& final(self).call is Some
                    &&& final(self).room_id == old(self).room_id
                    &&& n.speaker_ok == c.speaker_ok && n.out_rate == c.out_rate && n.epoch == c.epoch
                    &&& match outcome {
                        DeviceOutcome::Opened { rate } => {
                            &&& n.mic_ok
                            &&& n.in_rate == rate
                            &&& r.0 == (if rate != c.in_rate { CaptureChange::Rate(rate) } else { CaptureChange::Keep })
                        },
                        DeviceOutcome::Failed => !n.mic_ok && n.in_rate == c.in_rate && r.0 == CaptureChange::Keep,
                    }
                    &&& r.1@ == seq![Report::DeviceHealth { epoch: c.epoch, input_ok: n.mic_ok, output_ok: n.speaker_ok }]
                },
            },
            final(self).muted == old(self).muted && final(self).deafened == old(self).deafened,
    {
        let mut c = match self.call {
            Some(c) => c,
            None => { return (CaptureChange::Keep, Vec::new()); },
        };
        let change = match outcome {
            DeviceOutcome::Opened { rate } => {
                let change = if rate != c.in_rate { CaptureChange::Rate(rate) } else { CaptureChange::Keep };
                c.in_rate = rate;
                c.mic_ok = true;
                change
            },
            DeviceOutcome::Failed => {
                c.mic_ok = false;
                CaptureChange::Keep
            },
        };
        self.call = Some(c);
        let mut reports = Vec::new();
        reports.push(Report::DeviceHealth { epoch: c.epoch, input_ok: c.mic_ok, output_ok: c.speaker_ok });
        proof { assert(reports@ == seq![Report::DeviceHealth { epoch: c.epoch, input_ok: c.mic_ok, output_ok: c.speaker_ok }]); }
        (change, reports)
    }

    /// The output device of the live call was switched. A device at the
    /// call's output rate is swapped in seamlessly; one at another rate cannot
    /// be (the mixer is sized to the rate), so the call is rebuilt by a rejoin;
    /// a failure leaves the call without a speaker. Returns whether the new
    /// stream is kept, and the reports.
    pub fn output_switched(&mut self, outcome: DeviceOutcome) -> (r: (bool, Vec<Report>))
        ensures
            match old(self).call {
                None => *final(self) == *old(self) && !r.0 && r.1@.len() == 0,
                Some(c) => {
                    let n = final(self).call->0;
                    &&& final(self).call is Some
                    &&& final(self).room_id == old(self).room_id
                    &&& n.mic_ok == c.mic_ok && n.in_rate == c.in_rate && n.out_rate == c.out_rate && n.epoch == c.epoch
                    &&& match outcome {
                        DeviceOutcome::Opened { rate } => if rate == c.out_rate {
                            &&& r.0 && n.speaker_ok
                            &&& r.1@ == seq![Report::DeviceHealth { epoch: c.epoch, input_ok: c.mic_ok, output_ok: true }]
                        } else {
                            &&& !r.0 && n.speaker_ok == c.speaker_ok
                            &&& r.1@ == (match old(self).room_id {
                                Some(id) => seq![Report::RejoinForSettings { voice_channel_id: id }],
                                None => Seq::empty(),
                            })
                        },
                        DeviceOutcome::Failed => {
                            &&& !r.0 && !n.speaker_ok
                            &&& r.1@ == seq![Report::DeviceHealth { epoch: c.epoch, input_ok: c.mic_ok, output_ok: false }]
                        },
                    }
                },
            },
            final(self).muted == old(self).muted && final(self).deafened == old(self).deafened,
    {
        let mut c = match self.call {
            Some(c) => c,
            None => { return (false, Vec::new()); },
        };
        let mut reports = Vec::new();
        let keep = match outcome {
            DeviceOutcome::Opened { rate } => {
                if rate == c.out_rate {
                    c.speaker_ok = true;
                    reports.push(Report::DeviceHealth { epoch: c.epoch, input_ok: c.mic_ok, output_ok: true });
                    proof { assert(reports@ == seq![Report::DeviceHealth { epoch: c.epoch, input_ok: c.mic_ok, output_ok: true }]); }
                    true
                } else {
                    if let Some(id) = self.room_id {
                        reports.push(Report::RejoinForSettings { voice_channel_id: id });
                        proof { assert(reports@ == seq![Report::RejoinForSettings { voice_channel_id: id }]); }
                    }
                    false
                }
            },
            DeviceOutcome::Failed => {
                c.speaker_ok = false;
                reports.push(Report::DeviceHealth { epoch: c.epoch, input_ok: c.mic_ok, output_ok: false });
                proof { assert(reports@ == seq![Report::DeviceHealth { epoch: c.epoch, input_ok: c.mic_ok, output_ok: false }]); }
                false
            },
        };
        self.call = Some(c);
        (keep, reports)
    }
}

} // verus!
