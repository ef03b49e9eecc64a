//! Decisions of the outgoing audio path and of the call's health poller.
//!
//! The level measurements are made by the caller (they are floating point);
//! these machines only see whether a frame was above a threshold, and keep the
//! hang-over counters that stop word gaps from flickering.

use vstd::prelude::*;
use crate::text::same_text;
use crate::voice_link::MediaHealth;

verus! {

/// Frames (10 ms each) that speaking is held after the level drops.
pub const VAD_HANGOVER: u32 = 25;
/// Frames (10 ms each) that the noise gate stays open after the level drops.
pub const GATE_HANGOVER: u32 = 30;
/// Consecutive silent poller ticks before the microphone is reported dead.
pub const SILENT_TICKS_LIMIT: u32 = 3;
/// Consecutive ticks without new inbound audio before media counts as absent.
pub const FLAT_TICKS_LIMIT: u32 = 3;

/// Voice activity of the local speaker, announced to the room on change.
#[derive(Clone, Copy, Debug, PartialEq, Eq, Default)]
pub struct VoiceActivity {
    pub speaking: bool,
    pub hang: u32,
    pub last_sent: bool,
}

/// Spec of `VoiceActivity::frame`: the speaking state after one frame.
pub open spec fn activity_after(a: VoiceActivity, gated: bool, loud: bool) -> (bool, u32) {
    if gated {
        (false, 0)
    } else if loud {
        (true, VAD_HANGOVER)
    } else if a.hang > 0 {
        (a.speaking, (a.hang - 1) as u32)
    } else {
        (false, a.hang)
    }
}

impl VoiceActivity {
    pub fn new() -> (a: VoiceActivity)
        ensures
            a == (VoiceActivity { speaking: false, hang: 0, last_sent: false }),
    {
        VoiceActivity { speaking: false, hang: 0, last_sent: false }
    }

    /// One processed 10 ms frame. `gated` is true while muted or deafened
    /// (nothing is published and we are never speaking); `loud` is whether the
    /// frame's level exceeded the activity threshold. Returns the new speaking
    /// state when it differs from the one last announced.
    pub fn frame(&mut self, gated: bool, loud: bool) -> (announce: Option<bool>)
        ensures
            (final(self).speaking, final(self).hang) == activity_after(*old(self), gated, loud),
            announce == (if final(self).speaking != old(self).last_sent { Some(final(self).speaking) } else { None }),
            final(self).last_sent == final(self).speaking,
    {
        if gated {
            self.speaking = false;
            self.hang = 0;
        } else if loud {
            self.speaking = true;
            self.hang = VAD_HANGOVER;
        } else if self.hang > 0 {
            self.hang = self.hang - 1;
        } else {
            self.speaking = false;
        }
        if self.speaking != self.last_sent {
            self.last_sent = self.speaking;
            Some(self.speaking)
        } else {
            None
        }
    }
}

/// The noise gate: it mutes published frames once the level stays below the
/// threshold for the hang-over period.
#[derive(Clone, Copy, Debug, PartialEq, Eq, Default)]
pub struct NoiseGate {
    pub hang: u32,
}

impl NoiseGate {
    pub fn new() -> (g: NoiseGate)
        ensures
            g.hang == 0,
    {
        NoiseGate { hang: 0 }
    }

    /// One 10 ms frame. `disabled`: the threshold is zero or less, so every
    /// frame passes; `above`: the level of this frame exceeded the threshold.
    /// Returns whether the frame is published.
    pub fn frame(&mut self, disabled: bool, above: bool) -> (open: bool)
        ensures
            (*final(self), open) == gate_after(*old(self), disabled, above),
            disabled ==> open && *final(self) == *old(self),
            !disabled && above ==> open && final(self).hang == GATE_HANGOVER,
            !disabled && !above && old(self).hang > 0 ==> open && final(self).hang == old(self).hang - 1,
            !disabled && !above && old(self).hang == 0 ==> !open && final(self).hang == 0,
    {
        if disabled {
            true
        } else if above {
            self.hang = GATE_HANGOVER;
            true
        } else if self.hang > 0 {
            self.hang = self.hang - 1;
            true
        } else {
            false
        }
    }
}

/// Spec of `NoiseGate::frame`: the noise gate after one frame, and whether the
/// frame is published.
pub open spec fn gate_after(g: NoiseGate, disabled: bool, above: bool) -> (NoiseGate, bool) {
    if disabled {
        (g, true)
    } else if above {
        (NoiseGate { hang: GATE_HANGOVER }, true)
    } else if g.hang > 0 {
        (NoiseGate { hang: (g.hang - 1) as u32 }, true)
    } else {
        (g, false)
    }
}

/// The duration of one encoded packet written to the outgoing track, in ms.
pub const OPUS_FRAME_MS: u64 = 20;
/// Processed 10 ms frames that make one packet.
pub const FRAMES_PER_PACKET: u32 = 2;

/// What the outgoing path knows of one processed 10 ms frame. The levels
/// are compared by the caller (floating point).
#[derive(Clone, Copy, Debug, PartialEq, Eq, Structural)]
pub struct CaptureInput {
    /// Muted or deafened (deafen implies mute), read live.
    pub gated: bool,
    /// The frame's level exceeded the voice-activity threshold.
    pub loud: bool,
    /// The noise-gate threshold is zero or less: no frame is silenced.
    pub gate_disabled: bool,
    /// The frame's level exceeded the noise-gate threshold.
    pub above_gate: bool,
}

/// What to do after one processed frame.
#[derive(Clone, Copy, Debug, PartialEq, Eq)]
pub struct FrameOutcome {
    /// Announce this speaking state to the room.
    pub announce: Option<bool>,
    /// The noise gate is closed: the frame is replaced by silence.
    pub zeroed: bool,
    /// A packet is complete: encode it and write it to the track, as a
    /// sample of this many milliseconds. Absent while gated.
    pub packet: Option<u64>,
    /// A packet's worth of frames was taken from the accumulator (written or
    /// not), so it never grows while gated.
    pub drained: bool,
}

/// The outgoing audio path of a call: voice activity, noise gate, and the
/// count of frames waiting for the next packet.
#[derive(Clone, Copy, Debug, PartialEq, Eq)]
pub struct CapturePath {
    pub activity: VoiceActivity,
    pub gate: NoiseGate,
    pub pending: u32,
}

/// Spec of `CapturePath::frame`.
pub open spec fn path_step(p: CapturePath, i: CaptureInput) -> (CapturePath, FrameOutcome) {
    let (speaking, hang) = activity_after(p.activity, i.gated, i.loud);
    let (gate, open) = gate_after(p.gate, i.gate_disabled, i.above_gate);
    let full = p.pending + 1 >= FRAMES_PER_PACKET;
    (
        CapturePath {
            activity: VoiceActivity { speaking, hang, last_sent: speaking },
            gate,
            pending: if full { 0 } else { (p.pending + 1) as u32 },
        },
        FrameOutcome {
            announce: if speaking != p.activity.last_sent { Some(speaking) } else { None },
            zeroed: !open,
            packet: if full && !i.gated { Some(OPUS_FRAME_MS) } else { None },
            drained: full,
        },
    )
}

/// The outcomes of a stream of frames, in order.
pub open spec fn path_run(p: CapturePath, ins: Seq<CaptureInput>) -> Seq<FrameOutcome>
    decreases ins.len(),
{
    if ins.len() == 0 {
        Seq::empty()
    } else {
        seq![path_step(p, ins[0]).1] + path_run(path_step(p, ins[0]).0, ins.drop_first())
    }
}

/// The speaking states announced over a stream of outcomes, in order.
pub open spec fn announced(outs: Seq<FrameOutcome>) -> Seq<bool>
    decreases outs.len(),
{
    if outs.len() == 0 {
        Seq::empty()
    } else {
        (match outs[0].announce {
            Some(b) => seq![b],
            None => Seq::empty(),
        }) + announced(outs.drop_first())
    }
}

impl CapturePath {
    /// A call's outgoing path starts silent, with nothing announced.
    pub fn new() -> (p: CapturePath)
        ensures
            p == (CapturePath { activity: VoiceActivity { speaking: false, hang: 0, last_sent: false }, gate: NoiseGate { hang: 0 }, pending: 0 }),
    {
        CapturePath { activity: VoiceActivity::new(), gate: NoiseGate::new(), pending: 0 }
    }

    /// One processed 10 ms frame: update voice activity and the noise gate, and
    /// complete a packet every second frame. While gated the packet's frames
    /// are dropped instead of written.
    pub fn frame(&mut self, i: CaptureInput) -> (o: FrameOutcome)
        ensures
            (*final(self), o) == path_step(*old(self), i),
    {
        let announce = self.activity.frame(i.gated, i.loud);
        let open = self.gate.frame(i.gate_disabled, i.above_gate);
        let full = self.pending >= FRAMES_PER_PACKET - 1;
        self.pending = if full { 0 } else { self.pending + 1 };
        let packet = if full && !i.gated { Some(OPUS_FRAME_MS) } else { None };
        FrameOutcome { announce, zeroed: !open, packet, drained: full }
    }
}

/// No packet is written for a frame completed while muted or deafened, and
/// every packet written lasts 20 ms.
pub proof fn lemma_gated_frames_never_published(p: CapturePath, ins: Seq<CaptureInput>)
    ensures
        path_run(p, ins).len() == ins.len(),
        forall|k: int| 0 <= k < ins.len() && #[trigger] ins[k].gated ==> path_run(p, ins)[k].packet.is_none(),
        forall|k: int| 0 <= k < ins.len() && (#[trigger] path_run(p, ins)[k]).packet.is_some()
            ==> path_run(p, ins)[k].packet == Some(OPUS_FRAME_MS),
    decreases ins.len(),
{
    if ins.len() > 0 {
        let q = path_step(p, ins[0]).0;
        let rest = ins.drop_first();
        lemma_gated_frames_never_published(q, rest);
        let r = path_run(p, ins);
        assert forall|k: int| 0 < k < ins.len() implies r[k] == path_run(q, rest)[k - 1] && ins[k] == rest[k - 1] by {}
    }
}

/// Speaking announcements alternate: the first announces the opposite of
/// what was last announced, and each one flips the previous.
pub proof fn lemma_announcements_alternate(p: CapturePath, ins: Seq<CaptureInput>)
    ensures
        forall|k: int| 0 <= k < announced(path_run(p, ins)).len() ==> #[trigger] announced(path_run(p, ins))[k]
            == (if k % 2 == 0 { !p.activity.last_sent } else { p.activity.last_sent }),
    decreases ins.len(),
{
    if ins.len() > 0 {
        let (q, o) = path_step(p, ins[0]);
        let rest = ins.drop_first();
        lemma_announcements_alternate(q, rest);
        let r = path_run(p, ins);
        let tail = path_run(q, rest);
        assert(r[0] == o);
        assert(r.drop_first() =~= tail);
        let a = announced(r);
        let at = announced(tail);
        match o.announce {
            Some(b) => {
                assert(b == !p.activity.last_sent);
                assert(q.activity.last_sent == b);
                assert(a =~= seq![b] + at);
                assert forall|k: int| 0 <= k < a.len() implies #[trigger] a[k]
                    == (if k % 2 == 0 { !p.activity.last_sent } else { p.activity.last_sent }) by {
                    if k > 0 {
                        assert(a[k] == at[k - 1]);
                        assert(k % 2 == 0 <==> (k - 1) % 2 != 0);
                    }
                }
            },
            None => {
                assert(q.activity.last_sent == p.activity.last_sent);
                assert(a =~= Seq::<bool>::empty() + at);
            },
        }
    }
}

/// From a fresh path the announcements go true, false, true, ...
pub proof fn lemma_fresh_announcements_start_speaking(ins: Seq<CaptureInput>)
    ensures
        forall|k: int| 0 <= k < announced(path_run(CapturePath { activity: VoiceActivity { speaking: false, hang: 0, last_sent: false }, gate: NoiseGate { hang: 0 }, pending: 0 }, ins)).len()
            ==> #[trigger] announced(path_run(CapturePath { activity: VoiceActivity { speaking: false, hang: 0, last_sent: false }, gate: NoiseGate { hang: 0 }, pending: 0 }, ins))[k] == (k % 2 == 0),
{
    lemma_announcements_alternate(CapturePath { activity: VoiceActivity { speaking: false, hang: 0, last_sent: false }, gate: NoiseGate { hang: 0 }, pending: 0 }, ins);
}

/// After speaking was announced, the first frame processed while muted or
/// deafened announces that the user stopped speaking; and a disabled gate
/// never silences a frame.
pub proof fn lemma_gating_stops_speaking(p: CapturePath, i: CaptureInput)
    ensures
        p.activity.last_sent && i.gated ==> path_step(p, i).1.announce == Some(false),
        i.gate_disabled ==> !path_step(p, i).1.zeroed,
{
}

/// Watches the counter of capture buffers that carried real signal, to tell a
/// working microphone from one that delivers nothing or pure silence.
#[derive(Clone, Copy, Debug, PartialEq, Eq)]
pub struct MicLiveness {
    pub prev_frames: Option<u64>,
    pub silent_ticks: u32,
    pub last_emitted: Option<bool>,
}

impl MicLiveness {
    /// Starts out assuming the microphone works (that is not announced).
    pub fn new() -> (m: MicLiveness)
        ensures
            m == (MicLiveness { prev_frames: None, silent_ticks: 0, last_emitted: Some(true) }),
    {
        MicLiveness { prev_frames: None, silent_ticks: 0, last_emitted: Some(true) }
    }

    /// One poller tick with the current signal-frame count. Returns the new
    /// receiving state when it changed. Receiving is lost only after the
    /// counter stayed flat for `SILENT_TICKS_LIMIT` ticks in a row, and comes
    /// back at the first tick on which it advances.
    pub fn tick(&mut self, frames: u64) -> (emit: Option<bool>)
        requires
            old(self).silent_ticks < u32::MAX,
        ensures
            ({
                let advanced = match old(self).prev_frames {
                    None => true,
                    Some(p) => frames > p,
                };
                &&& final(self).prev_frames == Some(frames)
                &&& final(self).silent_ticks == (if advanced { 0 } else { old(self).silent_ticks + 1 })
            }),
            ({
                let receiving = final(self).silent_ticks < SILENT_TICKS_LIMIT;
                &&& final(self).last_emitted == Some(receiving)
                &&& emit == (if old(self).last_emitted != Some(receiving) { Some(receiving) } else { None })
            }),
    {
        let advanced = match self.prev_frames {
            None => true,
            Some(p) => frames > p,
        };
        self.prev_frames = Some(frames);
        self.silent_ticks = if advanced { 0 } else { self.silent_ticks + 1 };
        let receiving = self.silent_ticks < SILENT_TICKS_LIMIT;
        if self.last_emitted != Some(receiving) {
            self.last_emitted = Some(receiving);
            Some(receiving)
        } else {
            None
        }
    }
}

/// Classifies inbound media from the byte counters of the audio streams.
#[derive(Clone, Copy, Debug, PartialEq, Eq)]
pub struct MediaWatch {
    pub prev_bytes: Option<u64>,
    pub flat_ticks: u32,
    pub last_emitted: Option<MediaHealth>,
}

/// The health reported for a tick, given the flat-tick count after it.
pub open spec fn health_of(audio_streams: u32, flat_ticks: u32, first: bool) -> MediaHealth {
    if audio_streams > 0 && flat_ticks >= FLAT_TICKS_LIMIT {
        MediaHealth::NoAudio
    } else if first {
        MediaHealth::Unknown
    } else {
        MediaHealth::Flowing
    }
}

impl MediaWatch {
    pub fn new() -> (m: MediaWatch)
        ensures
            m == (MediaWatch { prev_bytes: None, flat_ticks: 0, last_emitted: None }),
    {
        MediaWatch { prev_bytes: None, flat_ticks: 0, last_emitted: None }
    }

    /// One poller tick: `audio_streams` inbound audio streams have received
    /// `bytes` in total. Returns the health when it changed.
    pub fn tick(&mut self, audio_streams: u32, bytes: u64) -> (emit: Option<MediaHealth>)
        requires
            old(self).flat_ticks < u32::MAX,
        ensures
            ({
                let first = old(self).prev_bytes.is_none();
                let flat = audio_streams > 0 && match old(self).prev_bytes {
                    Some(p) => bytes <= p,
                    None => false,
                };
                let health = health_of(audio_streams, final(self).flat_ticks, first);
                &&& final(self).flat_ticks == (if flat { old(self).flat_ticks + 1 } else { 0 })
                &&& final(self).prev_bytes == Some(bytes)
                &&& final(self).last_emitted == Some(health)
                &&& emit == (if old(self).last_emitted != Some(health) { Some(health) } else { None })
            }),
    {
        let first = self.prev_bytes.is_none();
        let flat = audio_streams > 0 && match self.prev_bytes {
            Some(p) => bytes <= p,
            None => false,
        };
        self.flat_ticks = if flat { self.flat_ticks + 1 } else { 0 };
        self.prev_bytes = Some(bytes);
        let health = if audio_streams > 0 && self.flat_ticks >= FLAT_TICKS_LIMIT {
            MediaHealth::NoAudio
        } else if first {
            MediaHealth::Unknown
        } else {
            MediaHealth::Flowing
        };
        if self.last_emitted != Some(health) {
            self.last_emitted = Some(health);
            Some(health)
        } else {
            None
        }
    }
}

/// While muted or deafened the local user is never reported as speaking.
pub proof fn lemma_gated_is_silent(a: VoiceActivity, loud: bool)
    ensures
        activity_after(a, true, loud) == (false, 0u32),
{
}

/// A loud frame always reports speaking, and speaking then survives exactly
/// the hang-over period of quiet frames.
pub proof fn lemma_speaking_holds_through_hangover(a: VoiceActivity, n: u32)
    requires
        0 < n <= VAD_HANGOVER,
    ensures
        activity_after(a, false, true) == (true, VAD_HANGOVER),
        activity_after(VoiceActivity { speaking: true, hang: n, last_sent: a.last_sent }, false, false) == (true, (n - 1) as u32),
        activity_after(VoiceActivity { speaking: true, hang: 0, last_sent: a.last_sent }, false, false) == (false, 0u32),
{
}

/// The kind of an entry of a peer connection's statistics report.
#[derive(Clone, Copy, Debug, PartialEq, Eq, Structural)]
pub enum RtpStatKind {
    /// A stream received from the peer.
    InboundRtp,
    /// The peer's report on a stream it receives from us.
    RemoteInboundRtp,
    Other,
}

/// An entry of a statistics report, as far as the call reads it.
#[derive(Debug)]
pub struct RtpStat {
    pub kind: RtpStatKind,
    /// The media kind ("audio", "video").
    pub media: String,
    /// Bytes received so far (inbound streams).
    pub bytes_received: u64,
}

/// The entry is an inbound audio stream.
pub open spec fn is_inbound_audio(s: RtpStat) -> bool {
    s.kind == RtpStatKind::InboundRtp && s.media@ == "audio"@
}

/// The number of inbound audio streams among `s` and the bytes they
/// received in total.
pub open spec fn inbound_totals(s: Seq<RtpStat>) -> (int, int)
    decreases s.len(),
{
    if s.len() == 0 {
        (0, 0)
    } else {
        let (n, b) = inbound_totals(s.drop_last());
        if is_inbound_audio(s.last()) {
            (n + 1, b + s.last().bytes_received)
        } else {
            (n, b)
        }
    }
}

proof fn lemma_inbound_totals_grow(s: Seq<RtpStat>, i: int)
    requires
        0 <= i <= s.len(),
    ensures
        0 <= inbound_totals(s.subrange(0, i)).0 <= inbound_totals(s).0,
        0 <= inbound_totals(s.subrange(0, i)).1 <= inbound_totals(s).1,
    decreases s.len() - i,
{
    if i < s.len() {
        lemma_inbound_totals_grow(s, i + 1);
        assert(s.subrange(0, i + 1).drop_last() =~= s.subrange(0, i));
    } else {
        assert(s.subrange(0, i) =~= s);
    }
    if i > 0 {
        lemma_inbound_totals_nonneg(s.subrange(0, i));
    }
}

proof fn lemma_inbound_totals_nonneg(s: Seq<RtpStat>)
    ensures
        inbound_totals(s).0 >= 0,
        inbound_totals(s).1 >= 0,
    decreases s.len(),
{
    if s.len() > 0 {
        lemma_inbound_totals_nonneg(s.drop_last());
    }
}

/// Count the inbound audio streams of a statistics report and the bytes
/// they received, the input of `MediaWatch::tick`.
pub fn inbound_audio(report: &Vec<RtpStat>) -> (r: (u32, u64))
    requires
        inbound_totals(report@).0 <= u32::MAX,
        inbound_totals(report@).1 <= u64::MAX,
    ensures
        r.0 == inbound_totals(report@).0,
        r.1 == inbound_totals(report@).1,
{
    let mut n: u32 = 0;
    let mut bytes: u64 = 0;
    let mut i: usize = 0;
    while i < report.len()
        invariant
            i <= report@.len(),
            inbound_totals(report@).0 <= u32::MAX,
            inbound_totals(report@).1 <= u64::MAX,
            (n as int, bytes as int) == inbound_totals(report@.subrange(0, i as int)),
        decreases report@.len() - i,
    {
        proof {
            assert(report@.subrange(0, i + 1).drop_last() =~= report@.subrange(0, i as int));
            lemma_inbound_totals_grow(report@, i + 1);
        }
        let s = &report[i];
        if s.kind == RtpStatKind::InboundRtp && same_text(s.media.as_str(), "audio") {
            n += 1;
            bytes += s.bytes_received;
        }
        i += 1;
    }
    proof {
        assert(report@.subrange(0, i as int) =~= report@);
    }
    (n, bytes)
}

} // verus!
