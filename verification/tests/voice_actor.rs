use chat_rs::voice_actor::{CaptureChange, DeviceOutcome, Report, Signal, VoiceActor};

#[test]
fn join_reannounces_persisted_mute() {
    let mut a = VoiceActor::new();
    assert!(a.set_muted(true).is_empty());
    assert!(a.set_deafened(true).is_empty());
    let s = a.begin_join();
    assert!(!s.teardown && s.signals.is_empty());
    let s = a.joined(5, 2, true, true, 48_000, 48_000);
    assert_eq!(
        s.reports,
        vec![
            Report::JoinVoiceSuccessful { voice_channel_id: 5 },
            Report::DeviceHealth { epoch: 2, input_ok: true, output_ok: true },
        ]
    );
    assert_eq!(
        s.signals,
        vec![
            Signal::SetMuted { muted: true, voice_channel_id: 5 },
            Signal::SetDeafened { deafened: true, voice_channel_id: 5 },
        ]
    );
    // switching calls leaves the current room first
    let s = a.begin_join();
    assert!(s.teardown);
    assert_eq!(s.signals, vec![Signal::LeaveRoom { voice_channel_id: 5 }]);
    assert!(a.leave().signals.is_empty());
}

#[test]
fn mute_is_sent_only_in_a_room() {
    let mut a = VoiceActor::new();
    a.joined(7, 1, true, true, 48_000, 48_000);
    assert_eq!(a.set_muted(true), vec![Signal::SetMuted { muted: true, voice_channel_id: 7 }]);
    let s = a.leave();
    assert!(s.teardown);
    assert_eq!(s.signals, vec![Signal::LeaveRoom { voice_channel_id: 7 }]);
    assert!(a.set_muted(false).is_empty());
    assert!(!a.muted);
}

#[test]
fn input_switch_rebuilds_resampler_on_new_rate() {
    let mut a = VoiceActor::new();
    assert_eq!(a.input_switched(DeviceOutcome::Opened { rate: 44_100 }).0, CaptureChange::Keep);
    a.joined(7, 3, true, true, 48_000, 48_000);
    let (c, r) = a.input_switched(DeviceOutcome::Opened { rate: 44_100 });
    assert_eq!(c, CaptureChange::Rate(44_100));
    assert_eq!(r, vec![Report::DeviceHealth { epoch: 3, input_ok: true, output_ok: true }]);
    assert_eq!(a.input_switched(DeviceOutcome::Opened { rate: 44_100 }).0, CaptureChange::Keep);
    let (c, r) = a.input_switched(DeviceOutcome::Failed);
    assert_eq!(c, CaptureChange::Keep);
    assert_eq!(r, vec![Report::DeviceHealth { epoch: 3, input_ok: false, output_ok: true }]);
}

#[test]
fn output_switch_at_other_rate_rejoins() {
    let mut a = VoiceActor::new();
    a.joined(7, 3, true, true, 48_000, 48_000);
    let (keep, r) = a.output_switched(DeviceOutcome::Opened { rate: 48_000 });
    assert!(keep);
    assert_eq!(r, vec![Report::DeviceHealth { epoch: 3, input_ok: true, output_ok: true }]);
    let (keep, r) = a.output_switched(DeviceOutcome::Opened { rate: 44_100 });
    assert!(!keep);
    assert_eq!(r, vec![Report::RejoinForSettings { voice_channel_id: 7 }]);
    let (keep, r) = a.output_switched(DeviceOutcome::Failed);
    assert!(!keep);
    assert_eq!(r, vec![Report::DeviceHealth { epoch: 3, input_ok: true, output_ok: false }]);
}
