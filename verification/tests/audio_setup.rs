use chat_rs::capture::{
    inbound_audio, MediaWatch, MicLiveness, NoiseGate, RtpStat, RtpStatKind, VoiceActivity, GATE_HANGOVER,
    VAD_HANGOVER,
};
use chat_rs::devices::{clean_device_list, pick_config, resolve_device, ConfigRange, DeviceChoice, SampleFormat, StreamChoice};
use chat_rs::voice_link::MediaHealth;

fn names(v: &[&str]) -> Vec<String> {
    v.iter().map(|s| s.to_string()).collect()
}

#[test]
fn device_list_drops_plugins_and_duplicates() {
    let r = clean_device_list(names(&["default", "dmix:CARD=0", "Speakers", "default", "SysDefault:x", "Speakers"]));
    assert_eq!(r, names(&["default", "Speakers"]));
    // only plugin entries: the de-duplicated list is offered instead
    let r = clean_device_list(names(&["dmix", "null", "dmix"]));
    assert_eq!(r, names(&["dmix", "null"]));
    assert!(clean_device_list(vec![]).is_empty());
}

#[test]
fn float_default_is_trusted() {
    let default = StreamChoice { format: SampleFormat::F32, sample_rate: 44_100, channels: 2 };
    assert_eq!(pick_config(default, &vec![]), Some(default));
}

#[test]
fn last_float_range_at_default_rate() {
    let default = StreamChoice { format: SampleFormat::I16, sample_rate: 48_000, channels: 2 };
    let ranges = vec![
        ConfigRange { format: SampleFormat::F32, min_rate: 8_000, max_rate: 96_000, channels: 1 },
        ConfigRange { format: SampleFormat::I16, min_rate: 8_000, max_rate: 96_000, channels: 2 },
        ConfigRange { format: SampleFormat::F32, min_rate: 48_000, max_rate: 48_000, channels: 2 },
        ConfigRange { format: SampleFormat::F32, min_rate: 8_000, max_rate: 44_100, channels: 6 },
    ];
    assert_eq!(
        pick_config(default, &ranges),
        Some(StreamChoice { format: SampleFormat::F32, sample_rate: 48_000, channels: 2 })
    );
    let no_float = vec![ConfigRange { format: SampleFormat::U16, min_rate: 8_000, max_rate: 96_000, channels: 2 }];
    assert_eq!(pick_config(default, &no_float), None);
}

#[test]
fn saved_device_or_default() {
    let listed = names(&["Mic A", "Mic B", "Mic B"]);
    assert_eq!(resolve_device(&listed, Some("Mic B")), DeviceChoice::Listed(1));
    assert_eq!(resolve_device(&listed, Some("Mic C")), DeviceChoice::HostDefault);
    assert_eq!(resolve_device(&listed, None), DeviceChoice::HostDefault);
}

#[test]
fn inbound_audio_counts_audio_streams() {
    let report = vec![
        RtpStat { kind: RtpStatKind::InboundRtp, media: "audio".to_string(), bytes_received: 100 },
        RtpStat { kind: RtpStatKind::InboundRtp, media: "video".to_string(), bytes_received: 1_000 },
        RtpStat { kind: RtpStatKind::RemoteInboundRtp, media: "audio".to_string(), bytes_received: 7 },
        RtpStat { kind: RtpStatKind::InboundRtp, media: "audio".to_string(), bytes_received: 50 },
        RtpStat { kind: RtpStatKind::Other, media: "audio".to_string(), bytes_received: 9 },
    ];
    assert_eq!(inbound_audio(&report), (2, 150));
    assert_eq!(inbound_audio(&vec![]), (0, 0));
}

#[test]
fn speaking_holds_through_hangover() {
    let mut a = VoiceActivity::new();
    assert_eq!(a.frame(false, true), Some(true));
    for _ in 0..VAD_HANGOVER {
        assert_eq!(a.frame(false, false), None);
    }
    assert_eq!(a.frame(false, false), Some(false));
    assert_eq!(a.frame(false, true), Some(true));
    // muting silences at once
    assert_eq!(a.frame(true, true), Some(false));
}

#[test]
fn gate_closes_after_hangover() {
    let mut g = NoiseGate::new();
    assert!(!g.frame(false, false));
    assert!(g.frame(false, true));
    for _ in 0..GATE_HANGOVER {
        assert!(g.frame(false, false));
    }
    assert!(!g.frame(false, false));
    assert!(g.frame(true, false));
}

#[test]
fn mic_lost_after_three_flat_ticks() {
    let mut m = MicLiveness::new();
    assert_eq!(m.tick(10), None);
    assert_eq!(m.tick(10), None);
    assert_eq!(m.tick(10), None);
    assert_eq!(m.tick(10), Some(false));
    assert_eq!(m.tick(10), None);
    assert_eq!(m.tick(11), Some(true));
}

#[test]
fn media_absent_after_three_flat_ticks() {
    let mut w = MediaWatch::new();
    assert_eq!(w.tick(1, 100), Some(MediaHealth::Unknown));
    assert_eq!(w.tick(1, 200), Some(MediaHealth::Flowing));
    assert_eq!(w.tick(1, 200), None);
    assert_eq!(w.tick(1, 200), None);
    assert_eq!(w.tick(1, 200), Some(MediaHealth::NoAudio));
    assert_eq!(w.tick(1, 300), Some(MediaHealth::Flowing));
    // no audio stream at all is not "no audio"
    assert_eq!(w.tick(0, 300), None);
}
