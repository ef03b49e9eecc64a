use chat_rs::convert::{Channel, ChannelType};
use chat_rs::domain::{DisplayVoiceUser, User};
use chat_rs::voice_link::{
    describe_voice, latency_tone, CallCommand, CallState, Cue, LinkState, MediaHealth, PeerConnectionState, Timer,
    Tone, VoiceSession, MAX_RECONNECT_ATTEMPTS,
};

fn epoch(s: &VoiceSession) -> u32 {
    s.call.as_ref().unwrap().epoch
}

fn live_session(channel: u128) -> VoiceSession {
    let mut s = VoiceSession::new();
    s.signal_connected();
    s.join_voice(channel);
    s.join_successful(channel);
    let e = epoch(&s);
    s.peer_state_changed(PeerConnectionState::Connected, e);
    s
}

fn dvu(id: u128) -> DisplayVoiceUser {
    DisplayVoiceUser { user: User { id, name: format!("u{id}") }, muted: false, deafened: false, speaking: false }
}

#[test]
fn call_lifecycle() {
    let mut s = VoiceSession::new();
    let e = s.active_server_changed(100);
    assert!(e.commands.is_empty());
    let e = s.signal_connected();
    assert_eq!(e.commands, vec![CallCommand::SubscribeServer { server_id: 100 }]);
    assert!(matches!(s.call.as_ref().unwrap().link_state, LinkState::Connecting));
    let e = s.join_voice(5);
    assert_eq!(e.commands, vec![CallCommand::Join { voice_channel_id: 5, epoch: 2 }]);
    let e = s.join_successful(5);
    assert_eq!(e.cue, Some(Cue::Join));
    let e = s.peer_state_changed(PeerConnectionState::Connected, 2);
    assert_eq!(e.cue, None);
    assert!(matches!(s.call.as_ref().unwrap().link_state, LinkState::Live));
    let e = s.toggle_mute();
    assert_eq!(e.commands, vec![CallCommand::SetMuted(true)]);
    assert_eq!(e.cue, Some(Cue::Mute));
    let e = s.toggle_deafen();
    assert_eq!(e.cue, Some(Cue::Deafen));
    let e = s.leave_voice();
    assert_eq!(e.commands, vec![CallCommand::Leave]);
    assert_eq!(e.cue, Some(Cue::Leave));
    assert_eq!(s.current_call_id(), None);
}

#[test]
fn reconnects_are_bounded() {
    let mut s = live_session(5);
    for attempt in 1..=MAX_RECONNECT_ATTEMPTS {
        let before = epoch(&s);
        let e = s.peer_state_changed(PeerConnectionState::Failed, before);
        assert_eq!(e.commands, vec![CallCommand::Leave, CallCommand::Join { voice_channel_id: 5, epoch: before + 1 }]);
        match &s.call.as_ref().unwrap().link_state {
            LinkState::Reconnecting { attempt: a } => assert_eq!(*a, attempt),
            other => panic!("unexpected {other:?}"),
        }
    }
    let e = s.peer_state_changed(PeerConnectionState::Failed, epoch(&s));
    assert!(e.commands.is_empty());
    match &s.call.as_ref().unwrap().link_state {
        LinkState::Lost { reason } => assert_eq!(reason, "Too many attempts"),
        other => panic!("unexpected {other:?}"),
    }
    // once lost, further failures do nothing
    let e = s.peer_state_changed(PeerConnectionState::Failed, epoch(&s));
    assert!(e.commands.is_empty());
}

#[test]
fn reconnect_obsoletes_previous_attempt() {
    let mut s = live_session(5);
    let old = epoch(&s);
    s.peer_state_changed(PeerConnectionState::Failed, old);
    // a late report from the abandoned attempt is ignored
    let e = s.peer_state_changed(PeerConnectionState::Connected, old);
    assert!(e.commands.is_empty() && e.cue.is_none());
    assert!(matches!(s.call.as_ref().unwrap().link_state, LinkState::Reconnecting { attempt: 1 }));
    // the current attempt connecting completes the reconnect with the join cue
    let e = s.peer_state_changed(PeerConnectionState::Connected, old + 1);
    assert_eq!(e.cue, Some(Cue::Join));
}

#[test]
fn idle_or_lost_never_reconnects() {
    let mut c = CallState::fresh();
    c.link_state = LinkState::Idle;
    assert!(c.reconnect(5).is_empty());
    assert_eq!(c.epoch, 1);
    c.link_state = LinkState::Lost { reason: "x".to_string() };
    assert!(c.reconnect(5).is_empty());
}

#[test]
fn unstable_link_gets_grace_then_reconnects() {
    let mut s = live_session(5);
    let e0 = epoch(&s);
    let e = s.peer_state_changed(PeerConnectionState::Disconnected, e0);
    assert_eq!(e.timer, Some(Timer::Grace { epoch: e0 }));
    assert!(matches!(s.call.as_ref().unwrap().link_state, LinkState::Unstable));
    // a grace timer of another attempt does nothing
    assert!(s.grace_expired(e0 + 7).commands.is_empty());
    let e = s.grace_expired(e0);
    assert_eq!(e.commands, vec![CallCommand::Leave, CallCommand::Join { voice_channel_id: 5, epoch: e0 + 1 }]);
}

#[test]
fn recovered_link_ignores_grace() {
    let mut s = live_session(5);
    let e0 = epoch(&s);
    s.peer_state_changed(PeerConnectionState::Disconnected, e0);
    s.peer_state_changed(PeerConnectionState::Connected, e0);
    assert!(s.grace_expired(e0).commands.is_empty());
    assert!(matches!(s.call.as_ref().unwrap().link_state, LinkState::Live));
}

#[test]
fn signalling_drop_rejoins_same_call() {
    let mut s = live_session(5);
    s.active_server_changed(100);
    s.toggle_mute();
    let e = s.signal_disconnected();
    assert!(s.call.is_none());
    assert_eq!(e.timer, Some(Timer::RejoinTimeout { id: 1 }));
    assert_eq!(s.current_call_id(), Some(5));
    let e = s.signal_connected();
    assert_eq!(
        e.commands,
        vec![
            CallCommand::SubscribeServer { server_id: 100 },
            CallCommand::SetDeafened(false),
            CallCommand::SetMuted(true),
            CallCommand::Join { voice_channel_id: 5, epoch: 1 },
        ]
    );
    let e = s.join_successful(5);
    assert_eq!(e.cue, None);
    assert!(s.pending_rejoin.is_none());
    // the timeout armed for that rejoin no longer does anything
    assert_eq!(s.rejoin_timed_out(1).cue, None);
}

#[test]
fn rejoin_timeout_gives_up() {
    let mut s = live_session(5);
    s.signal_disconnected();
    assert_eq!(s.rejoin_timed_out(99).cue, None);
    assert!(s.pending_rejoin.is_some());
    assert_eq!(s.rejoin_timed_out(1).cue, Some(Cue::Leave));
    assert!(s.pending_rejoin.is_none());
}

#[test]
fn presence_changes_play_peer_cues() {
    let mut s = live_session(5);
    assert_eq!(s.presence_snapshot(5, vec![dvu(1), dvu(2)]).cue, Some(Cue::PeerJoin));
    assert_eq!(s.presence_snapshot(5, vec![dvu(1)]).cue, Some(Cue::PeerLeave));
    assert_eq!(s.presence_snapshot(5, vec![dvu(3)]).cue, None);
    // another channel's snapshot is only recorded
    assert_eq!(s.presence_snapshot(6, vec![dvu(4)]).cue, None);
    assert_eq!(s.room_presence.get(&6).map(|v| v.len()), Some(1));
}

#[test]
fn status_lines() {
    let (status, tone, hint) = describe_voice(&LinkState::Live, MediaHealth::Flowing, true, true, true);
    assert_eq!((status.as_str(), tone, hint), ("Voice Connected", Tone::Good, None));
    let (status, tone, _) = describe_voice(&LinkState::Live, MediaHealth::TransportDegraded, true, true, true);
    assert_eq!((status.as_str(), tone), ("Voice Connected - Unstable", Tone::Warn));
    let (_, tone, hint) = describe_voice(&LinkState::Live, MediaHealth::Flowing, false, false, true);
    assert_eq!(tone, Tone::Warn);
    assert_eq!(hint.as_deref(), Some("No mic or speaker \u{2014} check Settings"));
    let (status, tone, hint) =
        describe_voice(&LinkState::Lost { reason: "Too many attempts".to_string() }, MediaHealth::Unknown, false, true, true);
    assert_eq!((status.as_str(), tone, hint), ("Voice Lost: Too many attempts", Tone::Bad, None));
    assert_eq!(latency_tone(150), Tone::Good);
    assert_eq!(latency_tone(151), Tone::Warn);
    assert_eq!(latency_tone(300), Tone::Warn);
    assert_eq!(latency_tone(301), Tone::Bad);
}

#[test]
fn call_panel_contents() {
    let channels = vec![Channel { id: 5, name: "lobby".to_string(), kind: ChannelType::Voice, muted: false }];
    let mut s = VoiceSession::new();
    assert!(s.call_panel(&channels).is_none());
    let mut s2 = live_session(5);
    s2.latency_updated(120);
    let p = s2.call_panel(&channels).unwrap();
    assert_eq!(p.channel_name, "lobby");
    assert_eq!(p.status, "Voice Connected");
    assert_eq!(p.latency, Some((120, Tone::Good)));
    s2.signal_disconnected();
    let p = s2.call_panel(&channels).unwrap();
    assert_eq!(p.status, "Reconnecting…");
    assert_eq!(p.tone, Tone::Warn);
    assert_eq!(p.latency, None);
    let mut s3 = live_session(9);
    s3.latency_updated(0);
    let p = s3.call_panel(&channels).unwrap();
    assert_eq!(p.channel_name, "Voice");
    assert_eq!(p.latency, None);
    s.log_out();
    assert!(s.call.is_none());
}

#[test]
fn health_reports_keep_the_rest_of_the_session() {
    let mut s = live_session(5);
    s.active_server_changed(9);
    s.toggle_mute();
    s.latency_updated(40);
    s.presence_snapshot(5, vec![dvu(1), dvu(2)]);
    let e = epoch(&s);
    let media_before = s.call.as_ref().unwrap().media;

    // a report of an earlier attempt changes nothing
    s.media_health(e - 1, MediaHealth::NoAudio);
    s.device_health(e - 1, false, false);
    s.mic_activity(e - 1, false);
    {
        let c = s.call.as_ref().unwrap();
        assert_eq!(c.media, media_before);
        assert!(c.input_ok && c.output_ok && c.mic_receiving);
    }

    // a current report changes its own field only
    s.media_health(e, MediaHealth::NoAudio);
    s.device_health(e, false, true);
    s.mic_activity(e, false);
    s.latency_updated(55);
    let c = s.call.as_ref().unwrap();
    assert_eq!(c.media, MediaHealth::NoAudio);
    assert!(!c.input_ok && c.output_ok && !c.mic_receiving);
    assert!(c.muted && !c.deafened);
    assert_eq!(c.latency_ms, 55);
    assert_eq!(c.presence_snapshot.len(), 2);
    assert!(matches!(c.link_state, LinkState::Live));
    assert_eq!(s.active_server_id, Some(9));
}
