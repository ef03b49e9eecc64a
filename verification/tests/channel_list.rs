use chat_rs::channel_list::{avatar_initial, participant_rows, text_rows, user_badge, voice_rows};
use chat_rs::convert::{Channel, ChannelType};
use chat_rs::domain::{Auth, DisplayVoiceUser, User};
use std::collections::HashMap;

fn ch(id: u128, name: &str, kind: ChannelType, muted: bool) -> Channel {
    Channel { id, name: name.to_string(), kind, muted }
}

fn peer(id: u128, name: &str, speaking: bool, muted: bool) -> DisplayVoiceUser {
    DisplayVoiceUser { user: User { id, name: name.to_string() }, muted, deafened: false, speaking }
}

#[test]
fn avatar_letters() {
    assert_eq!(avatar_initial("alice"), 'A');
    assert_eq!(avatar_initial("Zed"), 'Z');
    assert_eq!(avatar_initial("9lives"), '9');
    assert_eq!(avatar_initial(""), 'U');
    assert_eq!(avatar_initial("émile"), 'U');
}

#[test]
fn text_rows_in_order_with_selection() {
    let cs = vec![
        ch(1, "lobby", ChannelType::Voice, false),
        ch(2, "general", ChannelType::Text, false),
        ch(3, "random", ChannelType::Text, true),
    ];
    let rows = text_rows(&cs, Some(3));
    assert_eq!(rows.len(), 2);
    assert_eq!((rows[0].id, rows[0].selected, rows[0].muted), (2, false, false));
    assert_eq!((rows[1].id, rows[1].selected, rows[1].muted), (3, true, true));
    assert_eq!(rows[1].name, "random");
    assert!(text_rows(&cs, None).iter().all(|r| !r.selected));
}

#[test]
fn voice_rows_list_people_in_each_call() {
    let cs = vec![
        ch(1, "lobby", ChannelType::Voice, false),
        ch(2, "general", ChannelType::Text, false),
        ch(4, "games", ChannelType::Voice, false),
    ];
    let mut presence = HashMap::new();
    presence.insert(1u128, vec![peer(10, "me", true, false), peer(11, "bob", true, true)]);
    let mut locally_muted = HashMap::new();
    locally_muted.insert(11u128, true);
    let rows = voice_rows(&cs, Some(1), &presence, &locally_muted, Some(10));
    assert_eq!(rows.len(), 2);
    assert!(rows[0].joined);
    assert!(!rows[1].joined);
    assert!(rows[1].participants.is_empty());
    let p = &rows[0].participants;
    assert_eq!(p.len(), 2);
    assert!(p[0].is_self && p[0].speaking_ring && !p[0].muted_by_me);
    assert!(!p[1].is_self && !p[1].speaking_ring && p[1].muted_by_me && p[1].muted);
    assert_eq!(p[1].initial, 'B');
}

#[test]
fn locally_unmuted_entry_counts_as_not_muted() {
    let mut locally_muted = HashMap::new();
    locally_muted.insert(5u128, false);
    let rows = participant_rows(&vec![peer(5, "eve", true, false)], &locally_muted, None);
    assert!(rows[0].speaking_ring);
    assert!(!rows[0].muted_by_me);
    assert!(!rows[0].is_self);
}

#[test]
fn user_badge_shows_name_letter_and_toggles() {
    let b = user_badge(&Auth::LoggedIn(User { id: 1, name: "mira".to_string() }), Some((true, false)));
    assert_eq!(b.name, "mira");
    assert_eq!(b.initial, 'M');
    assert!(b.muted && !b.deafened);
    let b = user_badge(&Auth::NotLoggedIn, None);
    assert_eq!(b.name, "User");
    assert_eq!(b.initial, 'U');
    assert!(!b.muted && !b.deafened);
    let b = user_badge(&Auth::LoggedIn(User { id: 2, name: "Élodie".to_string() }), None);
    assert_eq!(b.initial, 'U');
}
