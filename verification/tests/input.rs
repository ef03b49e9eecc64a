use chat_rs::input::{closes_settings, composer_binding, subscriptions, type_ahead, ComposerAction, Key, Modifiers, Subscriptions};

fn mods(command: bool, control: bool, shift: bool, alt: bool) -> Modifiers {
    Modifiers { command, control, shift, alt }
}

#[test]
fn enter_submits_unless_shift_is_held() {
    assert_eq!(composer_binding(Key::Enter, mods(false, false, false, false)), ComposerAction::Submit);
    assert_eq!(composer_binding(Key::Enter, mods(true, false, false, false)), ComposerAction::Submit);
    assert_eq!(composer_binding(Key::Enter, mods(false, false, true, false)), ComposerAction::Default);
}

#[test]
fn arrow_up_only_on_its_own() {
    assert_eq!(composer_binding(Key::ArrowUp, mods(false, false, false, false)), ComposerAction::ArrowUp);
    assert_eq!(composer_binding(Key::ArrowUp, mods(false, false, true, false)), ComposerAction::Default);
    assert_eq!(composer_binding(Key::ArrowUp, mods(false, false, false, true)), ComposerAction::Default);
}

#[test]
fn line_and_word_deletion() {
    assert_eq!(composer_binding(Key::Character('u'), mods(false, true, false, false)), ComposerAction::DeleteLine);
    assert_eq!(composer_binding(Key::Character('u'), mods(true, false, false, false)), ComposerAction::DeleteLine);
    assert_eq!(composer_binding(Key::Character('w'), mods(false, true, false, false)), ComposerAction::DeleteWordLeft);
    assert_eq!(composer_binding(Key::Backspace, mods(true, false, false, false)), ComposerAction::DeleteWordLeft);
    assert_eq!(composer_binding(Key::Backspace, mods(false, false, false, false)), ComposerAction::Default);
    assert_eq!(composer_binding(Key::Character('u'), mods(false, false, false, false)), ComposerAction::Default);
}

#[test]
fn type_ahead_takes_plain_characters() {
    let plain = mods(false, false, true, false);
    assert_eq!(type_ahead(Key::Character('h'), Some("H".to_string()), false, plain), Some("H".to_string()));
    assert_eq!(type_ahead(Key::Character('h'), Some("h".to_string()), true, plain), None);
    assert_eq!(type_ahead(Key::Character('h'), None, false, plain), None);
    assert_eq!(type_ahead(Key::Character('c'), Some("c".to_string()), false, mods(false, true, false, false)), None);
    assert_eq!(type_ahead(Key::Enter, Some("\n".to_string()), false, plain), None);
}

#[test]
fn event_sources_per_state() {
    assert_eq!(
        subscriptions(false, Some(Some(7)), true, true),
        Subscriptions { voice_reports: None, streams: false, reconnect_tick: false, settings_keys_and_meters: false }
    );
    assert_eq!(
        subscriptions(true, Some(None), false, true),
        Subscriptions { voice_reports: Some(None), streams: true, reconnect_tick: false, settings_keys_and_meters: true }
    );
    assert_eq!(
        subscriptions(true, None, true, false),
        Subscriptions { voice_reports: None, streams: true, reconnect_tick: true, settings_keys_and_meters: false }
    );
    assert!(closes_settings(Key::Escape));
    assert!(!closes_settings(Key::Enter));
}
