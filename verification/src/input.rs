//! The client window's input decisions: which event sources it listens to in
//! each state, which key presses start typing into the composer from
//! anywhere, and what the composer does with a key press.

use vstd::prelude::*;

verus! {

/// The modifier keys held during a key press. `command` is the platform's
/// command key (Control outside macOS).
#[derive(Clone, Copy, Debug, PartialEq, Eq, Structural)]
pub struct Modifiers {
    pub command: bool,
    pub control: bool,
    pub shift: bool,
    pub alt: bool,
}

/// A pressed key, as far as the decisions below tell keys apart. A key that
/// writes a single character is `Character`; one that writes longer text is
/// `Other`.
#[derive(Clone, Copy, Debug, PartialEq, Eq, Structural)]
pub enum Key {
    Enter,
    ArrowUp,
    Backspace,
    Escape,
    Character(char),
    Other,
}

/// What the composer does with a key press.
#[derive(Clone, Copy, Debug, PartialEq, Eq, Structural)]
pub enum ComposerAction {
    /// Send the message (Enter without Shift).
    Submit,
    /// Up on its own: the chat decides between moving the cursor and
    /// editing the user's last post.
    ArrowUp,
    /// Delete the current line (command/control + U).
    DeleteLine,
    /// Delete the word left of the cursor (command/control + W or Backspace).
    DeleteWordLeft,
    /// The editor's own binding for the key.
    Default,
}

/// The composer's binding for a key press (spec of `composer_binding`).
pub open spec fn binding_spec(key: Key, m: Modifiers) -> ComposerAction {
    let modifier = m.command || m.control;
    let plain = !modifier && !m.shift && !m.alt;
    if key == Key::Enter && !m.shift {
        ComposerAction::Submit
    } else if plain && key == Key::ArrowUp {
        ComposerAction::ArrowUp
    } else if modifier && key == Key::Character('u') {
        ComposerAction::DeleteLine
    } else if modifier && (key == Key::Character('w') || key == Key::Backspace) {
        ComposerAction::DeleteWordLeft
    } else {
        ComposerAction::Default
    }
}

/// The composer's binding for a key press.
pub fn composer_binding(key: Key, m: Modifiers) -> (a: ComposerAction)
    ensures
        a == binding_spec(key, m),
{
    let modifier = m.command || m.control;
    let plain = !modifier && !m.shift && !m.alt;
    let is_u = match key {
        Key::Character(c) => c == 'u',
        _ => false,
    };
    let is_w_or_backspace = match key {
        Key::Character(c) => c == 'w',
        Key::Backspace => true,
        _ => false,
    };
    if matches!(key, Key::Enter) && !m.shift {
        ComposerAction::Submit
    } else if plain && matches!(key, Key::ArrowUp) {
        ComposerAction::ArrowUp
    } else if modifier && is_u {
        ComposerAction::DeleteLine
    } else if modifier && is_w_or_backspace {
        ComposerAction::DeleteWordLeft
    } else {
        ComposerAction::Default
    }
}

/// A key press anywhere in the window that no widget took starts typing into
/// the composer: a character key with text, and neither command, control nor
/// alt held. Returns the text to insert.
pub fn type_ahead(key: Key, text: Option<String>, captured: bool, m: Modifiers) -> (r: Option<String>)
    ensures
        r == (if key is Character && text.is_some() && !captured && !m.command && !m.control && !m.alt {
            text
        } else {
            None
        }),
{
    match key {
        Key::Character(_) => {
            if !captured && !m.command && !m.control && !m.alt {
                text
            } else {
                None
            }
        },
        _ => None,
    }
}

/// The event sources the window listens to.
#[derive(Clone, Copy, Debug, PartialEq, Eq, Structural)]
pub struct Subscriptions {
    /// The voice actor's reports, keyed by the call they belong to (absent
    /// without a voice session).
    pub voice_reports: Option<Option<u128>>,
    /// Window events, the chat and signalling streams and type-ahead keys:
    /// all present while signed in.
    pub streams: bool,
    /// A one-second tick that redraws the connection banner while the chat
    /// stream is down.
    pub reconnect_tick: bool,
    /// Escape closes the settings, and a 20 ms tick animates their meters.
    pub settings_keys_and_meters: bool,
}

/// The event sources for a state of the client: nothing before sign-in.
pub fn subscriptions(signed_in: bool, voice_call: Option<Option<u128>>, chat_down: bool, on_settings: bool) -> (s:
    Subscriptions)
    ensures
        s == (if signed_in {
            Subscriptions {
                voice_reports: voice_call,
                streams: true,
                reconnect_tick: chat_down,
                settings_keys_and_meters: on_settings,
            }
        } else {
            Subscriptions { voice_reports: None, streams: false, reconnect_tick: false, settings_keys_and_meters: false }
        }),
{
    if signed_in {
        Subscriptions { voice_reports: voice_call, streams: true, reconnect_tick: chat_down, settings_keys_and_meters: on_settings }
    } else {
        Subscriptions { voice_reports: None, streams: false, reconnect_tick: false, settings_keys_and_meters: false }
    }
}

/// On the settings screen Escape closes them.
pub fn closes_settings(key: Key) -> (r: bool)
    ensures
        r == (key == Key::Escape),
{
    matches!(key, Key::Escape)
}

} // verus!
