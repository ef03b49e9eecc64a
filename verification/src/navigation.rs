//! Which screen the client shows, and how the chat screen's state survives a
//! visit to the settings.

use vstd::prelude::*;
use crate::chat::Model;

verus! {

/// The screen on display.
pub enum Screen {
    /// Signing in.
    Auth,
    /// The chat, with its state.
    Chat(Model),
    /// The settings.
    Settings,
}

/// The screen and the chat state put aside while the settings are open.
pub struct Navigation {
    pub screen: Screen,
    pub stashed_chat: Option<Model>,
}

impl Navigation {
    /// The client starts at the sign-in screen.
    pub fn new() -> (n: Navigation)
        ensures
            n.screen is Auth,
            n.stashed_chat.is_none(),
    {
        Navigation { screen: Screen::Auth, stashed_chat: None }
    }

    /// The user signed in: a fresh chat screen, whose servers the app then
    /// loads.
    pub fn logged_in(&mut self)
        ensures
            final(self).screen is Chat,
            final(self).screen->Chat_0.servers is NotAsked,
            final(self).screen->Chat_0.posts@.len() == 0,
            final(self).stashed_chat == old(self).stashed_chat,
    {
        self.screen = Screen::Chat(Model::new());
    }

    /// Open the settings. The chat state on display is put aside, to come
    /// back unchanged.
    pub fn go_to_settings(&mut self)
        ensures
            final(self).screen is Settings,
            final(self).stashed_chat == stashed_after_open(old(self).screen, old(self).stashed_chat),
    {
        let mut prev = Screen::Settings;
        std::mem::swap(&mut prev, &mut self.screen);
        match prev {
            Screen::Chat(m) => {
                self.stashed_chat = Some(m);
            },
            _ => {},
        }
    }

    /// Close the settings: the chat state put aside comes back; without one a
    /// fresh chat screen opens, and the result says its servers must be
    /// loaded.
    pub fn close_settings(&mut self) -> (load: bool)
        ensures
            final(self).stashed_chat.is_none(),
            final(self).screen is Chat,
            match restored_after_close(old(self).stashed_chat) {
                Some(s) => final(self).screen == s && !load,
                None => final(self).screen->Chat_0.servers is NotAsked && final(self).screen->Chat_0.posts@.len()
                    == 0 && load,
            },
    {
        let mut stashed = None;
        std::mem::swap(&mut stashed, &mut self.stashed_chat);
        match stashed {
            Some(m) => {
                self.screen = Screen::Chat(m);
                false
            },
            None => {
                self.screen = Screen::Chat(Model::new());
                true
            },
        }
    }

    /// The user signed out: back to the sign-in screen, with no chat state
    /// kept.
    pub fn log_out(&mut self)
        ensures
            final(self).screen is Auth,
            final(self).stashed_chat.is_none(),
    {
        self.stashed_chat = None;
        self.screen = Screen::Auth;
    }
}

/// The chat state put aside when the settings open from `screen`.
pub open spec fn stashed_after_open(screen: Screen, stashed: Option<Model>) -> Option<Model> {
    match screen {
        Screen::Chat(m) => Some(m),
        _ => stashed,
    }
}

/// The chat screen that comes back when the settings close, if one was put
/// aside (otherwise a fresh one opens).
pub open spec fn restored_after_close(stashed: Option<Model>) -> Option<Screen> {
    match stashed {
        Some(m) => Some(Screen::Chat(m)),
        None => None,
    }
}

/// A visit to the settings gives the chat screen back as it was.
pub proof fn lemma_settings_round_trip_keeps_chat(m: Model, stashed: Option<Model>)
    ensures
        restored_after_close(stashed_after_open(Screen::Chat(m), stashed)) == Some(Screen::Chat(m)),
{
}

} // verus!
