//! Plain domain values shared by the client and the server.

use vstd::prelude::*;

verus! {

/// A user as shown to other users. Ids are the 128-bit value of a UUID.
#[derive(Debug)]
pub struct User {
    pub id: u128,
    pub name: String,
}

impl Clone for User {
    fn clone(&self) -> (r: Self)
        ensures
            r == *self,
    {
        User { id: self.id, name: self.name.clone() }
    }
}

/// A participant of a call as listed in a presence snapshot.
#[derive(Debug)]
pub struct DisplayVoiceUser {
    pub user: User,
    pub muted: bool,
    pub deafened: bool,
    pub speaking: bool,
}

impl Clone for DisplayVoiceUser {
    fn clone(&self) -> (r: Self)
        ensures
            r == *self,
    {
        DisplayVoiceUser {
            user: self.user.clone(),
            muted: self.muted,
            deafened: self.deafened,
            speaking: self.speaking,
        }
    }
}

/// Whether a participant is currently speaking.
#[derive(Clone, Copy, Debug, PartialEq, Eq)]
pub struct Speaking {
    pub speaking: bool,
}

/// Whether a streaming connection to the server is up.
#[derive(Clone, Debug)]
pub enum Stream<T> {
    Connected(T),
    Disconnected,
}

/// Whether the user is signed in.
#[derive(Debug)]
pub enum Auth {
    LoggedIn(User),
    NotLoggedIn,
}

/// Whether the app window has the focus (notifications are shown when not).
#[derive(Clone, Copy, Debug, PartialEq, Eq, Structural)]
pub enum WindowState {
    Focused,
    NotFocused,
}

/// Where the desktop client keeps its refresh token: one entry of the OS
/// keyring.
#[derive(Debug)]
pub struct KeyringCredentialStore {
    pub service: String,
    pub user: String,
}

impl KeyringCredentialStore {
    pub fn new(service: String, user: String) -> (r: KeyringCredentialStore)
        ensures
            r.service == service,
            r.user == user,
    {
        KeyringCredentialStore { service, user }
    }
}

} // verus!
