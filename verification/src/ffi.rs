//! The values and callbacks that cross into the mobile app.

use vstd::prelude::*;

verus! {

/// The single sample rate of the audio pipeline, in Hz.
pub const TARGET_RATE: u32 = 48_000;

/// The sample rate the mobile build links its audio stack for.
pub fn spike() -> (r: u32)
    ensures
        r == TARGET_RATE,
{
    48_000
}

/// The single internal sample rate the audio pipeline runs at, as the
/// mobile app asks for it.
pub fn target_sample_rate() -> (r: u32)
    ensures
        r == TARGET_RATE,
{
    TARGET_RATE
}

/// Errors reported to the mobile app.
#[derive(Debug)]
pub enum CoreError {
    NotInitialized,
    Network { message: String },
}

/// The text an error is shown with.
pub open spec fn core_error_text(e: CoreError) -> Seq<char> {
    match e {
        CoreError::NotInitialized => "chat-core not initialized"@,
        CoreError::Network { message } => "network error: "@ + message@,
    }
}

impl CoreError {
    pub fn message(&self) -> (r: String)
        ensures
            r@ == core_error_text(*self),
    {
        match self {
            CoreError::NotInitialized => String::from_str("chat-core not initialized"),
            CoreError::Network { message } => String::from_str("network error: ").concat(message.as_str()),
        }
    }
}

/// A status update pushed to the mobile UI.
#[derive(Clone, Copy, Debug, PartialEq, Eq, Structural)]
pub enum CoreEvent {
    VoiceJoined,
    MicActivity { receiving: bool },
    MediaHealthy { healthy: bool },
}

/// Refresh-token persistence, implemented by the mobile app (its keystore).
pub trait Credentials {
    fn store_refresh_token(&self, token: String);
    fn load_refresh_token(&self) -> Option<String>;
    fn clear_refresh_token(&self);
}

/// Sink for `CoreEvent`s, implemented by the mobile app.
pub trait EventListener {
    fn on_event(&self, event: CoreEvent);
}

/// The refresh token a mobile store handed back, or the error when it holds none.
pub fn loaded_refresh_token(stored: Option<String>) -> (r: Result<String, String>)
    ensures
        match stored {
            Some(t) => r == Ok::<String, String>(t),
            None => r matches Err(m) && m@ == "no refresh token stored"@,
        },
{
    match stored {
        Some(t) => Ok(t),
        None => Err(String::from_str("no refresh token stored")),
    }
}

} // verus!
