//! How long the chat connection has been down, and what the window shows
//! about it: nothing for a short blip, a banner after a couple of seconds,
//! and a blocking overlay after ten.

use vstd::prelude::*;

verus! {

/// A drop shorter than this many milliseconds shows nothing.
pub const BANNER_AFTER_MS: u64 = 2_000;
/// After this many milliseconds the whole window is covered.
pub const OVERLAY_AFTER_MS: u64 = 10_000;

/// What the window shows about the chat connection.
#[derive(Clone, Copy, Debug, PartialEq, Eq, Structural)]
pub enum ConnectionNotice {
    Nothing,
    ReconnectingBanner,
    NoConnectionOverlay,
}

/// When the chat connection went down (milliseconds of a monotonic clock),
/// while it is down.
#[derive(Clone, Copy, Debug, PartialEq, Eq, Structural)]
pub struct ConnectionWatch {
    pub down_since: Option<u64>,
}

/// The notice for a signed-in user whose connection went down at `since`,
/// at time `now` (a clock reading before `since` counts as no time down).
pub open spec fn notice_spec(logged_in: bool, since: Option<u64>, now: u64) -> ConnectionNotice {
    match since {
        Some(t) if logged_in => {
            let down: int = if now >= t { now - t } else { 0 };
            if down >= OVERLAY_AFTER_MS {
                ConnectionNotice::NoConnectionOverlay
            } else if down >= BANNER_AFTER_MS {
                ConnectionNotice::ReconnectingBanner
            } else {
                ConnectionNotice::Nothing
            }
        },
        _ => ConnectionNotice::Nothing,
    }
}

impl ConnectionWatch {
    pub fn new() -> (w: ConnectionWatch)
        ensures
            w.down_since.is_none(),
    {
        ConnectionWatch { down_since: None }
    }

    /// The chat stream dropped at `now`. A drop while already down keeps the
    /// time of the first one.
    pub fn disconnected(&mut self, now: u64)
        ensures
            final(self).down_since == (match old(self).down_since {
                Some(t) => Some(t),
                None => Some(now),
            }),
    {
        if self.down_since.is_none() {
            self.down_since = Some(now);
        }
    }

    /// The chat stream (or the voice signalling stream) is up again.
    pub fn connected(&mut self)
        ensures
            final(self).down_since.is_none(),
    {
        self.down_since = None;
    }

    /// What to show at `now`.
    pub fn notice(&self, logged_in: bool, now: u64) -> (n: ConnectionNotice)
        ensures
            n == notice_spec(logged_in, self.down_since, now),
    {
        match self.down_since {
            Some(t) if logged_in => {
                let down: u64 = if now >= t { now - t } else { 0 };
                if down >= OVERLAY_AFTER_MS {
                    ConnectionNotice::NoConnectionOverlay
                } else if down >= BANNER_AFTER_MS {
                    ConnectionNotice::ReconnectingBanner
                } else {
                    ConnectionNotice::Nothing
                }
            },
            _ => ConnectionNotice::Nothing,
        }
    }
}

/// The notice only escalates while the connection stays down: at a later
/// time it is at least as severe.
pub proof fn lemma_notice_escalates(logged_in: bool, since: u64, now: u64, later: u64)
    requires
        now <= later,
    ensures
        notice_spec(logged_in, Some(since), now) is NoConnectionOverlay ==> notice_spec(logged_in, Some(since), later) is NoConnectionOverlay,
        notice_spec(logged_in, Some(since), now) is ReconnectingBanner ==> !(notice_spec(logged_in, Some(since), later) is Nothing),
{
}

/// The round-trip latency a pong reports, in whole milliseconds, if it is
/// positive: the probe was stamped `sent_micros` and the pong arrived at
/// `now_micros` (a clock that went back counts as no time).
pub fn pong_latency(sent_micros: u64, now_micros: u64) -> (r: Option<u64>)
    ensures
        r == (if now_micros >= sent_micros + 1000 {
            Some(((now_micros - sent_micros) / 1000) as u64)
        } else {
            None
        }),
{
    let elapsed = if now_micros >= sent_micros { now_micros - sent_micros } else { 0 };
    let ms = elapsed / 1000;
    if ms > 0 { Some(ms) } else { None }
}

} // verus!
