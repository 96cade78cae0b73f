//! What the services tell the manager.

use vstd::prelude::*;

verus! {

/// What the user did.
#[derive(Debug, Clone, Copy, PartialEq, Eq, Structural)]
pub enum ActivityKind {
    Any,
}

#[derive(Debug, Clone, Copy, PartialEq, Eq, Structural)]
pub enum PowerState {
    OnAC,
    OnBattery,
}

#[derive(Debug, Clone, Copy, PartialEq, Eq, Structural)]
pub enum MediaState {
    Idle,
    PlayingLocal,
    PlayingRemote,
}

/// One thing that happened, with the time at which it did.
#[derive(Debug)]
#[allow(inconsistent_fields)]
pub enum Event {
    Tick { now_ms: u64 },
    UserActivity { kind: ActivityKind, now_ms: u64 },
    /// Media plays in a browser.
    BrowserActivity { now_ms: u64 },
    /// No browser holds an inhibit any more.
    BrowserInactive { now_ms: u64 },
    CompositorIdled { now_ms: u64 },
    CompositorResumed { now_ms: u64 },
    ManualPause { now_ms: u64 },
    ManualResume { now_ms: u64 },
    /// A pause that was asked for with an end has come to it.
    PauseExpired { message: String, now_ms: u64 },
    ManualTrigger { name: String, now_ms: u64 },
    SessionLocked { now_ms: u64 },
    SessionUnlocked { now_ms: u64 },
    PrepareForSleep { now_ms: u64 },
    ResumedFromSleep { now_ms: u64 },
    LidClosed { now_ms: u64 },
    LidOpened { now_ms: u64 },
    ProfileChanged { name: String, now_ms: u64 },
    PowerChanged { state: PowerState, now_ms: u64 },
    AppInhibitorCount { count: u64, now_ms: u64 },
    MediaInhibitorCount { count: u64, now_ms: u64 },
    MediaStateChanged { state: MediaState, now_ms: u64 },
}

impl Event {
    /// When the event happened.
    pub open spec fn at(self) -> u64 {
        match self {
            Event::Tick { now_ms } => now_ms,
            Event::UserActivity { now_ms, .. } => now_ms,
            Event::BrowserActivity { now_ms } => now_ms,
            Event::BrowserInactive { now_ms } => now_ms,
            Event::CompositorIdled { now_ms } => now_ms,
            Event::CompositorResumed { now_ms } => now_ms,
            Event::ManualPause { now_ms } => now_ms,
            Event::ManualResume { now_ms } => now_ms,
            Event::PauseExpired { now_ms, .. } => now_ms,
            Event::ManualTrigger { now_ms, .. } => now_ms,
            Event::SessionLocked { now_ms } => now_ms,
            Event::SessionUnlocked { now_ms } => now_ms,
            Event::PrepareForSleep { now_ms } => now_ms,
            Event::ResumedFromSleep { now_ms } => now_ms,
            Event::LidClosed { now_ms } => now_ms,
            Event::LidOpened { now_ms } => now_ms,
            Event::ProfileChanged { now_ms, .. } => now_ms,
            Event::PowerChanged { now_ms, .. } => now_ms,
            Event::AppInhibitorCount { now_ms, .. } => now_ms,
            Event::MediaInhibitorCount { now_ms, .. } => now_ms,
            Event::MediaStateChanged { now_ms, .. } => now_ms,
        }
    }

    /// When the event happened.
    pub fn now_ms(&self) -> (r: u64)
        ensures
            r == self.at(),
    {
        match self {
            Event::Tick { now_ms } => *now_ms,
            Event::UserActivity { now_ms, .. } => *now_ms,
            Event::BrowserActivity { now_ms } => *now_ms,
            Event::BrowserInactive { now_ms } => *now_ms,
            Event::CompositorIdled { now_ms } => *now_ms,
            Event::CompositorResumed { now_ms } => *now_ms,
            Event::ManualPause { now_ms } => *now_ms,
            Event::ManualResume { now_ms } => *now_ms,
            Event::PauseExpired { now_ms, .. } => *now_ms,
            Event::ManualTrigger { now_ms, .. } => *now_ms,
            Event::SessionLocked { now_ms } => *now_ms,
            Event::SessionUnlocked { now_ms } => *now_ms,
            Event::PrepareForSleep { now_ms } => *now_ms,
            Event::ResumedFromSleep { now_ms } => *now_ms,
            Event::LidClosed { now_ms } => *now_ms,
            Event::LidOpened { now_ms } => *now_ms,
            Event::ProfileChanged { now_ms, .. } => *now_ms,
            Event::PowerChanged { now_ms, .. } => *now_ms,
            Event::AppInhibitorCount { now_ms, .. } => *now_ms,
            Event::MediaInhibitorCount { now_ms, .. } => *now_ms,
            Event::MediaStateChanged { now_ms, .. } => *now_ms,
        }
    }
}

} // verus!
