//! Why the manager rejects an event.

use vstd::prelude::*;

verus! {

#[derive(Debug, Clone, Copy, PartialEq, Eq, Structural)]
pub enum Error {
    /// Configuration selection/semantics failed: there is no such profile, or its name is empty.
    InvalidConfig(ConfigError),
    /// An event was rejected because it is invalid in the current state: a resume while nothing is
    /// paused, a pause while it is already paused, an unlock without a lock.
    InvalidState(StateError),
}

#[derive(Debug, Clone, Copy, PartialEq, Eq, Structural)]
pub enum ConfigError {
    /// The requested profile does not exist / cannot be selected.
    ProfileNotFound,
    /// Profile name was empty/whitespace when one was required.
    InvalidProfileName,
}

#[derive(Debug, Clone, Copy, PartialEq, Eq, Structural)]
pub enum StateError {
    AlreadyPaused,
    NotPaused,
    NotLocked,
}

impl ConfigError {
    /// The words that the user reads.
    pub open spec fn words(self) -> Seq<char> {
        match self {
            ConfigError::ProfileNotFound => "profile not found"@,
            ConfigError::InvalidProfileName => "invalid profile name"@,
        }
    }

    pub fn message(&self) -> (r: &'static str)
        ensures
            r@ == self.words(),
    {
        match self {
            ConfigError::ProfileNotFound => "profile not found",
            ConfigError::InvalidProfileName => "invalid profile name",
        }
    }
}

impl StateError {
    /// The words that the user reads.
    pub open spec fn words(self) -> Seq<char> {
        match self {
            StateError::AlreadyPaused => "already paused"@,
            StateError::NotPaused => "not paused"@,
            StateError::NotLocked => "not locked"@,
        }
    }

    pub fn message(&self) -> (r: &'static str)
        ensures
            r@ == self.words(),
    {
        match self {
            StateError::AlreadyPaused => "already paused",
            StateError::NotPaused => "not paused",
            StateError::NotLocked => "not locked",
        }
    }
}

impl Error {
    /// The words that the user reads.
    pub open spec fn words(self) -> Seq<char> {
        match self {
            Error::InvalidConfig(e) => e.words(),
            Error::InvalidState(e) => e.words(),
        }
    }

    pub fn message(&self) -> (r: &'static str)
        ensures
            r@ == self.words(),
    {
        match self {
            Error::InvalidConfig(e) => e.message(),
            Error::InvalidState(e) => e.message(),
        }
    }
}

impl Error {
    /// The name by which a client is told.
    pub open spec fn label(self) -> Seq<char> {
        match self {
            Error::InvalidConfig(
                ConfigError::ProfileNotFound,
            ) => "InvalidConfig(ProfileNotFound)"@,
            Error::InvalidConfig(
                ConfigError::InvalidProfileName,
            ) => "InvalidConfig(InvalidProfileName)"@,
            Error::InvalidState(StateError::AlreadyPaused) => "InvalidState(AlreadyPaused)"@,
            Error::InvalidState(StateError::NotPaused) => "InvalidState(NotPaused)"@,
            Error::InvalidState(StateError::NotLocked) => "InvalidState(NotLocked)"@,
        }
    }

    /// The name by which a client is told.
    pub fn label_text(&self) -> (r: &'static str)
        ensures
            r@ == self.label(),
    {
        match self {
            Error::InvalidConfig(ConfigError::ProfileNotFound) => "InvalidConfig(ProfileNotFound)",
            Error::InvalidConfig(
                ConfigError::InvalidProfileName,
            ) => "InvalidConfig(InvalidProfileName)",
            Error::InvalidState(StateError::AlreadyPaused) => "InvalidState(AlreadyPaused)",
            Error::InvalidState(StateError::NotPaused) => "InvalidState(NotPaused)",
            Error::InvalidState(StateError::NotLocked) => "InvalidState(NotLocked)",
        }
    }
}

} // verus!
