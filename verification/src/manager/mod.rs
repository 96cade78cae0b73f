//! The manager: from an event to the next state and the actions to take.
//!
//! `machine` says what an event does, over the models of the configuration and the state;
//! `engine` does it; `laws` holds what follows for every event, `timing` what follows for the
//! passing of time, `behaviour` for the other events, and `profiles` for the choice of a profile.
//! `info`, `list` and `snapshot` describe a state to a reader.
//!
//! What the events are for is stated in terms of the plan and the state alone: in `firing` for the
//! steps whose time has come, in `resuming` for activity and the unlock, in `triggers` for steps
//! that are asked for by name, in `setting` for what the other events set, and in `showing` for
//! what the user is shown.

pub mod behaviour;
pub mod engine;
pub mod firing;
pub mod info;
pub mod laws;
pub mod list;
pub mod machine;
pub mod profiles;
pub mod resuming;
pub mod setting;
pub mod showing;
pub mod snapshot;
pub mod timing;
pub mod triggers;

use vstd::prelude::*;

use crate::config::types::{ConfigFile, FileModel};
use crate::events::MediaState;

verus! {

/// Decides what happens on an event.
#[derive(Debug)]
pub struct Manager {
    cfg_file: ConfigFile,
    last_media: MediaState,
}

/// What stands for a [`Manager`] in contracts.
#[verifier::ext_equal]
pub struct ManagerModel {
    pub file: FileModel,
    pub last_media: MediaState,
}

impl View for Manager {
    type V = ManagerModel;

    closed spec fn view(&self) -> ManagerModel {
        ManagerModel { file: self.cfg_file@, last_media: self.last_media }
    }
}

impl Manager {
    pub fn new(cfg_file: ConfigFile) -> (r: Self)
        ensures
            r@ == (ManagerModel { file: cfg_file@, last_media: MediaState::Idle }),
    {
        Manager { cfg_file, last_media: MediaState::Idle }
    }

    /// Replaces the configuration.
    pub fn set_config(&mut self, cfg_file: ConfigFile)
        ensures
            final(self)@ == (ManagerModel { file: cfg_file@, ..old(self)@ }),
    {
        self.cfg_file = cfg_file;
    }

    pub fn cfg_file_ref(&self) -> (r: &ConfigFile)
        ensures
            r@ == self@.file,
    {
        &self.cfg_file
    }
}

impl Clone for Manager {
    fn clone(&self) -> (r: Self)
        ensures
            r@ == self@,
    {
        Manager { cfg_file: self.cfg_file.clone(), last_media: self.last_media }
    }
}

} // verus!
