//! The snapshot that `stasis info` asks for.

use vstd::prelude::*;

use super::info::{pretty_text, render_info, state_word, tooltip_text};
use super::{Manager, ManagerModel};
use crate::info::{InfoSnapshot, WaybarInfo, WaybarModel};
use crate::state::{State, StateModel};

verus! {

impl StateModel {
    /// The name under which a bar finds the icon and the style of the state.
    pub open spec fn bar_class(self) -> Seq<char> {
        if self.manually_paused {
            "manually_inhibited"@
        } else if self.inhibitors_active() || self.system_paused || self.is_locked {
            "idle_inhibited"@
        } else if self.debounce_pending {
            "idle_waiting"@
        } else {
            "idle_active"@
        }
    }
}

impl ManagerModel {
    /// What the bar is told.
    pub open spec fn bar(self, s: StateModel, now: u64) -> WaybarModel {
        WaybarModel {
            text: s.word(),
            alt: s.bar_class(),
            class: s.bar_class(),
            tooltip: tooltip_text(self.effective(s), s, now),
            profile: Some(
                match s.active_profile {
                    Some(n) => n,
                    None => "default"@,
                },
            ),
        }
    }
}

fn bar_class_of(state: &State) -> (r: &'static str)
    ensures
        r@ == state@.bar_class(),
{
    if state.manually_paused() {
        "manually_inhibited"
    } else if state.inhibitors_active() || state.system_paused() || state.is_locked() {
        "idle_inhibited"
    } else if state.debounce_pending() {
        "idle_waiting"
    } else {
        "idle_active"
    }
}

impl Manager {
    /// The state as it is shown to the user and to a bar.
    pub fn snapshot(&self, state: &State, now_ms: u64) -> (r: InfoSnapshot)
        ensures
            r.waybar@ == self@.bar(state@, now_ms),
            r.pretty_text@ == pretty_text(self@.effective(state@), state@, now_ms),
            r.manually_paused == state@.manually_paused,
    {
        let cfg_opt = self.cfg_file.effective_for(state.active_profile(), state.plan_source());
        let rendered = match &cfg_opt {
            Some(c) => render_info(Some(c), state, now_ms),
            None => render_info(None, state, now_ms),
        };
        let alt = bar_class_of(state);
        let profile = match state.active_profile() {
            Some(n) => String::from_str(n),
            None => String::from_str("default"),
        };
        let waybar = WaybarInfo {
            text: String::from_str(state_word(state)),
            alt: String::from_str(alt),
            class: String::from_str(alt),
            tooltip: rendered.tooltip,
            profile: Some(profile),
        };
        InfoSnapshot::new(waybar, rendered.pretty, state.manually_paused())
    }
}

} // verus!
