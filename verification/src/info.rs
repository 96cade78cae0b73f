//! What `stasis info` shows.

use vstd::prelude::*;

use crate::text::strings::opt_view;

verus! {

/// Waybar JSON contract.
#[derive(Debug)]
pub struct WaybarInfo {
    pub text: String,
    pub alt: String,
    pub class: String,
    pub tooltip: String,
    pub profile: Option<String>,
}

/// What stands for a [`WaybarInfo`] in contracts.
#[verifier::ext_equal]
pub struct WaybarModel {
    pub text: Seq<char>,
    pub alt: Seq<char>,
    pub class: Seq<char>,
    pub tooltip: Seq<char>,
    pub profile: Option<Seq<char>>,
}

impl View for WaybarInfo {
    type V = WaybarModel;

    open spec fn view(&self) -> WaybarModel {
        WaybarModel {
            text: self.text@,
            alt: self.alt@,
            class: self.class@,
            tooltip: self.tooltip@,
            profile: opt_view(self.profile),
        }
    }
}

/// Snapshot returned from the manager for `stasis info`.
///
/// - `waybar` is the stable JSON contract.
/// - `pretty_text` is CLI-facing output for `stasis info`.
#[derive(Debug)]
pub struct InfoSnapshot {
    pub waybar: WaybarInfo,
    pub pretty_text: String,
    pub manually_paused: bool,
}

impl InfoSnapshot {
    pub fn new(waybar: WaybarInfo, pretty_text: String, manually_paused: bool) -> (r: Self)
        ensures
            r.waybar == waybar,
            r.pretty_text == pretty_text,
            r.manually_paused == manually_paused,
    {
        InfoSnapshot { waybar, pretty_text, manually_paused }
    }
}

} // verus!
