//! Laws on profiles: what a change leads to, and how the profile in effect is named.

use vstd::prelude::*;

use super::behaviour::{events_change_only_their_own, switch_keeps};
use super::laws::{fits, prepared_is_settled};
use super::machine::{prepared, profile_of};
use super::ManagerModel;
use crate::action::ActionModel;
use crate::error::{ConfigError, Error};
use crate::events::Event;
use crate::state::StateModel;
use crate::text::strings::{trimmed, trimmed_is_bare};

verus! {

/// A profile's name as it is kept: without blanks around it, and none of the words that stand for
/// no profile.
pub open spec fn well_named(profile: Option<Seq<char>>) -> bool {
    profile matches Some(n) ==> n.len() > 0 && trimmed(n) == n && profile_of(n) == Some(n)
}

/// A profile that the configuration has comes into effect, with no inhibitors and under the same
/// power source.
pub proof fn profile_change_takes_effect(m: ManagerModel, s: StateModel, name: Seq<char>, now: u64)
    requires
        fits(m),
        m.effective(s) is Some,
        trimmed(name).len() > 0,
        m.file.effective(profile_of(trimmed(name)), s.plan_source) is Some,
    ensures
        ({
            let h = m.profile_handled(s, name, now);
            &&& h.result is Ok
            &&& h.manager == m
            &&& h.state.active_profile == profile_of(trimmed(name))
            &&& h.state.plan_source == s.plan_source
            &&& h.state.app_inhibitor_count == 0
            &&& h.state.media_inhibitor_count == 0
        }),
{
    let cfg = m.effective(s)->0;
    let ready = prepared(s, cfg, now);
    prepared_is_settled(s, cfg, now);
    let chosen = StateModel {
        active_profile: profile_of(trimmed(name)),
        app_inhibitor_count: 0,
        media_inhibitor_count: 0,
        ..ready.state
    };
    let fresh = chosen.refreshed(now);
    assert(fresh.active_profile == chosen.active_profile && fresh.plan_source == s.plan_source
        && fresh.app_inhibitor_count == 0 && fresh.media_inhibitor_count == 0) by {
        reveal(StateModel::refreshed);
    }
    switch_keeps(m, fresh, ready.actions, now);
    reveal(ManagerModel::switched);
}

/// A profile that the configuration does not have is refused, and the one in effect stays.
pub proof fn unknown_profile_is_refused(m: ManagerModel, s: StateModel, name: Seq<char>, now: u64)
    requires
        fits(m),
        trimmed(name).len() > 0,
        m.file.effective(profile_of(trimmed(name)), s.plan_source) is None,
    ensures
        ({
            let h = m.profile_handled(s, name, now);
            &&& h.result == Err::<Seq<ActionModel>, _>(
                Error::InvalidConfig(ConfigError::ProfileNotFound),
            )
            &&& h.manager == m
            &&& h.state.active_profile == s.active_profile
            &&& h.state.plan_source == s.plan_source
        }),
{
    if let Some(cfg) = m.effective(s) {
        prepared_is_settled(s, cfg, now);
    }
}

/// Whatever happens, the profile in effect stays well named.
pub proof fn profile_stays_well_named(m: ManagerModel, s: StateModel, e: Event)
    requires
        fits(m),
        well_named(s.active_profile),
    ensures
        well_named(m.handled(s, e).state.active_profile),
{
    if m.effective(s) is Some {
        match e {
            Event::ProfileChanged { name, now_ms } => {
                reveal(ManagerModel::reacted);
                assert(m.handled(s, e) == m.profile_handled(s, name@, now_ms));
                trimmed_is_bare(name@);
                let cfg = m.effective(s)->0;
                prepared_is_settled(s, cfg, now_ms);
                if trimmed(name@).len() > 0 {
                    if m.file.effective(profile_of(trimmed(name@)), s.plan_source) is Some {
                        profile_change_takes_effect(m, s, name@, now_ms);
                    } else {
                        unknown_profile_is_refused(m, s, name@, now_ms);
                    }
                }
            },
            _ => {
                events_change_only_their_own(m, s, e);
            },
        }
    }
}

} // verus!
