//! Laws on what the events set: the power source, the profile, the lock and what holds the plan.

use vstd::prelude::*;

use super::behaviour::{on_activity, on_resume, switch_keeps};
use super::firing::{front_runs, in_front};
use super::laws::{
    active_settles, every_event_settles, fits, prepared_is_settled, settled,
    settled_needs_nothing, startup_keeps_setting,
};
use super::machine::{
    active, entered, expired, next_enabled, next_enabled_is_next, past_startup, prepared,
    resumed_steps, startup_from,
};
use super::profiles::profile_change_takes_effect;
use super::triggers::spells;
use super::ManagerModel;
use crate::action::ActionModel;
use crate::config::laws::default_plans_follow_the_source;
use crate::config::select::source_changes_only_the_plan;
use crate::config::types::{ConfigModel, KindModel, PlanSource};
use crate::error::Error;
use crate::events::{ActivityKind, Event, MediaState, PowerState};
use crate::state::StateModel;
use crate::text::chars::lower;
use crate::text::strings::{lowered, trimmed};

verus! {

/// Every event happens at the time that it tells.
pub proof fn events_happen_when_they_tell(e: Event)
    ensures
        e matches Event::Tick { now_ms } ==> e.at() == now_ms,
        e matches Event::UserActivity { now_ms, .. } ==> e.at() == now_ms,
        e matches Event::BrowserActivity { now_ms } ==> e.at() == now_ms,
        e matches Event::BrowserInactive { now_ms } ==> e.at() == now_ms,
        e matches Event::CompositorIdled { now_ms } ==> e.at() == now_ms,
        e matches Event::CompositorResumed { now_ms } ==> e.at() == now_ms,
        e matches Event::ManualPause { now_ms } ==> e.at() == now_ms,
        e matches Event::ManualResume { now_ms } ==> e.at() == now_ms,
        e matches Event::PauseExpired { now_ms, .. } ==> e.at() == now_ms,
        e matches Event::ManualTrigger { now_ms, .. } ==> e.at() == now_ms,
        e matches Event::SessionLocked { now_ms } ==> e.at() == now_ms,
        e matches Event::SessionUnlocked { now_ms } ==> e.at() == now_ms,
        e matches Event::PrepareForSleep { now_ms } ==> e.at() == now_ms,
        e matches Event::ResumedFromSleep { now_ms } ==> e.at() == now_ms,
        e matches Event::LidClosed { now_ms } ==> e.at() == now_ms,
        e matches Event::LidOpened { now_ms } ==> e.at() == now_ms,
        e matches Event::ProfileChanged { now_ms, .. } ==> e.at() == now_ms,
        e matches Event::PowerChanged { now_ms, .. } ==> e.at() == now_ms,
        e matches Event::AppInhibitorCount { now_ms, .. } ==> e.at() == now_ms,
        e matches Event::MediaInhibitorCount { now_ms, .. } ==> e.at() == now_ms,
        e matches Event::MediaStateChanged { now_ms, .. } ==> e.at() == now_ms,
{
}

// ---------------------------------------------------------------------------------------------
// Power
// ---------------------------------------------------------------------------------------------

/// On mains the plan for mains is in effect, on battery that for the battery, where the file has
/// one; under a profile, what the profile makes of it.
pub proof fn power_source_selects_the_plan(
    m: ManagerModel,
    s: StateModel,
    state: PowerState,
    now_ms: u64,
)
    requires
        m.effective(s) is Some,
        fits(m),
    ensures
        ({
            let h = m.handled(s, Event::PowerChanged { state, now_ms });
            &&& h.result is Ok
            &&& h.manager == m
            &&& h.state.power_state == Some(state)
            &&& state == PowerState::OnAC ==> h.state.plan_source == PlanSource::Ac
            &&& state == PowerState::OnBattery ==> h.state.plan_source == PlanSource::Battery
            &&& h.state.active_profile == s.active_profile
            &&& m.effective(h.state) matches Some(c) && {
                &&& state == PowerState::OnAC ==> Some(c) == m.file.effective(
                    s.active_profile,
                    PlanSource::Ac,
                )
                &&& state == PowerState::OnBattery ==> Some(c) == m.file.effective(
                    s.active_profile,
                    PlanSource::Battery,
                )
                &&& s.active_profile is None && state == PowerState::OnAC
                    && m.file.default.plan_ac.len() > 0 ==> c.plan == m.file.default.plan_ac
                &&& s.active_profile is None && state == PowerState::OnBattery
                    && m.file.default.plan_battery.len() > 0 ==> c.plan
                    == m.file.default.plan_battery
            }
        }),
{
    reveal(ManagerModel::reacted);
    let cfg = m.effective(s)->0;
    let ready = prepared(s, cfg, now_ms);
    prepared_is_settled(s, cfg, now_ms);
    let src = match state {
        PowerState::OnAC => PlanSource::Ac,
        PowerState::OnBattery => PlanSource::Battery,
    };
    let changed = StateModel { power_state: Some(state), plan_source: src, ..ready.state };
    source_changes_only_the_plan(m.file, s.active_profile, s.plan_source, src);
    switch_keeps(m, changed, ready.actions, now_ms);
    switch_starts_anew(m, changed, ready.actions, now_ms);
    default_plans_follow_the_source(m.file);
}

/// The state after a switch to the configuration that it selects.
proof fn switch_starts_anew(m: ManagerModel, s: StateModel, done: Seq<ActionModel>, now: u64)
    requires
        m.effective(s) is Some,
        fits(m),
    ensures
        ({
            let h = m.switched(s, done, now);
            let cfg = m.effective(s)->0;
            &&& h.manager == m
            &&& h.result is Ok
            &&& h.state.power_state == s.power_state
            &&& h.state.plan_source == s.plan_source
            &&& h.state.active_profile == s.active_profile
            &&& h.state.step_base_ms == now
            &&& h.state.last_activity_ms == now
            &&& h.state.debounce_pending
            &&& h.state.debounce_seconds == cfg.debounce_seconds
        }),
{
    reveal(ManagerModel::switched);
    reveal(entered);
    reveal(StateModel::refreshed);
    reveal(StateModel::past_lock);
    let cfg = m.effective(s)->0;
    let reset = StateModel { one_shots_fired: Set::empty(), ..s.new_cycle(now) };
    assert(m.effective(reset) == Some(cfg));
    let lined_up = StateModel {
        debounce_seconds: cfg.debounce_seconds,
        ..reset.sized(cfg.plan.len())
    }.refreshed(now).synced(cfg.plan).past_lock(cfg.plan);
    startup_keeps_setting(lined_up, cfg, 0, now);
    startup_is_no_activity(lined_up, cfg, 0, now);
}

proof fn startup_is_no_activity(s: StateModel, cfg: ConfigModel, i: int, now: u64)
    ensures
        startup_from(s, cfg, i, now).state.last_activity_ms == s.last_activity_ms,
    decreases cfg.plan.len() - i,
{
    if 0 <= i < cfg.plan.len() {
        let step = cfg.plan[i];
        let actions = step.actions(s.is_locked, cfg.pre_suspend_command);
        let fired = if actions.len() > 0 {
            StateModel { last_action_ms: now, ..s.step_fired(step, i) }.with_notify_sent(false)
        } else {
            s
        };
        startup_is_no_activity(s, cfg, i + 1, now);
        startup_is_no_activity(fired.with_one_shot(step), cfg, i + 1, now);
    }
}

/// A change of the power source begins the idle cycle anew: the time of the first step counts from
/// now, with the debounce, and the startup steps in front of the plan run again.
pub proof fn power_change_starts_anew(
    m: ManagerModel,
    s: StateModel,
    state: PowerState,
    now_ms: u64,
    k: int,
)
    requires
        m.effective(s) is Some,
        fits(m),
    ensures
        ({
            let h = m.handled(s, Event::PowerChanged { state, now_ms });
            let plan = (m.effective(h.state)->0).plan;
            &&& h.state.step_base_ms == now_ms
            &&& h.state.last_activity_ms == now_ms
            &&& h.state.debounce_pending
            &&& in_front(plan, k) && plan[k].command is Some ==> (h.result matches Ok(actions)
                && actions.contains(ActionModel::RunCommand { command: plan[k].command->0 }))
        }),
{
    power_source_selects_the_plan(m, s, state, now_ms);
    reveal(ManagerModel::reacted);
    let cfg = m.effective(s)->0;
    let ready = prepared(s, cfg, now_ms);
    prepared_is_settled(s, cfg, now_ms);
    let src = match state {
        PowerState::OnAC => PlanSource::Ac,
        PowerState::OnBattery => PlanSource::Battery,
    };
    let changed = StateModel { power_state: Some(state), plan_source: src, ..ready.state };
    source_changes_only_the_plan(m.file, s.active_profile, s.plan_source, src);
    switch_starts_anew(m, changed, ready.actions, now_ms);
    switch_runs_the_front(m, changed, ready.actions, now_ms, k);
}

/// The startup steps in front of a plan that comes into effect run.
proof fn switch_runs_the_front(
    m: ManagerModel,
    s: StateModel,
    done: Seq<ActionModel>,
    now: u64,
    k: int,
)
    requires
        m.effective(s) is Some,
    ensures
        ({
            let plan = (m.effective(s)->0).plan;
            in_front(plan, k) && plan[k].command is Some ==> (m.switched(
                s,
                done,
                now,
            ).result matches Ok(actions) && actions.contains(
                ActionModel::RunCommand { command: plan[k].command->0 },
            ))
        }),
{
    let next = m.effective(s)->0;
    if in_front(next.plan, k) && next.plan[k].command is Some {
        let want = ActionModel::RunCommand { command: next.plan[k].command->0 };
        let reset = StateModel { one_shots_fired: Set::empty(), ..s.new_cycle(now) };
        assert(m.effective(reset) == Some(next));
        let started = entered(reset, next, now).actions;
        assert(started.contains(want)) by {
            reveal(entered);
            reveal(StateModel::refreshed);
            reveal(StateModel::past_lock);
            let lined_up = StateModel {
                debounce_seconds: next.debounce_seconds,
                ..reset.sized(next.plan.len())
            }.refreshed(now).synced(next.plan).past_lock(next.plan);
            front_runs(lined_up, next, 0, k, now);
        }
        reveal(ManagerModel::switched);
        let n = choose|n: int| 0 <= n < started.len() && started[n] == want;
        let all = done + started;
        assert(all[done.len() + n] == want);
    }
}

/// A configuration that comes into effect, and begins without startup steps, has run nothing yet.
proof fn entry_has_run_nothing(s: StateModel, cfg: ConfigModel, now: u64, k: int)
    requires
        s.step_index == 0,
        s.last_fired_idx is None,
        s.last_dpms_fired_idx is None,
        s.last_brightness_fired_idx is None,
        s.last_lock_fired_idx is None,
        forall|i: int| 0 <= i < s.fired_steps.len() ==> !(#[trigger] s.fired_steps[i]),
        cfg.plan.len() > 0,
        cfg.plan[0].command is Some,
        cfg.plan[0].kind != KindModel::Startup,
    ensures
        ({
            let t = entered(s, cfg, now).state;
            &&& t.last_fired_idx is None
            &&& t.last_dpms_fired_idx is None
            &&& t.last_brightness_fired_idx is None
            &&& t.last_lock_fired_idx is None
            &&& t.fired_steps.len() == cfg.plan.len()
            &&& 0 <= k < cfg.plan.len() ==> !t.fired_steps[k]
            &&& !t.is_locked ==> t.step_index == 0
        }),
{
    assert(past_startup(cfg.plan, 0) == 0);
    reveal(entered);
    reveal(StateModel::refreshed);
    reveal(StateModel::past_lock);
}

proof fn switch_forgets_what_ran(
    m: ManagerModel,
    s: StateModel,
    done: Seq<ActionModel>,
    now: u64,
    k: int,
)
    requires
        m.effective(s) is Some,
        (m.effective(s)->0).plan.len() > 0,
        (m.effective(s)->0).plan[0].command is Some,
        (m.effective(s)->0).plan[0].kind != KindModel::Startup,
    ensures
        ({
            let t = m.switched(s, done, now).state;
            let plan = (m.effective(s)->0).plan;
            &&& t.last_fired_idx is None
            &&& t.last_dpms_fired_idx is None
            &&& t.last_brightness_fired_idx is None
            &&& t.last_lock_fired_idx is None
            &&& t.fired_steps.len() == plan.len()
            &&& 0 <= k < plan.len() ==> !t.fired_steps[k]
            &&& !t.is_locked ==> t.step_index == 0
        }),
{
    let reset = StateModel { one_shots_fired: Set::empty(), ..s.new_cycle(now) };
    entry_has_run_nothing(reset, m.effective(s)->0, now, k);
    reveal(ManagerModel::switched);
    assert(m.effective(reset) == m.effective(s));
}

/// A change of the power source forgets what ran under the plan before: nothing of it is resumed
/// under the new one, and every step of the new one is still to run. The plan begins without
/// startup steps here.
pub proof fn power_change_forgets_what_ran(
    m: ManagerModel,
    s: StateModel,
    state: PowerState,
    now_ms: u64,
    k: int,
)
    requires
        m.effective(s) is Some,
        fits(m),
        ({
            let plan = (m.effective(
                m.handled(s, Event::PowerChanged { state, now_ms }).state,
            )->0).plan;
            plan.len() > 0 && plan[0].command is Some && plan[0].kind != KindModel::Startup
        }),
    ensures
        ({
            let t = m.handled(s, Event::PowerChanged { state, now_ms }).state;
            let plan = (m.effective(t)->0).plan;
            &&& t.last_fired_idx is None
            &&& t.last_dpms_fired_idx is None
            &&& t.last_brightness_fired_idx is None
            &&& t.last_lock_fired_idx is None
            &&& t.fired_steps.len() == plan.len()
            &&& 0 <= k < plan.len() ==> !t.fired_steps[k]
            &&& !t.is_locked ==> t.step_index == 0
        }),
{
    power_source_selects_the_plan(m, s, state, now_ms);
    reveal(ManagerModel::reacted);
    let cfg = m.effective(s)->0;
    let ready = prepared(s, cfg, now_ms);
    prepared_is_settled(s, cfg, now_ms);
    let src = match state {
        PowerState::OnAC => PlanSource::Ac,
        PowerState::OnBattery => PlanSource::Battery,
    };
    let changed = StateModel { power_state: Some(state), plan_source: src, ..ready.state };
    source_changes_only_the_plan(m.file, s.active_profile, s.plan_source, src);
    switch_forgets_what_ran(m, changed, ready.actions, now_ms, k);
}

// ---------------------------------------------------------------------------------------------
// Profiles
// ---------------------------------------------------------------------------------------------

proof fn spelled_is_the_same(a: Seq<char>, w: Seq<char>)
    requires
        spells(a, w),
        forall|i: int| 0 <= i < w.len() ==> 'a' <= #[trigger] w[i] <= 'z',
    ensures
        lowered(a) == lowered(w),
{
    assert forall|i: int| 0 <= i < a.len() implies #[trigger] lowered(a)[i] == lowered(w)[i] by {
        assert('a' <= w[i] <= 'z');
        assert(lowered(a)[i] == lower(a[i]) && lowered(w)[i] == lower(w[i]));
    }
    assert(lowered(a) =~= lowered(w));
}

/// The words `default` and `none`, in capitals or not, ask for no profile.
pub proof fn default_and_none_ask_for_no_profile(
    m: ManagerModel,
    s: StateModel,
    name: String,
    now_ms: u64,
)
    requires
        m.effective(s) is Some,
        fits(m),
        spells(trimmed(name@), "default"@) || spells(trimmed(name@), "none"@),
    ensures
        ({
            let h = m.handled(s, Event::ProfileChanged { name, now_ms });
            &&& h.result is Ok
            &&& h.state.active_profile is None
            &&& m.effective(h.state) == m.file.effective(None, s.plan_source)
        }),
{
    reveal_strlit("default");
    reveal_strlit("none");
    reveal(ManagerModel::reacted);
    if spells(trimmed(name@), "default"@) {
        spelled_is_the_same(trimmed(name@), "default"@);
    } else {
        spelled_is_the_same(trimmed(name@), "none"@);
    }
    crate::config::select::effective_exists_iff_named(m.file, None, s.plan_source);
    assert(m.handled(s, Event::ProfileChanged { name, now_ms }) == m.profile_handled(
        s,
        name@,
        now_ms,
    ));
    profile_change_takes_effect(m, s, name@, now_ms);
}

/// Any other name asks for the profile of that name, without the white space around it.
pub proof fn name_asks_for_its_profile(
    m: ManagerModel,
    s: StateModel,
    name: String,
    now_ms: u64,
    i: int,
)
    requires
        m.effective(s) is Some,
        fits(m),
        trimmed(name@).len() > 0,
        lowered(trimmed(name@)) != "default"@,
        lowered(trimmed(name@)) != "none"@,
        0 <= i < m.file.profiles.len(),
        m.file.profiles[i].name == trimmed(name@),
    ensures
        ({
            let h = m.handled(s, Event::ProfileChanged { name, now_ms });
            &&& h.result is Ok
            &&& h.state.active_profile == Some(trimmed(name@))
            &&& m.effective(h.state) == m.file.effective(Some(trimmed(name@)), s.plan_source)
            &&& h.state.app_inhibitor_count == 0
            &&& h.state.media_inhibitor_count == 0
        }),
{
    reveal_strlit("default");
    reveal_strlit("none");
    assert(lowered("default"@) =~= "default"@);
    assert(lowered("none"@) =~= "none"@);
    reveal(ManagerModel::reacted);
    crate::config::select::effective_exists_iff_named(
        m.file,
        Some(trimmed(name@)),
        s.plan_source,
    );
    assert(m.handled(s, Event::ProfileChanged { name, now_ms }) == m.profile_handled(
        s,
        name@,
        now_ms,
    ));
    profile_change_takes_effect(m, s, name@, now_ms);
}

/// Another profile begins the idle cycle anew, and runs the startup steps in front of its plan.
pub proof fn profile_change_starts_anew(
    m: ManagerModel,
    s: StateModel,
    name: String,
    now_ms: u64,
    i: int,
    k: int,
)
    requires
        m.effective(s) is Some,
        fits(m),
        trimmed(name@).len() > 0,
        lowered(trimmed(name@)) != "default"@,
        lowered(trimmed(name@)) != "none"@,
        0 <= i < m.file.profiles.len(),
        m.file.profiles[i].name == trimmed(name@),
    ensures
        ({
            let h = m.handled(s, Event::ProfileChanged { name, now_ms });
            let plan = (m.effective(h.state)->0).plan;
            &&& h.state.step_base_ms == now_ms
            &&& h.state.last_activity_ms == now_ms
            &&& h.state.debounce_pending
            &&& in_front(plan, k) && plan[k].command is Some ==> (h.result matches Ok(actions)
                && actions.contains(ActionModel::RunCommand { command: plan[k].command->0 }))
        }),
{
    name_asks_for_its_profile(m, s, name, now_ms, i);
    reveal_strlit("default");
    reveal_strlit("none");
    assert(lowered("default"@) =~= "default"@);
    assert(lowered("none"@) =~= "none"@);
    let given = trimmed(name@);
    crate::config::select::effective_exists_iff_named(m.file, Some(given), s.plan_source);
    let cfg = m.effective(s)->0;
    let ready = prepared(s, cfg, now_ms);
    prepared_is_settled(s, cfg, now_ms);
    let changed = StateModel {
        active_profile: Some(given),
        app_inhibitor_count: 0,
        media_inhibitor_count: 0,
        ..ready.state
    }.refreshed(now_ms);
    let h = m.handled(s, Event::ProfileChanged { name, now_ms });
    assert(h == m.switched(changed, ready.actions, now_ms) && changed.active_profile == Some(given)
        && changed.plan_source == s.plan_source) by {
        reveal(ManagerModel::reacted);
        reveal(StateModel::refreshed);
    }
    switch_starts_anew(m, changed, ready.actions, now_ms);
    switch_runs_the_front(m, changed, ready.actions, now_ms, k);
}

// ---------------------------------------------------------------------------------------------
// What holds the plan
// ---------------------------------------------------------------------------------------------

/// Each event sets what it tells of, and the plan is paused exactly while the user, an inhibitor
/// or the system holds it.
#[verifier::rlimit(60)]
pub proof fn events_set_what_they_tell(m: ManagerModel, s: StateModel, e: Event)
    requires
        m.effective(s) is Some,
        fits(m),
    ensures
        ({
            let h = m.handled(s, e);
            let t = h.state;
            &&& t.paused == (t.manually_paused || t.app_inhibitor_count > 0
                || t.media_inhibitor_count > 0 || t.system_paused)
            &&& e matches Event::AppInhibitorCount { count, .. } ==> h.result is Ok
                && t.app_inhibitor_count == count
            &&& e matches Event::MediaInhibitorCount { count, .. } ==> h.result is Ok
                && t.media_inhibitor_count == count
            &&& e is ManualPause ==> t.manually_paused
            &&& e is ManualResume || e is PauseExpired ==> !t.manually_paused
            &&& e is SessionLocked ==> h.result is Ok && t.is_locked
            &&& e is SessionUnlocked ==> !t.is_locked
            &&& e is PrepareForSleep || e is LidClosed ==> h.result is Ok && t.system_paused
            &&& e is ResumedFromSleep || e is LidOpened ==> h.result is Ok && !t.system_paused
            &&& e matches Event::MediaStateChanged { state, .. } ==> h.result is Ok
                && h.manager.last_media == state
            &&& !(e is MediaStateChanged) ==> h.manager.last_media == m.last_media
        }),
{
    every_event_settles(m, s, e);
    reveal(ManagerModel::reacted);
    let cfg = m.effective(s)->0;
    let now = e.at();
    let r = prepared(s, cfg, now).state;
    prepared_is_settled(s, cfg, now);
    match e {
        Event::ManualResume { .. } => {
            active_settles(StateModel { manually_paused: false, ..r }, cfg, now, false);
        },
        Event::PauseExpired { .. } => {
            active_settles(StateModel { manually_paused: false, ..r }, cfg, now, true);
        },
        Event::ManualPause { .. } | Event::PrepareForSleep { .. } | Event::LidClosed { .. }
        | Event::AppInhibitorCount { .. } | Event::MediaInhibitorCount { .. } => {
            reveal(StateModel::refreshed);
        },
        Event::SessionLocked { .. } => {
            reveal(StateModel::past_lock);
        },
        Event::SessionUnlocked { .. } => {
            let open = StateModel { is_locked: false, resume_deferred_until_unlock: false, ..r };
            active_settles(open, cfg, now, false);
            active_settles(open.armed(), cfg, now, false);
        },
        Event::ResumedFromSleep { .. } | Event::LidOpened { .. } => {
            active_settles(StateModel { system_paused: false, ..r }, cfg, now, false);
        },
        Event::ProfileChanged { .. } | Event::PowerChanged { .. } => {
            reveal(ManagerModel::switched);
        },
        _ => {},
    }
}

/// The time during which media held the plan is not counted either.
pub proof fn media_time_is_not_counted(
    m: ManagerModel,
    s: StateModel,
    cfg: ConfigModel,
    count: u64,
    from: u64,
    to: u64,
)
    requires
        m.effective(s) == Some(cfg),
        settled(s, cfg),
        !s.manually_paused && s.app_inhibitor_count == 0 && s.media_inhibitor_count == 0
            && !s.system_paused,
        count > 0,
        from <= to,
    ensures
        ({
            let a = m.handled(s, Event::MediaInhibitorCount { count, now_ms: from });
            let b = a.manager.handled(a.state, Event::MediaInhibitorCount { count: 0, now_ms: to });
            &&& a.result == Ok::<Seq<ActionModel>, Error>(Seq::empty())
            &&& a.state.paused
            &&& b.result == Ok::<Seq<ActionModel>, Error>(Seq::empty())
            &&& !b.state.paused
            &&& s.step_base_ms + (to - from) <= u64::MAX ==> b.state.step_base_ms
                == s.step_base_ms + (to - from)
            &&& s.sent_pre_action_notify && s.pre_action_notify_ms + (to - from) <= u64::MAX
                ==> b.state.pre_action_notify_ms == s.pre_action_notify_ms + (to - from)
            &&& b.state.step_index == s.step_index
            &&& b.state.fired_steps == s.fired_steps
        }),
{
    settled_needs_nothing(s, cfg, from);
    reveal(ManagerModel::reacted);
    reveal(StateModel::refreshed);
    let a = m.handled(s, Event::MediaInhibitorCount { count, now_ms: from });
    assert(a.state.one_shots_fired == s.one_shots_fired);
    assert(settled(a.state, cfg));
    settled_needs_nothing(a.state, cfg, to);
}

/// Events that nobody acts on change nothing, and ask for nothing.
pub proof fn other_events_do_nothing(
    m: ManagerModel,
    s: StateModel,
    cfg: ConfigModel,
    e: Event,
)
    requires
        m.effective(s) == Some(cfg),
        settled(s, cfg),
        e is BrowserInactive || e is CompositorIdled || e is CompositorResumed
            || e is PauseExpired && !s.manually_paused || e is SessionLocked && s.is_locked,
    ensures
        m.handled(s, e).state == s,
        m.handled(s, e).manager == m,
        m.handled(s, e).result == Ok::<Seq<ActionModel>, Error>(Seq::empty()),
{
    settled_needs_nothing(s, cfg, e.at());
    reveal(ManagerModel::reacted);
}

/// What holds the plan has no part in what activity resumes.
proof fn activity_resumes_alike(
    s: StateModel,
    t: StateModel,
    cfg: ConfigModel,
    now: u64,
    announce: bool,
)
    requires
        t == (StateModel {
            manually_paused: t.manually_paused,
            system_paused: t.system_paused,
            ..s
        }),
    ensures
        ({
            let a = active(s, cfg, now, false);
            let b = active(t, cfg, now, announce);
            let free = !t.manually_paused && t.app_inhibitor_count == 0
                && t.media_inhibitor_count == 0 && !t.system_paused;
            &&& b.actions == if announce && cfg.notify_on_unpause && free {
                a.actions.push(ActionModel::Notify { message: "resumed"@ })
            } else {
                a.actions
            }
            &&& a.state.step_base_ms == now
            &&& a.state.last_activity_ms == now
            &&& a.state.debounce_pending
            &&& !a.state.sent_pre_action_notify
            &&& b.state.step_index == a.state.step_index
            &&& b.state.step_base_ms == now
            &&& b.state.last_activity_ms == now
            &&& b.state.fired_steps == a.state.fired_steps
            &&& b.state.resumed_epoch == a.state.resumed_epoch
            &&& b.state.resume_deferred_until_unlock == a.state.resume_deferred_until_unlock
            &&& b.state.debounce_pending
            &&& !b.state.sent_pre_action_notify
            &&& b.state.manually_paused == t.manually_paused
        }),
{
    reveal(active);
    let x = resumed_steps(s, cfg.plan);
    let y = resumed_steps(t, cfg.plan);
    assert(x.actions == y.actions && x.state.fired_steps == y.state.fired_steps);
    reveal(StateModel::refreshed);
    if s.is_locked {
        reveal(StateModel::past_lock);
    }
}

/// What else ends a wait wakes up as activity does: the end of a manual pause, of media, of a sleep,
/// and the opening of the lid resume the same steps, and the cycle counts from now.
pub proof fn waking_resumes_as_activity_does(
    m: ManagerModel,
    s: StateModel,
    cfg: ConfigModel,
    e: Event,
    kind: ActivityKind,
)
    requires
        m.effective(s) == Some(cfg),
        settled(s, cfg),
        cfg.plan.len() <= usize::MAX,
        e is BrowserActivity || e is ManualResume && s.manually_paused || e is ResumedFromSleep
            || e is LidOpened || (e matches Event::MediaStateChanged { state, .. } && state
            == MediaState::Idle && m.last_media != MediaState::Idle),
    ensures
        ({
            let h = m.handled(s, e);
            let a = m.handled(s, Event::UserActivity { kind, now_ms: e.at() });
            &&& h.result == a.result
            &&& h.state.step_index == a.state.step_index
            &&& h.state.step_base_ms == e.at()
            &&& h.state.last_activity_ms == e.at()
            &&& h.state.fired_steps == a.state.fired_steps
            &&& h.state.resumed_epoch == a.state.resumed_epoch
            &&& h.state.resume_deferred_until_unlock == a.state.resume_deferred_until_unlock
            &&& h.state.debounce_pending == !(e is ResumedFromSleep || e is LidOpened)
            &&& !h.state.sent_pre_action_notify
        }),
{
    settled_needs_nothing(s, cfg, e.at());
    on_activity(m, s, cfg, kind, e.at());
    let now = e.at();
    match e {
        Event::ManualResume { .. } => {
            on_resume(m, s, cfg, now);
            let t = StateModel { manually_paused: false, ..s };
            activity_resumes_alike(s, t, cfg, now, false);
        },
        Event::ResumedFromSleep { .. } | Event::LidOpened { .. } => {
            reveal(ManagerModel::reacted);
            activity_resumes_alike(s, StateModel { system_paused: false, ..s }, cfg, now, false);
        },
        Event::MediaStateChanged { .. } => {
            reveal(ManagerModel::reacted);
            activity_resumes_alike(s, s, cfg, now, false);
        },
        _ => {
            activity_resumes_alike(s, s, cfg, now, false);
        },
    }
}

/// Media that goes on, or begins, is no activity.
pub proof fn playing_media_is_no_activity(
    m: ManagerModel,
    s: StateModel,
    cfg: ConfigModel,
    state: MediaState,
    now_ms: u64,
)
    requires
        m.effective(s) == Some(cfg),
        settled(s, cfg),
        state != MediaState::Idle || m.last_media == MediaState::Idle,
    ensures
        ({
            let h = m.handled(s, Event::MediaStateChanged { state, now_ms });
            &&& h.result == Ok::<Seq<ActionModel>, Error>(Seq::empty())
            &&& h.state == s
        }),
{
    settled_needs_nothing(s, cfg, now_ms);
    reveal(ManagerModel::reacted);
    assert(s.refreshed(now_ms) == s) by {
        reveal(StateModel::refreshed);
    }
    assert(Seq::<ActionModel>::empty() + Seq::<ActionModel>::empty() =~= Seq::<
        ActionModel,
    >::empty());
}

/// At the end of a pause whose time is over the user is told, if that is wanted: last comes the
/// message, and before it `resumed` where nothing else holds the plan. Otherwise nobody is told.
pub proof fn end_of_a_timed_pause_is_told(
    m: ManagerModel,
    s: StateModel,
    cfg: ConfigModel,
    message: String,
    kind: ActivityKind,
    now_ms: u64,
)
    requires
        m.effective(s) == Some(cfg),
        settled(s, cfg),
        s.manually_paused,
        cfg.plan.len() <= usize::MAX,
    ensures
        ({
            let h = m.handled(s, Event::PauseExpired { message, now_ms });
            let woken = m.handled(s, Event::UserActivity { kind, now_ms }).result->Ok_0;
            let free = s.app_inhibitor_count == 0 && s.media_inhibitor_count == 0
                && !s.system_paused;
            &&& !h.state.manually_paused
            &&& h.result == Ok::<Seq<ActionModel>, Error>(
                if !cfg.notify_on_unpause {
                    woken
                } else if free {
                    woken + seq![
                        ActionModel::Notify { message: "resumed"@ },
                        ActionModel::Notify { message: message@ },
                    ]
                } else {
                    woken + seq![ActionModel::Notify { message: message@ }]
                },
            )
        }),
{
    settled_needs_nothing(s, cfg, now_ms);
    on_activity(m, s, cfg, kind, now_ms);
    let t = StateModel { manually_paused: false, ..s };
    activity_resumes_alike(s, t, cfg, now_ms, true);
    let h = m.handled(s, Event::PauseExpired { message, now_ms });
    assert(h == m.followed_by(Seq::empty(), expired(s, cfg, message@, now_ms))) by {
        reveal(ManagerModel::reacted);
    }
    let woken = m.handled(s, Event::UserActivity { kind, now_ms }).result->Ok_0;
    assert(woken =~= active(s, cfg, now_ms, false).actions);
    let free = s.app_inhibitor_count == 0 && s.media_inhibitor_count == 0 && !s.system_paused;
    assert(h.result->Ok_0 =~= if !cfg.notify_on_unpause {
        woken
    } else if free {
        woken + seq![
            ActionModel::Notify { message: "resumed"@ },
            ActionModel::Notify { message: message@ },
        ]
    } else {
        woken + seq![ActionModel::Notify { message: message@ }]
    });
}

/// A session that is locked by something else needs no locker: the lock step is passed over if it
/// is next, and the plan stands as it stood if it is not.
pub proof fn lock_passes_the_lock_step(
    m: ManagerModel,
    s: StateModel,
    cfg: ConfigModel,
    now_ms: u64,
)
    requires
        m.effective(s) == Some(cfg),
        settled(s, cfg),
        !s.is_locked,
        s.step_index < cfg.plan.len(),
        cfg.plan[s.step_index as int].command is Some,
        cfg.plan.len() <= usize::MAX,
    ensures
        ({
            let h = m.handled(s, Event::SessionLocked { now_ms });
            let i = s.step_index as int;
            let at = h.state.step_index as int;
            &&& h.result == Ok::<Seq<ActionModel>, Error>(Seq::empty())
            &&& h.state.is_locked
            &&& h.state.step_base_ms == s.step_base_ms
            &&& cfg.plan[i].kind != KindModel::LockScreen ==> h.state == (StateModel {
                is_locked: true,
                ..s
            })
            &&& cfg.plan[i].kind == KindModel::LockScreen ==> {
                &&& i < at <= cfg.plan.len()
                &&& forall|k: int| i < k < at ==> (#[trigger] cfg.plan[k]).command is None
                &&& at < cfg.plan.len() ==> cfg.plan[at].command is Some
            }
        }),
{
    settled_needs_nothing(s, cfg, now_ms);
    reveal(ManagerModel::reacted);
    reveal(StateModel::past_lock);
    let i = s.step_index as int;
    assert(next_enabled(cfg.plan, i) == i);
    next_enabled_is_next(cfg.plan, i + 1);
}

} // verus!
