//! What holds of every event.

use vstd::prelude::*;

use super::machine::{
    active, advanced, after_lock, all_from, entered, find_trigger, in_all, instant_fired,
    instants_from, next_enabled, next_enabled_is_next, next_lock, past_startup, prepared,
    profile_of, resumed_steps, source_of, startup_from, triggered, waiting_step, Stepped,
};
use super::ManagerModel;
use crate::action::ActionModel;
use crate::config::select::source_changes_only_the_plan;
use crate::config::types::{ConfigModel, StepModel};
use crate::events::Event;
use crate::state::StateModel;
use crate::text::strings::trimmed;

verus! {

// ---------------------------------------------------------------------------------------------
// What the pieces leave alone
// ---------------------------------------------------------------------------------------------

/// The two states agree on everything that the plan does not change by running.
pub open spec fn same_setting(a: StateModel, b: StateModel) -> bool {
    &&& a.app_inhibitor_count == b.app_inhibitor_count
    &&& a.media_inhibitor_count == b.media_inhibitor_count
    &&& a.manually_paused == b.manually_paused
    &&& a.system_paused == b.system_paused
    &&& a.paused == b.paused
    &&& a.pause_started_ms == b.pause_started_ms
    &&& a.debounce_seconds == b.debounce_seconds
    &&& a.is_locked == b.is_locked
    &&& a.active_profile == b.active_profile
    &&& a.power_state == b.power_state
    &&& a.plan_source == b.plan_source
}

/// The plan is as long as the flags for it, and every startup instant at its front has fired.
pub open spec fn started(s: StateModel, plan: Seq<StepModel>) -> bool {
    &&& s.fired_steps.len() == plan.len()
    &&& forall|i: int|
        0 <= i < past_startup(plan, 0) && (#[trigger] plan[i]).enabled() ==> s.one_shot_fired(plan[i])
}

pub proof fn past_startup_is_front(plan: Seq<StepModel>, i: int)
    requires
        0 <= i <= plan.len(),
    ensures
        i <= past_startup(plan, i) <= plan.len(),
        forall|k: int|
            i <= k < past_startup(plan, i) ==> !(#[trigger] plan[k]).enabled()
                || plan[k].is_startup_instant(),
        past_startup(plan, i) < plan.len() ==> plan[past_startup(plan, i)].enabled()
            && !plan[past_startup(plan, i)].is_startup_instant(),
    decreases plan.len() - i,
{
    if i < plan.len() && (!plan[i].enabled() || plan[i].is_startup_instant()) {
        past_startup_is_front(plan, i + 1);
    }
}

/// Startup instants change the setting of nothing, and leave only those fired that have.
pub proof fn startup_keeps_setting(s: StateModel, cfg: ConfigModel, i: int, now: u64)
    requires
        0 <= i <= cfg.plan.len(),
        cfg.plan.len() <= usize::MAX,
        s.fired_steps.len() == cfg.plan.len(),
    ensures
        ({
            let r = startup_from(s, cfg, i, now);
            &&& same_setting(s, r.state)
            &&& r.state.step_index == s.step_index
            &&& r.state.step_base_ms == s.step_base_ms
            &&& r.state.debounce_pending == s.debounce_pending
            &&& r.state.fired_steps.len() == cfg.plan.len()
            &&& s.one_shots_fired.subset_of(r.state.one_shots_fired)
            &&& forall|k: int|
                i <= k < past_startup(cfg.plan, i) && (#[trigger] cfg.plan[k]).enabled()
                    ==> r.state.one_shot_fired(cfg.plan[k])
        }),
    decreases cfg.plan.len() - i,
{
    let plan = cfg.plan;
    if i < plan.len() {
        if !plan[i].enabled() {
            startup_keeps_setting(s, cfg, i + 1, now);
        } else if plan[i].is_startup_instant() {
            if s.one_shot_fired(plan[i]) {
                startup_keeps_setting(s, cfg, i + 1, now);
            } else {
                let step = plan[i];
                let actions = step.actions(s.is_locked, cfg.pre_suspend_command);
                let fired = if actions.len() > 0 {
                    StateModel { last_action_ms: now, ..s.step_fired(step, i) }.with_notify_sent(
                        false,
                    )
                } else {
                    s
                };
                startup_keeps_setting(fired.with_one_shot(step), cfg, i + 1, now);
            }
        }
    }
}

/// Once every startup instant at the front has fired, none fires again.
pub proof fn startup_is_over(s: StateModel, cfg: ConfigModel, i: int, now: u64)
    requires
        0 <= i <= cfg.plan.len(),
        forall|k: int|
            i <= k < past_startup(cfg.plan, i) && (#[trigger] cfg.plan[k]).enabled()
                ==> s.one_shot_fired(cfg.plan[k]),
    ensures
        startup_from(s, cfg, i, now) == (Stepped { state: s, actions: Seq::empty() }),
    decreases cfg.plan.len() - i,
{
    let plan = cfg.plan;
    if i < plan.len() {
        past_startup_is_front(plan, i);
        if !plan[i].enabled() || plan[i].is_startup_instant() {
            past_startup_is_front(plan, i + 1);
            startup_is_over(s, cfg, i + 1, now);
        }
    }
}

/// Instants change the setting of nothing.
pub proof fn instants_keep_setting(s: StateModel, cfg: ConfigModel, i: int, now: u64)
    requires
        0 <= i,
        cfg.plan.len() <= usize::MAX,
        s.fired_steps.len() == cfg.plan.len(),
    ensures
        ({
            let (r, at) = instants_from(s, cfg, i, now);
            &&& same_setting(s, r.state)
            &&& r.state.fired_steps.len() == cfg.plan.len()
            &&& s.one_shots_fired.subset_of(r.state.one_shots_fired)
            &&& at <= cfg.plan.len()
            &&& i <= cfg.plan.len() ==> i <= at
            &&& r.state.step_index == 0 ==> s.step_index == 0 || cfg.plan.len() == 0
            &&& at < cfg.plan.len() ==> cfg.plan[at].enabled() && !cfg.plan[at].is_instant() && !(
            cfg.plan[at].is_lock() && s.is_locked)
        }),
    decreases cfg.plan.len() - i,
{
    let plan = cfg.plan;
    if 0 <= i < plan.len() {
        if !plan[i].enabled() {
            instants_keep_setting(s, cfg, i + 1, now);
        } else if plan[i].is_lock() && s.is_locked {
            instants_keep_setting(
                StateModel { step_index: (i + 1) as usize, ..s }.with_notify_sent(false),
                cfg,
                i + 1,
                now,
            );
        } else if !plan[i].is_instant() {
        } else if s.one_shot_fired(plan[i]) {
            instants_keep_setting(
                StateModel { step_index: (i + 1) as usize, ..s },
                cfg,
                i + 1,
                now,
            );
        } else {
            instants_keep_setting(instant_fired(s, cfg, i, now).state, cfg, i + 1, now);
        }
    }
}

/// A trigger of all steps changes the setting of nothing.
pub proof fn all_keeps_setting(s: StateModel, cfg: ConfigModel, i: int)
    requires
        0 <= i <= cfg.plan.len(),
        cfg.plan.len() <= usize::MAX,
        s.fired_steps.len() == cfg.plan.len(),
    ensures
        ({
            let r = all_from(s, cfg, i);
            &&& same_setting(s, r.state)
            &&& r.state.step_index == s.step_index
            &&& r.state.fired_steps.len() == cfg.plan.len()
            &&& r.state.one_shots_fired == s.one_shots_fired
        }),
    decreases cfg.plan.len() - i,
{
    if i < cfg.plan.len() {
        if in_all(s, cfg.plan[i]) {
            let step = cfg.plan[i];
            let actions = step.actions(s.is_locked, cfg.pre_suspend_command);
            all_keeps_setting(s.fired_if_any(actions, step, i), cfg, i + 1);
        } else {
            all_keeps_setting(s, cfg, i + 1);
        }
    }
}

pub proof fn find_trigger_is_in_plan(plan: Seq<StepModel>, name: Seq<char>, i: int)
    requires
        0 <= i <= plan.len(),
    ensures
        i <= find_trigger(plan, name, i) <= plan.len(),
    decreases plan.len() - i,
{
    if i < plan.len() && !(plan[i].enabled() && plan[i].triggered_by(name)) {
        find_trigger_is_in_plan(plan, name, i + 1);
    }
}

// ---------------------------------------------------------------------------------------------
// Settled states
// ---------------------------------------------------------------------------------------------

/// The state is in line with the configuration: its length, its debounce time, the pause, and the
/// startup instants. Every event leaves such a state behind.
pub open spec fn settled(s: StateModel, cfg: ConfigModel) -> bool {
    &&& started(s, cfg.plan)
    &&& s.debounce_seconds == cfg.debounce_seconds
    &&& s.paused == s.held()
    &&& s.pause_started_ms is Some ==> s.paused
    &&& s.step_index == 0 ==> past_startup(cfg.plan, 0) == 0
}

pub proof fn settled_needs_nothing(s: StateModel, cfg: ConfigModel, now: u64)
    requires
        settled(s, cfg),
    ensures
        prepared(s, cfg, now) == (Stepped { state: s, actions: Seq::empty() }),
{
    reveal(prepared);
    reveal(StateModel::refreshed);
    startup_is_over(s, cfg, 0, now);
    assert(s.refreshed(now) =~= s);
}

pub proof fn prepared_is_settled(s: StateModel, cfg: ConfigModel, now: u64)
    requires
        cfg.plan.len() <= usize::MAX,
    ensures
        settled(prepared(s, cfg, now).state, cfg),
        prepared(s, cfg, now).state.is_locked == s.is_locked,
        prepared(s, cfg, now).state.active_profile == s.active_profile,
        prepared(s, cfg, now).state.plan_source == s.plan_source,
        prepared(s, cfg, now).state.manually_paused == s.manually_paused,
        prepared(s, cfg, now).state.app_inhibitor_count == s.app_inhibitor_count,
        prepared(s, cfg, now).state.media_inhibitor_count == s.media_inhibitor_count,
        prepared(s, cfg, now).state.system_paused == s.system_paused,
        prepared(s, cfg, now).state.power_state == s.power_state,
{
    reveal(prepared);
    reveal(StateModel::refreshed);
    let lined_up = StateModel {
        debounce_seconds: cfg.debounce_seconds,
        ..s.sized(cfg.plan.len())
    }.refreshed(now);
    startup_keeps_setting(lined_up, cfg, 0, now);
    past_startup_is_front(cfg.plan, 0);
}

pub proof fn next_lock_is_in_plan(plan: Seq<StepModel>, i: int)
    requires
        0 <= i <= plan.len(),
    ensures
        i <= next_lock(plan, i) <= plan.len(),
    decreases plan.len() - i,
{
    if i < plan.len() && !(plan[i].enabled() && plan[i].is_lock()) {
        next_lock_is_in_plan(plan, i + 1);
    }
}

pub proof fn after_lock_is_in_plan(plan: Seq<StepModel>)
    ensures
        0 <= after_lock(plan) <= plan.len(),
        after_lock(plan) == 0 ==> plan.len() == 0,
{
    next_lock_is_in_plan(plan, 0);
    if next_lock(plan, 0) < plan.len() {
        next_enabled_is_next(plan, next_lock(plan, 0) + 1);
    }
}

pub proof fn past_lock_keeps_settled(s: StateModel, cfg: ConfigModel)
    requires
        settled(s, cfg),
        cfg.plan.len() <= usize::MAX,
    ensures
        settled(s.past_lock(cfg.plan), cfg),
        same_setting(s, s.past_lock(cfg.plan)),
        s.past_lock(cfg.plan).one_shots_fired == s.one_shots_fired,
{
    reveal(StateModel::past_lock);
    let i = next_enabled(cfg.plan, s.step_index as int);
    next_enabled_is_next(cfg.plan, s.step_index as int);
    if i < cfg.plan.len() {
        next_enabled_is_next(cfg.plan, i + 1);
    }
    past_startup_is_front(cfg.plan, 0);
}

/// Activity leaves a settled state, whatever held the plan before.
pub proof fn active_settles(s: StateModel, cfg: ConfigModel, now: u64, announce: bool)
    requires
        started(s, cfg.plan),
        s.debounce_seconds == cfg.debounce_seconds,
        cfg.plan.len() <= usize::MAX,
    ensures
        settled(active(s, cfg, now, announce).state, cfg),
        active(s, cfg, now, announce).state.is_locked == s.is_locked,
        active(s, cfg, now, announce).state.active_profile == s.active_profile,
        active(s, cfg, now, announce).state.plan_source == s.plan_source,
        active(s, cfg, now, announce).state.power_state == s.power_state,
        active(s, cfg, now, announce).state.manually_paused == s.manually_paused,
        active(s, cfg, now, announce).state.system_paused == s.system_paused,
        active(s, cfg, now, announce).state.app_inhibitor_count == s.app_inhibitor_count,
        active(s, cfg, now, announce).state.media_inhibitor_count == s.media_inhibitor_count,
{
    reveal(active);
    after_lock_is_in_plan(cfg.plan);
    past_startup_is_front(cfg.plan, 0);
    let woken = resumed_steps(s, cfg.plan).state;
    assert(same_setting(s, woken) && woken.one_shots_fired == s.one_shots_fired
        && woken.fired_steps == s.fired_steps);
    if s.is_locked {
        let passed = woken.past_lock(cfg.plan);
        assert(same_setting(woken, passed) && passed.one_shots_fired == s.one_shots_fired
            && passed.fired_steps == s.fired_steps) by {
            reveal(StateModel::past_lock);
        }
        let again = passed.new_segment(now, after_lock(cfg.plan) as usize);
        assert(again.fired_steps.len() == cfg.plan.len());
        refreshed_is_settled(again, cfg, now);
        assert(active(s, cfg, now, announce).state == again.refreshed(now));
        reveal(StateModel::refreshed);
    } else {
        let again = woken.new_cycle(now);
        let fresh = again.refreshed(now);
        assert(fresh.step_index == 0 && fresh.fired_steps == again.fired_steps
            && fresh.one_shots_fired == s.one_shots_fired && fresh.paused == fresh.held()
            && fresh.debounce_seconds == cfg.debounce_seconds && (fresh.pause_started_ms is Some
            ==> fresh.paused)) by {
            reveal(StateModel::refreshed);
        }
        assert(active(s, cfg, now, announce).state == fresh.synced(cfg.plan));
        reveal(StateModel::refreshed);
    }
}

pub proof fn advanced_settles(s: StateModel, cfg: ConfigModel, now: u64)
    requires
        settled(s, cfg),
        cfg.plan.len() <= usize::MAX,
    ensures
        settled(advanced(s, cfg, now).state, cfg),
        same_setting(s, advanced(s, cfg, now).state),
{
    reveal(advanced);
    let (front, at) = instants_from(s, cfg, s.step_index as int, now);
    instants_keep_setting(s, cfg, s.step_index as int, now);
    past_startup_is_front(cfg.plan, 0);
    if at < cfg.plan.len() {
        let last = waiting_step(front.state, cfg, at, now);
        assert(same_setting(front.state, last.state));
        assert(last.state.one_shots_fired == front.state.one_shots_fired);
        assert(last.state.fired_steps.len() == cfg.plan.len());
    }
}

pub proof fn triggered_settles(s: StateModel, cfg: ConfigModel, name: Seq<char>, now: u64)
    requires
        settled(s, cfg),
        cfg.plan.len() <= usize::MAX,
    ensures
        settled(triggered(s, cfg, name, now).state, cfg),
        same_setting(s, triggered(s, cfg, name, now).state),
{
    reveal(triggered);
    all_keeps_setting(s, cfg, 0);
    find_trigger_is_in_plan(cfg.plan, name, 0);
    past_startup_is_front(cfg.plan, 0);
}

pub proof fn entered_settles(s: StateModel, cfg: ConfigModel, now: u64)
    requires
        cfg.plan.len() <= usize::MAX,
    ensures
        settled(entered(s, cfg, now).state, cfg),
        entered(s, cfg, now).state.is_locked == s.is_locked,
        entered(s, cfg, now).state.active_profile == s.active_profile,
        entered(s, cfg, now).state.plan_source == s.plan_source,
{
    reveal(entered);
    reveal(StateModel::refreshed);
    reveal(StateModel::past_lock);
    let lined_up = StateModel {
        debounce_seconds: cfg.debounce_seconds,
        ..s.sized(cfg.plan.len())
    }.refreshed(now).synced(cfg.plan).past_lock(cfg.plan);
    startup_keeps_setting(lined_up, cfg, 0, now);
    past_startup_is_front(cfg.plan, 0);
}

/// Every plan of the configuration can be counted.
pub open spec fn fits(m: ManagerModel) -> bool {
    forall|profile: Option<Seq<char>>, src|
        (#[trigger] m.file.effective(profile, src)) matches Some(c) ==> c.plan.len() <= usize::MAX
}

pub proof fn refreshed_is_settled(s: StateModel, cfg: ConfigModel, now: u64)
    requires
        started(s, cfg.plan),
        s.debounce_seconds == cfg.debounce_seconds,
        s.pause_started_ms is Some ==> s.paused,
        s.step_index == 0 ==> past_startup(cfg.plan, 0) == 0,
    ensures
        settled(s.refreshed(now), cfg),
        s.refreshed(now).active_profile == s.active_profile,
        s.refreshed(now).plan_source == s.plan_source,
{
    reveal(StateModel::refreshed);
}

/// Every event leaves the state in line with the configuration in effect. In particular the plan
/// is paused exactly if the user, an inhibitor or the system holds it, and no startup instant is
/// left to fire.
#[verifier::rlimit(40)]
pub proof fn every_event_settles(m: ManagerModel, s: StateModel, e: Event)
    requires
        m.effective(s) is Some,
        fits(m),
    ensures
        ({
            let h = m.handled(s, e);
            &&& h.manager.file == m.file
            &&& h.manager.effective(h.state) matches Some(cfg) && settled(h.state, cfg)
        }),
{
    reveal(ManagerModel::reacted);
    let cfg = m.effective(s)->0;
    let now = e.at();
    let ready = prepared(s, cfg, now);
    let r = ready.state;
    prepared_is_settled(s, cfg, now);
    assert(m.effective(r) == Some(cfg));
    match e {
        Event::Tick { .. } => {
            past_lock_keeps_settled(r, cfg);
            advanced_settles(r.past_lock(cfg.plan), cfg, now);
        },
        Event::UserActivity { .. } | Event::BrowserActivity { .. } => {
            active_settles(r, cfg, now, false);
        },
        Event::ManualPause { .. } => {
            refreshed_is_settled(StateModel { manually_paused: true, ..r }, cfg, now);
        },
        Event::ManualResume { .. } => {
            active_settles(StateModel { manually_paused: false, ..r }, cfg, now, false);
        },
        Event::PauseExpired { .. } => {
            active_settles(StateModel { manually_paused: false, ..r }, cfg, now, true);
        },
        Event::ManualTrigger { name, .. } => {
            triggered_settles(r, cfg, name@, now);
        },
        Event::SessionLocked { .. } => {
            past_lock_keeps_settled(StateModel { is_locked: true, ..r }, cfg);
        },
        Event::SessionUnlocked { .. } => {
            let unlocked = StateModel {
                is_locked: false,
                resume_deferred_until_unlock: false,
                ..r
            };
            active_settles(unlocked, cfg, now, false);
            active_settles(unlocked.armed(), cfg, now, false);
        },
        Event::PrepareForSleep { .. } | Event::LidClosed { .. } => {
            refreshed_is_settled(StateModel { system_paused: true, ..r }, cfg, now);
        },
        Event::ResumedFromSleep { .. } | Event::LidOpened { .. } => {
            active_settles(StateModel { system_paused: false, ..r }, cfg, now, false);
        },
        Event::ProfileChanged { name, .. } => {
            profile_change_settles(m, r, cfg, ready.actions, name@, now);
        },
        Event::PowerChanged { state, .. } => {
            source_changes_only_the_plan(
                m.file,
                r.active_profile,
                r.plan_source,
                source_of(state),
            );
            switch_settles(
                m,
                StateModel {
                    power_state: Some(state),
                    plan_source: source_of(state),
                    ..r
                },
                ready.actions,
                now,
            );
        },
        Event::AppInhibitorCount { count, .. } => {
            refreshed_is_settled(StateModel { app_inhibitor_count: count, ..r }, cfg, now);
        },
        Event::MediaInhibitorCount { count, .. } => {
            refreshed_is_settled(StateModel { media_inhibitor_count: count, ..r }, cfg, now);
        },
        Event::MediaStateChanged { .. } => {
            active_settles(r, cfg, now, false);
            refreshed_is_settled(r, cfg, now);
        },
        _ => {},
    }
}

pub proof fn switch_settles(m: ManagerModel, s: StateModel, done: Seq<ActionModel>, now: u64)
    requires
        m.effective(s) is Some,
        fits(m),
    ensures
        ({
            let h = m.switched(s, done, now);
            h.manager == m && (m.effective(h.state) matches Some(cfg) && settled(h.state, cfg))
        }),
{
    reveal(ManagerModel::switched);
    let reset = StateModel { one_shots_fired: Set::empty(), ..s.new_cycle(now) };
    assert(m.effective(reset) == m.effective(s));
    let cfg = m.effective(reset)->0;
    entered_settles(reset, cfg, now);
}

pub proof fn profile_change_settles(
    m: ManagerModel,
    s: StateModel,
    cfg: ConfigModel,
    done: Seq<ActionModel>,
    name: Seq<char>,
    now: u64,
)
    requires
        m.effective(s) == Some(cfg),
        settled(s, cfg),
        fits(m),
    ensures
        ({
            let given = trimmed(name);
            given.len() > 0 && m.file.effective(profile_of(given), s.plan_source) is Some ==> ({
                let h = m.switched(
                    StateModel {
                        active_profile: profile_of(given),
                        app_inhibitor_count: 0,
                        media_inhibitor_count: 0,
                        ..s
                    }.refreshed(now),
                    done,
                    now,
                );
                h.manager == m && (m.effective(h.state) matches Some(c) && settled(h.state, c))
            })
        }),
{
    let given = trimmed(name);
    if given.len() > 0 && m.file.effective(profile_of(given), s.plan_source) is Some {
        let chosen = StateModel {
            active_profile: profile_of(given),
            app_inhibitor_count: 0,
            media_inhibitor_count: 0,
            ..s
        }.refreshed(now);
        reveal(StateModel::refreshed);
        switch_settles(m, chosen, done, now);
    }
}

} // verus!
