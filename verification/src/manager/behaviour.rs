//! How the manager behaves over one event and over several.

use vstd::prelude::*;

use super::laws::{
    active_settles, advanced_settles, after_lock_is_in_plan, find_trigger_is_in_plan, fits,
    past_lock_keeps_settled, past_startup_is_front, prepared_is_settled, settled,
    settled_needs_nothing, startup_keeps_setting, triggered_settles,
};
use super::machine::{
    active, advanced, after_lock, all_from, entered, in_all, instant_fired, instants_from,
    past_startup, prepared, profile_of, resume_of, resumed_steps, source_of, startup_from,
    triggered, waiting_step, Handled, Stepped,
};
use super::ManagerModel;
use crate::action::ActionModel;
use crate::config::types::{ConfigModel, StepModel};
use crate::error::{Error, StateError};
use crate::events::{ActivityKind, Event};
use crate::state::{flags, StateModel};
use crate::text::strings::trimmed;
use crate::time::later;

verus! {

// ---------------------------------------------------------------------------------------------
// Single events
// ---------------------------------------------------------------------------------------------

pub proof fn on_tick(m: ManagerModel, s: StateModel, cfg: ConfigModel, now_ms: u64)
    requires
        m.effective(s) == Some(cfg),
    ensures
        ({
            let ready = prepared(s, cfg, now_ms);
            m.handled(s, Event::Tick { now_ms }) == if ready.state.paused {
                Handled { manager: m, state: ready.state, result: Ok(ready.actions) }
            } else {
                m.followed_by(
                    ready.actions,
                    advanced(ready.state.past_lock(cfg.plan), cfg, now_ms),
                )
            }
        }),
{
    reveal(ManagerModel::reacted);
}

pub proof fn on_activity(
    m: ManagerModel,
    s: StateModel,
    cfg: ConfigModel,
    kind: ActivityKind,
    now_ms: u64,
)
    requires
        m.effective(s) == Some(cfg),
    ensures
        ({
            let ready = prepared(s, cfg, now_ms);
            let next = m.followed_by(ready.actions, active(ready.state, cfg, now_ms, false));
            m.handled(s, Event::UserActivity { kind, now_ms }) == next && m.handled(
                s,
                Event::BrowserActivity { now_ms },
            ) == next
        }),
{
    reveal(ManagerModel::reacted);
}

pub proof fn on_app_count(m: ManagerModel, s: StateModel, cfg: ConfigModel, count: u64, now_ms: u64)
    requires
        m.effective(s) == Some(cfg),
    ensures
        ({
            let ready = prepared(s, cfg, now_ms);
            m.handled(s, Event::AppInhibitorCount { count, now_ms }) == (Handled {
                manager: m,
                state: StateModel { app_inhibitor_count: count, ..ready.state }.refreshed(now_ms),
                result: Ok(ready.actions),
            })
        }),
{
    reveal(ManagerModel::reacted);
}

pub proof fn on_pause(m: ManagerModel, s: StateModel, cfg: ConfigModel, now_ms: u64)
    requires
        m.effective(s) == Some(cfg),
    ensures
        ({
            let ready = prepared(s, cfg, now_ms);
            m.handled(s, Event::ManualPause { now_ms }) == if ready.state.manually_paused {
                Handled {
                    manager: m,
                    state: ready.state,
                    result: Err(Error::InvalidState(StateError::AlreadyPaused)),
                }
            } else {
                Handled {
                    manager: m,
                    state: StateModel { manually_paused: true, ..ready.state }.refreshed(now_ms),
                    result: Ok(ready.actions),
                }
            }
        }),
{
    reveal(ManagerModel::reacted);
}

pub proof fn on_resume(m: ManagerModel, s: StateModel, cfg: ConfigModel, now_ms: u64)
    requires
        m.effective(s) == Some(cfg),
    ensures
        ({
            let ready = prepared(s, cfg, now_ms);
            m.handled(s, Event::ManualResume { now_ms }) == if !ready.state.manually_paused {
                Handled {
                    manager: m,
                    state: ready.state,
                    result: Err(Error::InvalidState(StateError::NotPaused)),
                }
            } else {
                m.followed_by(
                    ready.actions,
                    active(
                        StateModel { manually_paused: false, ..ready.state },
                        cfg,
                        now_ms,
                        false,
                    ),
                )
            }
        }),
{
    reveal(ManagerModel::reacted);
}

// ---------------------------------------------------------------------------------------------
// Pauses
// ---------------------------------------------------------------------------------------------

/// While something holds the plan, time passes without effect.
pub proof fn time_has_no_effect_while_held(
    m: ManagerModel,
    s: StateModel,
    cfg: ConfigModel,
    now_ms: u64,
)
    requires
        m.effective(s) == Some(cfg),
        settled(s, cfg),
        s.held(),
    ensures
        m.handled(s, Event::Tick { now_ms }) == (Handled {
            manager: m,
            state: s,
            result: Ok(Seq::empty()),
        }),
{
    settled_needs_nothing(s, cfg, now_ms);
    on_tick(m, s, cfg, now_ms);
}

/// The time during which an inhibitor held the plan is not counted: the timers stand afterwards
/// as they stood before, only later by that time.
pub proof fn inhibited_time_is_not_counted(
    m: ManagerModel,
    s: StateModel,
    cfg: ConfigModel,
    count: u64,
    from: u64,
    to: u64,
)
    requires
        m.effective(s) == Some(cfg),
        settled(s, cfg),
        !s.held(),
        count > 0,
        from <= to,
    ensures
        ({
            let a = m.handled(s, Event::AppInhibitorCount { count, now_ms: from });
            let b = a.manager.handled(a.state, Event::AppInhibitorCount { count: 0, now_ms: to });
            &&& a.result == Ok::<Seq<ActionModel>, Error>(Seq::empty())
            &&& a.state.paused
            &&& b.result == Ok::<Seq<ActionModel>, Error>(Seq::empty())
            &&& b.state == StateModel {
                step_base_ms: later(s.step_base_ms, (to - from) as u64),
                pre_action_notify_ms: if s.sent_pre_action_notify {
                    later(s.pre_action_notify_ms, (to - from) as u64)
                } else {
                    s.pre_action_notify_ms
                },
                ..s
            }
        }),
{
    settled_needs_nothing(s, cfg, from);
    on_app_count(m, s, cfg, count, from);
    let a = m.handled(s, Event::AppInhibitorCount { count, now_ms: from });
    reveal(StateModel::refreshed);
    assert(a.state.one_shots_fired == s.one_shots_fired);
    assert(settled(a.state, cfg));
    settled_needs_nothing(a.state, cfg, to);
    on_app_count(m, a.state, cfg, 0, to);
}

/// A pause that is asked for twice is refused the second time, and so is a resume; a pause can be
/// resumed from.
pub proof fn pause_and_resume_alternate(
    m: ManagerModel,
    s: StateModel,
    cfg: ConfigModel,
    from: u64,
    to: u64,
)
    requires
        m.effective(s) == Some(cfg),
        fits(m),
        !s.manually_paused,
    ensures
        ({
            let paused = m.handled(s, Event::ManualPause { now_ms: from });
            let again = paused.manager.handled(paused.state, Event::ManualPause { now_ms: to });
            let resumed = paused.manager.handled(paused.state, Event::ManualResume { now_ms: to });
            let twice = resumed.manager.handled(
                resumed.state,
                Event::ManualResume { now_ms: to },
            );
            &&& paused.result is Ok && paused.state.manually_paused && paused.state.paused
            &&& again.result == Err::<Seq<ActionModel>, Error>(
                Error::InvalidState(StateError::AlreadyPaused),
            )
            &&& resumed.result is Ok && !resumed.state.manually_paused
            &&& twice.result == Err::<Seq<ActionModel>, Error>(
                Error::InvalidState(StateError::NotPaused),
            )
        }),
{
    let paused = m.handled(s, Event::ManualPause { now_ms: from });
    prepared_is_settled(s, cfg, from);
    on_pause(m, s, cfg, from);
    assert(paused.state.manually_paused && paused.state.paused && m.effective(paused.state)
        == Some(cfg)) by {
        reveal(StateModel::refreshed);
    }
    prepared_is_settled(paused.state, cfg, to);
    on_pause(m, paused.state, cfg, to);
    on_resume(m, paused.state, cfg, to);
    let ready = prepared(paused.state, cfg, to).state;
    active_settles(StateModel { manually_paused: false, ..ready }, cfg, to, false);
    let resumed = m.handled(paused.state, Event::ManualResume { now_ms: to });
    prepared_is_settled(resumed.state, cfg, to);
    on_resume(m, resumed.state, cfg, to);
}

/// An unlock without a lock is refused, and the session stays unlocked.
pub proof fn unlock_needs_a_lock(m: ManagerModel, s: StateModel, now_ms: u64)
    requires
        m.effective(s) is Some,
        fits(m),
        !s.is_locked,
    ensures
        ({
            let h = m.handled(s, Event::SessionUnlocked { now_ms });
            &&& h.result == Err::<Seq<ActionModel>, _>(Error::InvalidState(StateError::NotLocked))
            &&& !h.state.is_locked
            &&& h.manager == m
        }),
{
    reveal(ManagerModel::reacted);
    prepared_is_settled(s, m.effective(s)->0, now_ms);
}

// ---------------------------------------------------------------------------------------------
// Activity
// ---------------------------------------------------------------------------------------------

/// Activity begins the idle cycle anew: the first step that has to wait is next, its time counts
/// from now with the debounce time added, and nothing has fired. In a locked session that is the
/// part of the plan behind the lock step.
pub proof fn activity_restarts_the_cycle(
    m: ManagerModel,
    s: StateModel,
    cfg: ConfigModel,
    kind: ActivityKind,
    now_ms: u64,
)
    requires
        m.effective(s) == Some(cfg),
        fits(m),
    ensures
        ({
            let h = m.handled(s, Event::UserActivity { kind, now_ms });
            &&& h.result is Ok
            &&& h.state.step_base_ms == now_ms
            &&& h.state.debounce_pending
            &&& !h.state.sent_pre_action_notify
            &&& h.state.step_index == (if s.is_locked {
                after_lock(cfg.plan)
            } else {
                past_startup(cfg.plan, 0)
            })
            &&& !s.is_locked ==> h.state.fired_steps == flags(cfg.plan.len())
                && h.state.last_fired_idx is None
        }),
{
    prepared_is_settled(s, cfg, now_ms);
    on_activity(m, s, cfg, kind, now_ms);
    active_restarts(prepared(s, cfg, now_ms).state, cfg, now_ms);
}

proof fn active_restarts(s: StateModel, cfg: ConfigModel, now: u64)
    requires
        s.fired_steps.len() == cfg.plan.len(),
        cfg.plan.len() <= usize::MAX,
    ensures
        ({
            let r = active(s, cfg, now, false).state;
            &&& r.step_base_ms == now
            &&& r.debounce_pending
            &&& !r.sent_pre_action_notify
            &&& r.step_index == (if s.is_locked {
                after_lock(cfg.plan)
            } else {
                past_startup(cfg.plan, 0)
            })
            &&& !s.is_locked ==> r.fired_steps == flags(cfg.plan.len()) && r.last_fired_idx is None
        }),
{
    reveal(active);
    reveal(StateModel::refreshed);
    after_lock_is_in_plan(cfg.plan);
    past_startup_is_front(cfg.plan, 0);
}

/// Media in a browser counts as activity: it keeps the manager waiting for idle and touches no
/// inhibitor.
pub proof fn browser_activity_is_activity(
    m: ManagerModel,
    s: StateModel,
    kind: ActivityKind,
    now_ms: u64,
)
    requires
        m.effective(s) is Some,
        fits(m),
    ensures
        m.handled(s, Event::BrowserActivity { now_ms }) == m.handled(
            s,
            Event::UserActivity { kind, now_ms },
        ),
        m.handled(s, Event::BrowserActivity { now_ms }).state.debounce_pending,
        m.handled(s, Event::BrowserActivity { now_ms }).state.app_inhibitor_count
            == s.app_inhibitor_count,
        m.handled(s, Event::BrowserActivity { now_ms }).state.media_inhibitor_count
            == s.media_inhibitor_count,
{
    let cfg = m.effective(s)->0;
    activity_restarts_the_cycle(m, s, cfg, kind, now_ms);
    on_activity(m, s, cfg, kind, now_ms);
    prepared_is_settled(s, cfg, now_ms);
    active_settles(prepared(s, cfg, now_ms).state, cfg, now_ms, false);
}

/// What is resumed is resumed once: activity directly after activity asks for nothing.
pub proof fn activity_resumes_once(
    m: ManagerModel,
    s: StateModel,
    kind: ActivityKind,
    first: u64,
    second: u64,
)
    requires
        m.effective(s) is Some,
        fits(m),
    ensures
        ({
            let a = m.handled(s, Event::UserActivity { kind, now_ms: first });
            let b = a.manager.handled(a.state, Event::UserActivity { kind, now_ms: second });
            b.result == Ok::<Seq<ActionModel>, Error>(Seq::empty())
        }),
{
    let cfg = m.effective(s)->0;
    let ready = prepared(s, cfg, first).state;
    prepared_is_settled(s, cfg, first);
    on_activity(m, s, cfg, kind, first);
    active_settles(ready, cfg, first, false);
    let a = m.handled(s, Event::UserActivity { kind, now_ms: first });
    settled_needs_nothing(a.state, cfg, second);
    on_activity(m, a.state, cfg, kind, second);
    active_wakes_once(ready, cfg, first, second);
}

proof fn active_wakes_once(s: StateModel, cfg: ConfigModel, first: u64, second: u64)
    requires
        cfg.plan.len() <= usize::MAX,
    ensures
        active(active(s, cfg, first, false).state, cfg, second, false).actions == Seq::<
            ActionModel,
        >::empty(),
{
    reveal(active);
    let plan = cfg.plan;
    let woken = resumed_steps(s, plan).state;
    let a = active(s, cfg, first, false).state;
    assert(a.is_locked == s.is_locked && a.resume_due() == woken.resume_due()) by {
        reveal(StateModel::refreshed);
        reveal(StateModel::past_lock);
    }
    if s.is_locked {
        assert((a.last_dpms_fired_idx == s.last_dpms_fired_idx || a.last_dpms_fired_idx is None)
            && (a.last_brightness_fired_idx == s.last_brightness_fired_idx
            || a.last_brightness_fired_idx is None)) by {
            reveal(StateModel::refreshed);
            reveal(StateModel::past_lock);
        }
    }
    assert(resumed_steps(a, plan).actions =~= Seq::empty());
}

/// The index, if there is one.
pub open spec fn index_list(idx: Option<usize>) -> Seq<usize> {
    match idx {
        Some(i) => seq![i],
        None => Seq::empty(),
    }
}

impl StateModel {
    /// The steps that resume: the last of the screen, of the brightness and of the locks that
    /// fired, and the last of all, unless it is one of these.
    pub open spec fn resuming(self) -> Seq<usize> {
        index_list(self.last_dpms_fired_idx) + index_list(self.last_brightness_fired_idx)
            + index_list(self.last_lock_fired_idx) + index_list(self.last_ungrouped())
    }

    /// No step is the last of two groups.
    pub open spec fn groups_differ(self) -> bool {
        &&& self.last_dpms_fired_idx is Some ==> self.last_dpms_fired_idx
            != self.last_brightness_fired_idx && self.last_dpms_fired_idx
            != self.last_lock_fired_idx
        &&& self.last_brightness_fired_idx is Some ==> self.last_brightness_fired_idx
            != self.last_lock_fired_idx
    }
}

/// The resume commands of steps, in their order; a step without one has no part in it.
pub open spec fn resume_commands(plan: Seq<StepModel>, steps: Seq<usize>) -> Seq<ActionModel>
    decreases steps.len(),
{
    if steps.len() == 0 {
        Seq::empty()
    } else {
        let before = resume_commands(plan, steps.drop_last());
        let i = steps.last() as int;
        if i < plan.len() && plan[i].resume_command is Some {
            before.push(ActionModel::RunResumeCommand { command: plan[i].resume_command->0 })
        } else {
            before
        }
    }
}

pub proof fn commands_of_sum(plan: Seq<StepModel>, a: Seq<usize>, idx: Option<usize>)
    ensures
        resume_commands(plan, a + index_list(idx)) == resume_commands(plan, a) + resume_of(
            plan,
            idx,
        ),
{
    let both = a + index_list(idx);
    match idx {
        Some(i) => {
            assert(both.drop_last() =~= a);
            assert(both.last() == i);
            assert(resume_commands(plan, both) =~= resume_commands(plan, a) + resume_of(plan, idx));
        },
        None => {
            assert(both =~= a);
            assert(resume_commands(plan, a) + Seq::<ActionModel>::empty() =~= resume_commands(
                plan,
                a,
            ));
        },
    }
}

/// In a session that is not locked, what is due to resume does so at once: the commands are those
/// of the last screen step, the last brightness step, the last lock step and the last step of all,
/// in this order, none of them twice, and nothing else. Then nothing is due, so that asking again
/// gives nothing and changes nothing.
pub proof fn resume_runs_each_step_once(s: StateModel, plan: Seq<StepModel>)
    requires
        s.resume_due(),
        !s.is_locked,
        s.groups_differ(),
    ensures
        resumed_steps(s, plan).actions == resume_commands(plan, s.resuming()),
        s.resuming().no_duplicates(),
        forall|k: usize| #[trigger]
            s.resuming().contains(k) <==> s.last_dpms_fired_idx == Some(k)
                || s.last_brightness_fired_idx == Some(k) || s.last_lock_fired_idx == Some(k)
                || s.last_fired_idx == Some(k),
        !resumed_steps(s, plan).state.resume_due(),
        resumed_steps(resumed_steps(s, plan).state, plan) == (Stepped {
            state: resumed_steps(s, plan).state,
            actions: Seq::empty(),
        }),
{
    let a = index_list(s.last_dpms_fired_idx);
    let b = index_list(s.last_brightness_fired_idx);
    let c = index_list(s.last_lock_fired_idx);
    let none = Seq::<usize>::empty();
    commands_of_sum(plan, none, s.last_dpms_fired_idx);
    assert(none + a =~= a);
    commands_of_sum(plan, a, s.last_brightness_fired_idx);
    commands_of_sum(plan, a + b, s.last_lock_fired_idx);
    commands_of_sum(plan, a + b + c, s.last_ungrouped());
    assert(resumed_steps(s, plan).actions =~= resume_commands(plan, s.resuming()));
    let all = s.resuming();
    let d = index_list(s.last_ungrouped());
    assert forall|k: usize| #[trigger] all.contains(k) <==> s.last_dpms_fired_idx == Some(k)
        || s.last_brightness_fired_idx == Some(k) || s.last_lock_fired_idx == Some(k)
        || s.last_fired_idx == Some(k) by {
        if s.last_dpms_fired_idx == Some(k) {
            assert(all[0] == k);
        } else if s.last_brightness_fired_idx == Some(k) {
            assert(all[a.len() as int] == k);
        } else if s.last_lock_fired_idx == Some(k) {
            assert(all[(a + b).len() as int] == k);
        } else if s.last_fired_idx == Some(k) {
            assert(s.last_ungrouped() == Some(k));
            assert(all[(a + b + c).len() as int] == k);
        }
    }
}

// ---------------------------------------------------------------------------------------------
// What an event changes
// ---------------------------------------------------------------------------------------------

/// Only their own events change the inhibitor counts, apart from a new profile, which begins with
/// none; only the lock events change the lock, only a profile the profile, only the power source
/// the plan source, and only pauses and resumes the manual pause.
#[verifier::rlimit(40)]
pub proof fn events_change_only_their_own(m: ManagerModel, s: StateModel, e: Event)
    requires
        m.effective(s) is Some,
        fits(m),
    ensures
        ({
            let t = m.handled(s, e).state;
            &&& !(e is AppInhibitorCount || e is ProfileChanged) ==> t.app_inhibitor_count
                == s.app_inhibitor_count
            &&& !(e is MediaInhibitorCount || e is ProfileChanged) ==> t.media_inhibitor_count
                == s.media_inhibitor_count
            &&& !(e is SessionLocked || e is SessionUnlocked) ==> t.is_locked == s.is_locked
            &&& !(e is ProfileChanged) ==> t.active_profile == s.active_profile
            &&& !(e is PowerChanged) ==> t.plan_source == s.plan_source
            &&& !(e is ManualPause || e is ManualResume || e is PauseExpired)
                ==> t.manually_paused == s.manually_paused
            &&& !(e is PrepareForSleep || e is ResumedFromSleep || e is LidClosed || e is LidOpened)
                ==> t.system_paused == s.system_paused
        }),
{
    reveal(ManagerModel::reacted);
    let cfg = m.effective(s)->0;
    let now = e.at();
    let r = prepared(s, cfg, now).state;
    prepared_is_settled(s, cfg, now);
    match e {
        Event::Tick { .. } => {
            past_lock_keeps_settled(r, cfg);
            advanced_settles(r.past_lock(cfg.plan), cfg, now);
        },
        Event::UserActivity { .. } | Event::BrowserActivity { .. } => {
            active_settles(r, cfg, now, false);
        },
        Event::ManualPause { .. } | Event::PrepareForSleep { .. } | Event::LidClosed { .. }
        | Event::AppInhibitorCount { .. } | Event::MediaInhibitorCount { .. } => {
            reveal(StateModel::refreshed);
        },
        Event::ManualResume { .. } => {
            active_settles(StateModel { manually_paused: false, ..r }, cfg, now, false);
        },
        Event::PauseExpired { .. } => {
            active_settles(StateModel { manually_paused: false, ..r }, cfg, now, true);
        },
        Event::ManualTrigger { name, .. } => {
            triggered_settles(r, cfg, name@, now);
        },
        Event::SessionLocked { .. } => {
            reveal(StateModel::past_lock);
        },
        Event::SessionUnlocked { .. } => {
            let unlocked = StateModel {
                is_locked: false,
                resume_deferred_until_unlock: false,
                ..r
            };
            active_settles(unlocked, cfg, now, false);
            active_settles(unlocked.armed(), cfg, now, false);
        },
        Event::ResumedFromSleep { .. } | Event::LidOpened { .. } => {
            active_settles(StateModel { system_paused: false, ..r }, cfg, now, false);
        },
        Event::ProfileChanged { name, .. } => {
            let given = trimmed(name@);
            let chosen = StateModel {
                active_profile: profile_of(given),
                app_inhibitor_count: 0,
                media_inhibitor_count: 0,
                ..r
            };
            assert(chosen.refreshed(now).is_locked == s.is_locked && chosen.refreshed(
                now,
            ).plan_source == s.plan_source && chosen.refreshed(now).manually_paused
                == s.manually_paused && chosen.refreshed(now).system_paused == s.system_paused) by {
                reveal(StateModel::refreshed);
            }
            switch_keeps(m, chosen.refreshed(now), prepared(s, cfg, now).actions, now);
        },
        Event::PowerChanged { state, .. } => {
            switch_keeps(
                m,
                StateModel { power_state: Some(state), plan_source: source_of(state), ..r },
                prepared(s, cfg, now).actions,
                now,
            );
        },
        Event::MediaStateChanged { .. } => {
            active_settles(r, cfg, now, false);
            reveal(StateModel::refreshed);
        },
        _ => {},
    }
}

/// A switch of configurations leaves the rest of the setting as it is.
pub proof fn switch_keeps(m: ManagerModel, s: StateModel, done: Seq<ActionModel>, now: u64)
    requires
        fits(m),
    ensures
        ({
            let t = m.switched(s, done, now).state;
            &&& t.app_inhibitor_count == s.app_inhibitor_count
            &&& t.media_inhibitor_count == s.media_inhibitor_count
            &&& t.is_locked == s.is_locked
            &&& t.active_profile == s.active_profile
            &&& t.plan_source == s.plan_source
            &&& t.manually_paused == s.manually_paused
            &&& t.system_paused == s.system_paused
        }),
{
    reveal(ManagerModel::switched);
    let reset = StateModel { one_shots_fired: Set::empty(), ..s.new_cycle(now) };
    if let Some(cfg) = m.effective(reset) {
        let lined_up = StateModel {
            debounce_seconds: cfg.debounce_seconds,
            ..reset.sized(cfg.plan.len())
        }.refreshed(now).synced(cfg.plan).past_lock(cfg.plan);
        assert(lined_up.fired_steps.len() == cfg.plan.len() && lined_up.app_inhibitor_count
            == s.app_inhibitor_count && lined_up.media_inhibitor_count == s.media_inhibitor_count
            && lined_up.is_locked == s.is_locked && lined_up.active_profile == s.active_profile
            && lined_up.plan_source == s.plan_source && lined_up.manually_paused
            == s.manually_paused && lined_up.system_paused == s.system_paused) by {
            reveal(StateModel::refreshed);
            reveal(StateModel::past_lock);
        }
        startup_keeps_setting(lined_up, cfg, 0, now);
        reveal(entered);
    }
}

// ---------------------------------------------------------------------------------------------
// The lock step
// ---------------------------------------------------------------------------------------------

/// The locker is not among the actions.
pub open spec fn no_locker(actions: Seq<ActionModel>) -> bool {
    forall|i: int| 0 <= i < actions.len() ==> !((#[trigger] actions[i]) is RunLockScreen)
}

proof fn no_locker_in_both(a: Seq<ActionModel>, b: Seq<ActionModel>)
    requires
        no_locker(a),
        no_locker(b),
    ensures
        no_locker(a + b),
{
    assert forall|i: int| 0 <= i < (a + b).len() implies !((#[trigger] (a + b)[i])
        is RunLockScreen) by {
        if i < a.len() {
            assert((a + b)[i] == a[i]);
        } else {
            assert((a + b)[i] == b[i - a.len()]);
        }
    }
}

proof fn startup_starts_no_locker(s: StateModel, cfg: ConfigModel, i: int, now: u64)
    requires
        0 <= i <= cfg.plan.len(),
    ensures
        no_locker(startup_from(s, cfg, i, now).actions),
    decreases cfg.plan.len() - i,
{
    if i < cfg.plan.len() {
        let step = cfg.plan[i];
        if !step.enabled() {
            startup_starts_no_locker(s, cfg, i + 1, now);
        } else if step.is_startup_instant() {
            if s.one_shot_fired(step) {
                startup_starts_no_locker(s, cfg, i + 1, now);
            } else {
                let actions = step.actions(s.is_locked, cfg.pre_suspend_command);
                let fired = if actions.len() > 0 {
                    StateModel { last_action_ms: now, ..s.step_fired(step, i) }.with_notify_sent(
                        false,
                    )
                } else {
                    s
                };
                startup_starts_no_locker(fired.with_one_shot(step), cfg, i + 1, now);
                no_locker_in_both(
                    actions,
                    startup_from(fired.with_one_shot(step), cfg, i + 1, now).actions,
                );
            }
        }
    }
}

proof fn instants_start_no_locker(s: StateModel, cfg: ConfigModel, i: int, now: u64)
    requires
        0 <= i,
        s.is_locked,
    ensures
        no_locker(instants_from(s, cfg, i, now).0.actions),
        instants_from(s, cfg, i, now).0.state.is_locked,
    decreases cfg.plan.len() - i,
{
    if i < cfg.plan.len() {
        let step = cfg.plan[i];
        if !step.enabled() {
            instants_start_no_locker(s, cfg, i + 1, now);
        } else if step.is_lock() {
            instants_start_no_locker(
                StateModel { step_index: (i + 1) as usize, ..s }.with_notify_sent(false),
                cfg,
                i + 1,
                now,
            );
        } else if step.is_instant() {
            if s.one_shot_fired(step) {
                instants_start_no_locker(
                    StateModel { step_index: (i + 1) as usize, ..s },
                    cfg,
                    i + 1,
                    now,
                );
            } else {
                let fired = instant_fired(s, cfg, i, now);
                instants_start_no_locker(fired.state, cfg, i + 1, now);
                no_locker_in_both(
                    fired.actions,
                    instants_from(fired.state, cfg, i + 1, now).0.actions,
                );
            }
        }
    }
}

proof fn all_starts_no_locker(s: StateModel, cfg: ConfigModel, i: int)
    requires
        0 <= i <= cfg.plan.len(),
        s.is_locked,
    ensures
        no_locker(all_from(s, cfg, i).actions),
    decreases cfg.plan.len() - i,
{
    if i < cfg.plan.len() {
        let step = cfg.plan[i];
        if in_all(s, step) {
            let actions = step.actions(s.is_locked, cfg.pre_suspend_command);
            let fired = s.fired_if_any(actions, step, i);
            all_starts_no_locker(fired, cfg, i + 1);
            no_locker_in_both(actions, all_from(fired, cfg, i + 1).actions);
        } else {
            all_starts_no_locker(s, cfg, i + 1);
        }
    }
}

proof fn active_starts_no_locker(s: StateModel, cfg: ConfigModel, now: u64, announce: bool)
    ensures
        no_locker(active(s, cfg, now, announce).actions),
{
    reveal(active);
    assert(no_locker(resumed_steps(s, cfg.plan).actions));
}

/// A session that is locked is not locked again: no event starts the locker then.
#[verifier::rlimit(40)]
pub proof fn locked_session_starts_no_locker(m: ManagerModel, s: StateModel, e: Event)
    requires
        m.effective(s) is Some,
        fits(m),
        s.is_locked,
    ensures
        m.handled(s, e).result matches Ok(actions) ==> no_locker(actions),
{
    reveal(ManagerModel::reacted);
    let cfg = m.effective(s)->0;
    let now = e.at();
    let ready = prepared(s, cfg, now);
    let r = ready.state;
    prepared_is_settled(s, cfg, now);
    assert(no_locker(ready.actions)) by {
        reveal(prepared);
        let lined_up = StateModel {
            debounce_seconds: cfg.debounce_seconds,
            ..s.sized(cfg.plan.len())
        }.refreshed(now);
        startup_starts_no_locker(lined_up, cfg, 0, now);
    }
    match e {
        Event::Tick { .. } => {
            let t = r.past_lock(cfg.plan);
            past_lock_keeps_settled(r, cfg);
            reveal(advanced);
            instants_start_no_locker(t, cfg, t.step_index as int, now);
            let (front, at) = instants_from(t, cfg, t.step_index as int, now);
            if at < cfg.plan.len() {
                let last = waiting_step(front.state, cfg, at, now);
                assert(no_locker(last.actions));
                no_locker_in_both(front.actions, last.actions);
            }
            no_locker_in_both(ready.actions, advanced(t, cfg, now).actions);
        },
        Event::UserActivity { .. } | Event::BrowserActivity { .. } => {
            active_starts_no_locker(r, cfg, now, false);
            no_locker_in_both(ready.actions, active(r, cfg, now, false).actions);
        },
        Event::ManualResume { .. } => {
            let t = StateModel { manually_paused: false, ..r };
            active_starts_no_locker(t, cfg, now, false);
            no_locker_in_both(ready.actions, active(t, cfg, now, false).actions);
        },
        Event::PauseExpired { message, .. } => {
            let t = StateModel { manually_paused: false, ..r };
            let woken = active(t, cfg, now, true).actions;
            active_starts_no_locker(t, cfg, now, true);
            no_locker_in_both(ready.actions, woken);
            no_locker_in_both(
                ready.actions,
                woken.push(ActionModel::Notify { message: message@ }),
            );
        },
        Event::ManualTrigger { name, .. } => {
            reveal(triggered);
            all_starts_no_locker(r, cfg, 0);
            find_trigger_is_in_plan(cfg.plan, name@, 0);
            assert(no_locker(triggered(r, cfg, name@, now).actions));
            no_locker_in_both(ready.actions, triggered(r, cfg, name@, now).actions);
        },
        Event::SessionUnlocked { .. } => {
            let unlocked = StateModel {
                is_locked: false,
                resume_deferred_until_unlock: false,
                ..r
            };
            active_starts_no_locker(unlocked, cfg, now, false);
            active_starts_no_locker(unlocked.armed(), cfg, now, false);
            no_locker_in_both(ready.actions, active(unlocked, cfg, now, false).actions);
            no_locker_in_both(ready.actions, active(unlocked.armed(), cfg, now, false).actions);
        },
        Event::ResumedFromSleep { .. } | Event::LidOpened { .. } => {
            let t = StateModel { system_paused: false, ..r };
            active_starts_no_locker(t, cfg, now, false);
            no_locker_in_both(ready.actions, active(t, cfg, now, false).actions);
        },
        Event::ProfileChanged { name, .. } => {
            let t = StateModel {
                active_profile: profile_of(trimmed(name@)),
                app_inhibitor_count: 0,
                media_inhibitor_count: 0,
                ..r
            }.refreshed(now);
            switch_starts_no_locker(m, t, ready.actions, now);
        },
        Event::PowerChanged { state, .. } => {
            let t = StateModel { power_state: Some(state), plan_source: source_of(state), ..r };
            switch_starts_no_locker(m, t, ready.actions, now);
        },
        Event::MediaStateChanged { .. } => {
            active_starts_no_locker(r, cfg, now, false);
            no_locker_in_both(ready.actions, active(r, cfg, now, false).actions);
        },
        _ => {},
    }
}

proof fn switch_starts_no_locker(m: ManagerModel, s: StateModel, done: Seq<ActionModel>, now: u64)
    requires
        no_locker(done),
    ensures
        m.switched(s, done, now).result matches Ok(actions) ==> no_locker(actions),
{
    reveal(ManagerModel::switched);
    let reset = StateModel { one_shots_fired: Set::empty(), ..s.new_cycle(now) };
    if let Some(cfg) = m.effective(reset) {
        let lined_up = StateModel {
            debounce_seconds: cfg.debounce_seconds,
            ..reset.sized(cfg.plan.len())
        }.refreshed(now).synced(cfg.plan).past_lock(cfg.plan);
        startup_starts_no_locker(lined_up, cfg, 0, now);
        reveal(entered);
        no_locker_in_both(done, entered(reset, cfg, now).actions);
    }
}

} // verus!
