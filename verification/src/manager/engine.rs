//! Handling an event.

use vstd::prelude::*;

use super::behaviour::{resume_commands, resume_runs_each_step_once};
use super::machine::{
    active, advanced, after_lock, all_from, awake, entered, expired, find_trigger, heard,
    instant_fired, instants_from, jumped, next_enabled, next_lock, normalized, past_startup,
    prepared, profile_of, resume_of, resumed_steps, startup_from, triggered, unlocked,
    waiting_step,
};
use super::{Manager, ManagerModel};
use crate::action::{action_views, append_actions, push_action, Action, ActionModel};
use crate::config::types::{plan_view, Config, PlanSource, PlanStep, PlanStepKind};
use crate::error::{ConfigError, Error, StateError};
use crate::events::{Event, MediaState, PowerState};
use crate::state::{State, StateModel};
use crate::text::strings::{
    cat, eq_ignore_case, opt_view, remove_blanks, replace_char, str_eq, to_ascii_lower, trim,
    trimmed,
};
use crate::time::{add_ms, seconds_to_ms, since_ms};

verus! {

// ---------------------------------------------------------------------------------------------
// Steps of the plan
// ---------------------------------------------------------------------------------------------

/// A step's name as it is compared.
pub fn normalize_trigger_name(s: &str) -> (r: String)
    ensures
        r@ == normalized(s@),
{
    let t = trim(s);
    let lower = to_ascii_lower(t.as_str());
    let dense = remove_blanks(lower.as_str());
    replace_char(dense.as_str(), '_', '-')
}

fn is_lock_step(step: &PlanStep) -> (r: bool)
    ensures
        r == step@.is_lock(),
{
    match step.kind {
        PlanStepKind::LockScreen => true,
        _ => false,
    }
}

fn is_brightness_group(step: &PlanStep) -> (r: bool)
    ensures
        r == step@.is_brightness(),
{
    match step.kind {
        PlanStepKind::Brightness => true,
        _ => false,
    }
}

fn is_dpms_group(step: &PlanStep) -> (r: bool)
    ensures
        r == step@.is_dpms(),
{
    match &step.kind {
        PlanStepKind::Dpms => true,
        PlanStepKind::Custom(name) => {
            let n = normalize_trigger_name(name.as_str());
            str_eq(n.as_str(), "early-dpms")
        },
        _ => false,
    }
}

fn is_startup_instant(step: &PlanStep) -> (r: bool)
    ensures
        r == step@.is_startup_instant(),
{
    match step.kind {
        PlanStepKind::Startup => step.is_instant(),
        _ => false,
    }
}

fn trigger_matches_step(name: &str, step: &PlanStep) -> (r: bool)
    ensures
        r == step@.triggered_by(name@),
{
    let given = normalize_trigger_name(name);
    let n = if str_eq(given.as_str(), "lockscreen") || str_eq(given.as_str(), "lock") {
        String::from_str("lock-screen")
    } else {
        given
    };
    match &step.kind {
        PlanStepKind::Startup => str_eq(n.as_str(), "startup"),
        PlanStepKind::Dpms => str_eq(n.as_str(), "dpms"),
        PlanStepKind::Brightness => str_eq(n.as_str(), "brightness"),
        PlanStepKind::LockScreen => str_eq(n.as_str(), "lock-screen"),
        PlanStepKind::Suspend => str_eq(n.as_str(), "suspend"),
        PlanStepKind::Custom(k) => {
            let own = normalize_trigger_name(k.as_str());
            let colon = cat("custom:", own.as_str());
            let dash = cat("custom-", own.as_str());
            str_eq(n.as_str(), own.as_str()) || str_eq(n.as_str(), colon.as_str()) || str_eq(
                n.as_str(),
                dash.as_str(),
            )
        },
    }
}

fn find_trigger_step(plan: &Vec<PlanStep>, name: &str) -> (r: usize)
    ensures
        r == find_trigger(plan_view(plan@), name@, 0),
        r <= plan@.len(),
{
    let ghost p = plan_view(plan@);
    let mut i: usize = 0;
    while i < plan.len() && !(plan[i].enabled() && trigger_matches_step(name, &plan[i]))
        invariant
            i <= plan@.len(),
            p == plan_view(plan@),
            find_trigger(p, name@, 0) == find_trigger(p, name@, i as int),
        decreases plan@.len() - i,
    {
        assert(p[i as int] == plan@[i as int]@);
        i += 1;
    }
    proof {
        if i < plan@.len() {
            assert(p[i as int] == plan@[i as int]@);
        }
    }
    i
}

/// The first enabled step from `from` on, or the end of the plan.
pub fn skip_disabled(plan: &Vec<PlanStep>, from: usize) -> (r: usize)
    ensures
        r == next_enabled(plan_view(plan@), from as int),
        r >= from,
        from <= plan@.len() ==> r <= plan@.len(),
        r < plan@.len() ==> plan@[r as int]@.enabled(),
{
    let ghost p = plan_view(plan@);
    let mut i: usize = from;
    while i < plan.len() && !plan[i].enabled()
        invariant
            from <= i,
            from <= plan@.len() ==> i <= plan@.len(),
            p == plan_view(plan@),
            next_enabled(p, from as int) == next_enabled(p, i as int),
        decreases plan@.len() - i,
    {
        assert(p[i as int] == plan@[i as int]@);
        i += 1;
    }
    proof {
        if i < plan@.len() {
            assert(p[i as int] == plan@[i as int]@);
        }
    }
    i
}

fn first_enabled_step_after_lock(plan: &Vec<PlanStep>) -> (r: usize)
    ensures
        r == after_lock(plan_view(plan@)),
        r <= plan@.len(),
{
    let ghost p = plan_view(plan@);
    let mut i: usize = 0;
    while i < plan.len() && !(plan[i].enabled() && is_lock_step(&plan[i]))
        invariant
            i <= plan@.len(),
            p == plan_view(plan@),
            next_lock(p, 0) == next_lock(p, i as int),
        decreases plan@.len() - i,
    {
        assert(p[i as int] == plan@[i as int]@);
        i += 1;
    }
    if i < plan.len() {
        assert(p[i as int] == plan@[i as int]@);
        skip_disabled(plan, i + 1)
    } else {
        plan.len()
    }
}

fn actions_for_plan_step(locked: bool, step: &PlanStep, pre_suspend: &Option<String>) -> (r: Vec<
    Action,
>)
    ensures
        action_views(r@) == step@.actions(locked, opt_view(*pre_suspend)),
{
    let mut out: Vec<Action> = Vec::new();
    assert(action_views(out@) =~= Seq::<ActionModel>::empty());
    match step.kind {
        PlanStepKind::LockScreen => {
            if !locked {
                if let Some(c) = &step.command {
                    push_action(&mut out, Action::RunLockScreen { command: c.clone() });
                }
            }
        },
        PlanStepKind::Suspend => {
            if let Some(c) = pre_suspend {
                push_action(&mut out, Action::RunCommand { command: c.clone() });
            }
            match &step.command {
                Some(c) => {
                    push_action(&mut out, Action::RunCommand { command: c.clone() });
                },
                None => {
                    push_action(&mut out, Action::Suspend);
                },
            }
        },
        _ => {
            if let Some(c) = &step.command {
                push_action(&mut out, Action::RunCommand { command: c.clone() });
            }
        },
    }
    assert(action_views(out@) =~= step@.actions(locked, opt_view(*pre_suspend)));
    out
}

// ---------------------------------------------------------------------------------------------
// Pieces of a step of the machine
// ---------------------------------------------------------------------------------------------

fn refresh_paused(state: &mut State, now_ms: u64)
    ensures
        final(state)@ == old(state)@.refreshed(now_ms),
{
    proof {
        reveal(StateModel::refreshed);
    }
    let new_paused = state.manually_paused() || state.inhibitors_active() || state.system_paused();
    let was_paused = state.paused();
    if !was_paused && new_paused {
        state.set_pause_started_ms(Some(now_ms));
    } else if was_paused && !new_paused {
        if let Some(start) = state.take_pause_started_ms() {
            let dt = since_ms(now_ms, start);
            state.set_step_base_ms(add_ms(state.step_base_ms(), dt));
            if state.pre_action_notify_sent() {
                state.set_pre_action_notify_ms(add_ms(state.pre_action_notify_ms(), dt));
            }
        }
    }
    state.set_paused(new_paused);
}

fn mark_fired(state: &mut State, step: &PlanStep, idx: usize)
    requires
        idx < usize::MAX,
    ensures
        final(state)@ == old(state)@.step_fired(step@, idx as int),
{
    state.mark_step_fired(
        idx,
        is_dpms_group(step),
        is_brightness_group(step),
        is_lock_step(step),
        step.resume_command.is_some(),
    );
}

fn maybe_fire_startup_instants(state: &mut State, cfg: &Config, now_ms: u64, out: &mut Vec<Action>)
    ensures
        ({
            let r = startup_from(old(state)@, cfg@, 0, now_ms);
            final(state)@ == r.state && action_views(final(out)@) == action_views(old(out)@)
                + r.actions
        }),
{
    let ghost whole = startup_from(state@, cfg@, 0, now_ms);
    let ghost given = action_views(out@);
    let ghost plan = plan_view(cfg.plan@);
    let mut idx: usize = 0;
    assert(given + whole.actions =~= action_views(out@) + startup_from(state@, cfg@, 0, now_ms).actions);
    while idx < cfg.plan.len()
        invariant
            idx <= cfg.plan@.len(),
            plan == plan_view(cfg.plan@),
            whole.state == startup_from(state@, cfg@, idx as int, now_ms).state,
            given + whole.actions == action_views(out@) + startup_from(
                state@,
                cfg@,
                idx as int,
                now_ms,
            ).actions,
        ensures
            state@ == whole.state,
            action_views(out@) == given + whole.actions,
        decreases cfg.plan@.len() - idx,
    {
        let step = &cfg.plan[idx];
        assert(plan[idx as int] == step@);
        assert(cfg@.plan == plan);
        if step.enabled() {
            if !is_startup_instant(step) {
                assert(action_views(out@) =~= given + whole.actions);
                break ;
            }
            if !state.one_shot_has_fired_step(step) {
                let ghost s = state@;
                let mut emitted = actions_for_plan_step(
                    state.is_locked(),
                    step,
                    &cfg.pre_suspend_command,
                );
                let ghost acts = action_views(emitted@);
                if emitted.len() > 0 {
                    mark_fired(state, step, idx);
                    state.mark_action_fired(now_ms);
                    state.set_pre_action_notify_sent(false);
                }
                assert(acts.len() == emitted@.len());
                let ghost sofar = action_views(out@);
                append_actions(out, &mut emitted);
                state.mark_one_shot_fired_step(step);
                assert(startup_from(s, cfg@, idx as int, now_ms).actions =~= acts + startup_from(
                    state@,
                    cfg@,
                    idx + 1,
                    now_ms,
                ).actions);
                assert(sofar + (acts + startup_from(state@, cfg@, idx + 1, now_ms).actions) =~= (
                sofar + acts) + startup_from(state@, cfg@, idx + 1, now_ms).actions);
            }
        }
        idx += 1;
    }
}

fn sync_step_index_after_startup_instants(state: &mut State, plan: &Vec<PlanStep>)
    ensures
        final(state)@ == old(state)@.synced(plan_view(plan@)),
{
    if state.step_index() != 0 {
        return ;
    }
    let ghost p = plan_view(plan@);
    let mut idx: usize = 0;
    while idx < plan.len() && (!plan[idx].enabled() || is_startup_instant(&plan[idx]))
        invariant
            idx <= plan@.len(),
            p == plan_view(plan@),
            past_startup(p, 0) == past_startup(p, idx as int),
        decreases plan@.len() - idx,
    {
        assert(p[idx as int] == plan@[idx as int]@);
        idx += 1;
    }
    proof {
        if idx < plan@.len() {
            assert(p[idx as int] == plan@[idx as int]@);
        }
    }
    state.set_step_index(idx);
}

fn advance_past_lock_if_needed(state: &mut State, plan: &Vec<PlanStep>)
    ensures
        final(state)@ == old(state)@.past_lock(plan_view(plan@)),
{
    proof {
        reveal(StateModel::past_lock);
    }
    if !state.is_locked() {
        return ;
    }
    let idx = skip_disabled(plan, state.step_index());
    if idx < plan.len() && is_lock_step(&plan[idx]) {
        assert(plan_view(plan@)[idx as int] == plan@[idx as int]@);
        state.set_step_index(skip_disabled(plan, idx + 1));
        state.set_pre_action_notify_sent(false);
    } else {
        proof {
            if idx < plan@.len() {
                assert(plan_view(plan@)[idx as int] == plan@[idx as int]@);
            }
        }
    }
}

fn fire_instant(state: &mut State, cfg: &Config, idx: usize, now_ms: u64, out: &mut Vec<Action>)
    requires
        idx < cfg.plan.len(),
    ensures
        ({
            let r = instant_fired(old(state)@, cfg@, idx as int, now_ms);
            final(state)@ == r.state && action_views(final(out)@) == action_views(old(out)@)
                + r.actions
        }),
{
    let step = &cfg.plan[idx];
    assert(cfg@.plan[idx as int] == step@);
    let mut emitted = actions_for_plan_step(state.is_locked(), step, &cfg.pre_suspend_command);
    assert(action_views(emitted@).len() == emitted@.len());
    if emitted.len() > 0 {
        mark_fired(state, step, idx);
    }
    append_actions(out, &mut emitted);
    state.mark_one_shot_fired_step(step);
    state.set_step_index(idx + 1);
    state.set_step_base_ms(now_ms);
    state.mark_action_fired(now_ms);
    state.set_pre_action_notify_sent(false);
}

/// Fires what needs no waiting, and gives the position of the first step that has to wait.
fn fire_instants(state: &mut State, cfg: &Config, now_ms: u64, out: &mut Vec<Action>) -> (at: usize)
    ensures
        ({
            let (r, i) = instants_from(old(state)@, cfg@, old(state)@.step_index as int, now_ms);
            final(state)@ == r.state && at == i && at <= cfg.plan@.len() && action_views(
                final(out)@,
            ) == action_views(old(out)@) + r.actions
        }),
{
    let mut idx: usize = state.step_index();
    let ghost whole = instants_from(state@, cfg@, idx as int, now_ms);
    let ghost given = action_views(out@);
    let ghost plan = plan_view(cfg.plan@);
    while idx < cfg.plan.len()
        invariant
            plan == plan_view(cfg.plan@),
            whole == instants_from(old(state)@, cfg@, old(state)@.step_index as int, now_ms),
            given == action_views(old(out)@),
            whole.0.state == instants_from(state@, cfg@, idx as int, now_ms).0.state,
            whole.1 == instants_from(state@, cfg@, idx as int, now_ms).1,
            given + whole.0.actions == action_views(out@) + instants_from(
                state@,
                cfg@,
                idx as int,
                now_ms,
            ).0.actions,
        decreases cfg.plan@.len() - idx,
    {
        let step = &cfg.plan[idx];
        assert(plan[idx as int] == step@);
        assert(cfg@.plan == plan);
        if step.enabled() {
            if is_lock_step(step) && state.is_locked() {
                state.set_step_index(idx + 1);
                state.set_pre_action_notify_sent(false);
            } else if !step.is_instant() {
                assert(action_views(out@) =~= given + whole.0.actions);
                return idx;
            } else if state.one_shot_has_fired_step(step) {
                state.set_step_index(idx + 1);
            } else {
                let ghost s = state@;
                let ghost sofar = action_views(out@);
                fire_instant(state, cfg, idx, now_ms, out);
                let ghost acts = instant_fired(s, cfg@, idx as int, now_ms).actions;
                let ghost rest = instants_from(state@, cfg@, idx + 1, now_ms);
                assert(sofar + (acts + rest.0.actions) =~= (sofar + acts) + rest.0.actions);
            }
        }
        idx += 1;
    }
    state.set_step_index(cfg.plan.len());
    assert(action_views(out@) =~= given + whole.0.actions);
    cfg.plan.len()
}

fn run_waiting_step(state: &mut State, cfg: &Config, idx: usize, now_ms: u64, out: &mut Vec<Action>)
    requires
        idx < cfg.plan.len(),
    ensures
        ({
            let r = waiting_step(old(state)@, cfg@, idx as int, now_ms);
            final(state)@ == r.state && action_views(final(out)@) == action_views(old(out)@)
                + r.actions
        }),
{
    let step = &cfg.plan[idx];
    assert(cfg@.plan[idx as int] == step@);
    let debounce_ms = if state.debounce_pending() {
        seconds_to_ms(cfg.debounce_seconds)
    } else {
        0
    };
    let timeout_ms = seconds_to_ms(step.timeout_seconds);
    let base_due_ms = add_ms(add_ms(state.step_base_ms(), debounce_ms), timeout_ms);
    let notify_wait_ms = match step.notify_seconds_before {
        Some(n) => seconds_to_ms(n),
        None => 0,
    };
    let has_notification = cfg.notify_before_action && step.notification.is_some();
    let sent = state.pre_action_notify_sent();
    let ready_ms = if has_notification && sent {
        add_ms(state.pre_action_notify_ms(), notify_wait_ms)
    } else {
        base_due_ms
    };
    if now_ms < ready_ms {
        assert(action_views(out@) =~= action_views(old(out)@) + Seq::<ActionModel>::empty());
        return ;
    }
    if has_notification && !sent {
        if let Some(m) = &step.notification {
            push_action(out, Action::Notify { message: m.clone() });
        }
        state.set_pre_action_notify_sent(true);
        state.set_pre_action_notify_ms(now_ms);
        assert(action_views(out@) =~= action_views(old(out)@) + waiting_step(
            old(state)@,
            cfg@,
            idx as int,
            now_ms,
        ).actions);
        return ;
    }
    let mut emitted = actions_for_plan_step(state.is_locked(), step, &cfg.pre_suspend_command);
    assert(action_views(emitted@).len() == emitted@.len());
    if emitted.len() > 0 {
        mark_fired(state, step, idx);
    }
    append_actions(out, &mut emitted);
    state.set_step_index(idx + 1);
    state.set_step_base_ms(now_ms);
    state.mark_action_fired(now_ms);
    state.set_pre_action_notify_sent(false);
    state.set_debounce_pending(false);
}

fn maybe_fire_next_step(state: &mut State, cfg: &Config, now_ms: u64, out: &mut Vec<Action>)
    ensures
        ({
            let r = advanced(old(state)@, cfg@, now_ms);
            final(state)@ == r.state && action_views(final(out)@) == action_views(old(out)@)
                + r.actions
        }),
{
    proof {
        reveal(advanced);
    }
    let ghost given = action_views(out@);
    let at = fire_instants(state, cfg, now_ms, out);
    if at < cfg.plan.len() {
        run_waiting_step(state, cfg, at, now_ms, out);
    }
    assert(action_views(out@) =~= given + advanced(old(state)@, cfg@, now_ms).actions);
}

// ---------------------------------------------------------------------------------------------
// Activity
// ---------------------------------------------------------------------------------------------

fn push_resume(plan: &Vec<PlanStep>, idx: Option<usize>, out: &mut Vec<Action>)
    ensures
        action_views(final(out)@) == action_views(old(out)@) + resume_of(plan_view(plan@), idx),
{
    if let Some(i) = idx {
        if i < plan.len() {
            assert(plan_view(plan@)[i as int] == plan@[i as int]@);
            if let Some(c) = &plan[i].resume_command {
                push_action(out, Action::RunResumeCommand { command: c.clone() });
            }
        }
    }
    assert(action_views(out@) =~= action_views(old(out)@) + resume_of(plan_view(plan@), idx));
}

fn last_ungrouped_idx(state: &State) -> (r: Option<usize>)
    ensures
        r == state@.last_ungrouped(),
{
    match state.last_fired_idx() {
        None => None,
        Some(last) => {
            if is_idx(state.last_dpms_fired_idx(), last) || is_idx(
                state.last_brightness_fired_idx(),
                last,
            ) || is_idx(state.last_lock_fired_idx(), last) {
                None
            } else {
                Some(last)
            }
        },
    }
}

fn is_idx(o: Option<usize>, i: usize) -> (r: bool)
    ensures
        r == (o == Some(i)),
{
    match o {
        Some(j) => j == i,
        None => false,
    }
}

/// Adds the resume commands that are due. In a session that is not locked these are the commands
/// of the last screen, brightness and lock steps and of the last step of all, in this order and
/// none twice; then nothing is due, so that a second call adds nothing.
pub fn resume_commands_for_activity(state: &mut State, plan: &Vec<PlanStep>, out: &mut Vec<Action>)
    ensures
        ({
            let r = resumed_steps(old(state)@, plan_view(plan@));
            final(state)@ == r.state && action_views(final(out)@) == action_views(old(out)@)
                + r.actions
        }),
        old(state)@.resume_due() && !old(state)@.is_locked && old(state)@.groups_differ() ==> {
            &&& action_views(final(out)@) == action_views(old(out)@) + resume_commands(
                plan_view(plan@),
                old(state)@.resuming(),
            )
            &&& old(state)@.resuming().no_duplicates()
            &&& !final(state)@.resume_due()
        },
        !old(state)@.resume_due() ==> final(state)@ == old(state)@ && action_views(final(out)@)
            == action_views(old(out)@),
{
    proof {
        let s = state@;
        if s.resume_due() && !s.is_locked && s.groups_differ() {
            resume_runs_each_step_once(s, plan_view(plan@));
        }
    }
    let ghost given = action_views(out@);
    let ghost s = state@;
    let ghost p = plan_view(plan@);
    if !state.resume_due() {
        assert(given =~= given + Seq::<ActionModel>::empty());
        return ;
    }
    let mut screen: Vec<Action> = Vec::new();
    push_resume(plan, state.last_dpms_fired_idx(), &mut screen);
    push_resume(plan, state.last_brightness_fired_idx(), &mut screen);
    assert(action_views(screen@) =~= resume_of(p, s.last_dpms_fired_idx) + resume_of(
        p,
        s.last_brightness_fired_idx,
    ));
    let mut others: Vec<Action> = Vec::new();
    push_resume(plan, state.last_lock_fired_idx(), &mut others);
    push_resume(plan, last_ungrouped_idx(state), &mut others);
    assert(action_views(others@) =~= resume_of(p, s.last_lock_fired_idx) + resume_of(
        p,
        s.last_ungrouped(),
    ));
    assert(action_views(screen@).len() == screen@.len());
    assert(action_views(others@).len() == others@.len());
    if state.is_locked() {
        if others.len() > 0 {
            state.set_resume_deferred_until_unlock(true);
        }
        if screen.len() > 0 || others.len() > 0 {
            state.mark_resumed();
        }
        append_actions(out, &mut screen);
    } else {
        let ghost a = action_views(screen@);
        let ghost b = action_views(others@);
        append_actions(out, &mut screen);
        append_actions(out, &mut others);
        assert(given + a + b =~= given + (a + b));
        state.mark_resumed();
    }
}

fn handle_activity_like_event(
    state: &mut State,
    cfg: &Config,
    now_ms: u64,
    announce: bool,
    out: &mut Vec<Action>,
)
    ensures
        ({
            let r = active(old(state)@, cfg@, now_ms, announce);
            final(state)@ == r.state && action_views(final(out)@) == action_views(old(out)@)
                + r.actions
        }),
{
    proof {
        reveal(active);
    }
    let ghost given = action_views(out@);
    resume_commands_for_activity(state, &cfg.plan, out);
    if state.is_locked() {
        advance_past_lock_if_needed(state, &cfg.plan);
        let post_lock_start = first_enabled_step_after_lock(&cfg.plan);
        state.restart_post_lock_segment(now_ms, post_lock_start);
        refresh_paused(state, now_ms);
    } else {
        state.reset_idle_cycle(now_ms);
        refresh_paused(state, now_ms);
        sync_step_index_after_startup_instants(state, &cfg.plan);
    }
    if announce && cfg.notify_on_unpause && !state.paused() {
        push_action(out, Action::Notify { message: String::from_str("resumed") });
    }
    assert(action_views(out@) =~= given + active(old(state)@, cfg@, now_ms, announce).actions);
}

// ---------------------------------------------------------------------------------------------
// Triggers
// ---------------------------------------------------------------------------------------------

fn jump(state: &mut State, next: usize, now_ms: u64)
    ensures
        final(state)@ == jumped(old(state)@, next as int, now_ms),
{
    state.mark_action_fired(now_ms);
    state.set_pre_action_notify_sent(false);
    state.set_debounce_pending(false);
    state.set_step_base_ms(now_ms);
    state.set_step_index(next);
}

fn trigger_all(state: &mut State, cfg: &Config, out: &mut Vec<Action>)
    ensures
        ({
            let r = all_from(old(state)@, cfg@, 0);
            final(state)@ == r.state && action_views(final(out)@) == action_views(old(out)@)
                + r.actions
        }),
{
    let ghost whole = all_from(state@, cfg@, 0);
    let ghost given = action_views(out@);
    let ghost plan = plan_view(cfg.plan@);
    let mut idx: usize = 0;
    while idx < cfg.plan.len()
        invariant
            idx <= cfg.plan@.len(),
            plan == plan_view(cfg.plan@),
            whole.state == all_from(state@, cfg@, idx as int).state,
            given + whole.actions == action_views(out@) + all_from(
                state@,
                cfg@,
                idx as int,
            ).actions,
        decreases cfg.plan@.len() - idx,
    {
        let step = &cfg.plan[idx];
        assert(plan[idx as int] == step@);
        assert(cfg@.plan == plan);
        if step.enabled() && !step.is_instant() && !(is_lock_step(step) && state.is_locked()) {
            let ghost s = state@;
            let mut emitted = actions_for_plan_step(
                state.is_locked(),
                step,
                &cfg.pre_suspend_command,
            );
            let ghost acts = action_views(emitted@);
            assert(acts.len() == emitted@.len());
            if emitted.len() > 0 {
                mark_fired(state, step, idx);
            }
            let ghost sofar = action_views(out@);
            append_actions(out, &mut emitted);
            let ghost rest = all_from(state@, cfg@, idx + 1);
            assert(all_from(s, cfg@, idx as int).actions =~= acts + rest.actions);
            assert(sofar + (acts + rest.actions) =~= (sofar + acts) + rest.actions);
        }
        idx += 1;
    }
    assert(action_views(out@) =~= given + whole.actions);
}

fn trigger(state: &mut State, cfg: &Config, name: &str, now_ms: u64, out: &mut Vec<Action>)
    ensures
        ({
            let r = triggered(old(state)@, cfg@, name@, now_ms);
            final(state)@ == r.state && action_views(final(out)@) == action_views(old(out)@)
                + r.actions
        }),
{
    proof {
        reveal(triggered);
    }
    let ghost given = action_views(out@);
    let n = normalize_trigger_name(name);
    let mut emitted: Vec<Action> = Vec::new();
    assert(action_views(emitted@) =~= Seq::<ActionModel>::empty());
    if str_eq(n.as_str(), "all") {
        trigger_all(state, cfg, &mut emitted);
        assert(action_views(emitted@) =~= all_from(old(state)@, cfg@, 0).actions);
        assert(action_views(emitted@).len() == emitted@.len());
        if emitted.len() > 0 {
            jump(state, cfg.plan.len(), now_ms);
        }
        append_actions(out, &mut emitted);
        return ;
    }
    let idx = find_trigger_step(&cfg.plan, name);
    if idx < cfg.plan.len() {
        let step = &cfg.plan[idx];
        assert(cfg@.plan[idx as int] == step@);
        let mut emitted = actions_for_plan_step(state.is_locked(), step, &cfg.pre_suspend_command);
        assert(action_views(emitted@).len() == emitted@.len());
        if emitted.len() > 0 {
            mark_fired(state, step, idx);
            jump(state, idx + 1, now_ms);
        }
        append_actions(out, &mut emitted);
    } else {
        assert(given =~= given + Seq::<ActionModel>::empty());
    }
}

// ---------------------------------------------------------------------------------------------
// Events
// ---------------------------------------------------------------------------------------------

/// What stands for the answer to an event in contracts.
pub open spec fn answer_view(r: Result<Vec<Action>, Error>) -> Result<Seq<ActionModel>, Error> {
    match r {
        Ok(v) => Ok(action_views(v@)),
        Err(e) => Err(e),
    }
}

fn prepare(state: &mut State, cfg: &Config, now_ms: u64) -> (out: Vec<Action>)
    ensures
        final(state)@ == prepared(old(state)@, cfg@, now_ms).state,
        action_views(out@) == prepared(old(state)@, cfg@, now_ms).actions,
{
    proof {
        reveal(prepared);
    }
    let mut out: Vec<Action> = Vec::new();
    state.ensure_plan_len(cfg.plan.len());
    state.set_debounce_seconds(cfg.debounce_seconds);
    refresh_paused(state, now_ms);
    assert(cfg@.plan.len() == cfg.plan@.len());
    maybe_fire_startup_instants(state, cfg, now_ms, &mut out);
    sync_step_index_after_startup_instants(state, &cfg.plan);
    assert(action_views(out@) =~= prepared(old(state)@, cfg@, now_ms).actions);
    out
}

fn enter(state: &mut State, cfg: &Config, now_ms: u64, out: &mut Vec<Action>)
    ensures
        ({
            let r = entered(old(state)@, cfg@, now_ms);
            final(state)@ == r.state && action_views(final(out)@) == action_views(old(out)@)
                + r.actions
        }),
{
    proof {
        reveal(entered);
    }
    state.ensure_plan_len(cfg.plan.len());
    state.set_debounce_seconds(cfg.debounce_seconds);
    refresh_paused(state, now_ms);
    sync_step_index_after_startup_instants(state, &cfg.plan);
    advance_past_lock_if_needed(state, &cfg.plan);
    assert(cfg@.plan.len() == cfg.plan@.len());
    maybe_fire_startup_instants(state, cfg, now_ms, out);
    sync_step_index_after_startup_instants(state, &cfg.plan);
}

/// Ends a manual pause whose time is over.
fn expire_pause(state: &mut State, cfg: &Config, message: String, now_ms: u64, out: &mut Vec<Action>)
    ensures
        ({
            let r = expired(old(state)@, cfg@, message@, now_ms);
            final(state)@ == r.state && action_views(final(out)@) == action_views(old(out)@)
                + r.actions
        }),
{
    let ghost given = action_views(out@);
    let ghost words = message@;
    let ghost r = expired(state@, cfg@, words, now_ms);
    state.set_manually_paused(false);
    handle_activity_like_event(state, cfg, now_ms, true, out);
    if cfg.notify_on_unpause {
        push_action(out, Action::Notify { message });
    }
    assert(action_views(out@) =~= given + r.actions);
}

/// Unlocks a locked session.
fn unlock(state: &mut State, cfg: &Config, now_ms: u64, out: &mut Vec<Action>)
    ensures
        ({
            let r = unlocked(old(state)@, cfg@, now_ms);
            final(state)@ == r.state && action_views(final(out)@) == action_views(old(out)@)
                + r.actions
        }),
{
    state.set_locked(false);
    if state.take_resume_deferred_until_unlock() {
        state.arm_resume_episode();
    }
    handle_activity_like_event(state, cfg, now_ms, false, out);
}

/// Goes on after a sleep, or with the lid open.
fn wake(state: &mut State, cfg: &Config, now_ms: u64, out: &mut Vec<Action>)
    ensures
        ({
            let r = awake(old(state)@, cfg@, now_ms);
            final(state)@ == r.state && action_views(final(out)@) == action_views(old(out)@)
                + r.actions
        }),
{
    state.set_system_paused(false);
    handle_activity_like_event(state, cfg, now_ms, false, out);
    state.set_pre_action_notify_sent(false);
    state.set_debounce_pending(false);
}

/// Takes note of media; where it ended, that counts as activity.
fn hear(state: &mut State, cfg: &Config, ended: bool, now_ms: u64, out: &mut Vec<Action>)
    ensures
        ({
            let r = heard(old(state)@, cfg@, ended, now_ms);
            final(state)@ == r.state && action_views(final(out)@) == action_views(old(out)@)
                + r.actions
        }),
{
    if ended {
        handle_activity_like_event(state, cfg, now_ms, false, out);
    } else {
        refresh_paused(state, now_ms);
        assert(action_views(out@) =~= action_views(out@) + Seq::<ActionModel>::empty());
    }
}

impl Manager {
    fn effective_cfg(&self, state: &State) -> (r: Result<Config, Error>)
        ensures
            match r {
                Ok(c) => self@.effective(state@) == Some(c@),
                Err(e) => self@.effective(state@) is None && e == Error::InvalidConfig(
                    ConfigError::ProfileNotFound,
                ),
            },
    {
        match self.cfg_file.effective_for(state.active_profile(), state.plan_source()) {
            Some(c) => Ok(c),
            None => Err(Error::InvalidConfig(ConfigError::ProfileNotFound)),
        }
    }

    /// Brings the configuration that the state now selects into effect.
    fn switch(&self, state: &mut State, now_ms: u64, done: Vec<Action>) -> (r: Result<
        Vec<Action>,
        Error,
    >)
        ensures
            ({
                let h = self@.switched(old(state)@, action_views(done@), now_ms);
                final(state)@ == h.state && answer_view(r) == h.result && h.manager == self@
            }),
    {
        proof {
            reveal(ManagerModel::switched);
        }
        state.reset_idle_cycle(now_ms);
        state.clear_one_shots();
        match self.effective_cfg(state) {
            Err(e) => Err(e),
            Ok(cfg) => {
                let mut out = done;
                enter(state, &cfg, now_ms, &mut out);
                Ok(out)
            },
        }
    }

    fn change_profile(&self, state: &mut State, name: &str, now_ms: u64, done: Vec<Action>) -> (r:
        Result<Vec<Action>, Error>)
        ensures
            ({
                let given = trimmed(name@);
                let s = old(state)@;
                if given.len() == 0 {
                    final(state)@ == s && answer_view(r) == Err::<Seq<ActionModel>, Error>(
                        Error::InvalidConfig(ConfigError::InvalidProfileName),
                    )
                } else if self@.file.effective(profile_of(given), s.plan_source) is None {
                    final(state)@ == s && answer_view(r) == Err::<Seq<ActionModel>, Error>(
                        Error::InvalidConfig(ConfigError::ProfileNotFound),
                    )
                } else {
                    let h = self@.switched(
                        StateModel {
                            active_profile: profile_of(given),
                            app_inhibitor_count: 0,
                            media_inhibitor_count: 0,
                            ..s
                        }.refreshed(now_ms),
                        action_views(done@),
                        now_ms,
                    );
                    final(state)@ == h.state && answer_view(r) == h.result && h.manager == self@
                }
            }),
    {
        let raw = trim(name);
        if raw.as_str().unicode_len() == 0 {
            return Err(Error::InvalidConfig(ConfigError::InvalidProfileName));
        }
        let candidate: Option<String> = if eq_ignore_case(raw.as_str(), "none") || eq_ignore_case(
            raw.as_str(),
            "default",
        ) {
            None
        } else {
            Some(raw)
        };
        let found = match &candidate {
            Some(n) => self.cfg_file.effective_for(Some(n.as_str()), state.plan_source()),
            None => self.cfg_file.effective_for(None, state.plan_source()),
        };
        if found.is_none() {
            return Err(Error::InvalidConfig(ConfigError::ProfileNotFound));
        }
        state.set_active_profile(candidate);
        state.set_app_inhibitor_count(0);
        state.set_media_inhibitor_count(0);
        refresh_paused(state, now_ms);
        self.switch(state, now_ms, done)
    }

    /// The event itself, once the state is in line with the configuration in effect.
    fn react(&mut self, state: &mut State, cfg: &Config, done: Vec<Action>, event: Event) -> (r:
        Result<Vec<Action>, Error>)
        ensures
            ({
                let h = old(self)@.reacted(old(state)@, cfg@, action_views(done@), event);
                final(self)@ == h.manager && final(state)@ == h.state && answer_view(r) == h.result
            }),
    {
        proof {
            reveal(ManagerModel::reacted);
        }
        let now_ms = event.now_ms();
        let mut out = done;
        match event {
            Event::Tick { .. } => {
                if !state.paused() {
                    advance_past_lock_if_needed(state, &cfg.plan);
                    maybe_fire_next_step(state, cfg, now_ms, &mut out);
                }
            },
            Event::UserActivity { .. } | Event::BrowserActivity { .. } => {
                handle_activity_like_event(state, cfg, now_ms, false, &mut out);
            },
            // The ticks alone drive the plan.
            Event::BrowserInactive { .. } | Event::CompositorIdled { .. } | Event::CompositorResumed {
                ..
            } => {},
            Event::ManualPause { .. } => {
                if state.manually_paused() {
                    return Err(Error::InvalidState(StateError::AlreadyPaused));
                }
                state.set_manually_paused(true);
                refresh_paused(state, now_ms);
            },
            Event::ManualResume { .. } => {
                if !state.manually_paused() {
                    return Err(Error::InvalidState(StateError::NotPaused));
                }
                state.set_manually_paused(false);
                handle_activity_like_event(state, cfg, now_ms, false, &mut out);
            },
            Event::PauseExpired { message, .. } => {
                if state.manually_paused() {
                    expire_pause(state, cfg, message, now_ms, &mut out);
                }
            },
            Event::ManualTrigger { name, .. } => {
                trigger(state, cfg, name.as_str(), now_ms, &mut out);
            },
            Event::SessionLocked { .. } => {
                if !state.is_locked() {
                    state.set_locked(true);
                    advance_past_lock_if_needed(state, &cfg.plan);
                }
            },
            Event::SessionUnlocked { .. } => {
                if !state.is_locked() {
                    return Err(Error::InvalidState(StateError::NotLocked));
                }
                unlock(state, cfg, now_ms, &mut out);
            },
            Event::PrepareForSleep { .. } | Event::LidClosed { .. } => {
                state.set_system_paused(true);
                refresh_paused(state, now_ms);
            },
            Event::ResumedFromSleep { .. } | Event::LidOpened { .. } => {
                wake(state, cfg, now_ms, &mut out);
            },
            Event::ProfileChanged { name, .. } => {
                return self.change_profile(state, name.as_str(), now_ms, out);
            },
            Event::PowerChanged { state: ps, .. } => {
                state.set_power_state(ps);
                state.set_plan_source(
                    match ps {
                        PowerState::OnAC => PlanSource::Ac,
                        PowerState::OnBattery => PlanSource::Battery,
                    },
                );
                return self.switch(state, now_ms, out);
            },
            Event::AppInhibitorCount { count, .. } => {
                state.set_app_inhibitor_count(count);
                refresh_paused(state, now_ms);
            },
            Event::MediaInhibitorCount { count, .. } => {
                state.set_media_inhibitor_count(count);
                refresh_paused(state, now_ms);
            },
            Event::MediaStateChanged { state: m, .. } => {
                let ended = self.last_media != MediaState::Idle && m == MediaState::Idle;
                self.last_media = m;
                hear(state, cfg, ended, now_ms, &mut out);
            },
        }
        Ok(out)
    }

    /// Handles an event: changes the state, and gives the actions that are to be taken.
    pub fn handle_event(&mut self, state: &mut State, event: Event) -> (r: Result<
        Vec<Action>,
        Error,
    >)
        ensures
            ({
                let h = old(self)@.handled(old(state)@, event);
                final(self)@ == h.manager && final(state)@ == h.state && answer_view(r) == h.result
            }),
    {
        match self.effective_cfg(state) {
            Err(e) => Err(e),
            Ok(cfg) => {
                let done = prepare(state, &cfg, event.now_ms());
                self.react(state, &cfg, done, event)
            },
        }
    }
}

} // verus!
