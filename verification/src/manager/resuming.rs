//! Laws on what comes back when the user does, and on how it is remembered.

use vstd::prelude::*;

use super::behaviour::{commands_of_sum, index_list, on_activity, resume_commands};
use super::laws::{
    active_settles, after_lock_is_in_plan, past_startup_is_front, settled, settled_needs_nothing,
};
use super::machine::{
    active, after_lock, next_enabled_is_next, next_lock, past_startup, resume_of,
};
use super::ManagerModel;
use crate::action::ActionModel;
use crate::config::types::{ConfigModel, KindModel, StepModel};
use crate::error::Error;
use crate::events::{ActivityKind, Event};
use crate::state::StateModel;

verus! {

/// The commands of a list of steps are among the actions, and nothing else is.
pub proof fn commands_are_those_of_the_steps(plan: Seq<StepModel>, steps: Seq<usize>)
    ensures
        forall|i: usize| #[trigger]
            steps.contains(i) && i < plan.len() && plan[i as int].resume_command is Some
                ==> resume_commands(plan, steps).contains(
                ActionModel::RunResumeCommand { command: plan[i as int].resume_command->0 },
            ),
        forall|a: ActionModel| #[trigger]
            resume_commands(plan, steps).contains(a) ==> exists|i: usize|
                #![trigger steps.contains(i)]
                steps.contains(i) && i < plan.len() && plan[i as int].resume_command is Some && a
                    == (ActionModel::RunResumeCommand {
                    command: plan[i as int].resume_command->0,
                }),
    decreases steps.len(),
{
    let all = resume_commands(plan, steps);
    if steps.len() > 0 {
        let rest = steps.drop_last();
        let before = resume_commands(plan, rest);
        commands_are_those_of_the_steps(plan, rest);
        let last = steps.last();
        assert forall|i: usize| #[trigger]
            steps.contains(i) && i < plan.len()
                && plan[i as int].resume_command is Some implies all.contains(
            ActionModel::RunResumeCommand { command: plan[i as int].resume_command->0 },
        ) by {
            let c = plan[i as int].resume_command->0;
            if i == last {
                assert(all.last() == (ActionModel::RunResumeCommand { command: c }));
            } else {
                let k = choose|k: int| 0 <= k < steps.len() && steps[k] == i;
                assert(rest[k] == i);
                assert(rest.contains(i));
                let j = choose|j: int|
                    0 <= j < before.len() && before[j] == (ActionModel::RunResumeCommand {
                        command: c,
                    });
                assert(all[j] == before[j]);
            }
        }
        assert forall|a: ActionModel| #[trigger] all.contains(a) implies exists|i: usize|
            #![trigger steps.contains(i)]
            steps.contains(i) && i < plan.len() && plan[i as int].resume_command is Some && a == (
            ActionModel::RunResumeCommand { command: plan[i as int].resume_command->0 }) by {
            let j = choose|j: int| 0 <= j < all.len() && all[j] == a;
            if j < before.len() {
                assert(before.contains(a));
                let i = choose|i: usize|
                    #![trigger rest.contains(i)]
                    rest.contains(i) && i < plan.len() && plan[i as int].resume_command is Some
                        && a == (ActionModel::RunResumeCommand {
                        command: plan[i as int].resume_command->0,
                    });
                let k = choose|k: int| 0 <= k < rest.len() && rest[k] == i;
                assert(steps[k] == i);
                assert(steps.contains(i));
            } else {
                assert(steps[steps.len() - 1] == last);
                assert(steps.contains(last));
            }
        }
    }
}

/// The actions of activity, over the steps that the state remembers.
proof fn actions_of_activity(s: StateModel, cfg: ConfigModel, now: u64)
    ensures
        active(s, cfg, now, false).actions == (if s.resumed_epoch == s.resume_epoch {
            Seq::empty()
        } else if s.is_locked {
            resume_commands(
                cfg.plan,
                index_list(s.last_dpms_fired_idx) + index_list(s.last_brightness_fired_idx),
            )
        } else {
            resume_commands(cfg.plan, s.resuming())
        }),
{
    reveal(active);
    let plan = cfg.plan;
    let a = index_list(s.last_dpms_fired_idx);
    let b = index_list(s.last_brightness_fired_idx);
    let c = index_list(s.last_lock_fired_idx);
    let none = Seq::<usize>::empty();
    commands_of_sum(plan, none, s.last_dpms_fired_idx);
    assert(none + a =~= a);
    commands_of_sum(plan, a, s.last_brightness_fired_idx);
    commands_of_sum(plan, a + b, s.last_lock_fired_idx);
    commands_of_sum(plan, a + b + c, s.last_ungrouped());
    assert(resume_commands(plan, a) =~= resume_of(plan, s.last_dpms_fired_idx));
    assert(resume_commands(plan, a + b) =~= resume_of(plan, s.last_dpms_fired_idx) + resume_of(
        plan,
        s.last_brightness_fired_idx,
    ));
    assert(resume_commands(plan, s.resuming()) =~= resume_of(plan, s.last_dpms_fired_idx)
        + resume_of(plan, s.last_brightness_fired_idx) + (resume_of(plan, s.last_lock_fired_idx)
        + resume_of(plan, s.last_ungrouped())));
}

/// Activity in a locked session brings the screen back, so that the password can be typed: the
/// resume commands of the last screen step and of the last brightness step run, in this order, and
/// nothing else does. What the lock step and the last step outside the groups want is left until
/// the unlock.
pub proof fn locked_activity_brings_the_screen_back(
    m: ManagerModel,
    s: StateModel,
    cfg: ConfigModel,
    kind: ActivityKind,
    now_ms: u64,
)
    requires
        m.effective(s) == Some(cfg),
        settled(s, cfg),
        s.is_locked,
        s.resumed_epoch != s.resume_epoch,
    ensures
        ({
            let h = m.handled(s, Event::UserActivity { kind, now_ms });
            let last = if s.last_fired_idx == s.last_dpms_fired_idx || s.last_fired_idx
                == s.last_brightness_fired_idx || s.last_fired_idx == s.last_lock_fired_idx {
                None
            } else {
                s.last_fired_idx
            };
            let left = resume_commands(
                cfg.plan,
                index_list(s.last_lock_fired_idx) + index_list(last),
            );
            let now = resume_commands(
                cfg.plan,
                index_list(s.last_dpms_fired_idx) + index_list(s.last_brightness_fired_idx),
            );
            &&& h.result == Ok::<Seq<ActionModel>, Error>(now)
            &&& h.state.resume_deferred_until_unlock == (s.resume_deferred_until_unlock
                || left.len() > 0)
            &&& (h.state.resumed_epoch == h.state.resume_epoch) == (now.len() > 0 || left.len() > 0)
            &&& h.state.resume_epoch == s.resume_epoch
        }),
{
    settled_needs_nothing(s, cfg, now_ms);
    on_activity(m, s, cfg, kind, now_ms);
    actions_of_activity(s, cfg, now_ms);
    let acts = active(s, cfg, now_ms, false).actions;
    assert(Seq::<ActionModel>::empty() + acts =~= acts);
    reveal(active);
    reveal(StateModel::refreshed);
    reveal(StateModel::past_lock);
    let c = index_list(s.last_lock_fired_idx);
    let none = Seq::<usize>::empty();
    commands_of_sum(cfg.plan, none, s.last_lock_fired_idx);
    assert(none + c =~= c);
    commands_of_sum(cfg.plan, c, s.last_ungrouped());
    assert(resume_commands(cfg.plan, c) =~= resume_of(cfg.plan, s.last_lock_fired_idx));
}

/// Activity in a session that is not locked runs the resume commands of the last screen step, the
/// last brightness step, the last lock step and the last step of all: each of them that has one,
/// and nothing else. The screen comes first.
pub proof fn activity_runs_what_is_due(
    m: ManagerModel,
    s: StateModel,
    cfg: ConfigModel,
    kind: ActivityKind,
    now_ms: u64,
)
    requires
        m.effective(s) == Some(cfg),
        settled(s, cfg),
        !s.is_locked,
        s.resumed_epoch != s.resume_epoch,
    ensures
        ({
            let h = m.handled(s, Event::UserActivity { kind, now_ms });
            &&& h.result == Ok::<Seq<ActionModel>, Error>(resume_commands(cfg.plan, s.resuming()))
            &&& forall|i: usize|
                #![trigger cfg.plan[i as int]]
                (s.last_dpms_fired_idx == Some(i) || s.last_brightness_fired_idx == Some(i)
                    || s.last_lock_fired_idx == Some(i) || s.last_fired_idx == Some(i)) && i
                    < cfg.plan.len() && cfg.plan[i as int].resume_command is Some
                    ==> h.result->Ok_0.contains(
                    ActionModel::RunResumeCommand {
                        command: cfg.plan[i as int].resume_command->0,
                    },
                )
            &&& forall|a: ActionModel| #[trigger]
                h.result->Ok_0.contains(a) ==> exists|i: usize|
                    #![trigger cfg.plan[i as int]]
                    i < cfg.plan.len() && cfg.plan[i as int].resume_command is Some && a == (
                    ActionModel::RunResumeCommand {
                        command: cfg.plan[i as int].resume_command->0,
                    }) && (s.last_dpms_fired_idx == Some(i) || s.last_brightness_fired_idx == Some(
                        i,
                    ) || s.last_lock_fired_idx == Some(i) || s.last_fired_idx == Some(i))
            &&& h.state.resumed_epoch == h.state.resume_epoch
            &&& h.state.resume_epoch == s.resume_epoch
        }),
{
    settled_needs_nothing(s, cfg, now_ms);
    on_activity(m, s, cfg, kind, now_ms);
    actions_of_activity(s, cfg, now_ms);
    let acts = active(s, cfg, now_ms, false).actions;
    assert(Seq::<ActionModel>::empty() + acts =~= acts);
    commands_are_those_of_the_steps(cfg.plan, s.resuming());
    resuming_is_what_fired_last(s);
    assert(active(s, cfg, now_ms, false).state.resumed_epoch == s.resume_epoch && active(
        s,
        cfg,
        now_ms,
        false,
    ).state.resume_epoch == s.resume_epoch) by {
        reveal(active);
        reveal(StateModel::refreshed);
    }
    let h = m.handled(s, Event::UserActivity { kind, now_ms });
    assert forall|i: usize|
        #![trigger cfg.plan[i as int]]
        (s.last_dpms_fired_idx == Some(i) || s.last_brightness_fired_idx == Some(i)
            || s.last_lock_fired_idx == Some(i) || s.last_fired_idx == Some(i)) && i
            < cfg.plan.len() && cfg.plan[i as int].resume_command is Some implies h.result->Ok_0.contains(
    ActionModel::RunResumeCommand { command: cfg.plan[i as int].resume_command->0 }) by {
        assert(s.resuming().contains(i));
    }
    assert forall|a: ActionModel| #[trigger] h.result->Ok_0.contains(a) implies exists|i: usize|
        #![trigger cfg.plan[i as int]]
        i < cfg.plan.len() && cfg.plan[i as int].resume_command is Some && a == (
        ActionModel::RunResumeCommand { command: cfg.plan[i as int].resume_command->0 }) && (
        s.last_dpms_fired_idx == Some(i) || s.last_brightness_fired_idx == Some(i)
            || s.last_lock_fired_idx == Some(i) || s.last_fired_idx == Some(i)) by {
        let i = choose|i: usize|
            #![trigger s.resuming().contains(i)]
            s.resuming().contains(i) && i < cfg.plan.len()
                && cfg.plan[i as int].resume_command is Some && a == (
            ActionModel::RunResumeCommand { command: cfg.plan[i as int].resume_command->0 });
        assert(cfg.plan[i as int].resume_command is Some);
    }
}

proof fn resuming_is_what_fired_last(s: StateModel)
    ensures
        forall|k: usize| #[trigger]
            s.resuming().contains(k) <==> s.last_dpms_fired_idx == Some(k)
                || s.last_brightness_fired_idx == Some(k) || s.last_lock_fired_idx == Some(k)
                || s.last_fired_idx == Some(k),
{
    let a = index_list(s.last_dpms_fired_idx);
    let b = index_list(s.last_brightness_fired_idx);
    let c = index_list(s.last_lock_fired_idx);
    let all = s.resuming();
    assert forall|k: usize| #[trigger] all.contains(k) <==> s.last_dpms_fired_idx == Some(k)
        || s.last_brightness_fired_idx == Some(k) || s.last_lock_fired_idx == Some(k)
        || s.last_fired_idx == Some(k) by {
        if s.last_dpms_fired_idx == Some(k) {
            assert(all[0] == k);
        } else if s.last_brightness_fired_idx == Some(k) {
            assert(all[a.len() as int] == k);
        } else if s.last_lock_fired_idx == Some(k) {
            assert(all[(a + b).len() as int] == k);
        } else if s.last_fired_idx == Some(k) {
            assert(s.last_ungrouped() == Some(k));
            assert(all[(a + b + c).len() as int] == k);
        }
    }
}

/// Where no resume is due, activity runs nothing, in a locked session as in another.
pub proof fn nothing_due_runs_nothing(
    m: ManagerModel,
    s: StateModel,
    cfg: ConfigModel,
    kind: ActivityKind,
    now_ms: u64,
)
    requires
        m.effective(s) == Some(cfg),
        settled(s, cfg),
        s.resumed_epoch == s.resume_epoch,
    ensures
        m.handled(s, Event::UserActivity { kind, now_ms }).result == Ok::<Seq<ActionModel>, Error>(
            Seq::empty(),
        ),
{
    settled_needs_nothing(s, cfg, now_ms);
    on_activity(m, s, cfg, kind, now_ms);
    actions_of_activity(s, cfg, now_ms);
    let acts = active(s, cfg, now_ms, false).actions;
    assert(Seq::<ActionModel>::empty() + acts =~= acts);
}

/// The unlock is the end of the wait: what was left until then runs, and what is due besides; if
/// nothing was left and nothing is due, nothing runs. The session is open, and the cycle begins
/// anew.
pub proof fn unlock_runs_what_was_left(
    m: ManagerModel,
    s: StateModel,
    cfg: ConfigModel,
    now_ms: u64,
)
    requires
        m.effective(s) == Some(cfg),
        settled(s, cfg),
        s.is_locked,
        s.resumed_epoch <= s.resume_epoch < u64::MAX,
    ensures
        ({
            let h = m.handled(s, Event::SessionUnlocked { now_ms });
            &&& h.result == Ok::<Seq<ActionModel>, Error>(
                if s.resume_deferred_until_unlock || s.resumed_epoch != s.resume_epoch {
                    resume_commands(cfg.plan, s.resuming())
                } else {
                    Seq::empty()
                },
            )
            &&& !h.state.is_locked
            &&& !h.state.resume_deferred_until_unlock
            &&& h.state.resumed_epoch == h.state.resume_epoch
            &&& h.state.step_base_ms == now_ms
            &&& h.state.debounce_pending
        }),
{
    settled_needs_nothing(s, cfg, now_ms);
    reveal(ManagerModel::reacted);
    let open = StateModel { is_locked: false, resume_deferred_until_unlock: false, ..s };
    let due = if s.resume_deferred_until_unlock {
        open.armed()
    } else {
        open
    };
    actions_of_activity(due, cfg, now_ms);
    assert(due.resuming() == s.resuming());
    let acts = active(due, cfg, now_ms, false).actions;
    assert(Seq::<ActionModel>::empty() + acts =~= acts);
    reveal(active);
    reveal(StateModel::refreshed);
}

/// A locker's resume command does not run on activity in the locked session, but it does run at
/// the unlock after it.
pub proof fn lock_resume_waits_for_the_unlock(
    m: ManagerModel,
    s: StateModel,
    cfg: ConfigModel,
    kind: ActivityKind,
    first: u64,
    second: u64,
    i: usize,
    c: Seq<char>,
)
    requires
        m.effective(s) == Some(cfg),
        settled(s, cfg),
        cfg.plan.len() <= usize::MAX,
        s.is_locked,
        s.resumed_epoch < s.resume_epoch < u64::MAX,
        s.last_lock_fired_idx == Some(i),
        i < cfg.plan.len(),
        cfg.plan[i as int].kind == KindModel::LockScreen,
        cfg.plan[i as int].command is Some,
        cfg.plan[i as int].resume_command == Some(c),
        forall|k: int| 0 <= k < i ==> (#[trigger] cfg.plan[k]).kind != KindModel::LockScreen,
    ensures
        ({
            let a = m.handled(s, Event::UserActivity { kind, now_ms: first });
            let b = a.manager.handled(a.state, Event::SessionUnlocked { now_ms: second });
            b.result matches Ok(actions) && actions.contains(
                ActionModel::RunResumeCommand { command: c },
            )
        }),
{
    settled_needs_nothing(s, cfg, first);
    on_activity(m, s, cfg, kind, first);
    let a = active(s, cfg, first, false).state;
    active_settles(s, cfg, first, false);
    first_lock_is(cfg.plan, i as int);
    next_enabled_is_next(cfg.plan, i + 1);
    assert(a.last_lock_fired_idx == Some(i) && a.resume_deferred_until_unlock && a.resumed_epoch
        == s.resume_epoch && a.resume_epoch == s.resume_epoch && a.is_locked) by {
        reveal(active);
        reveal(StateModel::refreshed);
        reveal(StateModel::past_lock);
        let others = resume_of(cfg.plan, s.last_lock_fired_idx) + resume_of(
            cfg.plan,
            s.last_ungrouped(),
        );
        assert(others[0] == (ActionModel::RunResumeCommand { command: c }));
    }
    unlock_runs_what_was_left(m, a, cfg, second);
    commands_are_those_of_the_steps(cfg.plan, a.resuming());
    resuming_is_what_fired_last(a);
    assert(a.resuming().contains(i));
    assert(cfg.plan[i as int].resume_command == Some(c));
}

proof fn first_lock_is(plan: Seq<StepModel>, i: int)
    requires
        0 <= i < plan.len(),
        plan[i].kind == KindModel::LockScreen,
        plan[i].command is Some,
        forall|k: int|
            0 <= k < i ==> !((#[trigger] plan[k]).kind == KindModel::LockScreen
                && plan[k].command is Some),
    ensures
        next_lock(plan, 0) == i,
{
    first_lock_from(plan, i, 0);
}

proof fn first_lock_from(plan: Seq<StepModel>, i: int, from: int)
    requires
        0 <= from <= i < plan.len(),
        plan[i].kind == KindModel::LockScreen,
        plan[i].command is Some,
        forall|k: int|
            from <= k < i ==> !((#[trigger] plan[k]).kind == KindModel::LockScreen
                && plan[k].command is Some),
    ensures
        next_lock(plan, from) == i,
    decreases i - from,
{
    if from < i {
        assert(!(plan[from].kind == KindModel::LockScreen && plan[from].command is Some));
        first_lock_from(plan, i, from + 1);
    }
}

proof fn no_lock_from(plan: Seq<StepModel>, from: int)
    requires
        0 <= from <= plan.len(),
        forall|k: int|
            from <= k < plan.len() ==> !((#[trigger] plan[k]).kind == KindModel::LockScreen
                && plan[k].command is Some),
    ensures
        next_lock(plan, from) == plan.len(),
    decreases plan.len() - from,
{
    if from < plan.len() {
        assert(!(plan[from].kind == KindModel::LockScreen && plan[from].command is Some));
        no_lock_from(plan, from + 1);
    }
}

/// Where the plan goes on after activity. In an open session that is its beginning, behind the
/// startup steps that wait for nothing; in a locked one it is the first step with a command behind
/// the lock step, and the end of a plan that has none.
pub proof fn activity_goes_back_to_the_start(
    m: ManagerModel,
    s: StateModel,
    cfg: ConfigModel,
    kind: ActivityKind,
    now_ms: u64,
    lock: int,
)
    requires
        m.effective(s) == Some(cfg),
        settled(s, cfg),
        cfg.plan.len() <= usize::MAX,
        0 <= lock <= cfg.plan.len(),
        lock < cfg.plan.len() ==> cfg.plan[lock].kind == KindModel::LockScreen
            && cfg.plan[lock].command is Some,
        forall|k: int|
            0 <= k < lock ==> !((#[trigger] cfg.plan[k]).kind == KindModel::LockScreen
                && cfg.plan[k].command is Some),
    ensures
        ({
            let h = m.handled(s, Event::UserActivity { kind, now_ms });
            let at = h.state.step_index as int;
            let from = if !s.is_locked {
                0
            } else if lock < cfg.plan.len() {
                lock + 1
            } else {
                lock
            };
            &&& from <= at <= cfg.plan.len()
            &&& forall|k: int|
                from <= k < at ==> (#[trigger] cfg.plan[k]).command is None || !s.is_locked
                    && cfg.plan[k].kind == KindModel::Startup && cfg.plan[k].timeout_seconds == 0
            &&& at < cfg.plan.len() ==> cfg.plan[at].command is Some && (s.is_locked || !(
            cfg.plan[at].kind == KindModel::Startup && cfg.plan[at].timeout_seconds == 0))
            &&& h.state.last_activity_ms == now_ms
            &&& h.state.step_base_ms == now_ms
            &&& h.state.debounce_pending
            &&& !h.state.sent_pre_action_notify
            &&& forall|k: int|
                (if s.is_locked {
                    at
                } else {
                    0
                }) <= k < cfg.plan.len() ==> !(#[trigger] h.state.fired_steps[k])
        }),
{
    settled_needs_nothing(s, cfg, now_ms);
    on_activity(m, s, cfg, kind, now_ms);
    past_startup_is_front(cfg.plan, 0);
    after_lock_is_in_plan(cfg.plan);
    if lock < cfg.plan.len() {
        first_lock_is(cfg.plan, lock);
        next_enabled_is_next(cfg.plan, lock + 1);
    } else {
        no_lock_from(cfg.plan, 0);
    }
    reveal(active);
    reveal(StateModel::refreshed);
    reveal(StateModel::past_lock);
    let at = active(s, cfg, now_ms, false).state.step_index as int;
    assert(at == if s.is_locked {
        after_lock(cfg.plan)
    } else {
        past_startup(cfg.plan, 0)
    });
}

/// What is remembered of a step at `before`, once the steps from `at` on are to run again.
pub open spec fn kept_in_front(before: Option<usize>, at: int, after: Option<usize>) -> bool {
    match before {
        Some(i) if i < at => after == before,
        _ => after is None,
    }
}

/// Activity in an open session forgets what ran, since all of it is to run again. In a locked one
/// the steps up to the lock stay remembered, so that they can come back at the unlock, and only
/// those behind it are forgotten.
pub proof fn activity_forgets_what_is_to_run_again(
    m: ManagerModel,
    s: StateModel,
    cfg: ConfigModel,
    kind: ActivityKind,
    now_ms: u64,
    k: int,
)
    requires
        m.effective(s) == Some(cfg),
        settled(s, cfg),
        cfg.plan.len() <= usize::MAX,
    ensures
        ({
            let t = m.handled(s, Event::UserActivity { kind, now_ms }).state;
            let at = t.step_index as int;
            &&& t.fired_steps.len() == cfg.plan.len()
            &&& !s.is_locked ==> t.last_fired_idx is None && t.last_dpms_fired_idx is None
                && t.last_brightness_fired_idx is None && t.last_lock_fired_idx is None
            &&& s.is_locked && at < cfg.plan.len() ==> {
                &&& kept_in_front(s.last_fired_idx, at, t.last_fired_idx)
                &&& kept_in_front(s.last_dpms_fired_idx, at, t.last_dpms_fired_idx)
                &&& kept_in_front(s.last_brightness_fired_idx, at, t.last_brightness_fired_idx)
                &&& kept_in_front(s.last_lock_fired_idx, at, t.last_lock_fired_idx)
            }
            &&& s.is_locked && at >= cfg.plan.len() ==> {
                &&& t.last_fired_idx == s.last_fired_idx
                &&& t.last_dpms_fired_idx == s.last_dpms_fired_idx
                &&& t.last_brightness_fired_idx == s.last_brightness_fired_idx
                &&& t.last_lock_fired_idx == s.last_lock_fired_idx
            }
            &&& s.is_locked && 0 <= k < at && k < cfg.plan.len() ==> t.fired_steps[k]
                == s.fired_steps[k]
            &&& t.one_shots_fired == s.one_shots_fired
        }),
{
    settled_needs_nothing(s, cfg, now_ms);
    on_activity(m, s, cfg, kind, now_ms);
    after_lock_is_in_plan(cfg.plan);
    reveal(active);
    reveal(StateModel::refreshed);
    if s.is_locked {
        reveal(StateModel::past_lock);
    }
}

/// The unlock forgets what ran: all of the plan is to run again.
pub proof fn unlock_forgets_what_ran(
    m: ManagerModel,
    s: StateModel,
    cfg: ConfigModel,
    now_ms: u64,
    k: int,
)
    requires
        m.effective(s) == Some(cfg),
        settled(s, cfg),
        s.is_locked,
        cfg.plan.len() <= usize::MAX,
    ensures
        ({
            let t = m.handled(s, Event::SessionUnlocked { now_ms }).state;
            let at = t.step_index as int;
            &&& t.last_fired_idx is None
            &&& t.last_dpms_fired_idx is None
            &&& t.last_brightness_fired_idx is None
            &&& t.last_lock_fired_idx is None
            &&& 0 <= k < cfg.plan.len() ==> !t.fired_steps[k]
            &&& 0 <= at <= cfg.plan.len()
            &&& 0 <= k < at ==> cfg.plan[k].command is None || cfg.plan[k].kind
                == KindModel::Startup && cfg.plan[k].timeout_seconds == 0
        }),
{
    settled_needs_nothing(s, cfg, now_ms);
    past_startup_is_front(cfg.plan, 0);
    reveal(ManagerModel::reacted);
    reveal(active);
    reveal(StateModel::refreshed);
}

} // verus!
