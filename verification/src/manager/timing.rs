//! When the steps of the plan run.

use vstd::prelude::*;

use super::behaviour::on_tick;
use super::laws::{settled, settled_needs_nothing};
use super::machine::{
    advanced, all_from, due_at, in_all, next_enabled, normalized, notifies, triggered, waiting_step,
    Handled,
};
use super::ManagerModel;
use crate::action::ActionModel;
use crate::config::types::{ConfigModel, StepModel};
use crate::error::Error;
use crate::events::Event;
use crate::state::StateModel;
use crate::time::{in_ms, later};

verus! {

/// The next step of the plan is one that has to wait.
pub open spec fn waits(s: StateModel, cfg: ConfigModel) -> bool {
    let i = s.step_index as int;
    &&& i < cfg.plan.len()
    &&& cfg.plan[i].enabled()
    &&& !cfg.plan[i].is_instant()
    &&& !(cfg.plan[i].is_lock() && s.is_locked)
}

/// When nothing holds the plan, the passing of time concerns the next step alone.
pub proof fn time_concerns_the_next_step(
    m: ManagerModel,
    s: StateModel,
    cfg: ConfigModel,
    now_ms: u64,
)
    requires
        m.effective(s) == Some(cfg),
        settled(s, cfg),
        !s.held(),
        waits(s, cfg),
    ensures
        ({
            let r = waiting_step(s, cfg, s.step_index as int, now_ms);
            m.handled(s, Event::Tick { now_ms }) == (Handled {
                manager: m,
                state: r.state,
                result: Ok(r.actions),
            })
        }),
{
    settled_needs_nothing(s, cfg, now_ms);
    on_tick(m, s, cfg, now_ms);
    let i = s.step_index as int;
    reveal(StateModel::past_lock);
    assert(next_enabled(cfg.plan, i) == i);
    assert(s.past_lock(cfg.plan) == s);
    reveal(advanced);
    let r = waiting_step(s, cfg, i, now_ms);
    assert(Seq::<ActionModel>::empty() + r.actions =~= r.actions);
    assert(Seq::<ActionModel>::empty() + (Seq::<ActionModel>::empty() + r.actions) =~= r.actions);
}

/// A step neither runs nor announces itself before it is due.
pub proof fn no_step_before_it_is_due(
    m: ManagerModel,
    s: StateModel,
    cfg: ConfigModel,
    now_ms: u64,
)
    requires
        m.effective(s) == Some(cfg),
        settled(s, cfg),
        !s.held(),
        waits(s, cfg),
        !s.sent_pre_action_notify,
        now_ms < due_at(s, cfg, cfg.plan[s.step_index as int]),
    ensures
        m.handled(s, Event::Tick { now_ms }) == (Handled {
            manager: m,
            state: s,
            result: Ok(Seq::empty()),
        }),
{
    time_concerns_the_next_step(m, s, cfg, now_ms);
}

/// A step without a notification runs once it is due. The step after it counts from then on,
/// without the debounce time.
pub proof fn step_runs_when_due(
    m: ManagerModel,
    s: StateModel,
    cfg: ConfigModel,
    now_ms: u64,
    next: StepModel,
)
    requires
        m.effective(s) == Some(cfg),
        settled(s, cfg),
        !s.held(),
        waits(s, cfg),
        !notifies(cfg, cfg.plan[s.step_index as int]),
        now_ms >= due_at(s, cfg, cfg.plan[s.step_index as int]),
        cfg.plan.len() <= usize::MAX,
    ensures
        ({
            let step = cfg.plan[s.step_index as int];
            let h = m.handled(s, Event::Tick { now_ms });
            &&& h.result == Ok::<Seq<ActionModel>, Error>(
                step.actions(s.is_locked, cfg.pre_suspend_command),
            )
            &&& h.state.step_index == s.step_index + 1
            &&& due_at(h.state, cfg, next) == later(now_ms, in_ms(next.timeout_seconds))
        }),
{
    time_concerns_the_next_step(m, s, cfg, now_ms);
}

/// A step with a notification announces itself once it is due, and runs as long after that as it
/// asks for, not before.
#[verifier::rlimit(30)]
pub proof fn notice_comes_first(
    m: ManagerModel,
    s: StateModel,
    cfg: ConfigModel,
    noticed: u64,
    now_ms: u64,
)
    requires
        m.effective(s) == Some(cfg),
        settled(s, cfg),
        !s.held(),
        waits(s, cfg),
        notifies(cfg, cfg.plan[s.step_index as int]),
        !s.sent_pre_action_notify,
        noticed >= due_at(s, cfg, cfg.plan[s.step_index as int]),
    ensures
        ({
            let step = cfg.plan[s.step_index as int];
            let wait = match step.notify_seconds_before {
                Some(n) => in_ms(n),
                None => 0,
            };
            let a = m.handled(s, Event::Tick { now_ms: noticed });
            let b = a.manager.handled(a.state, Event::Tick { now_ms });
            &&& a.result == Ok::<Seq<ActionModel>, Error>(
                seq![ActionModel::Notify { message: step.notification->0 }],
            )
            &&& b.result == Ok::<Seq<ActionModel>, Error>(
                if now_ms < later(noticed, wait) {
                    Seq::empty()
                } else {
                    step.actions(s.is_locked, cfg.pre_suspend_command)
                },
            )
        }),
{
    time_concerns_the_next_step(m, s, cfg, noticed);
    let a = m.handled(s, Event::Tick { now_ms: noticed }).state;
    assert(a == StateModel { sent_pre_action_notify: true, pre_action_notify_ms: noticed, ..s });
    time_concerns_the_next_step(m, a, cfg, now_ms);
}

// ---------------------------------------------------------------------------------------------
// All steps at once
// ---------------------------------------------------------------------------------------------

/// The actions of every step from `i` on that `all` means, in the order of the plan.
pub open spec fn actions_of_all(s: StateModel, cfg: ConfigModel, i: int) -> Seq<ActionModel>
    decreases cfg.plan.len() - i,
{
    if !(0 <= i < cfg.plan.len()) {
        Seq::empty()
    } else if in_all(s, cfg.plan[i]) {
        cfg.plan[i].actions(s.is_locked, cfg.pre_suspend_command) + actions_of_all(s, cfg, i + 1)
    } else {
        actions_of_all(s, cfg, i + 1)
    }
}

proof fn all_goes_through_the_plan(s: StateModel, t: StateModel, cfg: ConfigModel, i: int)
    requires
        0 <= i <= cfg.plan.len(),
        s.is_locked == t.is_locked,
    ensures
        all_from(t, cfg, i).actions == actions_of_all(s, cfg, i),
    decreases cfg.plan.len() - i,
{
    if i < cfg.plan.len() {
        let step = cfg.plan[i];
        if in_all(t, step) {
            let actions = step.actions(t.is_locked, cfg.pre_suspend_command);
            all_goes_through_the_plan(s, t.fired_if_any(actions, step, i), cfg, i + 1);
        } else {
            all_goes_through_the_plan(s, t, cfg, i + 1);
        }
    }
}

/// The trigger `all` runs every enabled step that is not instant, in the order of the plan, but
/// for the lock step of a locked session, and the plan is then at its end.
pub proof fn all_runs_every_step(
    m: ManagerModel,
    s: StateModel,
    cfg: ConfigModel,
    name: String,
    now_ms: u64,
)
    requires
        m.effective(s) == Some(cfg),
        settled(s, cfg),
        normalized(name@) == "all"@,
        cfg.plan.len() <= usize::MAX,
    ensures
        ({
            let h = m.handled(s, Event::ManualTrigger { name, now_ms });
            &&& h.result == Ok::<Seq<ActionModel>, Error>(actions_of_all(s, cfg, 0))
            &&& actions_of_all(s, cfg, 0).len() > 0 ==> h.state.step_index == cfg.plan.len()
        }),
{
    settled_needs_nothing(s, cfg, now_ms);
    reveal(ManagerModel::reacted);
    reveal(triggered);
    all_goes_through_the_plan(s, s, cfg, 0);
    let r = triggered(s, cfg, name@, now_ms);
    assert(Seq::<ActionModel>::empty() + r.actions =~= r.actions);
}

} // verus!
