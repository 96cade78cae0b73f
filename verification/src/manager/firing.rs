//! Laws on what a step does when its time has come, and on how that is remembered.

use vstd::prelude::*;

use super::behaviour::on_tick;
use super::laws::{settled, settled_needs_nothing};
use super::machine::{
    advanced, instant_fired, instants_from, next_enabled, prepared, startup_from, waiting_step,
    Handled, Stepped,
};
use super::resuming::activity_runs_what_is_due;
use super::triggers::{plain, spelled_is_normal};
use super::ManagerModel;
use crate::action::ActionModel;
use crate::config::types::{ConfigModel, KindModel, StepModel};
use crate::error::Error;
use crate::events::{ActivityKind, Event};
use crate::state::{KeyModel, StateModel};

verus! {

/// The user, the inhibitors and the system all let the plan go on.
pub open spec fn runs_free(s: StateModel) -> bool {
    &&& !s.manually_paused
    &&& s.app_inhibitor_count == 0
    &&& s.media_inhibitor_count == 0
    &&& !s.system_paused
}

/// The step at `j` is the next one of the plan with a command, it has to wait, and it is no lock
/// step of a locked session.
pub open spec fn is_next(s: StateModel, plan: Seq<StepModel>, j: int) -> bool {
    &&& s.step_index <= j < plan.len()
    &&& forall|k: int| s.step_index <= k < j ==> (#[trigger] plan[k]).command is None
    &&& plan[j].command is Some
    &&& plan[j].timeout_seconds > 0
    &&& !(plan[j].kind == KindModel::LockScreen && s.is_locked)
}

proof fn skips_disabled(s: StateModel, cfg: ConfigModel, i: int, j: int, now: u64)
    requires
        0 <= i <= j < cfg.plan.len(),
        forall|k: int| i <= k < j ==> (#[trigger] cfg.plan[k]).command is None,
        cfg.plan[j].command is Some,
        cfg.plan[j].timeout_seconds > 0,
        !(cfg.plan[j].kind == KindModel::LockScreen && s.is_locked),
    ensures
        instants_from(s, cfg, i, now).0.state == s,
        instants_from(s, cfg, i, now).0.actions == Seq::<ActionModel>::empty(),
        instants_from(s, cfg, i, now).1 == j,
        next_enabled(cfg.plan, i) == j,
    decreases j - i,
{
    if i < j {
        assert(cfg.plan[i].command is None);
        skips_disabled(s, cfg, i + 1, j, now);
    }
}

proof fn tick_concerns(m: ManagerModel, s: StateModel, cfg: ConfigModel, j: int, now_ms: u64)
    requires
        m.effective(s) == Some(cfg),
        settled(s, cfg),
        runs_free(s),
        is_next(s, cfg.plan, j),
    ensures
        ({
            let r = waiting_step(s, cfg, j, now_ms);
            m.handled(s, Event::Tick { now_ms }) == (Handled {
                manager: m,
                state: r.state,
                result: Ok(r.actions),
            })
        }),
{
    settled_needs_nothing(s, cfg, now_ms);
    on_tick(m, s, cfg, now_ms);
    let i = s.step_index as int;
    skips_disabled(s, cfg, i, j, now_ms);
    assert(s.past_lock(cfg.plan) == s) by {
        reveal(StateModel::past_lock);
    }
    reveal(advanced);
    let r = waiting_step(s, cfg, j, now_ms);
    assert(Seq::<ActionModel>::empty() + r.actions =~= r.actions);
    assert(Seq::<ActionModel>::empty() + (Seq::<ActionModel>::empty() + r.actions) =~= r.actions);
}

/// A step is due its own seconds after the step before it, and after activity the seconds of the
/// debounce later. Before that a tick changes nothing and asks for nothing.
pub proof fn step_waits_its_time(
    m: ManagerModel,
    s: StateModel,
    cfg: ConfigModel,
    j: int,
    now_ms: u64,
)
    requires
        m.effective(s) == Some(cfg),
        settled(s, cfg),
        runs_free(s),
        is_next(s, cfg.plan, j),
        !s.sent_pre_action_notify,
        now_ms < u64::MAX,
        now_ms < s.step_base_ms + 1000 * cfg.plan[j].timeout_seconds + (if s.debounce_pending {
            1000 * cfg.debounce_seconds
        } else {
            0
        }),
    ensures
        m.handled(s, Event::Tick { now_ms }) == (Handled {
            manager: m,
            state: s,
            result: Ok(Seq::empty()),
        }),
{
    tick_concerns(m, s, cfg, j, now_ms);
}

/// A step without a notice runs at the first tick at which it is due. A lock step starts its
/// locker; a suspend step runs what is to come before a suspend, and then its own command; any
/// other step runs its own command.
pub proof fn due_step_runs_its_command(
    m: ManagerModel,
    s: StateModel,
    cfg: ConfigModel,
    j: int,
    now_ms: u64,
)
    requires
        m.effective(s) == Some(cfg),
        settled(s, cfg),
        runs_free(s),
        is_next(s, cfg.plan, j),
        !cfg.notify_before_action || cfg.plan[j].notification is None,
        now_ms >= s.step_base_ms + 1000 * cfg.plan[j].timeout_seconds + (if s.debounce_pending {
            1000 * cfg.debounce_seconds
        } else {
            0
        }),
        cfg.plan.len() <= usize::MAX,
    ensures
        ({
            let h = m.handled(s, Event::Tick { now_ms });
            let c = cfg.plan[j].command->0;
            &&& h.result == Ok::<Seq<ActionModel>, Error>(
                match (cfg.plan[j].kind, cfg.pre_suspend_command) {
                    (KindModel::LockScreen, _) => seq![ActionModel::RunLockScreen { command: c }],
                    (KindModel::Suspend, Some(p)) => seq![
                        ActionModel::RunCommand { command: p },
                        ActionModel::RunCommand { command: c },
                    ],
                    _ => seq![ActionModel::RunCommand { command: c }],
                },
            )
            &&& h.state.step_index == j + 1
            &&& h.state.step_base_ms == now_ms
            &&& h.state.last_action_ms == now_ms
            &&& !h.state.debounce_pending
            &&& !h.state.sent_pre_action_notify
        }),
{
    tick_concerns(m, s, cfg, j, now_ms);
    let h = m.handled(s, Event::Tick { now_ms });
    assert(h.result->Ok_0 =~= match (cfg.plan[j].kind, cfg.pre_suspend_command) {
        (KindModel::LockScreen, _) => seq![
            ActionModel::RunLockScreen { command: cfg.plan[j].command->0 },
        ],
        (KindModel::Suspend, Some(p)) => seq![
            ActionModel::RunCommand { command: p },
            ActionModel::RunCommand { command: cfg.plan[j].command->0 },
        ],
        _ => seq![ActionModel::RunCommand { command: cfg.plan[j].command->0 }],
    });
}

/// A step that ran is remembered, the last of the screen, of the brightness and of the locks each
/// by itself; a step `early_dpms` counts as one of the screen. A resume is due for these, and for
/// every step with a resume command.
pub proof fn what_ran_is_remembered(
    m: ManagerModel,
    s: StateModel,
    cfg: ConfigModel,
    j: int,
    now_ms: u64,
)
    requires
        m.effective(s) == Some(cfg),
        settled(s, cfg),
        runs_free(s),
        is_next(s, cfg.plan, j),
        !cfg.notify_before_action || cfg.plan[j].notification is None,
        now_ms >= s.step_base_ms + 1000 * cfg.plan[j].timeout_seconds + (if s.debounce_pending {
            1000 * cfg.debounce_seconds
        } else {
            0
        }),
        cfg.plan.len() <= usize::MAX,
        s.resumed_epoch <= s.resume_epoch < u64::MAX,
    ensures
        ({
            let t = m.handled(s, Event::Tick { now_ms }).state;
            let kind = cfg.plan[j].kind;
            let screen = kind == KindModel::Dpms || kind == KindModel::Custom("early_dpms"@)
                || kind == KindModel::Custom("early-dpms"@);
            let other = kind matches KindModel::Custom(n) ==> plain(n) && n != "early-dpms"@;
            &&& t.fired_steps == s.fired_steps.update(j, true)
            &&& t.last_fired_idx == Some(j as usize)
            &&& screen ==> t.last_dpms_fired_idx == Some(j as usize)
            &&& kind != KindModel::Dpms && other ==> t.last_dpms_fired_idx == s.last_dpms_fired_idx
            &&& t.last_brightness_fired_idx == if kind == KindModel::Brightness {
                Some(j as usize)
            } else {
                s.last_brightness_fired_idx
            }
            &&& t.last_lock_fired_idx == if kind == KindModel::LockScreen {
                Some(j as usize)
            } else {
                s.last_lock_fired_idx
            }
            &&& t.resumed_epoch == s.resumed_epoch
            &&& screen || kind == KindModel::Brightness || kind == KindModel::LockScreen
                || cfg.plan[j].resume_command is Some ==> t.resume_epoch == s.resume_epoch + 1
            &&& (kind == KindModel::Suspend || kind == KindModel::Startup || kind is Custom && other)
                && cfg.plan[j].resume_command is None ==> t.resume_epoch == s.resume_epoch
            &&& t.one_shots_fired == s.one_shots_fired
            &&& t.is_locked == s.is_locked
        }),
{
    due_step_runs_its_command(m, s, cfg, j, now_ms);
    tick_concerns(m, s, cfg, j, now_ms);
    reveal_strlit("early_dpms");
    reveal_strlit("early-dpms");
    if let KindModel::Custom(n) = cfg.plan[j].kind {
        if plain(n) {
            spelled_is_normal(n, n);
        }
        spelled_is_normal("early_dpms"@, "early-dpms"@);
        spelled_is_normal("early-dpms"@, "early-dpms"@);
    }
}

/// In an open session, what ran last comes back at the next activity.
pub proof fn what_ran_is_resumed(
    m: ManagerModel,
    s: StateModel,
    cfg: ConfigModel,
    j: int,
    c: Seq<char>,
    kind: ActivityKind,
    ran: u64,
    back: u64,
)
    requires
        m.effective(s) == Some(cfg),
        settled(s, cfg),
        runs_free(s),
        is_next(s, cfg.plan, j),
        !cfg.notify_before_action || cfg.plan[j].notification is None,
        ran >= s.step_base_ms + 1000 * cfg.plan[j].timeout_seconds + (if s.debounce_pending {
            1000 * cfg.debounce_seconds
        } else {
            0
        }),
        cfg.plan.len() <= usize::MAX,
        s.resumed_epoch <= s.resume_epoch < u64::MAX,
        !s.is_locked,
        cfg.plan[j].resume_command == Some(c),
    ensures
        ({
            let a = m.handled(s, Event::Tick { now_ms: ran });
            let b = a.manager.handled(a.state, Event::UserActivity { kind, now_ms: back });
            b.result matches Ok(actions) && actions.contains(
                ActionModel::RunResumeCommand { command: c },
            )
        }),
{
    what_ran_is_remembered(m, s, cfg, j, ran);
    due_step_runs_its_command(m, s, cfg, j, ran);
    tick_concerns(m, s, cfg, j, ran);
    let t = m.handled(s, Event::Tick { now_ms: ran }).state;
    assert(settled(t, cfg));
    activity_runs_what_is_due(m, t, cfg, kind, back);
    assert(cfg.plan[(j as usize) as int].resume_command is Some);
}

/// A step with a notice shows it at the first tick at which the step is due, and nothing runs yet;
/// the step then runs the seconds that it asks for after the notice, and not before.
pub proof fn notice_precedes_the_command(
    m: ManagerModel,
    s: StateModel,
    cfg: ConfigModel,
    j: int,
    noticed: u64,
    now_ms: u64,
)
    requires
        m.effective(s) == Some(cfg),
        settled(s, cfg),
        runs_free(s),
        is_next(s, cfg.plan, j),
        cfg.notify_before_action,
        cfg.plan[j].notification is Some,
        !s.sent_pre_action_notify,
        noticed >= s.step_base_ms + 1000 * cfg.plan[j].timeout_seconds + (if s.debounce_pending {
            1000 * cfg.debounce_seconds
        } else {
            0
        }),
        cfg.plan.len() <= usize::MAX,
        now_ms < u64::MAX,
    ensures
        ({
            let a = m.handled(s, Event::Tick { now_ms: noticed });
            let b = a.manager.handled(a.state, Event::Tick { now_ms });
            let wait = match cfg.plan[j].notify_seconds_before {
                Some(n) => 1000 * n,
                None => 0,
            };
            let c = cfg.plan[j].command->0;
            &&& a.result == Ok::<Seq<ActionModel>, Error>(
                seq![ActionModel::Notify { message: cfg.plan[j].notification->0 }],
            )
            &&& a.state.step_index == s.step_index
            &&& now_ms < noticed + wait ==> b.result == Ok::<Seq<ActionModel>, Error>(Seq::empty())
                && b.state == a.state
            &&& now_ms >= noticed + wait ==> {
                &&& b.result == Ok::<Seq<ActionModel>, Error>(
                    match (cfg.plan[j].kind, cfg.pre_suspend_command) {
                        (KindModel::LockScreen, _) => seq![
                            ActionModel::RunLockScreen { command: c },
                        ],
                        (KindModel::Suspend, Some(p)) => seq![
                            ActionModel::RunCommand { command: p },
                            ActionModel::RunCommand { command: c },
                        ],
                        _ => seq![ActionModel::RunCommand { command: c }],
                    },
                )
                &&& b.state.step_index == j + 1
                &&& b.state.step_base_ms == now_ms
                &&& !b.state.debounce_pending
                &&& !b.state.sent_pre_action_notify
                &&& b.state.fired_steps == s.fired_steps.update(j, true)
                &&& b.state.last_fired_idx == Some(j as usize)
                &&& cfg.plan[j].kind == KindModel::Dpms ==> b.state.last_dpms_fired_idx == Some(
                    j as usize,
                )
                &&& cfg.plan[j].kind == KindModel::Brightness ==> b.state.last_brightness_fired_idx
                    == Some(j as usize)
                &&& cfg.plan[j].kind == KindModel::LockScreen ==> b.state.last_lock_fired_idx
                    == Some(j as usize)
            }
        }),
{
    tick_concerns(m, s, cfg, j, noticed);
    let a = m.handled(s, Event::Tick { now_ms: noticed }).state;
    assert(a == StateModel { sent_pre_action_notify: true, pre_action_notify_ms: noticed, ..s });
    assert(settled(a, cfg));
    tick_concerns(m, a, cfg, j, now_ms);
    let b = m.handled(a, Event::Tick { now_ms });
    if b.result->Ok_0.len() > 0 {
        assert(b.result->Ok_0 =~= match (cfg.plan[j].kind, cfg.pre_suspend_command) {
            (KindModel::LockScreen, _) => seq![
                ActionModel::RunLockScreen { command: cfg.plan[j].command->0 },
            ],
            (KindModel::Suspend, Some(p)) => seq![
                ActionModel::RunCommand { command: p },
                ActionModel::RunCommand { command: cfg.plan[j].command->0 },
            ],
            _ => seq![ActionModel::RunCommand { command: cfg.plan[j].command->0 }],
        });
    }
}

/// While the session is locked its lock step is passed over, and the step behind it counts from the
/// same time.
pub proof fn locked_session_passes_the_lock_step(
    m: ManagerModel,
    s: StateModel,
    cfg: ConfigModel,
    j: int,
    now_ms: u64,
)
    requires
        m.effective(s) == Some(cfg),
        settled(s, cfg),
        runs_free(s),
        s.is_locked,
        s.step_index < j < cfg.plan.len(),
        cfg.plan[s.step_index as int].kind == KindModel::LockScreen,
        cfg.plan[s.step_index as int].command is Some,
        is_next(StateModel { step_index: (s.step_index + 1) as usize, ..s }, cfg.plan, j),
        !cfg.notify_before_action || cfg.plan[j].notification is None,
        !s.debounce_pending,
        cfg.plan.len() <= usize::MAX,
    ensures
        ({
            let h = m.handled(s, Event::Tick { now_ms });
            let due = s.step_base_ms + 1000 * cfg.plan[j].timeout_seconds;
            &&& now_ms >= due ==> (h.result matches Ok(actions) && actions.len() > 0
                && actions.last() == (ActionModel::RunCommand { command: cfg.plan[j].command->0 }))
                && h.state.step_index == j + 1
            &&& now_ms < due && now_ms < u64::MAX ==> h.result == Ok::<Seq<ActionModel>, Error>(
                Seq::empty(),
            ) && h.state.step_base_ms == s.step_base_ms
        }),
{
    settled_needs_nothing(s, cfg, now_ms);
    on_tick(m, s, cfg, now_ms);
    let i = s.step_index as int;
    let t = s.past_lock(cfg.plan);
    skips_disabled(t, cfg, i + 1, j, now_ms);
    assert(t == StateModel {
        step_index: j as usize,
        sent_pre_action_notify: false,
        pre_action_notify_ms: 0,
        ..s
    }) by {
        reveal(StateModel::past_lock);
        assert(next_enabled(cfg.plan, i) == i);
    }
    skips_disabled(t, cfg, j, j, now_ms);
    reveal(advanced);
    let r = waiting_step(t, cfg, j, now_ms);
    assert(Seq::<ActionModel>::empty() + r.actions =~= r.actions);
    assert(Seq::<ActionModel>::empty() + (Seq::<ActionModel>::empty() + r.actions) =~= r.actions);
}

// ---------------------------------------------------------------------------------------------
// Steps that wait for nothing
// ---------------------------------------------------------------------------------------------

/// Every step up to `k` that has a command is a startup step that waits for nothing.
pub open spec fn in_front(plan: Seq<StepModel>, k: int) -> bool {
    &&& 0 <= k < plan.len()
    &&& forall|n: int|
        0 <= n <= k ==> (#[trigger] plan[n]).command is None || plan[n].kind == KindModel::Startup
            && plan[n].timeout_seconds == 0
}

/// A startup step in front of the plan that has not run yet runs with the others.
pub proof fn front_runs(s: StateModel, cfg: ConfigModel, i: int, k: int, now: u64)
    requires
        0 <= i <= k,
        in_front(cfg.plan, k),
        cfg.plan[k].command is Some,
        !s.one_shot_fired(cfg.plan[k]),
    ensures
        startup_from(s, cfg, i, now).actions.contains(
            ActionModel::RunCommand { command: cfg.plan[k].command->0 },
        ),
    decreases k - i,
{
    let plan = cfg.plan;
    let want = ActionModel::RunCommand { command: plan[k].command->0 };
    let all = startup_from(s, cfg, i, now).actions;
    assert(plan[i].command is None || plan[i].kind == KindModel::Startup
        && plan[i].timeout_seconds == 0);
    if plan[i].command is None || s.one_shot_fired(plan[i]) {
        front_runs(s, cfg, i + 1, k, now);
    } else {
        let step = plan[i];
        let actions = step.actions(s.is_locked, cfg.pre_suspend_command);
        let fired = StateModel { last_action_ms: now, ..s.step_fired(step, i) }.with_notify_sent(
            false,
        );
        let rest = startup_from(fired.with_one_shot(step), cfg, i + 1, now);
        assert(all == actions + rest.actions);
        if step.command == plan[k].command {
            assert(all[0] == want);
        } else {
            assert(step.key() != plan[k].key());
            front_runs(fired.with_one_shot(step), cfg, i + 1, k, now);
            let n = choose|n: int| 0 <= n < rest.actions.len() && rest.actions[n] == want;
            assert(all[1 + n] == want);
        }
    }
}

/// At the first event of a session every startup step in front of the plan that waits for nothing
/// runs.
pub proof fn startup_steps_run_at_once(
    m: ManagerModel,
    s: StateModel,
    cfg: ConfigModel,
    k: int,
    now_ms: u64,
)
    requires
        m.effective(s) == Some(cfg),
        s.one_shots_fired == Set::<KeyModel>::empty(),
        in_front(cfg.plan, k),
        cfg.plan[k].command is Some,
    ensures
        m.handled(s, Event::Tick { now_ms }).result matches Ok(actions) && actions.contains(
            ActionModel::RunCommand { command: cfg.plan[k].command->0 },
        ),
{
    let want = ActionModel::RunCommand { command: cfg.plan[k].command->0 };
    on_tick(m, s, cfg, now_ms);
    let ready = prepared(s, cfg, now_ms);
    assert(ready.actions.contains(want)) by {
        reveal(prepared);
        reveal(StateModel::refreshed);
        let lined_up = StateModel {
            debounce_seconds: cfg.debounce_seconds,
            ..s.sized(cfg.plan.len())
        }.refreshed(now_ms);
        front_runs(lined_up, cfg, 0, k, now_ms);
    }
    let n = choose|n: int| 0 <= n < ready.actions.len() && ready.actions[n] == want;
    let h = m.handled(s, Event::Tick { now_ms });
    assert(h.result->Ok_0[n] == want);
}

/// A step that waits for nothing runs as soon as the plan comes to it, and only once: it is
/// remembered, and the next time the plan passes over it.
pub proof fn instant_step_runs_once(
    m: ManagerModel,
    s: StateModel,
    cfg: ConfigModel,
    now_ms: u64,
    later_ms: u64,
)
    requires
        m.effective(s) == Some(cfg),
        settled(s, cfg),
        runs_free(s),
        s.step_index + 1 == cfg.plan.len(),
        cfg.plan[s.step_index as int].command is Some,
        cfg.plan[s.step_index as int].timeout_seconds == 0,
        cfg.plan[s.step_index as int].kind != KindModel::LockScreen,
        cfg.plan[s.step_index as int].kind != KindModel::Suspend,
        !s.one_shot_fired(cfg.plan[s.step_index as int]),
        cfg.plan.len() <= usize::MAX,
    ensures
        ({
            let i = s.step_index;
            let a = m.handled(s, Event::Tick { now_ms });
            let b = m.handled(
                StateModel { step_index: i, ..a.state },
                Event::Tick { now_ms: later_ms },
            );
            &&& a.result == Ok::<Seq<ActionModel>, Error>(
                seq![ActionModel::RunCommand { command: cfg.plan[i as int].command->0 }],
            )
            &&& a.state.step_index == cfg.plan.len()
            &&& b.result == Ok::<Seq<ActionModel>, Error>(Seq::empty())
            &&& b.state.step_index == cfg.plan.len()
        }),
{
    let i = s.step_index as int;
    settled_needs_nothing(s, cfg, now_ms);
    on_tick(m, s, cfg, now_ms);
    reveal(StateModel::past_lock);
    reveal(advanced);
    assert(next_enabled(cfg.plan, i) == i);
    assert(s.past_lock(cfg.plan) == s);
    let fired = instant_fired(s, cfg, i, now_ms);
    let (rest, at) = instants_from(fired.state, cfg, i + 1, now_ms);
    let a = m.handled(s, Event::Tick { now_ms });
    assert(a.result->Ok_0 =~= seq![
        ActionModel::RunCommand { command: cfg.plan[i].command->0 },
    ]);
    let again = StateModel { step_index: i as usize, ..a.state };
    assert(again.one_shot_fired(cfg.plan[i]));
    assert(settled(again, cfg));
    settled_needs_nothing(again, cfg, later_ms);
    on_tick(m, again, cfg, later_ms);
    assert(again.past_lock(cfg.plan) == again);
    reveal_with_fuel(instants_from, 3);
    let b = m.handled(again, Event::Tick { now_ms: later_ms });
    assert(b.result->Ok_0 =~= Seq::<ActionModel>::empty());
}

/// A step that waits for nothing is remembered as any other, and the next one counts from then on.
pub proof fn next_step_counts_from_the_instant(
    m: ManagerModel,
    s: StateModel,
    cfg: ConfigModel,
    now_ms: u64,
)
    requires
        m.effective(s) == Some(cfg),
        settled(s, cfg),
        runs_free(s),
        s.step_index + 1 < cfg.plan.len(),
        cfg.plan[s.step_index as int].command is Some,
        cfg.plan[s.step_index as int].timeout_seconds == 0,
        !(cfg.plan[s.step_index as int].kind == KindModel::LockScreen && s.is_locked),
        !s.one_shot_fired(cfg.plan[s.step_index as int]),
        cfg.plan[s.step_index + 1].command is Some,
        cfg.plan[s.step_index + 1].timeout_seconds > 0,
        !(cfg.plan[s.step_index + 1].kind == KindModel::LockScreen && s.is_locked),
        cfg.plan.len() <= usize::MAX,
        now_ms < u64::MAX,
    ensures
        ({
            let i = s.step_index as int;
            let h = m.handled(s, Event::Tick { now_ms });
            let c = cfg.plan[i].command->0;
            &&& h.result == Ok::<Seq<ActionModel>, Error>(
                match (cfg.plan[i].kind, cfg.pre_suspend_command) {
                    (KindModel::LockScreen, _) => seq![ActionModel::RunLockScreen { command: c }],
                    (KindModel::Suspend, Some(p)) => seq![
                        ActionModel::RunCommand { command: p },
                        ActionModel::RunCommand { command: c },
                    ],
                    _ => seq![ActionModel::RunCommand { command: c }],
                },
            )
            &&& h.state.step_index == i + 1
            &&& h.state.step_base_ms == now_ms
            &&& h.state.last_action_ms == now_ms
            &&& h.state.debounce_pending == s.debounce_pending
            &&& h.state.fired_steps == s.fired_steps.update(i, true)
            &&& h.state.last_fired_idx == Some(i as usize)
            &&& cfg.plan[i].kind == KindModel::Dpms ==> h.state.last_dpms_fired_idx == Some(
                i as usize,
            )
            &&& cfg.plan[i].kind == KindModel::Brightness ==> h.state.last_brightness_fired_idx
                == Some(i as usize)
            &&& cfg.plan[i].kind == KindModel::LockScreen ==> h.state.last_lock_fired_idx == Some(
                i as usize,
            )
            &&& cfg.plan[i].resume_command is Some ==> h.state.resume_epoch != s.resume_epoch
        }),
{
    let i = s.step_index as int;
    settled_needs_nothing(s, cfg, now_ms);
    on_tick(m, s, cfg, now_ms);
    assert(s.past_lock(cfg.plan) == s) by {
        reveal(StateModel::past_lock);
        assert(next_enabled(cfg.plan, i) == i);
    }
    reveal(advanced);
    let fired = instant_fired(s, cfg, i, now_ms);
    reveal_with_fuel(instants_from, 3);
    assert(instants_from(s, cfg, i, now_ms) == (
        Stepped { state: fired.state, actions: fired.actions + Seq::<ActionModel>::empty() },
        i + 1,
    ));
    let last = waiting_step(fired.state, cfg, i + 1, now_ms);
    assert(last.actions =~= Seq::<ActionModel>::empty());
    assert(last.state == fired.state);
    let h = m.handled(s, Event::Tick { now_ms });
    let c = cfg.plan[i].command->0;
    assert(h.result->Ok_0 =~= match (cfg.plan[i].kind, cfg.pre_suspend_command) {
        (KindModel::LockScreen, _) => seq![ActionModel::RunLockScreen { command: c }],
        (KindModel::Suspend, Some(p)) => seq![
            ActionModel::RunCommand { command: p },
            ActionModel::RunCommand { command: c },
        ],
        _ => seq![ActionModel::RunCommand { command: c }],
    });
}

proof fn fired_stays(s: StateModel, cfg: ConfigModel, i: int, k: int, now: u64)
    requires
        s.fired_steps.len() == cfg.plan.len(),
        cfg.plan.len() <= usize::MAX,
        0 <= i,
        0 <= k < cfg.plan.len(),
        s.fired_steps[k],
    ensures
        startup_from(s, cfg, i, now).state.fired_steps[k],
    decreases cfg.plan.len() - i,
{
    if i < cfg.plan.len() {
        let step = cfg.plan[i];
        let actions = step.actions(s.is_locked, cfg.pre_suspend_command);
        let fired = if actions.len() > 0 {
            StateModel { last_action_ms: now, ..s.step_fired(step, i) }.with_notify_sent(false)
        } else {
            s
        };
        fired_stays(s, cfg, i + 1, k, now);
        fired_stays(fired.with_one_shot(step), cfg, i + 1, k, now);
    }
}

proof fn front_is_marked(s: StateModel, cfg: ConfigModel, i: int, k: int, now: u64)
    requires
        s.fired_steps.len() == cfg.plan.len(),
        cfg.plan.len() <= usize::MAX,
        0 <= i <= k,
        in_front(cfg.plan, k),
        cfg.plan[k].command is Some,
        !s.one_shot_fired(cfg.plan[k]),
        forall|n: int|
            i <= n < k ==> (#[trigger] cfg.plan[n]).command != cfg.plan[k].command,
    ensures
        startup_from(s, cfg, i, now).state.fired_steps[k],
    decreases k - i,
{
    let plan = cfg.plan;
    let step = plan[i];
    assert(step.command is None || step.kind == KindModel::Startup && step.timeout_seconds == 0);
    if step.command is None || s.one_shot_fired(step) {
        front_is_marked(s, cfg, i + 1, k, now);
    } else {
        let fired = StateModel { last_action_ms: now, ..s.step_fired(step, i) }.with_notify_sent(
            false,
        ).with_one_shot(step);
        if i == k {
            fired_stays(fired, cfg, i + 1, k, now);
        } else {
            assert(step.key() != plan[k].key());
            front_is_marked(fired, cfg, i + 1, k, now);
        }
    }
}

/// A startup step that ran is remembered as any other.
pub proof fn startup_steps_are_remembered(
    m: ManagerModel,
    s: StateModel,
    cfg: ConfigModel,
    k: int,
    now_ms: u64,
)
    requires
        m.effective(s) == Some(cfg),
        s.one_shots_fired == Set::<KeyModel>::empty(),
        in_front(cfg.plan, k),
        cfg.plan[k].command is Some,
        forall|n: int|
            0 <= n < k ==> (#[trigger] cfg.plan[n]).command != cfg.plan[k].command,
        cfg.plan.len() <= usize::MAX,
    ensures
        m.handled(s, Event::CompositorIdled { now_ms }).state.fired_steps[k],
{
    reveal(ManagerModel::reacted);
    reveal(prepared);
    reveal(StateModel::refreshed);
    let lined_up = StateModel {
        debounce_seconds: cfg.debounce_seconds,
        ..s.sized(cfg.plan.len())
    }.refreshed(now_ms);
    front_is_marked(lined_up, cfg, 0, k, now_ms);
}

/// Two steps are remembered as one exactly if they are of the same kind and run the same command.
pub proof fn steps_are_told_apart(a: StepModel, b: StepModel)
    requires
        a.command is Some,
        b.command is Some,
    ensures
        a.key() == b.key() <==> a.command == b.command && a.kind == b.kind,
{
    reveal_strlit("Startup");
    reveal_strlit("Brightness");
    reveal_strlit("LockScreen");
    reveal_strlit("Dpms");
    reveal_strlit("Suspend");
    reveal_strlit("custom:");
    assert("Startup"@[0] == 'S' && "Startup"@[1] == 't' && "Suspend"@[0] == 'S' && "Suspend"@[1]
        == 'u' && "Brightness"@[0] == 'B' && "LockScreen"@[0] == 'L' && "Dpms"@[0] == 'D');
    if let KindModel::Custom(x) = a.kind {
        assert(a.kind.name()[0] == 'c');
        assert(a.kind.name().skip(7) =~= x);
    }
    if let KindModel::Custom(y) = b.kind {
        assert(b.kind.name()[0] == 'c');
        assert(b.kind.name().skip(7) =~= y);
    }
}

} // verus!
