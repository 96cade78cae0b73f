//! Laws on the trigger for all steps, and on what the user is shown.

use vstd::prelude::*;

use super::info::{
    config_lines, name_width, next_line, pattern_list, plan_row, plan_rows, plan_table,
    source_name, timeout_width, yes_or_no,
};
use super::laws::{settled, settled_needs_nothing};
use super::list::{action_line, action_lines, action_list, name_lines, names_of, profile_list};
use super::machine::{all_from, next_enabled, next_enabled_is_next, notifies, triggered};
use super::timing::{actions_of_all, all_runs_every_step};
use super::triggers::{own_name_means_the_step, plain, plain_char, spelled_is_normal, spells};
use super::ManagerModel;
use crate::action::ActionModel;
use crate::config::types::{ConfigModel, KindModel, PlanSource, ProfileModel, StepModel};
use crate::events::Event;
use crate::state::StateModel;
use crate::text::numbers::{decimal, padded_left, padded_right};
use crate::text::order::{sorted_once, sorting_sorts};
use crate::text::strings::{has_part, part_stays, spaces, whole_is_a_part};

verus! {

// ---------------------------------------------------------------------------------------------
// All steps
// ---------------------------------------------------------------------------------------------

/// The step runs when all are asked for: it has a command, it has to wait otherwise, and it is no
/// lock step of a locked session.
pub open spec fn waits_its_turn(s: StateModel, step: StepModel) -> bool {
    &&& step.command is Some
    &&& step.timeout_seconds > 0
    &&& !(step.kind == KindModel::LockScreen && s.is_locked)
}

/// An action of the step.
pub open spec fn belongs(a: ActionModel, step: StepModel, pre_suspend: Option<Seq<char>>) -> bool {
    ||| step.kind == KindModel::LockScreen && (step.command matches Some(c) && a
        == (ActionModel::RunLockScreen { command: c }))
    ||| step.kind != KindModel::LockScreen && (step.command matches Some(c) && a
        == (ActionModel::RunCommand { command: c }))
    ||| step.kind == KindModel::Suspend && (pre_suspend matches Some(c) && a
        == (ActionModel::RunCommand { command: c }))
}

proof fn waiting_step_has_its_turn(s: StateModel, cfg: ConfigModel, i: int, k: int)
    requires
        0 <= i <= k < cfg.plan.len(),
        waits_its_turn(s, cfg.plan[k]),
    ensures
        cfg.plan[k].kind == KindModel::LockScreen ==> actions_of_all(s, cfg, i).contains(
            ActionModel::RunLockScreen { command: cfg.plan[k].command->0 },
        ),
        cfg.plan[k].kind != KindModel::LockScreen ==> actions_of_all(s, cfg, i).contains(
            ActionModel::RunCommand { command: cfg.plan[k].command->0 },
        ),
    decreases k - i,
{
    let want = if cfg.plan[k].kind == KindModel::LockScreen {
        ActionModel::RunLockScreen { command: cfg.plan[k].command->0 }
    } else {
        ActionModel::RunCommand { command: cfg.plan[k].command->0 }
    };
    let own = cfg.plan[i].actions(s.is_locked, cfg.pre_suspend_command);
    let rest = actions_of_all(s, cfg, i + 1);
    let all = own + rest;
    if i < k {
        waiting_step_has_its_turn(s, cfg, i + 1, k);
        let n = choose|n: int| 0 <= n < rest.len() && rest[n] == want;
        assert(all[own.len() + n] == want);
        assert(all.contains(want));
    } else {
        assert(own.last() == want);
        assert(all[own.len() - 1] == want);
        assert(all.contains(want));
    }
}

proof fn nothing_else_has_a_turn(s: StateModel, cfg: ConfigModel, i: int, a: ActionModel)
    requires
        0 <= i <= cfg.plan.len(),
        actions_of_all(s, cfg, i).contains(a),
    ensures
        exists|k: int|
            i <= k < cfg.plan.len() && waits_its_turn(s, #[trigger] cfg.plan[k]) && belongs(
                a,
                cfg.plan[k],
                cfg.pre_suspend_command,
            ),
    decreases cfg.plan.len() - i,
{
    let all = actions_of_all(s, cfg, i);
    let n = choose|n: int| 0 <= n < all.len() && all[n] == a;
    if i < cfg.plan.len() {
        let own = cfg.plan[i].actions(s.is_locked, cfg.pre_suspend_command);
        let rest = actions_of_all(s, cfg, i + 1);
        if waits_its_turn(s, cfg.plan[i]) {
            if n < own.len() {
                assert(own[n] == a);
                assert(belongs(a, cfg.plan[i], cfg.pre_suspend_command));
            } else {
                assert(rest[n - own.len()] == a);
                assert(rest.contains(a));
                nothing_else_has_a_turn(s, cfg, i + 1, a);
            }
        } else {
            assert(rest[n] == a);
            assert(rest.contains(a));
            nothing_else_has_a_turn(s, cfg, i + 1, a);
        }
    }
}

/// The trigger `all` runs the command of every step that would have to wait for its time, and
/// nothing else; the plan is then at its end.
pub proof fn all_runs_what_would_wait(
    m: ManagerModel,
    s: StateModel,
    cfg: ConfigModel,
    name: String,
    now_ms: u64,
    k: int,
    a: ActionModel,
)
    requires
        m.effective(s) == Some(cfg),
        settled(s, cfg),
        cfg.plan.len() <= usize::MAX,
        spells(name@, "all"@),
    ensures
        m.handled(s, Event::ManualTrigger { name, now_ms }).result matches Ok(actions) && {
            &&& 0 <= k < cfg.plan.len() && waits_its_turn(s, cfg.plan[k]) ==> {
                &&& cfg.plan[k].kind == KindModel::LockScreen ==> actions.contains(
                    ActionModel::RunLockScreen { command: cfg.plan[k].command->0 },
                )
                &&& cfg.plan[k].kind != KindModel::LockScreen ==> actions.contains(
                    ActionModel::RunCommand { command: cfg.plan[k].command->0 },
                )
                &&& m.handled(s, Event::ManualTrigger { name, now_ms }).state.step_index
                    == cfg.plan.len()
            }
            &&& actions.contains(a) ==> exists|j: int|
                0 <= j < cfg.plan.len() && waits_its_turn(s, #[trigger] cfg.plan[j]) && belongs(
                    a,
                    cfg.plan[j],
                    cfg.pre_suspend_command,
                )
        },
{
    reveal_strlit("all");
    assert(plain("all"@));
    spelled_is_normal(name@, "all"@);
    all_runs_every_step(m, s, cfg, name, now_ms);
    if 0 <= k < cfg.plan.len() && waits_its_turn(s, cfg.plan[k]) {
        waiting_step_has_its_turn(s, cfg, 0, k);
    }
    if actions_of_all(s, cfg, 0).contains(a) {
        nothing_else_has_a_turn(s, cfg, 0, a);
    }
}

proof fn fired_by_all_stays(s: StateModel, cfg: ConfigModel, i: int, k: int)
    requires
        s.fired_steps.len() == cfg.plan.len(),
        cfg.plan.len() <= usize::MAX,
        0 <= i,
        0 <= k < cfg.plan.len(),
        s.fired_steps[k],
    ensures
        all_from(s, cfg, i).state.fired_steps[k],
    decreases cfg.plan.len() - i,
{
    if i < cfg.plan.len() {
        let step = cfg.plan[i];
        let actions = step.actions(s.is_locked, cfg.pre_suspend_command);
        fired_by_all_stays(s, cfg, i + 1, k);
        fired_by_all_stays(s.fired_if_any(actions, step, i), cfg, i + 1, k);
    }
}

/// No step of one of these sorts behind `k` has its turn.
pub open spec fn last_of_sort(
    s: StateModel,
    plan: Seq<StepModel>,
    k: int,
    sort: KindModel,
) -> bool {
    forall|n: int|
        k < n < plan.len() && waits_its_turn(s, #[trigger] plan[n]) ==> plan[n].kind != sort && !(
        plan[n].kind is Custom)
}

proof fn all_after(s: StateModel, cfg: ConfigModel, i: int)
    requires
        s.fired_steps.len() == cfg.plan.len(),
        cfg.plan.len() <= usize::MAX,
        0 <= i,
    ensures
        ({
            let t = all_from(s, cfg, i).state;
            &&& last_of_sort(s, cfg.plan, i - 1, KindModel::Dpms) ==> t.last_dpms_fired_idx
                == s.last_dpms_fired_idx
            &&& last_of_sort(s, cfg.plan, i - 1, KindModel::Brightness)
                ==> t.last_brightness_fired_idx == s.last_brightness_fired_idx
            &&& last_of_sort(s, cfg.plan, i - 1, KindModel::LockScreen) ==> t.last_lock_fired_idx
                == s.last_lock_fired_idx
            &&& (forall|n: int|
                i <= n < cfg.plan.len() ==> !waits_its_turn(s, #[trigger] cfg.plan[n]))
                ==> t.last_fired_idx == s.last_fired_idx
        }),
    decreases cfg.plan.len() - i,
{
    if i < cfg.plan.len() {
        let step = cfg.plan[i];
        let actions = step.actions(s.is_locked, cfg.pre_suspend_command);
        let fired = s.fired_if_any(actions, step, i);
        assert(fired.is_locked == s.is_locked);
        all_after(s, cfg, i + 1);
        all_after(fired, cfg, i + 1);
        assert(forall|n: int|
            waits_its_turn(fired, #[trigger] cfg.plan[n]) == waits_its_turn(s, cfg.plan[n]));
        if waits_its_turn(s, step) {
            if last_of_sort(s, cfg.plan, i - 1, KindModel::Dpms) {
                assert(last_of_sort(fired, cfg.plan, i, KindModel::Dpms));
            }
            if last_of_sort(s, cfg.plan, i - 1, KindModel::Brightness) {
                assert(last_of_sort(fired, cfg.plan, i, KindModel::Brightness));
            }
            if last_of_sort(s, cfg.plan, i - 1, KindModel::LockScreen) {
                assert(last_of_sort(fired, cfg.plan, i, KindModel::LockScreen));
            }
        } else {
            if last_of_sort(s, cfg.plan, i - 1, KindModel::Dpms) {
                assert(last_of_sort(s, cfg.plan, i, KindModel::Dpms));
            }
            if last_of_sort(s, cfg.plan, i - 1, KindModel::Brightness) {
                assert(last_of_sort(s, cfg.plan, i, KindModel::Brightness));
            }
            if last_of_sort(s, cfg.plan, i - 1, KindModel::LockScreen) {
                assert(last_of_sort(s, cfg.plan, i, KindModel::LockScreen));
            }
        }
    }
}

proof fn all_marks(s: StateModel, cfg: ConfigModel, i: int, k: int)
    requires
        s.fired_steps.len() == cfg.plan.len(),
        cfg.plan.len() <= usize::MAX,
        0 <= i <= k < cfg.plan.len(),
        waits_its_turn(s, cfg.plan[k]),
    ensures
        ({
            let t = all_from(s, cfg, i).state;
            let kind = cfg.plan[k].kind;
            &&& t.fired_steps[k]
            &&& kind == KindModel::Dpms && last_of_sort(s, cfg.plan, k, kind)
                ==> t.last_dpms_fired_idx == Some(k as usize)
            &&& kind == KindModel::Brightness && last_of_sort(s, cfg.plan, k, kind)
                ==> t.last_brightness_fired_idx == Some(k as usize)
            &&& kind == KindModel::LockScreen && last_of_sort(s, cfg.plan, k, kind)
                ==> t.last_lock_fired_idx == Some(k as usize)
            &&& (forall|n: int|
                k < n < cfg.plan.len() ==> !waits_its_turn(s, #[trigger] cfg.plan[n]))
                ==> t.last_fired_idx == Some(k as usize)
        }),
    decreases k - i,
{
    let step = cfg.plan[i];
    let actions = step.actions(s.is_locked, cfg.pre_suspend_command);
    let fired = s.fired_if_any(actions, step, i);
    assert(fired.is_locked == s.is_locked);
    assert(forall|n: int|
        waits_its_turn(fired, #[trigger] cfg.plan[n]) == waits_its_turn(s, cfg.plan[n]));
    if i < k {
        all_marks(s, cfg, i + 1, k);
        all_marks(fired, cfg, i + 1, k);
        let kind = cfg.plan[k].kind;
        if last_of_sort(s, cfg.plan, k, kind) {
            assert(last_of_sort(fired, cfg.plan, k, kind));
        }
    } else {
        assert(fired.fired_steps[k]);
        fired_by_all_stays(fired, cfg, i + 1, k);
        all_after(fired, cfg, i + 1);
        let kind = cfg.plan[k].kind;
        if last_of_sort(s, cfg.plan, k, kind) {
            assert(last_of_sort(fired, cfg.plan, k, kind));
        }
    }
}

/// What the trigger `all` runs is remembered as if each step had run in its time: each of them, and
/// the last of the screen, of the brightness and of the locks.
pub proof fn what_all_ran_is_remembered(
    m: ManagerModel,
    s: StateModel,
    cfg: ConfigModel,
    name: String,
    now_ms: u64,
    k: int,
)
    requires
        m.effective(s) == Some(cfg),
        settled(s, cfg),
        cfg.plan.len() <= usize::MAX,
        spells(name@, "all"@),
        0 <= k < cfg.plan.len(),
        waits_its_turn(s, cfg.plan[k]),
    ensures
        ({
            let t = m.handled(s, Event::ManualTrigger { name, now_ms }).state;
            let kind = cfg.plan[k].kind;
            &&& t.fired_steps[k]
            &&& t.step_base_ms == now_ms
            &&& t.last_action_ms == now_ms
            &&& !t.debounce_pending
            &&& !t.sent_pre_action_notify
            &&& kind == KindModel::Dpms && last_of_sort(s, cfg.plan, k, kind)
                ==> t.last_dpms_fired_idx == Some(k as usize)
            &&& kind == KindModel::Brightness && last_of_sort(s, cfg.plan, k, kind)
                ==> t.last_brightness_fired_idx == Some(k as usize)
            &&& kind == KindModel::LockScreen && last_of_sort(s, cfg.plan, k, kind)
                ==> t.last_lock_fired_idx == Some(k as usize)
            &&& (forall|n: int|
                k < n < cfg.plan.len() ==> !waits_its_turn(s, #[trigger] cfg.plan[n]))
                ==> t.last_fired_idx == Some(k as usize)
        }),
{
    reveal_strlit("all");
    assert(plain("all"@));
    spelled_is_normal(name@, "all"@);
    all_runs_every_step(m, s, cfg, name, now_ms);
    waiting_step_has_its_turn(s, cfg, 0, k);
    all_marks(s, cfg, 0, k);
    settled_needs_nothing(s, cfg, now_ms);
    reveal(ManagerModel::reacted);
    reveal(triggered);
    let r = triggered(s, cfg, name@, now_ms);
    assert(Seq::<ActionModel>::empty() + r.actions =~= r.actions);
}

// ---------------------------------------------------------------------------------------------
// Lists
// ---------------------------------------------------------------------------------------------

/// The name that the list gives to a step is one by which it can be triggered.
pub proof fn listed_name_triggers_the_step(step: StepModel, own: Seq<char>)
    requires
        step.kind matches KindModel::Custom(written) ==> plain(own) && spells(written, own),
    ensures
        step.triggered_by(step.kind.trigger_name()),
{
    reveal_strlit("startup");
    reveal_strlit("brightness");
    reveal_strlit("dpms");
    reveal_strlit("suspend");
    reveal_strlit("lock-screen");
    reveal_strlit("lockscreen");
    reveal_strlit("lock");
    reveal_strlit("custom:");
    assert(plain("startup"@) && plain("brightness"@) && plain("dpms"@) && plain("suspend"@)
        && plain("lock-screen"@));
    spelled_is_normal("startup"@, "startup"@);
    spelled_is_normal("brightness"@, "brightness"@);
    spelled_is_normal("dpms"@, "dpms"@);
    spelled_is_normal("suspend"@, "suspend"@);
    spelled_is_normal("lock-screen"@, "lock-screen"@);
    assert("startup"@[0] == 's' && "brightness"@[0] == 'b' && "dpms"@[0] == 'd' && "suspend"@[0]
        == 's' && "lockscreen"@[0] == 'l' && "lock"@[0] == 'l');
    if let KindModel::Custom(written) = step.kind {
        spelled_is_normal(written, own);
        let name = "custom:"@ + own;
        assert forall|i: int| 0 <= i < name.len() implies plain_char(#[trigger] name[i]) by {
            if i >= 7 {
                assert(name[i] == own[i - 7]);
                assert(plain_char(own[i - 7]));
            }
        }
        assert(name[0] == 'c');
        own_name_means_the_step(step, own, written, name);
    }
}

proof fn line_shows_the_command(i: int, step: StepModel)
    requires
        step.command is Some,
    ensures
        has_part(action_line(i, step), step.command->0),
        has_part(action_line(i, step), decimal(step.timeout_seconds as nat)),
{
    let c = step.command->0;
    let d = decimal(step.timeout_seconds as nat);
    let start = "  "@ + padded_left(decimal(i as nat), 2) + ". "@
        + padded_right(step.kind.trigger_name(), 18) + " timeout="@;
    let mid = if step.is_instant() {
        "s (instant) cmd="@
    } else {
        "s cmd="@
    };
    whole_is_a_part(c);
    whole_is_a_part(d);
    part_stays(start, d, d);
    part_stays(start + d, mid, d);
    part_stays(start + d + mid, c, d);
    part_stays(start + d + mid, c, c);
    let head = start + d + mid + c;
    let full = match (step.notification, step.notify_seconds_before) {
        (Some(msg), Some(sec)) => head + " notify="@ + decimal(sec as nat) + "s \""@ + msg + "\""@,
        (Some(msg), None) => head + " notify \""@ + msg + "\""@,
        _ => head,
    };
    match (step.notification, step.notify_seconds_before) {
        (Some(msg), Some(sec)) => {
            let n = decimal(sec as nat);
            let a = head + " notify="@;
            part_stays(head, " notify="@, c);
            part_stays(head, " notify="@, d);
            part_stays(a, n, c);
            part_stays(a, n, d);
            part_stays(a + n, "s \""@, c);
            part_stays(a + n, "s \""@, d);
            part_stays(a + n + "s \""@, msg, c);
            part_stays(a + n + "s \""@, msg, d);
            part_stays(a + n + "s \""@ + msg, "\""@, c);
            part_stays(a + n + "s \""@ + msg, "\""@, d);
        },
        (Some(msg), None) => {
            let a = head + " notify \""@;
            part_stays(head, " notify \""@, c);
            part_stays(head, " notify \""@, d);
            part_stays(a, msg, c);
            part_stays(a, msg, d);
            part_stays(a + msg, "\""@, c);
            part_stays(a + msg, "\""@, d);
        },
        _ => {},
    }
    part_stays(full, "\n"@, c);
    part_stays(full, "\n"@, d);
    assert(action_line(i, step) == full + "\n"@);
}

proof fn steps_are_listed(plan: Seq<StepModel>, n: int, k: int)
    requires
        0 <= k < n <= plan.len(),
        plan[k].command is Some,
    ensures
        has_part(action_lines(plan, n), plan[k].command->0),
        has_part(action_lines(plan, n), decimal(plan[k].timeout_seconds as nat)),
    decreases n,
{
    let c = plan[k].command->0;
    let d = decimal(plan[k].timeout_seconds as nat);
    let line = action_line(n - 1, plan[n - 1]);
    if k == n - 1 {
        line_shows_the_command(k, plan[k]);
        part_stays(action_lines(plan, n - 1), line, c);
        part_stays(action_lines(plan, n - 1), line, d);
    } else {
        steps_are_listed(plan, n - 1, k);
        part_stays(action_lines(plan, n - 1), line, c);
        part_stays(action_lines(plan, n - 1), line, d);
    }
}

/// The list of actions has every step of the plan in effect that has a command, with that command
/// and its time.
pub proof fn every_step_is_listed(cfg: ConfigModel, k: int)
    requires
        0 <= k < cfg.plan.len(),
        cfg.plan[k].command is Some,
    ensures
        has_part(action_list(Some(cfg)), cfg.plan[k].command->0),
        has_part(action_list(Some(cfg)), decimal(cfg.plan[k].timeout_seconds as nat)),
{
    steps_are_listed(cfg.plan, cfg.plan.len() as int, k);
}

proof fn names_are_listed(names: Seq<Seq<char>>, n: int, k: int)
    requires
        0 <= k < n <= names.len(),
    ensures
        has_part(name_lines(names, n), names[k]),
    decreases n,
{
    let before = name_lines(names, n - 1);
    if k == n - 1 {
        whole_is_a_part(names[k]);
        part_stays(before + "  "@, names[k], names[k]);
    } else {
        names_are_listed(names, n - 1, k);
        part_stays(before, "  "@, names[k]);
        part_stays(before + "  "@, names[n - 1], names[k]);
    }
    part_stays(before + "  "@ + names[n - 1], "\n"@, names[k]);
}

/// The list of profiles has every profile of the file.
pub proof fn every_profile_is_listed(profiles: Seq<ProfileModel>, k: int)
    requires
        0 <= k < profiles.len(),
    ensures
        has_part(profile_list(profiles), profiles[k].name),
{
    let all = names_of(profiles);
    let names = sorted_once(all);
    assert(all[k] == profiles[k].name);
    sorting_sorts(all);
    assert(all.contains(profiles[k].name));
    assert(names.contains(profiles[k].name));
    let i = choose|i: int| 0 <= i < names.len() && names[i] == profiles[k].name;
    names_are_listed(names, names.len() as int, i);
}

// ---------------------------------------------------------------------------------------------
// The state
// ---------------------------------------------------------------------------------------------

/// The state in a word says what keeps the plan from going on: the lock first, then the user, then
/// what inhibits, and last the debounce.
pub proof fn word_tells_what_holds_the_plan(m: ManagerModel, s: StateModel, now_ms: u64)
    ensures
        ({
            let free = s.app_inhibitor_count == 0 && s.media_inhibitor_count == 0
                && !s.system_paused;
            let bar = m.bar(s, now_ms);
            &&& s.is_locked ==> s.word() == "locked"@
            &&& !s.is_locked && s.manually_paused ==> s.word() == "manual"@
            &&& !s.is_locked && !s.manually_paused && !free ==> s.word() == "inhibited"@
            &&& !s.is_locked && !s.manually_paused && free && s.debounce_pending ==> s.word()
                == "waiting"@
            &&& !s.is_locked && !s.manually_paused && free && !s.debounce_pending ==> s.word()
                == "active"@
            &&& bar.text == s.word()
            &&& bar.alt == bar.class
            &&& s.manually_paused ==> bar.class == "manually_inhibited"@
            &&& !s.manually_paused && (!free || s.is_locked) ==> bar.class == "idle_inhibited"@
            &&& !s.manually_paused && free && !s.is_locked && s.debounce_pending ==> bar.class
                == "idle_waiting"@
            &&& !s.manually_paused && free && !s.is_locked && !s.debounce_pending ==> bar.class
                == "idle_active"@
            &&& s.active_profile matches Some(n) ==> bar.profile == Some(n)
            &&& s.active_profile is None ==> bar.profile == Some("default"@)
        }),
{
}

proof fn pair_is_a_part(before: Seq<char>, a: Seq<char>, b: Seq<char>)
    ensures
        has_part(before + a + b, a + b),
{
    let p = a + b;
    assert(before + a + b =~= before + p);
    whole_is_a_part(p);
    part_stays(before, p, p);
}

/// The lines on the state say what the state is, each behind its own name.
pub proof fn status_tells_the_state(s: StateModel)
    ensures
        s.active_profile matches Some(n) ==> has_part(s.lines(), "Profile: "@ + n),
        s.active_profile is None ==> has_part(s.lines(), "Profile: "@ + "none"@),
        s.plan_source == PlanSource::Desktop ==> has_part(
            s.lines(),
            "\nPlan Source: "@ + "Desktop"@,
        ),
        s.plan_source == PlanSource::Ac ==> has_part(s.lines(), "\nPlan Source: "@ + "Ac"@),
        s.plan_source == PlanSource::Battery ==> has_part(
            s.lines(),
            "\nPlan Source: "@ + "Battery"@,
        ),
        s.manually_paused ==> has_part(s.lines(), "\nManual Pause: "@ + "yes"@),
        !s.manually_paused ==> has_part(s.lines(), "\nManual Pause: "@ + "no"@),
        s.paused ==> has_part(s.lines(), "\nPaused: "@ + "yes"@),
        !s.paused ==> has_part(s.lines(), "\nPaused: "@ + "no"@),
        has_part(s.lines(), "\nState: "@ + s.word()),
        has_part(
            s.lines(),
            "\nApps Inhibiting: "@ + decimal(s.app_inhibitor_count as nat),
        ),
        has_part(
            s.lines(),
            "\nMedia Players Playing: "@ + decimal(s.media_inhibitor_count as nat),
        ),
{
    let l0 = "Profile: "@;
    let v0 = s.profile_label();
    let l1 = "\nPlan Source: "@;
    let v1 = source_name(s.plan_source);
    let l2 = "\nState: "@;
    let v2 = s.word();
    let l3 = "\nManual Pause: "@;
    let v3 = yes_or_no(s.manually_paused);
    let l4 = "\nPaused: "@;
    let v4 = yes_or_no(s.paused);
    let l5 = "\nApps Inhibiting: "@;
    let v5 = decimal(s.app_inhibitor_count as nat);
    let l6 = "\nMedia Players Playing: "@;
    let v6 = decimal(s.media_inhibitor_count as nat);
    let end = "\n"@;
    let s1 = l0 + v0;
    let s2 = s1 + l1;
    let s3 = s2 + v1;
    let s4 = s3 + l2;
    let s5 = s4 + v2;
    let s6 = s5 + l3;
    let s7 = s6 + v3;
    let s8 = s7 + l4;
    let s9 = s8 + v4;
    let s10 = s9 + l5;
    let s11 = s10 + v5;
    let s12 = s11 + l6;
    let s13 = s12 + v6;
    let s14 = s13 + end;
    pair_is_a_part(Seq::<char>::empty(), l0, v0);
    assert(Seq::<char>::empty() + l0 =~= l0);
    part_stays(s1, l1, l0 + v0);
    part_stays(s2, v1, l0 + v0);
    part_stays(s3, l2, l0 + v0);
    part_stays(s4, v2, l0 + v0);
    part_stays(s5, l3, l0 + v0);
    part_stays(s6, v3, l0 + v0);
    part_stays(s7, l4, l0 + v0);
    part_stays(s8, v4, l0 + v0);
    part_stays(s9, l5, l0 + v0);
    part_stays(s10, v5, l0 + v0);
    part_stays(s11, l6, l0 + v0);
    part_stays(s12, v6, l0 + v0);
    part_stays(s13, end, l0 + v0);
    pair_is_a_part(s1, l1, v1);
    part_stays(s3, l2, l1 + v1);
    part_stays(s4, v2, l1 + v1);
    part_stays(s5, l3, l1 + v1);
    part_stays(s6, v3, l1 + v1);
    part_stays(s7, l4, l1 + v1);
    part_stays(s8, v4, l1 + v1);
    part_stays(s9, l5, l1 + v1);
    part_stays(s10, v5, l1 + v1);
    part_stays(s11, l6, l1 + v1);
    part_stays(s12, v6, l1 + v1);
    part_stays(s13, end, l1 + v1);
    pair_is_a_part(s3, l2, v2);
    part_stays(s5, l3, l2 + v2);
    part_stays(s6, v3, l2 + v2);
    part_stays(s7, l4, l2 + v2);
    part_stays(s8, v4, l2 + v2);
    part_stays(s9, l5, l2 + v2);
    part_stays(s10, v5, l2 + v2);
    part_stays(s11, l6, l2 + v2);
    part_stays(s12, v6, l2 + v2);
    part_stays(s13, end, l2 + v2);
    pair_is_a_part(s5, l3, v3);
    part_stays(s7, l4, l3 + v3);
    part_stays(s8, v4, l3 + v3);
    part_stays(s9, l5, l3 + v3);
    part_stays(s10, v5, l3 + v3);
    part_stays(s11, l6, l3 + v3);
    part_stays(s12, v6, l3 + v3);
    part_stays(s13, end, l3 + v3);
    pair_is_a_part(s7, l4, v4);
    part_stays(s9, l5, l4 + v4);
    part_stays(s10, v5, l4 + v4);
    part_stays(s11, l6, l4 + v4);
    part_stays(s12, v6, l4 + v4);
    part_stays(s13, end, l4 + v4);
    pair_is_a_part(s9, l5, v5);
    part_stays(s11, l6, l5 + v5);
    part_stays(s12, v6, l5 + v5);
    part_stays(s13, end, l5 + v5);
    pair_is_a_part(s11, l6, v6);
    part_stays(s13, end, l6 + v6);
    assert(s.lines() == s14);
}

/// The lines on the configuration say what it sets, each behind its own name.
pub proof fn configuration_tells_its_settings(cfg: ConfigModel, s: StateModel)
    ensures
        has_part(config_lines(cfg, s), "Debounce: "@ + decimal(cfg.debounce_seconds as nat)),
        cfg.notify_before_action ==> has_part(
            config_lines(cfg, s),
            "s\nNotifyBeforeAction: "@ + "yes"@,
        ),
        !cfg.notify_before_action ==> has_part(
            config_lines(cfg, s),
            "s\nNotifyBeforeAction: "@ + "no"@,
        ),
        cfg.notify_on_unpause ==> has_part(config_lines(cfg, s), "\nNotifyOnUnpause: "@ + "yes"@),
        !cfg.notify_on_unpause ==> has_part(config_lines(cfg, s), "\nNotifyOnUnpause: "@ + "no"@),
        cfg.monitor_media ==> has_part(config_lines(cfg, s), "\nMonitorMedia: "@ + "yes"@),
        !cfg.monitor_media ==> has_part(config_lines(cfg, s), "\nMonitorMedia: "@ + "no"@),
        cfg.ignore_remote_media ==> has_part(
            config_lines(cfg, s),
            "\nIgnoreRemoteMedia: "@ + "yes"@,
        ),
        !cfg.ignore_remote_media ==> has_part(
            config_lines(cfg, s),
            "\nIgnoreRemoteMedia: "@ + "no"@,
        ),
        cfg.enable_dbus_inhibit ==> has_part(
            config_lines(cfg, s),
            "\nListenDbusInhibit: "@ + "yes"@,
        ),
        !cfg.enable_dbus_inhibit ==> has_part(
            config_lines(cfg, s),
            "\nListenDbusInhibit: "@ + "no"@,
        ),
        has_part(config_lines(cfg, s), "\nInhibitApps: "@ + pattern_list(cfg.inhibit_apps)),
        has_part(config_lines(cfg, s), "\nMediaBlacklist: "@ + pattern_list(cfg.media_blacklist)),
        cfg.pre_suspend_command matches Some(c) ==> has_part(
            config_lines(cfg, s),
            "\nPreSuspendCommand: "@ + c,
        ),
        has_part(config_lines(cfg, s), "\n\nPlan:\n"@ + plan_table(cfg, s)),
{
    let l0 = "Debounce: "@;
    let v0 = decimal(cfg.debounce_seconds as nat);
    let l1 = "s\nNotifyBeforeAction: "@;
    let v1 = yes_or_no(cfg.notify_before_action);
    let l2 = "\nNotifyOnUnpause: "@;
    let v2 = yes_or_no(cfg.notify_on_unpause);
    let l3 = "\nMonitorMedia: "@;
    let v3 = yes_or_no(cfg.monitor_media);
    let l4 = "\nIgnoreRemoteMedia: "@;
    let v4 = yes_or_no(cfg.ignore_remote_media);
    let l5 = "\nListenDbusInhibit: "@;
    let v5 = yes_or_no(cfg.enable_dbus_inhibit);
    let l6 = "\nInhibitApps: "@;
    let v6 = pattern_list(cfg.inhibit_apps);
    let l7 = "\nMediaBlacklist: "@;
    let v7 = pattern_list(cfg.media_blacklist);
    let l8 = "\nPreSuspendCommand: "@;
    let v8 = match cfg.pre_suspend_command {
        Some(c) => c,
        None => "none"@,
    };
    let l9 = "\n\nPlan:\n"@;
    let v9 = plan_table(cfg, s);
    let s1 = l0 + v0;
    let s2 = s1 + l1;
    let s3 = s2 + v1;
    let s4 = s3 + l2;
    let s5 = s4 + v2;
    let s6 = s5 + l3;
    let s7 = s6 + v3;
    let s8 = s7 + l4;
    let s9 = s8 + v4;
    let s10 = s9 + l5;
    let s11 = s10 + v5;
    let s12 = s11 + l6;
    let s13 = s12 + v6;
    let s14 = s13 + l7;
    let s15 = s14 + v7;
    let s16 = s15 + l8;
    let s17 = s16 + v8;
    let s18 = s17 + l9;
    let s19 = s18 + v9;
    pair_is_a_part(Seq::<char>::empty(), l0, v0);
    assert(Seq::<char>::empty() + l0 =~= l0);
    part_stays(s1, l1, l0 + v0);
    part_stays(s2, v1, l0 + v0);
    part_stays(s3, l2, l0 + v0);
    part_stays(s4, v2, l0 + v0);
    part_stays(s5, l3, l0 + v0);
    part_stays(s6, v3, l0 + v0);
    part_stays(s7, l4, l0 + v0);
    part_stays(s8, v4, l0 + v0);
    part_stays(s9, l5, l0 + v0);
    part_stays(s10, v5, l0 + v0);
    part_stays(s11, l6, l0 + v0);
    part_stays(s12, v6, l0 + v0);
    part_stays(s13, l7, l0 + v0);
    part_stays(s14, v7, l0 + v0);
    part_stays(s15, l8, l0 + v0);
    part_stays(s16, v8, l0 + v0);
    part_stays(s17, l9, l0 + v0);
    part_stays(s18, v9, l0 + v0);
    pair_is_a_part(s1, l1, v1);
    part_stays(s3, l2, l1 + v1);
    part_stays(s4, v2, l1 + v1);
    part_stays(s5, l3, l1 + v1);
    part_stays(s6, v3, l1 + v1);
    part_stays(s7, l4, l1 + v1);
    part_stays(s8, v4, l1 + v1);
    part_stays(s9, l5, l1 + v1);
    part_stays(s10, v5, l1 + v1);
    part_stays(s11, l6, l1 + v1);
    part_stays(s12, v6, l1 + v1);
    part_stays(s13, l7, l1 + v1);
    part_stays(s14, v7, l1 + v1);
    part_stays(s15, l8, l1 + v1);
    part_stays(s16, v8, l1 + v1);
    part_stays(s17, l9, l1 + v1);
    part_stays(s18, v9, l1 + v1);
    pair_is_a_part(s3, l2, v2);
    part_stays(s5, l3, l2 + v2);
    part_stays(s6, v3, l2 + v2);
    part_stays(s7, l4, l2 + v2);
    part_stays(s8, v4, l2 + v2);
    part_stays(s9, l5, l2 + v2);
    part_stays(s10, v5, l2 + v2);
    part_stays(s11, l6, l2 + v2);
    part_stays(s12, v6, l2 + v2);
    part_stays(s13, l7, l2 + v2);
    part_stays(s14, v7, l2 + v2);
    part_stays(s15, l8, l2 + v2);
    part_stays(s16, v8, l2 + v2);
    part_stays(s17, l9, l2 + v2);
    part_stays(s18, v9, l2 + v2);
    pair_is_a_part(s5, l3, v3);
    part_stays(s7, l4, l3 + v3);
    part_stays(s8, v4, l3 + v3);
    part_stays(s9, l5, l3 + v3);
    part_stays(s10, v5, l3 + v3);
    part_stays(s11, l6, l3 + v3);
    part_stays(s12, v6, l3 + v3);
    part_stays(s13, l7, l3 + v3);
    part_stays(s14, v7, l3 + v3);
    part_stays(s15, l8, l3 + v3);
    part_stays(s16, v8, l3 + v3);
    part_stays(s17, l9, l3 + v3);
    part_stays(s18, v9, l3 + v3);
    pair_is_a_part(s7, l4, v4);
    part_stays(s9, l5, l4 + v4);
    part_stays(s10, v5, l4 + v4);
    part_stays(s11, l6, l4 + v4);
    part_stays(s12, v6, l4 + v4);
    part_stays(s13, l7, l4 + v4);
    part_stays(s14, v7, l4 + v4);
    part_stays(s15, l8, l4 + v4);
    part_stays(s16, v8, l4 + v4);
    part_stays(s17, l9, l4 + v4);
    part_stays(s18, v9, l4 + v4);
    pair_is_a_part(s9, l5, v5);
    part_stays(s11, l6, l5 + v5);
    part_stays(s12, v6, l5 + v5);
    part_stays(s13, l7, l5 + v5);
    part_stays(s14, v7, l5 + v5);
    part_stays(s15, l8, l5 + v5);
    part_stays(s16, v8, l5 + v5);
    part_stays(s17, l9, l5 + v5);
    part_stays(s18, v9, l5 + v5);
    pair_is_a_part(s11, l6, v6);
    part_stays(s13, l7, l6 + v6);
    part_stays(s14, v7, l6 + v6);
    part_stays(s15, l8, l6 + v6);
    part_stays(s16, v8, l6 + v6);
    part_stays(s17, l9, l6 + v6);
    part_stays(s18, v9, l6 + v6);
    pair_is_a_part(s13, l7, v7);
    part_stays(s15, l8, l7 + v7);
    part_stays(s16, v8, l7 + v7);
    part_stays(s17, l9, l7 + v7);
    part_stays(s18, v9, l7 + v7);
    pair_is_a_part(s15, l8, v8);
    part_stays(s17, l9, l8 + v8);
    part_stays(s18, v9, l8 + v8);
    pair_is_a_part(s17, l9, v9);
    assert(config_lines(cfg, s) == s19);
}

/// Of a step without a notice that is next, the user is shown the whole seconds that are left.
pub proof fn next_step_is_shown_with_its_time(
    cfg: ConfigModel,
    s: StateModel,
    now_ms: u64,
    j: int,
)
    requires
        !s.paused,
        !s.debounce_pending,
        s.step_index <= j < cfg.plan.len(),
        forall|k: int| s.step_index <= k < j ==> (#[trigger] cfg.plan[k]).command is None,
        cfg.plan[j].command is Some,
        cfg.plan[j].notification is None || !cfg.notify_before_action,
        s.step_base_ms + cfg.debounce_seconds * 1000 + cfg.plan[j].timeout_seconds * 1000
            <= u64::MAX,
    ensures
        ({
            let due = s.step_base_ms + cfg.debounce_seconds * 1000 + cfg.plan[j].timeout_seconds
                * 1000;
            let name = "Next: "@ + cfg.plan[j].kind.shown();
            &&& now_ms >= due ==> next_line(cfg, s, now_ms) == name + " (due now)"@
            &&& now_ms < due ==> next_line(cfg, s, now_ms) == name + " in "@ + decimal(
                ((due - now_ms) / 1000) as nat,
            ) + "s"@
        }),
{
    next_enabled_is_next(cfg.plan, s.step_index as int);
    let i = next_enabled(cfg.plan, s.step_index as int);
    if i < j {
        assert(cfg.plan[i].command is None);
    } else if i > j {
        assert(!cfg.plan[j].enabled());
    }
    assert(i == j);
}

/// Of a step with a notice that is next, the user is shown the whole seconds until the notice, and
/// once that was given, those until the step runs.
pub proof fn next_notice_is_shown_with_its_time(
    cfg: ConfigModel,
    s: StateModel,
    now_ms: u64,
    j: int,
)
    requires
        !s.paused,
        !s.debounce_pending,
        s.step_index <= j < cfg.plan.len(),
        forall|k: int| s.step_index <= k < j ==> (#[trigger] cfg.plan[k]).command is None,
        cfg.plan[j].command is Some,
        cfg.plan[j].notification is Some,
        cfg.notify_before_action,
        s.step_base_ms + cfg.debounce_seconds * 1000 + cfg.plan[j].timeout_seconds * 1000
            <= u64::MAX,
        cfg.plan[j].notify_seconds_before matches Some(n) ==> s.pre_action_notify_ms + n * 1000
            <= u64::MAX,
    ensures
        ({
            let due = s.step_base_ms + cfg.debounce_seconds * 1000 + cfg.plan[j].timeout_seconds
                * 1000;
            let runs = s.pre_action_notify_ms + match cfg.plan[j].notify_seconds_before {
                Some(n) => n * 1000,
                None => 0,
            };
            let name = "Next: "@ + cfg.plan[j].kind.shown();
            &&& !s.sent_pre_action_notify && now_ms >= due ==> next_line(cfg, s, now_ms) == name
                + " (notify due now)"@
            &&& !s.sent_pre_action_notify && now_ms < due ==> next_line(cfg, s, now_ms) == name
                + " (notify in "@ + decimal(((due - now_ms) / 1000) as nat) + "s)"@
            &&& s.sent_pre_action_notify && now_ms >= runs ==> next_line(cfg, s, now_ms) == name
                + " (due now)"@
            &&& s.sent_pre_action_notify && now_ms < runs ==> next_line(cfg, s, now_ms) == name
                + " (runs in "@ + decimal(((runs - now_ms) / 1000) as nat) + "s)"@
        }),
{
    next_enabled_is_next(cfg.plan, s.step_index as int);
    let i = next_enabled(cfg.plan, s.step_index as int);
    if i < j {
        assert(cfg.plan[i].command is None);
    } else if i > j {
        assert(!cfg.plan[j].enabled());
    }
    assert(i == j);
}

proof fn padding_keeps_the_text(s: Seq<char>, w: nat)
    ensures
        has_part(padded_left(s, w), s),
        has_part(padded_right(s, w), s),
{
    whole_is_a_part(s);
    if s.len() < w {
        part_stays(spaces((w - s.len()) as nat), s, s);
        part_stays(s, spaces((w - s.len()) as nat), s);
    }
}

proof fn row_shows_the_step(cfg: ConfigModel, k: int, current: bool, a: nat, b: nat)
    ensures
        ({
            let row = plan_row(cfg, k, current, a, b);
            let mark = (if current {
                "  \u{2192} "@
            } else {
                "    "@
            }) + padded_left(decimal((k + 1) as nat), 2);
            &&& has_part(row, mark)
            &&& has_part(row, cfg.plan[k].kind.row_name())
            &&& has_part(row, decimal(cfg.plan[k].timeout_seconds as nat))
        }),
{
    let step = cfg.plan[k];
    let mark = (if current {
        "  \u{2192} "@
    } else {
        "    "@
    }) + padded_left(decimal((k + 1) as nat), 2);
    let name = step.kind.row_name();
    let secs = decimal(step.timeout_seconds as nat);
    let n = padded_right(name, a);
    let d = padded_left(secs, b);
    padding_keeps_the_text(name, a);
    padding_keeps_the_text(secs, b);
    whole_is_a_part(mark);
    let s1 = mark + ". "@;
    let s2 = s1 + n;
    let s3 = s2 + "  "@;
    let s4 = s3 + d;
    let head = s4 + "s"@;
    part_stays(mark, ". "@, mark);
    part_stays(s1, n, mark);
    part_stays(s1, n, name);
    part_stays(s2, "  "@, mark);
    part_stays(s2, "  "@, name);
    part_stays(s3, d, mark);
    part_stays(s3, d, name);
    part_stays(s3, d, secs);
    part_stays(s4, "s"@, mark);
    part_stays(s4, "s"@, name);
    part_stays(s4, "s"@, secs);
    let before: nat = match step.notify_seconds_before {
        Some(x) => x as nat,
        None => 0,
    };
    let h1 = head + "  notify+"@;
    let h2 = h1 + decimal(before);
    part_stays(head, "  notify+"@, mark);
    part_stays(head, "  notify+"@, name);
    part_stays(head, "  notify+"@, secs);
    part_stays(h1, decimal(before), mark);
    part_stays(h1, decimal(before), name);
    part_stays(h1, decimal(before), secs);
    part_stays(h2, "s"@, mark);
    part_stays(h2, "s"@, name);
    part_stays(h2, "s"@, secs);
    let notice = if notifies(cfg, step) {
        h2 + "s"@
    } else {
        head
    };
    part_stays(notice, "  cmd\n"@, mark);
    part_stays(notice, "  cmd\n"@, name);
    part_stays(notice, "  cmd\n"@, secs);
    assert(plan_row(cfg, k, current, a, b) == notice + "  cmd\n"@);
}

proof fn rows_are_in_the_table(
    cfg: ConfigModel,
    n: int,
    current: int,
    a: nat,
    b: nat,
    k: int,
    x: Seq<char>,
)
    requires
        0 <= k < n <= cfg.plan.len(),
        cfg.plan[k].command is Some,
        has_part(plan_row(cfg, k, k == current, a, b), x),
    ensures
        has_part(plan_rows(cfg, n, current, a, b), x),
    decreases n,
{
    let before = plan_rows(cfg, n - 1, current, a, b);
    let row = plan_row(cfg, n - 1, n - 1 == current, a, b);
    if k < n - 1 {
        rows_are_in_the_table(cfg, n - 1, current, a, b, k, x);
    }
    if cfg.plan[n - 1].command is Some {
        part_stays(before, row, x);
    }
}

/// The table of the plan has a row for every step with a command, with its kind and its time, and
/// the arrow stands at the one that is next.
pub proof fn table_has_every_step(cfg: ConfigModel, s: StateModel, k: int, j: int)
    requires
        0 <= k < cfg.plan.len(),
        cfg.plan[k].command is Some,
        s.step_index <= j < cfg.plan.len(),
        forall|i: int| s.step_index <= i < j ==> (#[trigger] cfg.plan[i]).command is None,
        cfg.plan[j].command is Some,
    ensures
        ({
            let table = plan_table(cfg, s);
            &&& has_part(table, decimal(cfg.plan[k].timeout_seconds as nat))
            &&& cfg.plan[k].kind == KindModel::Startup ==> has_part(table, "startup"@)
            &&& cfg.plan[k].kind == KindModel::Brightness ==> has_part(table, "brightness"@)
            &&& cfg.plan[k].kind == KindModel::LockScreen ==> has_part(table, "lockscreen"@)
            &&& cfg.plan[k].kind == KindModel::Dpms ==> has_part(table, "dpms"@)
            &&& cfg.plan[k].kind == KindModel::Suspend ==> has_part(table, "suspend"@)
            &&& cfg.plan[k].kind matches KindModel::Custom(x) ==> has_part(table, "custom:"@ + x)
            &&& has_part(table, "  \u{2192} "@ + padded_left(decimal((j + 1) as nat), 2))
        }),
{
    let n = cfg.plan.len() as int;
    let a = name_width(cfg.plan, n);
    let b = timeout_width(cfg.plan, n);
    next_enabled_is_next(cfg.plan, 0);
    next_enabled_is_next(cfg.plan, s.step_index as int);
    let at = next_enabled(cfg.plan, s.step_index as int);
    if at < j {
        assert(cfg.plan[at].command is None);
    } else if at > j {
        assert(!cfg.plan[j].enabled());
    }
    assert(at == j);
    if next_enabled(cfg.plan, 0) >= n {
        assert(!cfg.plan[k].enabled());
    }
    row_shows_the_step(cfg, k, k == j, a, b);
    row_shows_the_step(cfg, j, true, a, b);
    rows_are_in_the_table(
        cfg,
        n,
        j,
        a,
        b,
        k,
        decimal(cfg.plan[k].timeout_seconds as nat),
    );
    rows_are_in_the_table(cfg, n, j, a, b, k, cfg.plan[k].kind.row_name());
    rows_are_in_the_table(
        cfg,
        n,
        j,
        a,
        b,
        j,
        "  \u{2192} "@ + padded_left(decimal((j + 1) as nat), 2),
    );
}

/// Of a paused plan the user is shown for how many whole seconds it has been paused.
pub proof fn pause_is_shown_with_its_time(
    cfg: ConfigModel,
    s: StateModel,
    start: u64,
    now_ms: u64,
)
    requires
        s.paused,
        s.pause_started_ms == Some(start),
        start <= now_ms,
    ensures
        next_line(cfg, s, now_ms) == "Next: paused for "@ + decimal(
            ((now_ms - start) / 1000) as nat,
        ) + "s"@,
{
}

} // verus!
