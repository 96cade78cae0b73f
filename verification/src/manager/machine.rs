//! What an event does, over the models of the configuration and the state.

use vstd::prelude::*;

use super::ManagerModel;
use crate::action::ActionModel;
use crate::config::types::{ConfigModel, KindModel, PlanSource, StepModel};
use crate::error::{ConfigError, Error, StateError};
use crate::events::{Event, MediaState, PowerState};
use crate::state::StateModel;
use crate::text::strings::{
    lowered, same_ignoring_case, trimmed, with_char_replaced, without_blanks,
};
use crate::time::{in_ms, later, since};

verus! {

/// A new state, and the actions to take on the way to it.
#[verifier::ext_equal]
pub struct Stepped {
    pub state: StateModel,
    pub actions: Seq<ActionModel>,
}

/// What the handling of an event leads to.
#[verifier::ext_equal]
pub struct Handled {
    pub manager: ManagerModel,
    pub state: StateModel,
    pub result: Result<Seq<ActionModel>, Error>,
}

// ---------------------------------------------------------------------------------------------
// Steps of the plan
// ---------------------------------------------------------------------------------------------

/// A step's name as it is compared: without white space around it and blanks in it, in lower
/// case, with dashes for underscores.
pub open spec fn normalized(s: Seq<char>) -> Seq<char> {
    with_char_replaced(without_blanks(lowered(trimmed(s))), '_', '-')
}

impl StepModel {
    pub open spec fn is_lock(self) -> bool {
        self.kind == KindModel::LockScreen
    }

    pub open spec fn is_brightness(self) -> bool {
        self.kind == KindModel::Brightness
    }

    /// A step that turns the screen off.
    pub open spec fn is_dpms(self) -> bool {
        match self.kind {
            KindModel::Dpms => true,
            KindModel::Custom(name) => normalized(name) == "early-dpms"@,
            _ => false,
        }
    }

    /// A step that fires as soon as the session starts.
    pub open spec fn is_startup_instant(self) -> bool {
        self.kind == KindModel::Startup && self.is_instant()
    }

    /// The actions of the step.
    pub open spec fn actions(self, locked: bool, pre_suspend: Option<Seq<char>>) -> Seq<
        ActionModel,
    > {
        match self.kind {
            KindModel::LockScreen => match self.command {
                Some(c) if !locked => seq![ActionModel::RunLockScreen { command: c }],
                _ => Seq::empty(),
            },
            KindModel::Suspend => {
                let before = match pre_suspend {
                    Some(c) => seq![ActionModel::RunCommand { command: c }],
                    None => Seq::empty(),
                };
                let suspend = match self.command {
                    Some(c) => ActionModel::RunCommand { command: c },
                    None => ActionModel::Suspend,
                };
                before.push(suspend)
            },
            _ => match self.command {
                Some(c) => seq![ActionModel::RunCommand { command: c }],
                None => Seq::empty(),
            },
        }
    }

    /// The step is the one that a trigger of this name means.
    pub open spec fn triggered_by(self, name: Seq<char>) -> bool {
        let given = normalized(name);
        let n = if given == "lockscreen"@ || given == "lock"@ {
            "lock-screen"@
        } else {
            given
        };
        match self.kind {
            KindModel::Startup => n == "startup"@,
            KindModel::Dpms => n == "dpms"@,
            KindModel::Brightness => n == "brightness"@,
            KindModel::LockScreen => n == "lock-screen"@,
            KindModel::Suspend => n == "suspend"@,
            KindModel::Custom(k) => {
                let own = normalized(k);
                n == own || n == "custom:"@ + own || n == "custom-"@ + own
            },
        }
    }
}

/// The first enabled step from `i` on, or the end of the plan.
pub open spec fn next_enabled(plan: Seq<StepModel>, i: int) -> int
    decreases plan.len() - i,
{
    if 0 <= i < plan.len() && !plan[i].enabled() {
        next_enabled(plan, i + 1)
    } else {
        i
    }
}

pub proof fn next_enabled_is_next(plan: Seq<StepModel>, i: int)
    requires
        0 <= i,
    ensures
        i <= next_enabled(plan, i),
        i <= plan.len() ==> next_enabled(plan, i) <= plan.len(),
        i > plan.len() ==> next_enabled(plan, i) == i,
        next_enabled(plan, i) < plan.len() ==> plan[next_enabled(plan, i)].enabled(),
        forall|k: int| i <= k < next_enabled(plan, i) ==> !(#[trigger] plan[k]).enabled(),
    decreases plan.len() - i,
{
    if 0 <= i < plan.len() && !plan[i].enabled() {
        next_enabled_is_next(plan, i + 1);
    }
}

/// The first enabled step from `i` on that is not a startup instant, or the end of the plan.
pub open spec fn past_startup(plan: Seq<StepModel>, i: int) -> int
    decreases plan.len() - i,
{
    if 0 <= i < plan.len() && (!plan[i].enabled() || plan[i].is_startup_instant()) {
        past_startup(plan, i + 1)
    } else {
        i
    }
}

/// The first enabled lock step from `i` on, or the end of the plan.
pub open spec fn next_lock(plan: Seq<StepModel>, i: int) -> int
    decreases plan.len() - i,
{
    if 0 <= i < plan.len() && !(plan[i].enabled() && plan[i].is_lock()) {
        next_lock(plan, i + 1)
    } else {
        i
    }
}

/// Where the plan goes on once the session is locked: the first enabled step after the first
/// lock step, or the end of a plan without one.
pub open spec fn after_lock(plan: Seq<StepModel>) -> int {
    let lock = next_lock(plan, 0);
    if lock < plan.len() {
        next_enabled(plan, lock + 1)
    } else {
        plan.len() as int
    }
}

// ---------------------------------------------------------------------------------------------
// Pieces of a step of the machine
// ---------------------------------------------------------------------------------------------

impl StateModel {
    /// Idle behaviour has to wait: the user, an inhibitor or the system says so.
    pub open spec fn held(self) -> bool {
        self.manually_paused || self.inhibitors_active() || self.system_paused
    }

    /// The pause is brought up to date. When it begins, the time is noted; when it ends, the
    /// timers are moved on by as long as it lasted.
    #[verifier::opaque]
    pub open spec fn refreshed(self, now: u64) -> StateModel {
        if !self.paused && self.held() {
            StateModel { paused: true, pause_started_ms: Some(now), ..self }
        } else if self.paused && !self.held() {
            match self.pause_started_ms {
                Some(start) => StateModel {
                    paused: false,
                    pause_started_ms: None,
                    step_base_ms: later(self.step_base_ms, since(now, start)),
                    pre_action_notify_ms: if self.sent_pre_action_notify {
                        later(self.pre_action_notify_ms, since(now, start))
                    } else {
                        self.pre_action_notify_ms
                    },
                    ..self
                },
                None => self.with_paused(false),
            }
        } else {
            self.with_paused(self.held())
        }
    }

    /// The step fired, with what it means for resuming.
    pub open spec fn step_fired(self, step: StepModel, idx: int) -> StateModel {
        self.fired(
            idx as usize,
            step.is_dpms(),
            step.is_brightness(),
            step.is_lock(),
            step.resume_command is Some,
        )
    }

    /// The step fired if it had anything to do.
    pub open spec fn fired_if_any(
        self,
        actions: Seq<ActionModel>,
        step: StepModel,
        idx: int,
    ) -> StateModel {
        if actions.len() > 0 {
            self.step_fired(step, idx)
        } else {
            self
        }
    }

    /// A plan that has not begun begins behind the startup instants.
    pub open spec fn synced(self, plan: Seq<StepModel>) -> StateModel {
        if self.step_index != 0 {
            self
        } else {
            StateModel { step_index: past_startup(plan, 0) as usize, ..self }
        }
    }

    /// While the session is locked, a lock step that would be next is passed over.
    #[verifier::opaque]
    pub open spec fn past_lock(self, plan: Seq<StepModel>) -> StateModel {
        let i = next_enabled(plan, self.step_index as int);
        if self.is_locked && i < plan.len() && plan[i].is_lock() {
            StateModel { step_index: next_enabled(plan, i + 1) as usize, ..self }.with_notify_sent(
                false,
            )
        } else {
            self
        }
    }
}

/// The startup instants from `i` on fire, each once.
pub open spec fn startup_from(s: StateModel, cfg: ConfigModel, i: int, now: u64) -> Stepped
    decreases cfg.plan.len() - i,
{
    if !(0 <= i < cfg.plan.len()) {
        Stepped { state: s, actions: Seq::empty() }
    } else if !cfg.plan[i].enabled() {
        startup_from(s, cfg, i + 1, now)
    } else if !cfg.plan[i].is_startup_instant() {
        Stepped { state: s, actions: Seq::empty() }
    } else if s.one_shot_fired(cfg.plan[i]) {
        startup_from(s, cfg, i + 1, now)
    } else {
        let step = cfg.plan[i];
        let actions = step.actions(s.is_locked, cfg.pre_suspend_command);
        let fired = if actions.len() > 0 {
            StateModel { last_action_ms: now, ..s.step_fired(step, i) }.with_notify_sent(false)
        } else {
            s
        };
        let rest = startup_from(fired.with_one_shot(step), cfg, i + 1, now);
        Stepped { state: rest.state, actions: actions + rest.actions }
    }
}

/// The instant at `i` fires, and the next step counts from now.
pub open spec fn instant_fired(s: StateModel, cfg: ConfigModel, i: int, now: u64) -> Stepped {
    let step = cfg.plan[i];
    let actions = step.actions(s.is_locked, cfg.pre_suspend_command);
    let fired = s.fired_if_any(actions, step, i).with_one_shot(step);
    Stepped {
        state: StateModel {
            step_index: (i + 1) as usize,
            step_base_ms: now,
            last_action_ms: now,
            ..fired
        }.with_notify_sent(false),
        actions,
    }
}

/// The steps at the front of the plan that need no waiting: lock steps of a locked session are
/// passed over, instants fire once. Gives the position of the first step that has to wait.
pub open spec fn instants_from(s: StateModel, cfg: ConfigModel, i: int, now: u64) -> (Stepped, int)
    decreases cfg.plan.len() - i,
{
    let plan = cfg.plan;
    if !(0 <= i < plan.len()) {
        (
            Stepped {
                state: StateModel { step_index: plan.len() as usize, ..s },
                actions: Seq::empty(),
            },
            plan.len() as int,
        )
    } else if !plan[i].enabled() {
        instants_from(s, cfg, i + 1, now)
    } else if plan[i].is_lock() && s.is_locked {
        instants_from(
            StateModel { step_index: (i + 1) as usize, ..s }.with_notify_sent(false),
            cfg,
            i + 1,
            now,
        )
    } else if !plan[i].is_instant() {
        (Stepped { state: s, actions: Seq::empty() }, i)
    } else if s.one_shot_fired(plan[i]) {
        instants_from(StateModel { step_index: (i + 1) as usize, ..s }, cfg, i + 1, now)
    } else {
        let fired = instant_fired(s, cfg, i, now);
        let (rest, at) = instants_from(fired.state, cfg, i + 1, now);
        (Stepped { state: rest.state, actions: fired.actions + rest.actions }, at)
    }
}

/// When the step is due, counted from the step before it. The debounce time is added once, after
/// activity.
pub open spec fn due_at(s: StateModel, cfg: ConfigModel, step: StepModel) -> u64 {
    let debounce = if s.debounce_pending {
        in_ms(cfg.debounce_seconds)
    } else {
        0
    };
    later(later(s.step_base_ms, debounce), in_ms(step.timeout_seconds))
}

/// A step has a notification that is to be shown before it runs.
pub open spec fn notifies(cfg: ConfigModel, step: StepModel) -> bool {
    cfg.notify_before_action && step.notification is Some
}

/// When a step runs whose notification was shown.
pub open spec fn runs_at(s: StateModel, step: StepModel) -> u64 {
    later(
        s.pre_action_notify_ms,
        match step.notify_seconds_before {
            Some(n) => in_ms(n),
            None => 0,
        },
    )
}

/// The step at `i`, which has to wait: it runs once it is due. If it has a notification, that is
/// shown when it is due, and it runs as long after that as it asks for.
pub open spec fn waiting_step(s: StateModel, cfg: ConfigModel, i: int, now: u64) -> Stepped {
    let step = cfg.plan[i];
    let ready_at = if notifies(cfg, step) && s.sent_pre_action_notify {
        runs_at(s, step)
    } else {
        due_at(s, cfg, step)
    };
    if now < ready_at {
        Stepped { state: s, actions: Seq::empty() }
    } else if notifies(cfg, step) && !s.sent_pre_action_notify {
        Stepped {
            state: StateModel { sent_pre_action_notify: true, pre_action_notify_ms: now, ..s },
            actions: seq![ActionModel::Notify { message: step.notification->0 }],
        }
    } else {
        let actions = step.actions(s.is_locked, cfg.pre_suspend_command);
        let fired = s.fired_if_any(actions, step, i);
        Stepped {
            state: StateModel {
                step_index: (i + 1) as usize,
                step_base_ms: now,
                last_action_ms: now,
                sent_pre_action_notify: false,
                pre_action_notify_ms: 0,
                debounce_pending: false,
                ..fired
            },
            actions,
        }
    }
}

/// Time passes, and nothing holds the plan: what needs no waiting fires, then what is due.
#[verifier::opaque]
pub open spec fn advanced(s: StateModel, cfg: ConfigModel, now: u64) -> Stepped {
    let (front, at) = instants_from(s, cfg, s.step_index as int, now);
    if at < cfg.plan.len() {
        let last = waiting_step(front.state, cfg, at, now);
        Stepped { state: last.state, actions: front.actions + last.actions }
    } else {
        front
    }
}

// ---------------------------------------------------------------------------------------------
// Activity
// ---------------------------------------------------------------------------------------------

/// The resume command of the step at `idx`, if it has one.
pub open spec fn resume_of(plan: Seq<StepModel>, idx: Option<usize>) -> Seq<ActionModel> {
    match idx {
        Some(i) if i < plan.len() => match plan[i as int].resume_command {
            Some(c) => seq![ActionModel::RunResumeCommand { command: c }],
            None => Seq::empty(),
        },
        _ => Seq::empty(),
    }
}

impl StateModel {
    /// The step that fired last, unless it is the last of one of the groups, which resume by
    /// themselves.
    pub open spec fn last_ungrouped(self) -> Option<usize> {
        if self.last_fired_idx == self.last_dpms_fired_idx || self.last_fired_idx
            == self.last_brightness_fired_idx || self.last_fired_idx == self.last_lock_fired_idx {
            None
        } else {
            self.last_fired_idx
        }
    }
}

/// The resume commands that are due. While the session is locked only the screen comes back; the
/// rest is left until the unlock.
pub open spec fn resumed_steps(s: StateModel, plan: Seq<StepModel>) -> Stepped {
    let screen = resume_of(plan, s.last_dpms_fired_idx) + resume_of(
        plan,
        s.last_brightness_fired_idx,
    );
    let others = resume_of(plan, s.last_lock_fired_idx) + resume_of(plan, s.last_ungrouped());
    if !s.resume_due() {
        Stepped { state: s, actions: Seq::empty() }
    } else if s.is_locked {
        let deferred = if others.len() > 0 {
            StateModel { resume_deferred_until_unlock: true, ..s }
        } else {
            s
        };
        Stepped {
            state: if screen.len() > 0 || others.len() > 0 {
                deferred.resumed()
            } else {
                s
            },
            actions: screen,
        }
    } else {
        Stepped { state: s.resumed(), actions: screen + others }
    }
}

/// Activity: what is due to resume does, and the idle cycle begins anew; in a locked session, the
/// part of it behind the lock step. `announce` asks for a word on the end of a pause.
#[verifier::opaque]
pub open spec fn active(s: StateModel, cfg: ConfigModel, now: u64, announce: bool) -> Stepped {
    let woken = resumed_steps(s, cfg.plan);
    let restarted = if s.is_locked {
        woken.state.past_lock(cfg.plan).new_segment(
            now,
            after_lock(cfg.plan) as usize,
        ).refreshed(now)
    } else {
        woken.state.new_cycle(now).refreshed(now).synced(cfg.plan)
    };
    Stepped {
        state: restarted,
        actions: if announce && cfg.notify_on_unpause && !restarted.paused {
            woken.actions.push(ActionModel::Notify { message: "resumed"@ })
        } else {
            woken.actions
        },
    }
}

/// The time of a manual pause is over: that is said, if it is wanted, and `message` as well.
pub open spec fn expired(s: StateModel, cfg: ConfigModel, message: Seq<char>, now: u64) -> Stepped {
    let woken = active(StateModel { manually_paused: false, ..s }, cfg, now, true);
    Stepped {
        actions: if cfg.notify_on_unpause {
            woken.actions.push(ActionModel::Notify { message })
        } else {
            woken.actions
        },
        ..woken
    }
}

/// A locked session is unlocked: what was left until then is due.
pub open spec fn unlocked(s: StateModel, cfg: ConfigModel, now: u64) -> Stepped {
    let open = StateModel { is_locked: false, resume_deferred_until_unlock: false, ..s };
    let due = if s.resume_deferred_until_unlock {
        open.armed()
    } else {
        open
    };
    active(due, cfg, now, false)
}

/// The machine is up again, or its lid: no notice stands, and no debounce is waited out.
pub open spec fn awake(s: StateModel, cfg: ConfigModel, now: u64) -> Stepped {
    let woken = active(StateModel { system_paused: false, ..s }, cfg, now, false);
    Stepped {
        state: StateModel { debounce_pending: false, ..woken.state.with_notify_sent(false) },
        ..woken
    }
}

/// Media is heard of; where it `ended`, that counts as activity.
pub open spec fn heard(s: StateModel, cfg: ConfigModel, ended: bool, now: u64) -> Stepped {
    if ended {
        active(s, cfg, now, false)
    } else {
        Stepped { state: s.refreshed(now), actions: Seq::empty() }
    }
}

// ---------------------------------------------------------------------------------------------
// Triggers
// ---------------------------------------------------------------------------------------------

/// A step that `all` means: enabled, not instant, and no lock step of a locked session.
pub open spec fn in_all(s: StateModel, step: StepModel) -> bool {
    step.enabled() && !step.is_instant() && !(step.is_lock() && s.is_locked)
}

/// The steps from `i` on fire at once.
pub open spec fn all_from(s: StateModel, cfg: ConfigModel, i: int) -> Stepped
    decreases cfg.plan.len() - i,
{
    if !(0 <= i < cfg.plan.len()) {
        Stepped { state: s, actions: Seq::empty() }
    } else if !in_all(s, cfg.plan[i]) {
        all_from(s, cfg, i + 1)
    } else {
        let step = cfg.plan[i];
        let actions = step.actions(s.is_locked, cfg.pre_suspend_command);
        let rest = all_from(s.fired_if_any(actions, step, i), cfg, i + 1);
        Stepped { state: rest.state, actions: actions + rest.actions }
    }
}

/// The first enabled step from `i` on that the name means, or the end of the plan.
pub open spec fn find_trigger(plan: Seq<StepModel>, name: Seq<char>, i: int) -> int
    decreases plan.len() - i,
{
    if 0 <= i < plan.len() && !(plan[i].enabled() && plan[i].triggered_by(name)) {
        find_trigger(plan, name, i + 1)
    } else {
        i
    }
}

/// The plan goes on at `next`, counted from now.
pub open spec fn jumped(s: StateModel, next: int, now: u64) -> StateModel {
    StateModel {
        last_action_ms: now,
        step_base_ms: now,
        step_index: next as usize,
        debounce_pending: false,
        sent_pre_action_notify: false,
        pre_action_notify_ms: 0,
        ..s
    }
}

/// A step is asked for by name, or all of them are.
#[verifier::opaque]
pub open spec fn triggered(s: StateModel, cfg: ConfigModel, name: Seq<char>, now: u64) -> Stepped {
    if normalized(name) == "all"@ {
        let all = all_from(s, cfg, 0);
        Stepped {
            state: if all.actions.len() > 0 {
                jumped(all.state, cfg.plan.len() as int, now)
            } else {
                all.state
            },
            actions: all.actions,
        }
    } else {
        let i = find_trigger(cfg.plan, name, 0);
        if i < cfg.plan.len() {
            let step = cfg.plan[i];
            let actions = step.actions(s.is_locked, cfg.pre_suspend_command);
            Stepped {
                state: if actions.len() > 0 {
                    jumped(s.step_fired(step, i), i + 1, now)
                } else {
                    s
                },
                actions,
            }
        } else {
            Stepped { state: s, actions: Seq::empty() }
        }
    }
}

// ---------------------------------------------------------------------------------------------
// Events
// ---------------------------------------------------------------------------------------------

/// Every event first brings the state in line with the configuration in effect: its length, its
/// debounce time, the pause, and the startup instants.
#[verifier::opaque]
pub open spec fn prepared(s: StateModel, cfg: ConfigModel, now: u64) -> Stepped {
    let lined_up = StateModel {
        debounce_seconds: cfg.debounce_seconds,
        ..s.sized(cfg.plan.len())
    }.refreshed(now);
    let started = startup_from(lined_up, cfg, 0, now);
    Stepped { state: started.state.synced(cfg.plan), actions: started.actions }
}

/// Another configuration comes into effect: everything begins anew.
#[verifier::opaque]
pub open spec fn entered(s: StateModel, cfg: ConfigModel, now: u64) -> Stepped {
    let lined_up = StateModel {
        debounce_seconds: cfg.debounce_seconds,
        ..s.sized(cfg.plan.len())
    }.refreshed(now).synced(cfg.plan).past_lock(cfg.plan);
    let started = startup_from(lined_up, cfg, 0, now);
    Stepped { state: started.state.synced(cfg.plan), actions: started.actions }
}

/// The profile that a name means: none for `default` and `none`.
pub open spec fn profile_of(name: Seq<char>) -> Option<Seq<char>> {
    if same_ignoring_case(name, "none"@) || same_ignoring_case(name, "default"@) {
        None
    } else {
        Some(name)
    }
}

pub open spec fn source_of(power: PowerState) -> PlanSource {
    match power {
        PowerState::OnAC => PlanSource::Ac,
        PowerState::OnBattery => PlanSource::Battery,
    }
}

impl ManagerModel {
    pub open spec fn effective(self, s: StateModel) -> Option<ConfigModel> {
        self.file.effective(s.active_profile, s.plan_source)
    }

    /// Another configuration comes into effect in a new idle cycle, after `done` was done.
    #[verifier::opaque]
    pub open spec fn switched(self, s: StateModel, done: Seq<ActionModel>, now: u64) -> Handled {
        let reset = StateModel { one_shots_fired: Set::empty(), ..s.new_cycle(now) };
        match self.effective(reset) {
            None => Handled {
                manager: self,
                state: reset,
                result: Err(Error::InvalidConfig(ConfigError::ProfileNotFound)),
            },
            Some(cfg) => {
                let in_it = entered(reset, cfg, now);
                Handled {
                    manager: self,
                    state: in_it.state,
                    result: Ok(done + in_it.actions),
                }
            },
        }
    }

    /// The profile of a name is asked for, after `done` was done. A new one starts with no
    /// inhibitors.
    pub open spec fn profile_changed(
        self,
        s: StateModel,
        done: Seq<ActionModel>,
        name: Seq<char>,
        now: u64,
    ) -> Handled {
        let same = Handled { manager: self, state: s, result: Ok(done) };
        let given = trimmed(name);
        if given.len() == 0 {
            Handled { result: Err(Error::InvalidConfig(ConfigError::InvalidProfileName)), ..same }
        } else if self.file.effective(profile_of(given), s.plan_source) is None {
            Handled { result: Err(Error::InvalidConfig(ConfigError::ProfileNotFound)), ..same }
        } else {
            self.switched(
                StateModel {
                    active_profile: profile_of(given),
                    app_inhibitor_count: 0,
                    media_inhibitor_count: 0,
                    ..s
                }.refreshed(now),
                done,
                now,
            )
        }
    }

    /// The event itself, once the state is in line with the configuration in effect and `done`
    /// was done for that.
    #[verifier::opaque]
    pub open spec fn reacted(
        self,
        s: StateModel,
        cfg: ConfigModel,
        done: Seq<ActionModel>,
        e: Event,
    ) -> Handled {
        let now = e.at();
        let same = Handled { manager: self, state: s, result: Ok(done) };
        match e {
            Event::Tick { .. } => if s.paused {
                same
            } else {
                self.followed_by(done, advanced(s.past_lock(cfg.plan), cfg, now))
            },
            Event::UserActivity { .. } | Event::BrowserActivity { .. } => self.followed_by(
                done,
                active(s, cfg, now, false),
            ),
            Event::BrowserInactive { .. } | Event::CompositorIdled { .. } | Event::CompositorResumed {
                ..
            } => same,
            Event::ManualPause { .. } => if s.manually_paused {
                Handled { result: Err(Error::InvalidState(StateError::AlreadyPaused)), ..same }
            } else {
                Handled {
                    state: StateModel { manually_paused: true, ..s }.refreshed(now),
                    ..same
                }
            },
            Event::ManualResume { .. } => if !s.manually_paused {
                Handled { result: Err(Error::InvalidState(StateError::NotPaused)), ..same }
            } else {
                self.followed_by(
                    done,
                    active(StateModel { manually_paused: false, ..s }, cfg, now, false),
                )
            },
            Event::PauseExpired { message, .. } => if !s.manually_paused {
                same
            } else {
                self.followed_by(done, expired(s, cfg, message@, now))
            },
            Event::ManualTrigger { name, .. } => self.followed_by(
                done,
                triggered(s, cfg, name@, now),
            ),
            Event::SessionLocked { .. } => if s.is_locked {
                same
            } else {
                Handled { state: StateModel { is_locked: true, ..s }.past_lock(cfg.plan), ..same }
            },
            Event::SessionUnlocked { .. } => if !s.is_locked {
                Handled { result: Err(Error::InvalidState(StateError::NotLocked)), ..same }
            } else {
                self.followed_by(done, unlocked(s, cfg, now))
            },
            Event::PrepareForSleep { .. } | Event::LidClosed { .. } => Handled {
                state: StateModel { system_paused: true, ..s }.refreshed(now),
                ..same
            },
            Event::ResumedFromSleep { .. } | Event::LidOpened { .. } => self.followed_by(
                done,
                awake(s, cfg, now),
            ),
            Event::ProfileChanged { name, .. } => self.profile_changed(s, done, name@, now),
            Event::PowerChanged { state, .. } => self.switched(
                StateModel { power_state: Some(state), plan_source: source_of(state), ..s },
                done,
                now,
            ),
            Event::AppInhibitorCount { count, .. } => Handled {
                state: StateModel { app_inhibitor_count: count, ..s }.refreshed(now),
                ..same
            },
            Event::MediaInhibitorCount { count, .. } => Handled {
                state: StateModel { media_inhibitor_count: count, ..s }.refreshed(now),
                ..same
            },
            Event::MediaStateChanged { state, .. } => {
                let ended = self.last_media != MediaState::Idle && state == MediaState::Idle;
                ManagerModel { last_media: state, ..self }.followed_by(
                    done,
                    heard(s, cfg, ended, now),
                )
            },
        }
    }

    pub open spec fn followed_by(self, done: Seq<ActionModel>, next: Stepped) -> Handled {
        Handled { manager: self, state: next.state, result: Ok(done + next.actions) }
    }

    /// What an event leads to. If no configuration is in effect, it changes nothing.
    pub open spec fn handled(self, s: StateModel, e: Event) -> Handled {
        match self.effective(s) {
            None => Handled {
                manager: self,
                state: s,
                result: Err(Error::InvalidConfig(ConfigError::ProfileNotFound)),
            },
            Some(cfg) => {
                let ready = prepared(s, cfg, e.at());
                self.reacted(ready.state, cfg, ready.actions, e)
            },
        }
    }

    /// What the change to the profile of a name leads to.
    pub open spec fn profile_handled(self, s: StateModel, name: Seq<char>, now: u64) -> Handled {
        match self.effective(s) {
            None => Handled {
                manager: self,
                state: s,
                result: Err(Error::InvalidConfig(ConfigError::ProfileNotFound)),
            },
            Some(cfg) => {
                let ready = prepared(s, cfg, now);
                self.profile_changed(ready.state, ready.actions, name, now)
            },
        }
    }
}

} // verus!
