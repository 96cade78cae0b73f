//! What the manager remembers between two events.

use vstd::prelude::*;

use crate::config::types::{KindModel, PlanSource, PlanStep, PlanStepKind, StepModel};
use crate::events::PowerState;
use crate::text::strings::{cat, name_view, opt_view, str_eq};

verus! {

// ---------------------------------------------------------------------------------------------
// One-shots
// ---------------------------------------------------------------------------------------------

/// What makes two instant steps the same: the kind and the command.
#[derive(Debug, PartialEq, Eq, Hash)]
pub struct OneShotKey {
    kind: String,
    command: String,
}

/// What stands for a [`OneShotKey`] in contracts.
#[verifier::ext_equal]
pub struct KeyModel {
    pub kind: Seq<char>,
    pub command: Seq<char>,
}

impl View for OneShotKey {
    type V = KeyModel;

    closed spec fn view(&self) -> KeyModel {
        KeyModel { kind: self.kind@, command: self.command@ }
    }
}

impl KindModel {
    /// The name of the kind.
    pub open spec fn name(self) -> Seq<char> {
        match self {
            KindModel::Startup => "Startup"@,
            KindModel::Brightness => "Brightness"@,
            KindModel::LockScreen => "LockScreen"@,
            KindModel::Dpms => "Dpms"@,
            KindModel::Suspend => "Suspend"@,
            KindModel::Custom(s) => "custom:"@ + s,
        }
    }
}

impl StepModel {
    /// The key of a step, if it has a command.
    pub open spec fn key(self) -> Option<KeyModel> {
        match self.command {
            Some(c) => Some(KeyModel { kind: self.kind.name(), command: c }),
            None => None,
        }
    }
}

impl PlanStepKind {
    /// The name of the kind.
    pub fn name(&self) -> (r: String)
        ensures
            r@ == self@.name(),
    {
        match self {
            PlanStepKind::Startup => String::from_str("Startup"),
            PlanStepKind::Brightness => String::from_str("Brightness"),
            PlanStepKind::LockScreen => String::from_str("LockScreen"),
            PlanStepKind::Dpms => String::from_str("Dpms"),
            PlanStepKind::Suspend => String::from_str("Suspend"),
            PlanStepKind::Custom(s) => cat("custom:", s.as_str()),
        }
    }
}

/// What stands for an optional key in contracts.
pub open spec fn key_view(o: Option<OneShotKey>) -> Option<KeyModel> {
    match o {
        Some(k) => Some(k@),
        None => None,
    }
}

impl OneShotKey {
    /// The key of a step, if it has a command.
    pub fn from_step(step: &PlanStep) -> (r: Option<Self>)
        ensures
            key_view(r) == step@.key(),
    {
        match &step.command {
            Some(c) => Some(OneShotKey { kind: step.kind.name(), command: c.clone() }),
            None => None,
        }
    }

    fn same(&self, other: &OneShotKey) -> (r: bool)
        ensures
            r == (self@ == other@),
    {
        str_eq(self.kind.as_str(), other.kind.as_str()) && str_eq(
            self.command.as_str(),
            other.command.as_str(),
        )
    }
}

impl Clone for OneShotKey {
    fn clone(&self) -> (r: Self)
        ensures
            r@ == self@,
    {
        OneShotKey { kind: self.kind.clone(), command: self.command.clone() }
    }
}

pub open spec fn key_views(v: Seq<OneShotKey>) -> Seq<KeyModel> {
    v.map_values(|k: OneShotKey| k@)
}

/// A set of keys: a list in which no key occurs twice.
#[derive(Debug)]
struct OneShots {
    keys: Vec<OneShotKey>,
}

impl View for OneShots {
    type V = Set<KeyModel>;

    closed spec fn view(&self) -> Set<KeyModel> {
        key_views(self.keys@).to_set()
    }
}

impl OneShots {
    #[verifier::type_invariant]
    spec fn distinct(self) -> bool {
        key_views(self.keys@).no_duplicates()
    }

    fn new() -> (r: OneShots)
        ensures
            r@ == Set::<KeyModel>::empty(),
    {
        let r = OneShots { keys: Vec::new() };
        assert(r@ =~= Set::<KeyModel>::empty());
        r
    }

    fn has(&self, k: &OneShotKey) -> (r: bool)
        ensures
            r == self@.contains(k@),
    {
        let ghost all = key_views(self.keys@);
        for i in 0..self.keys.len()
            invariant
                all == key_views(self.keys@),
                forall|j: int| 0 <= j < i ==> all[j] != k@,
        {
            if self.keys[i].same(k) {
                assert(all[i as int] == k@);
                return true;
            }
            assert(all[i as int] == self.keys@[i as int]@);
        }
        assert(!all.contains(k@));
        false
    }

    fn insert(&mut self, k: OneShotKey)
        ensures
            final(self)@ == old(self)@.insert(k@),
    {
        if self.has(&k) {
            assert(self@ =~= old(self)@.insert(k@));
            return ;
        }
        proof {
            use_type_invariant(&*self);
        }
        let ghost before = key_views(self.keys@);
        let mut keys: Vec<OneShotKey> = Vec::new();
        std::mem::swap(&mut keys, &mut self.keys);
        keys.push(k);
        assert(key_views(keys@) =~= before.push(k@));
        assert(before.push(k@).to_set() =~= before.to_set().insert(k@)) by {
            assert forall|x: KeyModel| before.to_set().insert(k@).contains(x) implies before.push(
                k@,
            ).to_set().contains(x) by {
                if x == k@ {
                    assert(before.push(k@)[before.len() as int] == x);
                } else {
                    let i = choose|i: int| 0 <= i < before.len() && before[i] == x;
                    assert(before.push(k@)[i] == x);
                }
            }
        }
        self.keys = keys;
    }
}

impl Clone for OneShots {
    fn clone(&self) -> (r: Self)
        ensures
            r@ == self@,
    {
        proof {
            use_type_invariant(&*self);
        }
        let mut keys: Vec<OneShotKey> = Vec::new();
        for i in 0..self.keys.len()
            invariant
                key_views(keys@) == key_views(self.keys@).take(i as int),
        {
            let k = self.keys[i].clone();
            let ghost before = keys@;
            keys.push(k);
            assert(key_views(keys@) =~= key_views(before).push(k@));
            assert(key_views(self.keys@).take(i + 1) =~= key_views(self.keys@).take(i as int).push(
                self.keys@[i as int]@,
            ));
        }
        assert(key_views(self.keys@).take(self.keys@.len() as int) =~= key_views(self.keys@));
        OneShots { keys }
    }
}

// ---------------------------------------------------------------------------------------------
// The state
// ---------------------------------------------------------------------------------------------

/// What the manager remembers between two events.
#[derive(Debug)]
pub struct State {
    // Inhibitors (counts provided by services)
    app_inhibitor_count: u64,
    media_inhibitor_count: u64,
    // Pause policy
    manually_paused: bool,
    // System pause (lid closed / preparing for sleep, etc.)
    system_paused: bool,
    // Derived pause (manual OR inhibitors OR system)
    paused: bool,
    pause_started_ms: Option<u64>,
    // Mirrors config; manager copies from effective config each event.
    debounce_seconds: u64,
    // True means: apply debounce ONCE before the next non-instant step fires.
    debounce_pending: bool,
    // Session / profile. None means "default" (no profile overlay).
    is_locked: bool,
    active_profile: Option<String>,
    // Power/plan selection
    power_state: Option<PowerState>,
    plan_source: PlanSource,
    // Timing (ms since epoch, supplied by the events)
    last_activity_ms: u64,
    last_action_ms: u64,
    // Sequential plan machine
    step_index: usize,
    step_base_ms: u64,
    // One-shot notification (per step / per idle cycle)
    sent_pre_action_notify: bool,
    pre_action_notify_ms: u64,
    // Fired tracking (per idle cycle)
    fired_steps: Vec<bool>,
    last_fired_idx: Option<usize>,
    // Group last-fired (per idle cycle), so that a group resumes once
    last_dpms_fired_idx: Option<usize>,
    last_brightness_fired_idx: Option<usize>,
    // The lock step, whose resume command waits for the unlock
    last_lock_fired_idx: Option<usize>,
    // Resume episode latch
    resume_epoch: u64,
    resumed_epoch: u64,
    // If we resumed while locked, the remainder is deferred until unlock.
    resume_deferred_until_unlock: bool,
    // Lifetime one-shots (instant steps with timeout=0)
    one_shots_fired: OneShots,
}

/// What stands for a [`State`] in contracts.
#[verifier::ext_equal]
pub struct StateModel {
    pub app_inhibitor_count: u64,
    pub media_inhibitor_count: u64,
    pub manually_paused: bool,
    pub system_paused: bool,
    pub paused: bool,
    pub pause_started_ms: Option<u64>,
    pub debounce_seconds: u64,
    pub debounce_pending: bool,
    pub is_locked: bool,
    pub active_profile: Option<Seq<char>>,
    pub power_state: Option<PowerState>,
    pub plan_source: PlanSource,
    pub last_activity_ms: u64,
    pub last_action_ms: u64,
    pub step_index: usize,
    pub step_base_ms: u64,
    pub sent_pre_action_notify: bool,
    pub pre_action_notify_ms: u64,
    pub fired_steps: Seq<bool>,
    pub last_fired_idx: Option<usize>,
    pub last_dpms_fired_idx: Option<usize>,
    pub last_brightness_fired_idx: Option<usize>,
    pub last_lock_fired_idx: Option<usize>,
    pub resume_epoch: u64,
    pub resumed_epoch: u64,
    pub resume_deferred_until_unlock: bool,
    pub one_shots_fired: Set<KeyModel>,
}

impl View for State {
    type V = StateModel;

    closed spec fn view(&self) -> StateModel {
        StateModel {
            app_inhibitor_count: self.app_inhibitor_count,
            media_inhibitor_count: self.media_inhibitor_count,
            manually_paused: self.manually_paused,
            system_paused: self.system_paused,
            paused: self.paused,
            pause_started_ms: self.pause_started_ms,
            debounce_seconds: self.debounce_seconds,
            debounce_pending: self.debounce_pending,
            is_locked: self.is_locked,
            active_profile: opt_view(self.active_profile),
            power_state: self.power_state,
            plan_source: self.plan_source,
            last_activity_ms: self.last_activity_ms,
            last_action_ms: self.last_action_ms,
            step_index: self.step_index,
            step_base_ms: self.step_base_ms,
            sent_pre_action_notify: self.sent_pre_action_notify,
            pre_action_notify_ms: self.pre_action_notify_ms,
            fired_steps: self.fired_steps@,
            last_fired_idx: self.last_fired_idx,
            last_dpms_fired_idx: self.last_dpms_fired_idx,
            last_brightness_fired_idx: self.last_brightness_fired_idx,
            last_lock_fired_idx: self.last_lock_fired_idx,
            resume_epoch: self.resume_epoch,
            resumed_epoch: self.resumed_epoch,
            resume_deferred_until_unlock: self.resume_deferred_until_unlock,
            one_shots_fired: self.one_shots_fired@,
        }
    }
}

/// `n` flags that are all down.
pub open spec fn flags(n: nat) -> Seq<bool> {
    Seq::new(n, |i: int| false)
}

/// A remembered position, dropped if it is not below `start`.
pub open spec fn kept_below(o: Option<usize>, start: usize) -> Option<usize> {
    match o {
        Some(i) => if i >= start {
            None
        } else {
            o
        },
        None => None,
    }
}

impl StateModel {
    /// The state at the start of a session.
    pub open spec fn fresh(now_ms: u64) -> StateModel {
        StateModel {
            app_inhibitor_count: 0,
            media_inhibitor_count: 0,
            manually_paused: false,
            system_paused: false,
            paused: false,
            pause_started_ms: None,
            debounce_seconds: 0,
            debounce_pending: true,
            is_locked: false,
            active_profile: None,
            power_state: None,
            plan_source: PlanSource::Desktop,
            last_activity_ms: now_ms,
            last_action_ms: now_ms,
            step_index: 0,
            step_base_ms: now_ms,
            sent_pre_action_notify: false,
            pre_action_notify_ms: 0,
            fired_steps: Seq::empty(),
            last_fired_idx: None,
            last_dpms_fired_idx: None,
            last_brightness_fired_idx: None,
            last_lock_fired_idx: None,
            resume_epoch: 0,
            resumed_epoch: 0,
            resume_deferred_until_unlock: false,
            one_shots_fired: Set::empty(),
        }
    }

    /// No step is remembered as fired, out of `flags.len()`.
    pub open spec fn nothing_fired(self, flags: Seq<bool>) -> StateModel {
        StateModel {
            fired_steps: flags,
            last_fired_idx: None,
            last_dpms_fired_idx: None,
            last_brightness_fired_idx: None,
            last_lock_fired_idx: None,
            ..self
        }
    }

    /// The state for a plan of `len` steps: what was fired of a plan of another length is
    /// forgotten.
    pub open spec fn sized(self, len: nat) -> StateModel {
        if self.fired_steps.len() == len {
            self
        } else {
            self.nothing_fired(flags(len))
        }
    }

    /// A new resume episode is due.
    pub open spec fn armed(self) -> StateModel {
        StateModel { resume_epoch: self.resume_epoch.wrapping_add(1), ..self }
    }

    pub open spec fn resume_due(self) -> bool {
        self.resumed_epoch != self.resume_epoch
    }

    pub open spec fn resumed(self) -> StateModel {
        StateModel { resumed_epoch: self.resume_epoch, ..self }
    }

    /// The step at `idx` fired.
    pub open spec fn fired(
        self,
        idx: usize,
        is_dpms: bool,
        is_brightness: bool,
        is_lock: bool,
        arms_resume: bool,
    ) -> StateModel {
        let s = if idx >= self.fired_steps.len() {
            self.sized((idx + 1) as nat)
        } else {
            self
        };
        let marked = StateModel {
            fired_steps: s.fired_steps.update(idx as int, true),
            last_fired_idx: Some(idx),
            last_dpms_fired_idx: if is_dpms {
                Some(idx)
            } else {
                s.last_dpms_fired_idx
            },
            last_brightness_fired_idx: if is_brightness {
                Some(idx)
            } else {
                s.last_brightness_fired_idx
            },
            last_lock_fired_idx: if is_lock {
                Some(idx)
            } else {
                s.last_lock_fired_idx
            },
            ..s
        };
        if arms_resume || is_dpms || is_brightness || is_lock {
            marked.armed()
        } else {
            marked
        }
    }

    /// What was fired from `start` on is forgotten.
    pub open spec fn cleared_from(self, start: usize) -> StateModel {
        if start >= self.fired_steps.len() {
            self
        } else {
            StateModel {
                fired_steps: Seq::new(
                    self.fired_steps.len(),
                    |i: int| i < start && self.fired_steps[i],
                ),
                last_fired_idx: kept_below(self.last_fired_idx, start),
                last_dpms_fired_idx: kept_below(self.last_dpms_fired_idx, start),
                last_brightness_fired_idx: kept_below(self.last_brightness_fired_idx, start),
                last_lock_fired_idx: kept_below(self.last_lock_fired_idx, start),
                ..self
            }
        }
    }

    /// The key of the step is among those that fired.
    pub open spec fn one_shot_fired(self, step: StepModel) -> bool {
        match step.key() {
            Some(k) => self.one_shots_fired.contains(k),
            None => false,
        }
    }

    pub open spec fn with_one_shot(self, step: StepModel) -> StateModel {
        match step.key() {
            Some(k) => StateModel { one_shots_fired: self.one_shots_fired.insert(k), ..self },
            None => self,
        }
    }

    pub open spec fn inhibitors_active(self) -> bool {
        self.app_inhibitor_count > 0 || self.media_inhibitor_count > 0
    }

    /// A pause-start timestamp is kept only while paused.
    pub open spec fn with_paused(self, v: bool) -> StateModel {
        StateModel {
            paused: v,
            pause_started_ms: if v {
                self.pause_started_ms
            } else {
                None
            },
            ..self
        }
    }

    pub open spec fn with_notify_sent(self, v: bool) -> StateModel {
        StateModel {
            sent_pre_action_notify: v,
            pre_action_notify_ms: if v {
                self.pre_action_notify_ms
            } else {
                0
            },
            ..self
        }
    }

    /// The timers start anew at the step `idx`.
    pub open spec fn restarted_at(self, now_ms: u64, idx: usize) -> StateModel {
        StateModel {
            last_activity_ms: now_ms,
            step_index: idx,
            step_base_ms: now_ms,
            sent_pre_action_notify: false,
            pre_action_notify_ms: 0,
            debounce_pending: true,
            pause_started_ms: None,
            ..self
        }
    }

    /// A new idle cycle.
    pub open spec fn new_cycle(self, now_ms: u64) -> StateModel {
        self.restarted_at(now_ms, 0).nothing_fired(flags(self.fired_steps.len()))
    }

    /// The part of the plan from `idx` on runs again.
    pub open spec fn new_segment(self, now_ms: u64, idx: usize) -> StateModel {
        self.restarted_at(now_ms, idx).cleared_from(idx)
    }
}

impl State {
    /// The state at the start of a session.
    pub fn new(now_ms: u64) -> (r: Self)
        ensures
            r@ == StateModel::fresh(now_ms),
    {
        let r = State {
            app_inhibitor_count: 0,
            media_inhibitor_count: 0,
            manually_paused: false,
            system_paused: false,
            paused: false,
            pause_started_ms: None,
            debounce_seconds: 0,
            debounce_pending: true,
            is_locked: false,
            active_profile: None,
            power_state: None,
            plan_source: PlanSource::Desktop,
            last_activity_ms: now_ms,
            last_action_ms: now_ms,
            step_index: 0,
            step_base_ms: now_ms,
            sent_pre_action_notify: false,
            pre_action_notify_ms: 0,
            fired_steps: Vec::new(),
            last_fired_idx: None,
            last_dpms_fired_idx: None,
            last_brightness_fired_idx: None,
            last_lock_fired_idx: None,
            resume_epoch: 0,
            resumed_epoch: 0,
            resume_deferred_until_unlock: false,
            one_shots_fired: OneShots::new(),
        };
        assert(r@ =~= StateModel::fresh(now_ms));
        r
    }

    // ---------------- sizing / tracking ----------------

    /// Makes room for a plan of `len` steps.
    pub fn ensure_plan_len(&mut self, len: usize)
        ensures
            final(self)@ == old(self)@.sized(len as nat),
    {
        if self.fired_steps.len() != len {
            self.fired_steps = vec![false; len];
            self.last_fired_idx = None;
            self.last_dpms_fired_idx = None;
            self.last_brightness_fired_idx = None;
            self.last_lock_fired_idx = None;
            assert(self.fired_steps@ =~= flags(len as nat));
        }
    }

    /// Remembers that the step at `idx` fired, and arms a resume episode where one is wanted.
    pub fn mark_step_fired(
        &mut self,
        idx: usize,
        is_dpms: bool,
        is_brightness: bool,
        is_lock: bool,
        arms_resume: bool,
    )
        requires
            idx < usize::MAX,
        ensures
            final(self)@ == old(self)@.fired(idx, is_dpms, is_brightness, is_lock, arms_resume),
    {
        if idx >= self.fired_steps.len() {
            self.ensure_plan_len(idx + 1);
        }
        self.fired_steps.set(idx, true);
        self.last_fired_idx = Some(idx);
        if is_dpms {
            self.last_dpms_fired_idx = Some(idx);
        }
        if is_brightness {
            self.last_brightness_fired_idx = Some(idx);
        }
        if is_lock {
            self.last_lock_fired_idx = Some(idx);
        }
        // Lock is included so that its resume command can run after the unlock.
        if arms_resume || is_dpms || is_brightness || is_lock {
            self.arm_resume_episode();
        }
    }

    /// Makes a resume episode due.
    pub fn arm_resume_episode(&mut self)
        ensures
            final(self)@ == old(self)@.armed(),
    {
        self.resume_epoch = self.resume_epoch.wrapping_add(1);
    }

    pub fn resume_due(&self) -> (r: bool)
        ensures
            r == self@.resume_due(),
    {
        self.resumed_epoch != self.resume_epoch
    }

    pub fn mark_resumed(&mut self)
        ensures
            final(self)@ == old(self)@.resumed(),
    {
        self.resumed_epoch = self.resume_epoch;
    }

    pub fn set_resume_deferred_until_unlock(&mut self, v: bool)
        ensures
            final(self)@ == (StateModel { resume_deferred_until_unlock: v, ..old(self)@ }),
    {
        self.resume_deferred_until_unlock = v;
    }

    /// Take-and-clear helper.
    pub fn take_resume_deferred_until_unlock(&mut self) -> (r: bool)
        ensures
            r == old(self)@.resume_deferred_until_unlock,
            final(self)@ == (StateModel { resume_deferred_until_unlock: false, ..old(self)@ }),
    {
        let v = self.resume_deferred_until_unlock;
        self.resume_deferred_until_unlock = false;
        v
    }

    pub fn last_fired_idx(&self) -> (r: Option<usize>)
        ensures
            r == self@.last_fired_idx,
    {
        self.last_fired_idx
    }

    pub fn last_dpms_fired_idx(&self) -> (r: Option<usize>)
        ensures
            r == self@.last_dpms_fired_idx,
    {
        self.last_dpms_fired_idx
    }

    pub fn last_brightness_fired_idx(&self) -> (r: Option<usize>)
        ensures
            r == self@.last_brightness_fired_idx,
    {
        self.last_brightness_fired_idx
    }

    pub fn last_lock_fired_idx(&self) -> (r: Option<usize>)
        ensures
            r == self@.last_lock_fired_idx,
    {
        self.last_lock_fired_idx
    }

    /// Forgets which steps fired.
    pub fn clear_fired_steps(&mut self)
        ensures
            final(self)@ == old(self)@.nothing_fired(flags(old(self)@.fired_steps.len())),
    {
        let n = self.fired_steps.len();
        self.fired_steps = vec![false; n];
        self.last_fired_idx = None;
        self.last_dpms_fired_idx = None;
        self.last_brightness_fired_idx = None;
        self.last_lock_fired_idx = None;
        assert(self.fired_steps@ =~= flags(n as nat));
    }

    /// Clear fired flags from a point onward (post-lock "segment restart").
    pub fn clear_fired_steps_from(&mut self, start_idx: usize)
        ensures
            final(self)@ == old(self)@.cleared_from(start_idx),
    {
        let n = self.fired_steps.len();
        if start_idx >= n {
            return ;
        }
        let ghost before = self@;
        let mut i: usize = start_idx;
        while i < n
            invariant
                start_idx <= i <= n,
                n == before.fired_steps.len(),
                self.fired_steps@.len() == n,
                forall|k: int|
                    0 <= k < n ==> #[trigger] self.fired_steps@[k] == (if start_idx <= k < i {
                        false
                    } else {
                        before.fired_steps[k]
                    }),
                self@ == (StateModel { fired_steps: self.fired_steps@, ..before }),
            decreases n - i,
        {
            self.fired_steps.set(i, false);
            i += 1;
        }
        self.last_fired_idx = keep_below(self.last_fired_idx, start_idx);
        self.last_dpms_fired_idx = keep_below(self.last_dpms_fired_idx, start_idx);
        self.last_brightness_fired_idx = keep_below(self.last_brightness_fired_idx, start_idx);
        self.last_lock_fired_idx = keep_below(self.last_lock_fired_idx, start_idx);
        assert(self.fired_steps@ =~= before.cleared_from(start_idx).fired_steps);
    }

    // ---------------- lifetime one-shots ----------------

    pub fn one_shot_has_fired_step(&self, step: &PlanStep) -> (r: bool)
        ensures
            r == self@.one_shot_fired(step@),
    {
        match OneShotKey::from_step(step) {
            Some(k) => self.one_shots_fired.has(&k),
            None => false,
        }
    }

    pub fn mark_one_shot_fired_step(&mut self, step: &PlanStep)
        ensures
            final(self)@ == old(self)@.with_one_shot(step@),
    {
        if let Some(k) = OneShotKey::from_step(step) {
            self.one_shots_fired.insert(k);
        }
    }

    /// Lets every one-shot fire again.
    pub fn clear_one_shots(&mut self)
        ensures
            final(self)@ == (StateModel { one_shots_fired: Set::empty(), ..old(self)@ }),
    {
        self.one_shots_fired = OneShots::new();
    }

    // ---------------- pause timestamp helpers ----------------

    /// Set/clear the pause-start timestamp.
    pub fn set_pause_started_ms(&mut self, v: Option<u64>)
        ensures
            final(self)@ == (StateModel { pause_started_ms: v, ..old(self)@ }),
    {
        self.pause_started_ms = v;
    }

    /// Take-and-clear the pause-start timestamp.
    pub fn take_pause_started_ms(&mut self) -> (r: Option<u64>)
        ensures
            r == old(self)@.pause_started_ms,
            final(self)@ == (StateModel { pause_started_ms: None, ..old(self)@ }),
    {
        let v = self.pause_started_ms;
        self.pause_started_ms = None;
        v
    }

    pub fn pause_started_ms(&self) -> (r: Option<u64>)
        ensures
            r == self@.pause_started_ms,
    {
        self.pause_started_ms
    }

    // ---------------- getters ----------------

    pub fn app_inhibitor_count(&self) -> (r: u64)
        ensures
            r == self@.app_inhibitor_count,
    {
        self.app_inhibitor_count
    }

    pub fn media_inhibitor_count(&self) -> (r: u64)
        ensures
            r == self@.media_inhibitor_count,
    {
        self.media_inhibitor_count
    }

    pub fn manually_paused(&self) -> (r: bool)
        ensures
            r == self@.manually_paused,
    {
        self.manually_paused
    }

    pub fn system_paused(&self) -> (r: bool)
        ensures
            r == self@.system_paused,
    {
        self.system_paused
    }

    pub fn paused(&self) -> (r: bool)
        ensures
            r == self@.paused,
    {
        self.paused
    }

    pub fn is_locked(&self) -> (r: bool)
        ensures
            r == self@.is_locked,
    {
        self.is_locked
    }

    /// The name of the active profile; none means `default`.
    pub fn active_profile(&self) -> (r: Option<&str>)
        ensures
            name_view(r) == self@.active_profile,
    {
        match &self.active_profile {
            Some(s) => Some(s.as_str()),
            None => None,
        }
    }

    pub fn plan_source(&self) -> (r: PlanSource)
        ensures
            r == self@.plan_source,
    {
        self.plan_source
    }

    pub fn inhibitors_active(&self) -> (r: bool)
        ensures
            r == self@.inhibitors_active(),
    {
        self.app_inhibitor_count > 0 || self.media_inhibitor_count > 0
    }

    pub fn step_index(&self) -> (r: usize)
        ensures
            r == self@.step_index,
    {
        self.step_index
    }

    pub fn step_base_ms(&self) -> (r: u64)
        ensures
            r == self@.step_base_ms,
    {
        self.step_base_ms
    }

    pub fn pre_action_notify_sent(&self) -> (r: bool)
        ensures
            r == self@.sent_pre_action_notify,
    {
        self.sent_pre_action_notify
    }

    pub fn pre_action_notify_ms(&self) -> (r: u64)
        ensures
            r == self@.pre_action_notify_ms,
    {
        self.pre_action_notify_ms
    }

    pub fn debounce_pending(&self) -> (r: bool)
        ensures
            r == self@.debounce_pending,
    {
        self.debounce_pending
    }

    // ---------------- setters ----------------

    pub fn set_app_inhibitor_count(&mut self, count: u64)
        ensures
            final(self)@ == (StateModel { app_inhibitor_count: count, ..old(self)@ }),
    {
        self.app_inhibitor_count = count;
    }

    pub fn set_media_inhibitor_count(&mut self, count: u64)
        ensures
            final(self)@ == (StateModel { media_inhibitor_count: count, ..old(self)@ }),
    {
        self.media_inhibitor_count = count;
    }

    pub fn set_manually_paused(&mut self, v: bool)
        ensures
            final(self)@ == (StateModel { manually_paused: v, ..old(self)@ }),
    {
        self.manually_paused = v;
    }

    pub fn set_system_paused(&mut self, v: bool)
        ensures
            final(self)@ == (StateModel { system_paused: v, ..old(self)@ }),
    {
        self.system_paused = v;
    }

    /// Pauses or unpauses; a pause-start timestamp is not kept beyond the pause.
    pub fn set_paused(&mut self, v: bool)
        ensures
            final(self)@ == old(self)@.with_paused(v),
    {
        self.paused = v;
        if !v {
            self.pause_started_ms = None;
        }
    }

    pub fn set_locked(&mut self, v: bool)
        ensures
            final(self)@ == (StateModel { is_locked: v, ..old(self)@ }),
    {
        self.is_locked = v;
    }

    pub fn set_active_profile(&mut self, name: Option<String>)
        ensures
            final(self)@ == (StateModel { active_profile: opt_view(name), ..old(self)@ }),
    {
        self.active_profile = name;
    }

    pub fn set_power_state(&mut self, ps: PowerState)
        ensures
            final(self)@ == (StateModel { power_state: Some(ps), ..old(self)@ }),
    {
        self.power_state = Some(ps);
    }

    pub fn set_plan_source(&mut self, src: PlanSource)
        ensures
            final(self)@ == (StateModel { plan_source: src, ..old(self)@ }),
    {
        self.plan_source = src;
    }

    pub fn set_debounce_seconds(&mut self, secs: u64)
        ensures
            final(self)@ == (StateModel { debounce_seconds: secs, ..old(self)@ }),
    {
        self.debounce_seconds = secs;
    }

    pub fn mark_action_fired(&mut self, now_ms: u64)
        ensures
            final(self)@ == (StateModel { last_action_ms: now_ms, ..old(self)@ }),
    {
        self.last_action_ms = now_ms;
    }

    pub fn set_step_index(&mut self, v: usize)
        ensures
            final(self)@ == (StateModel { step_index: v, ..old(self)@ }),
    {
        self.step_index = v;
    }

    pub fn set_step_base_ms(&mut self, v: u64)
        ensures
            final(self)@ == (StateModel { step_base_ms: v, ..old(self)@ }),
    {
        self.step_base_ms = v;
    }

    /// Notes whether the notification of the current step was sent; when it was not, the time at
    /// which it was is dropped.
    pub fn set_pre_action_notify_sent(&mut self, v: bool)
        ensures
            final(self)@ == old(self)@.with_notify_sent(v),
    {
        self.sent_pre_action_notify = v;
        if !v {
            self.pre_action_notify_ms = 0;
        }
    }

    pub fn set_pre_action_notify_ms(&mut self, t: u64)
        ensures
            final(self)@ == (StateModel { pre_action_notify_ms: t, ..old(self)@ }),
    {
        self.pre_action_notify_ms = t;
    }

    pub fn set_debounce_pending(&mut self, v: bool)
        ensures
            final(self)@ == (StateModel { debounce_pending: v, ..old(self)@ }),
    {
        self.debounce_pending = v;
    }

    // ---------------- cycle control ----------------

    /// Full idle cycle reset (unlocked activity, profile/power transitions, etc.)
    pub fn reset_idle_cycle(&mut self, now_ms: u64)
        ensures
            final(self)@ == old(self)@.new_cycle(now_ms),
    {
        self.restart_at(now_ms, 0);
        self.clear_fired_steps();
    }

    /// Restart timers AND rewind to the post-lock start step so the post-lock
    /// segment (dpms/suspend/etc.) can run again while still locked.
    pub fn restart_post_lock_segment(&mut self, now_ms: u64, post_lock_start_idx: usize)
        ensures
            final(self)@ == old(self)@.new_segment(now_ms, post_lock_start_idx),
    {
        self.restart_at(now_ms, post_lock_start_idx);
        self.clear_fired_steps_from(post_lock_start_idx);
    }

    fn restart_at(&mut self, now_ms: u64, idx: usize)
        ensures
            final(self)@ == old(self)@.restarted_at(now_ms, idx),
    {
        self.last_activity_ms = now_ms;
        self.step_index = idx;
        self.step_base_ms = now_ms;
        self.sent_pre_action_notify = false;
        self.pre_action_notify_ms = 0;
        self.debounce_pending = true;
        self.pause_started_ms = None;
    }
}

fn keep_below(o: Option<usize>, start: usize) -> (r: Option<usize>)
    ensures
        r == kept_below(o, start),
{
    match o {
        Some(i) => if i >= start {
            None
        } else {
            o
        },
        None => None,
    }
}

impl Default for State {
    fn default() -> (r: Self)
        ensures
            r@ == StateModel::fresh(0),
    {
        State::new(0)
    }
}

impl Clone for State {
    fn clone(&self) -> (r: Self)
        ensures
            r@ == self@,
    {
        let n = self.fired_steps.len();
        let mut fired_steps: Vec<bool> = Vec::new();
        for i in 0..n
            invariant
                n == self.fired_steps@.len(),
                fired_steps@ == self.fired_steps@.take(i as int),
        {
            fired_steps.push(self.fired_steps[i]);
            assert(self.fired_steps@.take(i + 1) =~= self.fired_steps@.take(i as int).push(
                self.fired_steps@[i as int],
            ));
        }
        assert(self.fired_steps@.take(n as int) =~= self.fired_steps@);
        State {
            app_inhibitor_count: self.app_inhibitor_count,
            media_inhibitor_count: self.media_inhibitor_count,
            manually_paused: self.manually_paused,
            system_paused: self.system_paused,
            paused: self.paused,
            pause_started_ms: self.pause_started_ms,
            debounce_seconds: self.debounce_seconds,
            debounce_pending: self.debounce_pending,
            is_locked: self.is_locked,
            active_profile: self.active_profile.clone(),
            power_state: self.power_state,
            plan_source: self.plan_source,
            last_activity_ms: self.last_activity_ms,
            last_action_ms: self.last_action_ms,
            step_index: self.step_index,
            step_base_ms: self.step_base_ms,
            sent_pre_action_notify: self.sent_pre_action_notify,
            pre_action_notify_ms: self.pre_action_notify_ms,
            fired_steps,
            last_fired_idx: self.last_fired_idx,
            last_dpms_fired_idx: self.last_dpms_fired_idx,
            last_brightness_fired_idx: self.last_brightness_fired_idx,
            last_lock_fired_idx: self.last_lock_fired_idx,
            resume_epoch: self.resume_epoch,
            resumed_epoch: self.resumed_epoch,
            resume_deferred_until_unlock: self.resume_deferred_until_unlock,
            one_shots_fired: self.one_shots_fired.clone(),
        }
    }
}

} // verus!
