//! Which configuration is in effect: profiles, and the plan of a power source.

use vstd::prelude::*;

use super::pattern::{clone_patterns, pattern_views, Pattern};
use super::types::{
    block_set, clone_lid, clone_plan, lid_set, lid_view, lock_set, patterns_set, plan_set,
    plan_view, profile_views, text_set, ActionBlock, Config, ConfigFile, ConfigModel, FileModel,
    KindModel, LidAction, LockBlock, PartialConfig, PartialModel, PlanSource, PlanStep,
    PlanStepKind, Profile, ProfileMode, ProfileModel, StepModel,
};
use crate::text::strings::{name_view, opt_view, str_eq};

verus! {

// ---------------------------------------------------------------------------------------------
// Merging plans
// ---------------------------------------------------------------------------------------------

/// The position of the first step of this kind, or the length of the plan.
pub open spec fn first_of_kind(plan: Seq<StepModel>, kind: KindModel) -> nat
    decreases plan.len(),
{
    if plan.len() == 0 || plan[0].kind == kind {
        0
    } else {
        1 + first_of_kind(plan.skip(1), kind)
    }
}

/// The plan has a step of this kind.
pub open spec fn has_kind(plan: Seq<StepModel>, kind: KindModel) -> bool {
    exists|i: int| 0 <= i < plan.len() && (#[trigger] plan[i]).kind == kind
}

/// The plan with `step` in place of its first step of that kind, or at its end.
pub open spec fn merged_one(plan: Seq<StepModel>, step: StepModel) -> Seq<StepModel> {
    let i = first_of_kind(plan, step.kind) as int;
    if i < plan.len() {
        plan.update(i, step)
    } else {
        plan.push(step)
    }
}

/// The plan with every step of `overlay` merged into it, one after the other.
pub open spec fn merged(plan: Seq<StepModel>, overlay: Seq<StepModel>) -> Seq<StepModel>
    decreases overlay.len(),
{
    if overlay.len() == 0 {
        plan
    } else {
        merged_one(merged(plan, overlay.drop_last()), overlay.last())
    }
}

pub proof fn first_of_kind_is_first(plan: Seq<StepModel>, kind: KindModel)
    ensures
        first_of_kind(plan, kind) <= plan.len(),
        first_of_kind(plan, kind) < plan.len() ==> plan[first_of_kind(plan, kind) as int].kind
            == kind,
        forall|k: int| 0 <= k < first_of_kind(plan, kind) ==> (#[trigger] plan[k]).kind != kind,
    decreases plan.len(),
{
    if plan.len() > 0 && plan[0].kind != kind {
        first_of_kind_is_first(plan.skip(1), kind);
        let n = first_of_kind(plan.skip(1), kind);
        assert forall|k: int| 0 <= k < 1 + n implies (#[trigger] plan[k]).kind != kind by {
            if k > 0 {
                assert(plan[k] == plan.skip(1)[k - 1]);
            }
        }
    }
}

/// Merging moves no step: what the plan holds at a position keeps its kind, and a step of a kind
/// that the overlay does not have stays as it is.
pub proof fn merging_keeps_other_steps(plan: Seq<StepModel>, overlay: Seq<StepModel>)
    ensures
        merged(plan, overlay).len() >= plan.len(),
        forall|i: int|
            0 <= i < plan.len() ==> (#[trigger] merged(plan, overlay)[i]).kind == plan[i].kind,
        forall|i: int|
            0 <= i < plan.len() && !has_kind(overlay, plan[i].kind) ==> #[trigger] merged(
                plan,
                overlay,
            )[i] == plan[i],
    decreases overlay.len(),
{
    if overlay.len() > 0 {
        let rest = overlay.drop_last();
        merging_keeps_other_steps(plan, rest);
        let before = merged(plan, rest);
        first_of_kind_is_first(before, overlay.last().kind);
        assert forall|i: int| 0 <= i < plan.len() && !has_kind(overlay, plan[i].kind) implies
            #[trigger] merged(plan, overlay)[i] == plan[i] by {
            if has_kind(rest, plan[i].kind) {
                let j = choose|j: int|
                    0 <= j < rest.len() && (#[trigger] rest[j]).kind == plan[i].kind;
                assert(overlay[j] == rest[j]);
            }
            assert(overlay.last() == overlay[overlay.len() - 1]);
            assert(before[i].kind == plan[i].kind);
        }
        assert forall|i: int| 0 <= i < plan.len() implies (#[trigger] merged(
            plan,
            overlay,
        )[i]).kind == plan[i].kind by {
            assert(before[i].kind == plan[i].kind);
        }
    }
}

/// Every kind of the overlay is in the merged plan, and its first step of that kind is the last
/// one that the overlay has of it.
pub proof fn merging_sets_each_kind(plan: Seq<StepModel>, overlay: Seq<StepModel>, j: int)
    requires
        0 <= j < overlay.len(),
        forall|k: int| j < k < overlay.len() ==> (#[trigger] overlay[k]).kind != overlay[j].kind,
    ensures
        ({
            let all = merged(plan, overlay);
            let i = first_of_kind(all, overlay[j].kind) as int;
            i < all.len() && all[i] == overlay[j]
        }),
    decreases overlay.len(),
{
    let kind = overlay[j].kind;
    let rest = overlay.drop_last();
    let before = merged(plan, rest);
    let last = overlay.last();
    let all = merged(plan, overlay);
    first_of_kind_is_first(before, last.kind);
    first_of_kind_is_first(all, kind);
    let at = first_of_kind(before, last.kind) as int;
    if j == overlay.len() - 1 {
        assert(all[at] == last);
        let i = first_of_kind(all, kind) as int;
        if i < at {
            assert(before[i] == all[i]);
            assert(false);
        }
        if i > at {
            assert(all[at].kind == kind);
            assert(false);
        }
    } else {
        assert forall|k: int| j < k < rest.len() implies (#[trigger] rest[k]).kind
            != rest[j].kind by {
            assert(overlay[k] == rest[k]);
        }
        merging_sets_each_kind(plan, rest, j);
        first_of_kind_is_first(before, kind);
        let b = first_of_kind(before, kind) as int;
        assert(overlay[overlay.len() - 1].kind != kind);
        assert(all[b] == before[b]);
        let i = first_of_kind(all, kind) as int;
        if i < b {
            assert(all[i].kind == kind);
            if i == at {
                assert(all[i] == last);
            } else {
                assert(all[i] == before[i]);
            }
            assert(false);
        }
    }
}

/// A kind is in the merged plan exactly if it was in one of the two.
pub proof fn merging_adds_no_other_kind(
    plan: Seq<StepModel>,
    overlay: Seq<StepModel>,
    kind: KindModel,
)
    ensures
        has_kind(merged(plan, overlay), kind) <==> has_kind(plan, kind) || has_kind(overlay, kind),
    decreases overlay.len(),
{
    let all = merged(plan, overlay);
    merging_keeps_other_steps(plan, overlay);
    if has_kind(plan, kind) {
        let i = choose|i: int| 0 <= i < plan.len() && (#[trigger] plan[i]).kind == kind;
        assert(all[i].kind == kind);
    }
    if overlay.len() > 0 {
        let rest = overlay.drop_last();
        let before = merged(plan, rest);
        let last = overlay.last();
        let at = first_of_kind(before, last.kind) as int;
        first_of_kind_is_first(before, last.kind);
        merging_adds_no_other_kind(plan, rest, kind);
        assert(all[at] == last);
        if has_kind(overlay, kind) {
            let j = choose|j: int| 0 <= j < overlay.len() && (#[trigger] overlay[j]).kind == kind;
            if j < rest.len() {
                assert(rest[j].kind == kind);
                let i = choose|i: int| 0 <= i < before.len() && (#[trigger] before[i]).kind == kind;
                assert(all[i].kind == kind);
            }
        }
        if has_kind(all, kind) {
            let i = choose|i: int| 0 <= i < all.len() && (#[trigger] all[i]).kind == kind;
            if i == at {
                assert(overlay[overlay.len() - 1].kind == kind);
            } else {
                assert(before[i].kind == kind);
                if has_kind(rest, kind) {
                    let j = choose|j: int| 0 <= j < rest.len() && (#[trigger] rest[j]).kind == kind;
                    assert(overlay[j].kind == kind);
                }
            }
        }
    }
}

fn same_kind(a: &PlanStepKind, b: &PlanStepKind) -> (r: bool)
    ensures
        r == (a@ == b@),
{
    match (a, b) {
        (PlanStepKind::Custom(x), PlanStepKind::Custom(y)) => str_eq(x.as_str(), y.as_str()),
        (PlanStepKind::Startup, PlanStepKind::Startup) => true,
        (PlanStepKind::Brightness, PlanStepKind::Brightness) => true,
        (PlanStepKind::LockScreen, PlanStepKind::LockScreen) => true,
        (PlanStepKind::Dpms, PlanStepKind::Dpms) => true,
        (PlanStepKind::Suspend, PlanStepKind::Suspend) => true,
        _ => false,
    }
}

fn merge_one(base: &mut Vec<PlanStep>, step: PlanStep)
    ensures
        plan_view(final(base)@) == merged_one(plan_view(old(base)@), step@),
{
    let ghost before = plan_view(base@);
    let ghost s = step@;
    let mut i: usize = 0;
    while i < base.len() && !same_kind(&base[i].kind, &step.kind)
        invariant
            i <= base@.len(),
            before == plan_view(base@),
            s == step@,
            forall|k: int| 0 <= k < i ==> (#[trigger] before[k]).kind != s.kind,
        decreases base@.len() - i,
    {
        assert(before[i as int] == base@[i as int]@);
        i += 1;
    }
    proof {
        first_of_kind_is_first(before, s.kind);
        if i < base@.len() {
            assert(before[i as int] == base@[i as int]@);
        }
    }
    assert(first_of_kind(before, s.kind) == i);
    if i < base.len() {
        base.set(i, step);
        assert(plan_view(base@) =~= before.update(i as int, s));
    } else {
        base.push(step);
        assert(plan_view(base@) =~= before.push(s));
    }
}

/// Overlay merge: if step kind exists, replace it; otherwise append.
pub fn merge_plan(base: &mut Vec<PlanStep>, overlay: &Vec<PlanStep>)
    ensures
        plan_view(final(base)@) == merged(plan_view(old(base)@), plan_view(overlay@)),
{
    let ghost before = plan_view(base@);
    let ghost over = plan_view(overlay@);
    for i in 0..overlay.len()
        invariant
            over == plan_view(overlay@),
            plan_view(base@) == merged(before, over.take(i as int)),
    {
        assert(over.take(i + 1).drop_last() =~= over.take(i as int));
        assert(over.take(i + 1).last() == overlay@[i as int]@);
        merge_one(base, overlay[i].clone());
    }
    assert(over.take(over.len() as int) =~= over);
}

// ---------------------------------------------------------------------------------------------
// Selecting the plan
// ---------------------------------------------------------------------------------------------

impl ConfigModel {
    /// The plan that the named blocks make, in the order in which they usually run.
    pub open spec fn default_order(self) -> Seq<StepModel> {
        seq![
            self.startup.as_step(KindModel::Startup),
            self.brightness.as_step(KindModel::Brightness),
            self.lock_screen.as_step(KindModel::LockScreen),
            self.dpms.as_step(KindModel::Dpms),
            self.suspend.as_step(KindModel::Suspend),
        ]
    }

    /// The configuration with a desktop plan made of the named blocks, if it had none.
    pub open spec fn rebuilt(self) -> ConfigModel {
        if self.plan_desktop.len() > 0 {
            self
        } else {
            ConfigModel { plan_desktop: self.default_order(), ..self }
        }
    }

    /// The plan written for a power source.
    pub open spec fn own_plan(self, src: PlanSource) -> Seq<StepModel> {
        match src {
            PlanSource::Desktop => self.plan_desktop,
            PlanSource::Ac => self.plan_ac,
            PlanSource::Battery => self.plan_battery,
        }
    }

    /// The configuration with the plan for a power source made active. A source without a plan
    /// falls back to the desktop plan, and that to the named blocks.
    pub open spec fn selected(self, src: PlanSource) -> ConfigModel {
        if self.own_plan(src).len() > 0 {
            ConfigModel { plan: self.own_plan(src), ..self }
        } else {
            let all = self.rebuilt();
            ConfigModel { plan: all.plan_desktop, ..all }
        }
    }
}

impl Config {
    /// If we have no explicit plans, build the desktop plan from the named blocks.
    pub fn rebuild_plan_default_order(&mut self)
        ensures
            final(self)@ == old(self)@.rebuilt(),
    {
        if self.plan_desktop.len() > 0 {
            return ;
        }
        let mut plan: Vec<PlanStep> = Vec::new();
        plan.push(self.startup.to_step(PlanStepKind::Startup));
        plan.push(self.brightness.to_step(PlanStepKind::Brightness));
        plan.push(self.lock_screen.to_step());
        plan.push(self.dpms.to_step(PlanStepKind::Dpms));
        plan.push(self.suspend.to_step(PlanStepKind::Suspend));
        assert(plan_view(plan@) =~= self@.default_order());
        self.plan_desktop = plan;
    }

    /// Select which plan source is active (after profile application).
    pub fn select_plan_source(&mut self, src: PlanSource)
        ensures
            final(self)@ == old(self)@.selected(src),
    {
        let own = match src {
            PlanSource::Desktop => clone_plan(&self.plan_desktop),
            PlanSource::Ac => clone_plan(&self.plan_ac),
            PlanSource::Battery => clone_plan(&self.plan_battery),
        };
        assert(own@.len() == old(self)@.own_plan(src).len()) by {
            assert(plan_view(own@).len() == own@.len());
        }
        if own.len() > 0 {
            self.plan = own;
        } else {
            self.rebuild_plan_default_order();
            self.plan = clone_plan(&self.plan_desktop);
        }
    }
}

// ---------------------------------------------------------------------------------------------
// Applying a profile
// ---------------------------------------------------------------------------------------------

/// What is set, or else what was there.
pub open spec fn set_or<T>(set: Option<T>, base: T) -> T {
    match set {
        Some(v) => v,
        None => base,
    }
}

/// A plan under a profile: replaced in a fresh profile, merged in an overlay.
pub open spec fn plan_under(
    set: Option<Seq<StepModel>>,
    base: Seq<StepModel>,
    mode: ProfileMode,
) -> Seq<StepModel> {
    match set {
        None => base,
        Some(v) => match mode {
            ProfileMode::Fresh => v,
            ProfileMode::Overlay => merged(base, v),
        },
    }
}

impl PartialModel {
    /// `base` with every field that is set here replaced, and the active plan left open.
    pub open spec fn applied(self, base: ConfigModel, mode: ProfileMode) -> ConfigModel {
        ConfigModel {
            enable_loginctl: set_or(self.enable_loginctl, base.enable_loginctl),
            enable_dbus_inhibit: set_or(self.enable_dbus_inhibit, base.enable_dbus_inhibit),
            pre_suspend_command: set_or(self.pre_suspend_command, base.pre_suspend_command),
            monitor_media: set_or(self.monitor_media, base.monitor_media),
            ignore_remote_media: set_or(self.ignore_remote_media, base.ignore_remote_media),
            media_blacklist: set_or(self.media_blacklist, base.media_blacklist),
            debounce_seconds: set_or(self.debounce_seconds, base.debounce_seconds),
            notify_on_unpause: set_or(self.notify_on_unpause, base.notify_on_unpause),
            notify_before_action: set_or(self.notify_before_action, base.notify_before_action),
            inhibit_apps: set_or(self.inhibit_apps, base.inhibit_apps),
            lid_close_action: set_or(self.lid_close_action, base.lid_close_action),
            lid_open_action: set_or(self.lid_open_action, base.lid_open_action),
            startup: set_or(self.startup, base.startup),
            brightness: set_or(self.brightness, base.brightness),
            lock_screen: set_or(self.lock_screen, base.lock_screen),
            dpms: set_or(self.dpms, base.dpms),
            suspend: set_or(self.suspend, base.suspend),
            plan_desktop: plan_under(self.plan_desktop, base.plan_desktop, mode),
            plan_ac: plan_under(self.plan_ac, base.plan_ac, mode),
            plan_battery: plan_under(self.plan_battery, base.plan_battery, mode),
            plan: Seq::empty(),
        }
    }
}

fn pick<T: Copy>(set: Option<T>, base: T) -> (r: T)
    ensures
        r == set_or(set, base),
{
    match set {
        Some(v) => v,
        None => base,
    }
}

fn apply_text(set: &Option<Option<String>>, base: &mut Option<String>)
    ensures
        opt_view(*final(base)) == set_or(text_set(*set), opt_view(*old(base))),
{
    if let Some(v) = set {
        *base = v.clone();
    }
}

fn apply_patterns(set: &Option<Vec<Pattern>>, base: &mut Vec<Pattern>)
    ensures
        pattern_views(final(base)@) == set_or(patterns_set(*set), pattern_views(old(base)@)),
{
    if let Some(v) = set {
        *base = clone_patterns(v);
    }
}

fn apply_lid(set: &Option<Option<LidAction>>, base: &mut Option<LidAction>)
    ensures
        lid_view(*final(base)) == set_or(lid_set(*set), lid_view(*old(base))),
{
    if let Some(v) = set {
        *base = clone_lid(v);
    }
}

fn apply_block(set: &Option<ActionBlock>, base: &mut ActionBlock)
    ensures
        final(base)@ == set_or(block_set(*set), old(base)@),
{
    if let Some(v) = set {
        *base = v.clone();
    }
}

fn apply_lock(set: &Option<LockBlock>, base: &mut LockBlock)
    ensures
        final(base)@ == set_or(lock_set(*set), old(base)@),
{
    if let Some(v) = set {
        *base = v.clone();
    }
}

fn apply_plan(set: &Option<Vec<PlanStep>>, base: &mut Vec<PlanStep>, mode: ProfileMode)
    ensures
        plan_view(final(base)@) == plan_under(
            plan_set(*set),
            plan_view(old(base)@),
            mode,
        ),
{
    if let Some(v) = set {
        match mode {
            ProfileMode::Fresh => {
                *base = clone_plan(v);
            },
            ProfileMode::Overlay => {
                merge_plan(base, v);
            },
        }
    }
}

impl PartialConfig {
    /// Replaces in `base` what is set here, and leaves the active plan to be selected again.
    pub fn apply_to(&self, base: &mut Config, mode: ProfileMode)
        ensures
            final(base)@ == self@.applied(old(base)@, mode),
    {
        self.apply_globals(base);
        apply_block(&self.startup, &mut base.startup);
        apply_block(&self.brightness, &mut base.brightness);
        apply_lock(&self.lock_screen, &mut base.lock_screen);
        apply_block(&self.dpms, &mut base.dpms);
        apply_block(&self.suspend, &mut base.suspend);
        apply_plan(&self.plan_desktop, &mut base.plan_desktop, mode);
        apply_plan(&self.plan_ac, &mut base.plan_ac, mode);
        apply_plan(&self.plan_battery, &mut base.plan_battery, mode);
        base.plan.clear();
        assert(base@ =~= self@.applied(old(base)@, mode));
    }

    fn apply_globals(&self, base: &mut Config)
        ensures
            final(base)@ == (ConfigModel {
                enable_loginctl: set_or(self@.enable_loginctl, old(base)@.enable_loginctl),
                enable_dbus_inhibit: set_or(
                    self@.enable_dbus_inhibit,
                    old(base)@.enable_dbus_inhibit,
                ),
                pre_suspend_command: set_or(
                    self@.pre_suspend_command,
                    old(base)@.pre_suspend_command,
                ),
                monitor_media: set_or(self@.monitor_media, old(base)@.monitor_media),
                ignore_remote_media: set_or(
                    self@.ignore_remote_media,
                    old(base)@.ignore_remote_media,
                ),
                media_blacklist: set_or(self@.media_blacklist, old(base)@.media_blacklist),
                debounce_seconds: set_or(self@.debounce_seconds, old(base)@.debounce_seconds),
                notify_on_unpause: set_or(self@.notify_on_unpause, old(base)@.notify_on_unpause),
                notify_before_action: set_or(
                    self@.notify_before_action,
                    old(base)@.notify_before_action,
                ),
                inhibit_apps: set_or(self@.inhibit_apps, old(base)@.inhibit_apps),
                lid_close_action: set_or(self@.lid_close_action, old(base)@.lid_close_action),
                lid_open_action: set_or(self@.lid_open_action, old(base)@.lid_open_action),
                ..old(base)@
            }),
    {
        base.enable_loginctl = pick(self.enable_loginctl, base.enable_loginctl);
        base.enable_dbus_inhibit = pick(self.enable_dbus_inhibit, base.enable_dbus_inhibit);
        apply_text(&self.pre_suspend_command, &mut base.pre_suspend_command);
        base.monitor_media = pick(self.monitor_media, base.monitor_media);
        base.ignore_remote_media = pick(self.ignore_remote_media, base.ignore_remote_media);
        apply_patterns(&self.media_blacklist, &mut base.media_blacklist);
        base.debounce_seconds = pick(self.debounce_seconds, base.debounce_seconds);
        base.notify_on_unpause = pick(self.notify_on_unpause, base.notify_on_unpause);
        base.notify_before_action = pick(self.notify_before_action, base.notify_before_action);
        apply_patterns(&self.inhibit_apps, &mut base.inhibit_apps);
        apply_lid(&self.lid_close_action, &mut base.lid_close_action);
        apply_lid(&self.lid_open_action, &mut base.lid_open_action);
    }
}

// ---------------------------------------------------------------------------------------------
// The configuration in effect
// ---------------------------------------------------------------------------------------------

/// The position of the first profile of this name, or the number of profiles.
pub open spec fn first_named(profiles: Seq<ProfileModel>, name: Seq<char>) -> nat
    decreases profiles.len(),
{
    if profiles.len() == 0 || profiles[0].name == name {
        0
    } else {
        1 + first_named(profiles.skip(1), name)
    }
}

pub proof fn first_named_is_first(profiles: Seq<ProfileModel>, name: Seq<char>)
    ensures
        first_named(profiles, name) <= profiles.len(),
        first_named(profiles, name) < profiles.len() ==> profiles[first_named(
            profiles,
            name,
        ) as int].name == name,
        forall|k: int| 0 <= k < first_named(profiles, name) ==> (#[trigger] profiles[k]).name
            != name,
    decreases profiles.len(),
{
    if profiles.len() > 0 && profiles[0].name != name {
        first_named_is_first(profiles.skip(1), name);
        let n = first_named(profiles.skip(1), name);
        assert forall|k: int| 0 <= k < 1 + n implies (#[trigger] profiles[k]).name != name by {
            if k > 0 {
                assert(profiles[k] == profiles.skip(1)[k - 1]);
            }
        }
    }
}

impl FileModel {
    /// The configuration that a profile leads to, before a plan is selected: `default` itself,
    /// or the first profile of the name applied to `default` (overlay) or to nothing (fresh).
    pub open spec fn under_profile(self, name: Seq<char>) -> Option<ConfigModel> {
        if name == "default"@ {
            Some(self.default)
        } else {
            let i = first_named(self.profiles, name) as int;
            if i < self.profiles.len() {
                let p = self.profiles[i];
                let base = match p.mode {
                    ProfileMode::Fresh => ConfigModel::disabled(),
                    ProfileMode::Overlay => self.default,
                };
                Some(p.config.applied(base, p.mode))
            } else {
                None
            }
        }
    }

    /// The configuration in effect under a profile (none means `default`) and a power source.
    #[verifier::opaque]
    pub open spec fn effective(self, profile: Option<Seq<char>>, src: PlanSource) -> Option<
        ConfigModel,
    > {
        match self.under_profile(set_or(profile, "default"@)) {
            Some(c) => Some(c.rebuilt().selected(src)),
            None => None,
        }
    }
}

fn find_profile<'a>(profiles: &'a Vec<Profile>, name: &str) -> (r: Option<&'a Profile>)
    ensures
        ({
            let i = first_named(profile_views(profiles@), name@) as int;
            match r {
                Some(p) => i < profiles@.len() && p@ == profile_views(profiles@)[i],
                None => i == profiles@.len(),
            }
        }),
{
    let ghost all = profile_views(profiles@);
    let mut i: usize = 0;
    while i < profiles.len() && !str_eq(profiles[i].name.as_str(), name)
        invariant
            i <= profiles@.len(),
            all == profile_views(profiles@),
            forall|k: int| 0 <= k < i ==> (#[trigger] all[k]).name != name@,
        decreases profiles@.len() - i,
    {
        assert(all[i as int] == profiles@[i as int]@);
        i += 1;
    }
    proof {
        first_named_is_first(all, name@);
        if i < profiles@.len() {
            assert(all[i as int] == profiles@[i as int]@);
        }
    }
    assert(first_named(all, name@) == i);
    if i < profiles.len() {
        Some(&profiles[i])
    } else {
        None
    }
}

impl ConfigFile {
    /// Apply profile (if any), then select plan source (desktop/ac/battery).
    pub fn effective_for(&self, profile_name: Option<&str>, src: PlanSource) -> (r: Option<Config>)
        ensures
            match r {
                Some(c) => self@.effective(name_view(profile_name), src) == Some(c@),
                None => self@.effective(name_view(profile_name), src) is None,
            },
    {
        proof {
            reveal(FileModel::effective);
        }
        let name = match profile_name {
            Some(n) => n,
            None => "default",
        };
        let mut cfg = if str_eq(name, "default") {
            self.default.clone()
        } else {
            match find_profile(&self.profiles, name) {
                None => {
                    return None;
                },
                Some(p) => {
                    let mut c = match p.mode {
                        ProfileMode::Fresh => Config::disabled(),
                        ProfileMode::Overlay => self.default.clone(),
                    };
                    p.config.apply_to(&mut c, p.mode);
                    c
                },
            }
        };
        cfg.rebuild_plan_default_order();
        cfg.select_plan_source(src);
        Some(cfg)
    }
}

// ---------------------------------------------------------------------------------------------
// Laws
// ---------------------------------------------------------------------------------------------

/// The configuration in effect always has a plan with at least one step.
pub proof fn effective_plan_is_not_empty(
    file: FileModel,
    profile: Option<Seq<char>>,
    src: PlanSource,
)
    ensures
        file.effective(profile, src) matches Some(c) ==> c.plan.len() > 0,
{
    reveal(FileModel::effective);
}

/// Without a profile there is always a configuration in effect. A named profile has one exactly
/// if the file has a profile of that name or the name is `default`.
pub proof fn effective_exists_iff_named(
    file: FileModel,
    profile: Option<Seq<char>>,
    src: PlanSource,
)
    ensures
        profile is None ==> file.effective(profile, src) is Some,
        profile matches Some(name) ==> (file.effective(profile, src) is Some <==> name
            == "default"@ || exists|i: int|
            0 <= i < file.profiles.len() && (#[trigger] file.profiles[i]).name == name),
{
    reveal(FileModel::effective);
    if let Some(name) = profile {
        first_named_is_first(file.profiles, name);
    }
}

/// A fresh profile takes nothing from `default`: two files that differ only there agree on it.
pub proof fn fresh_profile_ignores_default(
    file: FileModel,
    other: ConfigModel,
    name: Seq<char>,
    src: PlanSource,
)
    requires
        name != "default"@,
        first_named(file.profiles, name) < file.profiles.len(),
        file.profiles[first_named(file.profiles, name) as int].mode == ProfileMode::Fresh,
    ensures
        file.effective(Some(name), src) == (FileModel { default: other, ..file }).effective(
            Some(name),
            src,
        ),
{
    reveal(FileModel::effective);
}

/// An overlay that sets nothing is the default configuration.
pub proof fn empty_overlay_is_default(file: FileModel, name: Seq<char>, src: PlanSource)
    requires
        name != "default"@,
        first_named(file.profiles, name) < file.profiles.len(),
        file.profiles[first_named(file.profiles, name) as int].mode == ProfileMode::Overlay,
        file.profiles[first_named(file.profiles, name) as int].config == PartialModel::unset(),
    ensures
        file.effective(Some(name), src) == file.effective(None, src),
{
    reveal(FileModel::effective);
    let unset = PartialModel::unset();
    let c = unset.applied(file.default, ProfileMode::Overlay);
    assert(c =~= ConfigModel { plan: Seq::empty(), ..file.default });
    assert(c.rebuilt().selected(src) =~= file.default.rebuilt().selected(src));
}

/// The power source changes the active plan only.
pub proof fn source_changes_only_the_plan(
    file: FileModel,
    profile: Option<Seq<char>>,
    a: PlanSource,
    b: PlanSource,
)
    ensures
        file.effective(profile, a) is Some <==> file.effective(profile, b) is Some,
        file.effective(profile, a) matches Some(x) ==> file.effective(profile, b) matches Some(y)
            ==> y == (ConfigModel { plan: y.plan, ..x }),
{
    reveal(FileModel::effective);
}

} // verus!
