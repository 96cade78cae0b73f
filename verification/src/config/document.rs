//! The whole of a configuration: the default block and the profiles.

use rune_cfg::RuneConfig;
use vstd::prelude::*;

use super::parse::{
    is_global_key, opt_vec_pattern, parse_lid_action, parse_lid_action_override, parse_named_plan,
    parse_plan_block,
};
use super::pattern::{pattern_views, Pattern, PatternModel};
use super::references::docs_of;
use super::source::{
    count_or_zero, fault, fault_text, flag_or_off, keys_under, opt_bool, opt_nullable_string,
    opt_nullable_string2, opt_string, opt_u64, readable, rune_has, settle, settled, source_of,
    value_read, SourceModel,
};
use super::types::{
    plan_set, plan_view, profile_views, ActionBlock, BlockModel, Config, ConfigFile, ConfigModel,
    FileModel, KindModel, LockBlock, PartialConfig, PartialModel, PlanStep, PlanStepKind, Profile,
    ProfileMode, ProfileModel, StepModel,
};
use crate::text::strings::{
    cat, has_prefix, lowercase, starts_with, str_eq, to_lowercase, trim, trimmed, views,
};

verus! {

// ---------------------------------------------------------------------------------------------
// The named blocks
// ---------------------------------------------------------------------------------------------

impl StepModel {
    /// The block that describes the step.
    pub open spec fn as_block(self) -> BlockModel {
        BlockModel {
            timeout_seconds: self.timeout_seconds,
            command: self.command,
            resume_command: self.resume_command,
            notification: self.notification,
            notify_seconds_before: self.notify_seconds_before,
        }
    }
}

impl ConfigModel {
    /// The configuration with the block of a step's kind set to what the step says.
    pub open spec fn with_block_of(self, step: StepModel) -> ConfigModel {
        match step.kind {
            KindModel::Startup => ConfigModel { startup: step.as_block(), ..self },
            KindModel::Brightness => ConfigModel { brightness: step.as_block(), ..self },
            KindModel::LockScreen => ConfigModel { lock_screen: step.as_block(), ..self },
            KindModel::Dpms => ConfigModel { dpms: step.as_block(), ..self },
            KindModel::Suspend => ConfigModel { suspend: step.as_block(), ..self },
            KindModel::Custom(_) => self,
        }
    }

    /// The configuration with the blocks of a plan's steps; of two steps of a kind the later
    /// counts.
    pub open spec fn with_blocks_of(self, plan: Seq<StepModel>) -> ConfigModel
        decreases plan.len(),
    {
        if plan.len() == 0 {
            self
        } else {
            self.with_blocks_of(plan.drop_last()).with_block_of(plan.last())
        }
    }
}

impl PlanStep {
    /// The block that describes the step.
    fn to_block(&self) -> (r: ActionBlock)
        ensures
            r@ == self@.as_block(),
    {
        ActionBlock {
            timeout_seconds: self.timeout_seconds,
            command: self.command.clone(),
            resume_command: self.resume_command.clone(),
            notification: self.notification.clone(),
            notify_seconds_before: self.notify_seconds_before,
        }
    }

    /// The lock block that describes the step.
    fn to_lock_block(&self) -> (r: LockBlock)
        ensures
            r@ == self@.as_block(),
    {
        LockBlock {
            timeout_seconds: self.timeout_seconds,
            command: self.command.clone(),
            resume_command: self.resume_command.clone(),
            notification: self.notification.clone(),
            notify_seconds_before: self.notify_seconds_before,
        }
    }
}

impl Config {
    /// Sets the named blocks to what the steps of a plan say.
    fn record_blocks(&mut self, plan: &Vec<PlanStep>)
        ensures
            final(self)@ == old(self)@.with_blocks_of(plan_view(plan@)),
    {
        let ghost all = plan_view(plan@);
        let ghost start = self@;
        for i in 0..plan.len()
            invariant
                all == plan_view(plan@),
                self@ == start.with_blocks_of(all.take(i as int)),
        {
            assert(all.take(i + 1).drop_last() =~= all.take(i as int));
            assert(all.take(i + 1).last() == plan@[i as int]@);
            match &plan[i].kind {
                PlanStepKind::Startup => {
                    self.startup = plan[i].to_block();
                },
                PlanStepKind::Brightness => {
                    self.brightness = plan[i].to_block();
                },
                PlanStepKind::LockScreen => {
                    self.lock_screen = plan[i].to_lock_block();
                },
                PlanStepKind::Dpms => {
                    self.dpms = plan[i].to_block();
                },
                PlanStepKind::Suspend => {
                    self.suspend = plan[i].to_block();
                },
                PlanStepKind::Custom(_) => {},
            }
        }
        assert(all.take(plan@.len() as int) =~= all);
    }
}

// ---------------------------------------------------------------------------------------------
// The default block
// ---------------------------------------------------------------------------------------------

/// The value of a reading that did not fail.
pub open spec fn value_of<T>(r: Result<T, Seq<char>>) -> T {
    r->Ok_0
}

/// Why a reading failed, if it did.
pub open spec fn fault_of<T>(r: Result<T, Seq<char>>) -> Option<Seq<char>> {
    match r {
        Ok(_) => None,
        Err(e) => Some(e),
    }
}

/// The first of two faults.
pub open spec fn first_fault(a: Option<Seq<char>>, b: Option<Seq<char>>) -> Option<Seq<char>> {
    if a is Some {
        a
    } else {
        b
    }
}

/// The patterns at a path; none where there is no value.
pub open spec fn patterns_or_none(r: Option<Seq<PatternModel>>) -> Seq<PatternModel> {
    match r {
        Some(v) => v,
        None => Seq::empty(),
    }
}

impl SourceModel {
    /// The first part of the default block that cannot be read, if there is one.
    pub open spec fn default_fault(self) -> Option<Seq<char>> {
        first_fault(
            fault_of(self.nullable("default.pre_suspend_command"@)),
            first_fault(
                fault_of(self.patterns("default.media_blacklist"@)),
                first_fault(
                    fault_of(self.patterns("default.inhibit_apps"@)),
                    first_fault(
                        fault_of(self.lid("default.lid_close_action"@)),
                        first_fault(
                            fault_of(self.lid("default.lid_open_action"@)),
                            first_fault(
                                fault_of(self.plan("default"@, true)),
                                first_fault(
                                    fault_of(self.named_plan("default.ac"@)),
                                    fault_of(self.named_plan("default.battery"@)),
                                ),
                            ),
                        ),
                    ),
                ),
            ),
        )
    }

    /// What the default block says where all of it can be read. A plan that is left out is that
    /// of the named blocks.
    pub open spec fn default_value(self) -> ConfigModel {
        let plan = value_of(self.plan("default"@, true));
        let c = ConfigModel {
            enable_loginctl: self.flag_or_off("default.enable_loginctl"@),
            enable_dbus_inhibit: self.flag_or_off("default.enable_dbus_inhibit"@),
            pre_suspend_command: match value_of(self.nullable("default.pre_suspend_command"@)) {
                Some(t) => t,
                None => None,
            },
            monitor_media: self.flag_or_off("default.monitor_media"@),
            ignore_remote_media: self.flag_or_off("default.ignore_remote_media"@),
            media_blacklist: patterns_or_none(value_of(self.patterns("default.media_blacklist"@))),
            debounce_seconds: self.count_or_zero("default.debounce_seconds"@),
            notify_on_unpause: self.flag_or_off("default.notify_on_unpause"@),
            notify_before_action: self.flag_or_off("default.notify_before_action"@),
            inhibit_apps: patterns_or_none(value_of(self.patterns("default.inhibit_apps"@))),
            lid_close_action: value_of(self.lid("default.lid_close_action"@)),
            lid_open_action: value_of(self.lid("default.lid_open_action"@)),
            ..ConfigModel::disabled()
        };
        ConfigModel {
            plan_desktop: plan,
            plan_ac: value_of(self.named_plan("default.ac"@)),
            plan_battery: value_of(self.named_plan("default.battery"@)),
            ..c.with_blocks_of(plan)
        }.rebuilt()
    }
}

/// The patterns at a path; none where there is no value.
fn get_vec_pattern(rc: &RuneConfig, path: &str) -> (r: Result<Vec<Pattern>, String>)
    requires
        settled(*rc),
    ensures
        match r {
            Ok(v) => source_of(*rc).patterns(path@) is Ok && pattern_views(v@) == patterns_or_none(
                value_of(source_of(*rc).patterns(path@)),
            ),
            Err(e) => fault_of(source_of(*rc).patterns(path@)) == Some(e@),
        },
{
    match opt_vec_pattern(rc, path) {
        Err(e) => Err(e),
        Ok(Some(v)) => Ok(v),
        Ok(None) => {
            let v: Vec<Pattern> = Vec::new();
            assert(pattern_views(v@) =~= Seq::empty());
            Ok(v)
        },
    }
}

/// What the default block says.
fn parse_default(rc: &RuneConfig) -> (r: Result<Config, String>)
    requires
        settled(*rc),
    ensures
        match r {
            Ok(c) => source_of(*rc).default_fault() is None && c@ == source_of(
                *rc,
            ).default_value(),
            Err(e) => source_of(*rc).default_fault() == Some(e@),
        },
{
    let ghost s = source_of(*rc);
    let mut cfg = Config::disabled();
    cfg.enable_loginctl = flag_or_off(rc, "default.enable_loginctl");
    cfg.enable_dbus_inhibit = flag_or_off(rc, "default.enable_dbus_inhibit");
    cfg.pre_suspend_command =
    match opt_nullable_string(rc, "default.pre_suspend_command") {
        Ok(v) => v,
        Err(e) => return Err(e),
    };
    cfg.monitor_media = flag_or_off(rc, "default.monitor_media");
    cfg.ignore_remote_media = flag_or_off(rc, "default.ignore_remote_media");
    cfg.media_blacklist =
    match get_vec_pattern(rc, "default.media_blacklist") {
        Ok(v) => v,
        Err(e) => return Err(e),
    };
    cfg.debounce_seconds = count_or_zero(rc, "default.debounce_seconds");
    cfg.notify_on_unpause = flag_or_off(rc, "default.notify_on_unpause");
    cfg.notify_before_action = flag_or_off(rc, "default.notify_before_action");
    cfg.inhibit_apps =
    match get_vec_pattern(rc, "default.inhibit_apps") {
        Ok(v) => v,
        Err(e) => return Err(e),
    };
    cfg.lid_close_action =
    match parse_lid_action(rc, "default.lid_close_action") {
        Ok(v) => v,
        Err(e) => return Err(e),
    };
    cfg.lid_open_action =
    match parse_lid_action(rc, "default.lid_open_action") {
        Ok(v) => v,
        Err(e) => return Err(e),
    };
    let plan = match parse_plan_block(rc, "default", true) {
        Ok(v) => v,
        Err(e) => return Err(e),
    };
    let plan_ac = match parse_named_plan(rc, "default.ac") {
        Ok(v) => v,
        Err(e) => return Err(e),
    };
    let plan_battery = match parse_named_plan(rc, "default.battery") {
        Ok(v) => v,
        Err(e) => return Err(e),
    };
    cfg.record_blocks(&plan);
    cfg.plan_desktop = plan;
    cfg.plan_ac = plan_ac;
    cfg.plan_battery = plan_battery;
    cfg.rebuild_plan_default_order();
    Ok(cfg)
}

// ---------------------------------------------------------------------------------------------
// Profiles
// ---------------------------------------------------------------------------------------------

/// A plan is an override only where it has steps.
pub open spec fn plan_override(plan: Seq<StepModel>) -> Option<Seq<StepModel>> {
    if plan.len() == 0 {
        None
    } else {
        Some(plan)
    }
}

/// The mode that a text names.
pub open spec fn mode_named(name: Seq<char>, raw: Seq<char>) -> Result<ProfileMode, Seq<char>> {
    let m = lowercase(trimmed(raw));
    if m == "overlay"@ {
        Ok(ProfileMode::Overlay)
    } else if m == "fresh"@ {
        Ok(ProfileMode::Fresh)
    } else {
        Err(
            fault(
                name + ".mode"@,
                "expected \"overlay\" or \"fresh\", got \""@ + m + "\""@,
            ),
        )
    }
}

impl SourceModel {
    /// The first global knob of a profile that cannot be read, if there is one.
    pub open spec fn knobs_fault(self, name: Seq<char>) -> Option<Seq<char>> {
        first_fault(
            fault_of(self.flag(name + ".enable_loginctl"@)),
            first_fault(
                fault_of(self.flag(name + ".enable_dbus_inhibit"@)),
                first_fault(
                    fault_of(self.nullable(name + ".pre_suspend_command"@)),
                    first_fault(
                        fault_of(self.flag(name + ".monitor_media"@)),
                        first_fault(
                            fault_of(self.flag(name + ".ignore_remote_media"@)),
                            first_fault(
                                fault_of(self.patterns(name + ".media_blacklist"@)),
                                first_fault(
                                    fault_of(self.count(name + ".debounce_seconds"@)),
                                    first_fault(
                                        fault_of(self.flag(name + ".notify_on_unpause"@)),
                                        first_fault(
                                            fault_of(self.flag(name + ".notify_before_action"@)),
                                            first_fault(
                                                fault_of(self.patterns(name + ".inhibit_apps"@)),
                                                first_fault(
                                                    fault_of(self.lid_override(name + ".lid_close_action"@)),
                                                    fault_of(self.lid_override(name + ".lid_open_action"@)),
                                                ),
                                            ),
                                        ),
                                    ),
                                ),
                            ),
                        ),
                    ),
                ),
            ),
        )
    }

    /// The global knobs that a profile sets, where all of them can be read.
    pub open spec fn knobs_value(self, name: Seq<char>) -> PartialModel {
        PartialModel {
            enable_loginctl: value_of(self.flag(name + ".enable_loginctl"@)),
            enable_dbus_inhibit: value_of(self.flag(name + ".enable_dbus_inhibit"@)),
            pre_suspend_command: value_of(self.nullable(name + ".pre_suspend_command"@)),
            monitor_media: value_of(self.flag(name + ".monitor_media"@)),
            ignore_remote_media: value_of(self.flag(name + ".ignore_remote_media"@)),
            media_blacklist: value_of(self.patterns(name + ".media_blacklist"@)),
            debounce_seconds: value_of(self.count(name + ".debounce_seconds"@)),
            notify_on_unpause: value_of(self.flag(name + ".notify_on_unpause"@)),
            notify_before_action: value_of(self.flag(name + ".notify_before_action"@)),
            inhibit_apps: value_of(self.patterns(name + ".inhibit_apps"@)),
            lid_close_action: value_of(self.lid_override(name + ".lid_close_action"@)),
            lid_open_action: value_of(self.lid_override(name + ".lid_open_action"@)),
            ..PartialModel::unset()
        }
    }

    /// The first plan of a profile that cannot be read, if there is one.
    pub open spec fn plans_fault(self, name: Seq<char>) -> Option<Seq<char>> {
        first_fault(
            fault_of(self.plan(name, true)),
            first_fault(
                fault_of(self.named_plan(name + ".ac"@)),
                fault_of(self.named_plan(name + ".battery"@)),
            ),
        )
    }

    /// What a profile sets, where all of it can be read.
    pub open spec fn profile_value(self, name: Seq<char>) -> PartialModel {
        PartialModel {
            plan_desktop: plan_override(value_of(self.plan(name, true))),
            plan_ac: plan_override(value_of(self.named_plan(name + ".ac"@))),
            plan_battery: plan_override(value_of(self.named_plan(name + ".battery"@))),
            ..self.knobs_value(name)
        }
    }

    /// The mode of a profile; an overlay where none is written.
    pub open spec fn mode(self, name: Seq<char>) -> Result<ProfileMode, Seq<char>> {
        match self.text(name + ".mode"@) {
            Err(e) => Err(e),
            Ok(None) => mode_named(name, "overlay"@),
            Ok(Some(raw)) => mode_named(name, raw),
        }
    }

    /// A top-level key that names a profile: not `default`, no metadata, and a block with keys.
    pub open spec fn is_profile(self, name: Seq<char>) -> bool {
        &&& name.len() > 0
        &&& name != "default"@
        &&& name[0] != '@'
        &&& self.has(name)
        &&& self.keys(name).len() > 0
    }

    /// The profile that a top-level key describes, if it describes one.
    pub open spec fn profile(self, name: Seq<char>) -> Result<Option<ProfileModel>, Seq<char>> {
        if !self.is_profile(name) {
            Ok(None)
        } else {
            match self.mode(name) {
                Err(e) => Err(e),
                Ok(mode) => match first_fault(self.knobs_fault(name), self.plans_fault(name)) {
                    Some(e) => Err(e),
                    None => Ok(Some(ProfileModel { name, mode, config: self.profile_value(name) })),
                },
            }
        }
    }

    /// The profiles that top-level keys describe, in their order.
    pub open spec fn profiles_of(self, names: Seq<Seq<char>>) -> Result<
        Seq<ProfileModel>,
        Seq<char>,
    >
        decreases names.len(),
    {
        if names.len() == 0 {
            Ok(Seq::empty())
        } else {
            match self.profiles_of(names.drop_last()) {
                Err(e) => Err(e),
                Ok(done) => match self.profile(names.last()) {
                    Err(e) => Err(e),
                    Ok(None) => Ok(done),
                    Ok(Some(p)) => Ok(done.push(p)),
                },
            }
        }
    }

    /// The profiles of the configuration.
    pub open spec fn profiles(self) -> Result<Seq<ProfileModel>, Seq<char>> {
        self.profiles_of(self.keys(""@))
    }

    /// The configuration file that is described. No profile is active in it: that is picked while
    /// the daemon runs.
    pub open spec fn file(self) -> Result<FileModel, Seq<char>> {
        if !self.has("default"@) {
            Err(NO_DEFAULT@)
        } else {
            match first_fault(self.default_fault(), fault_of(self.profiles())) {
                Some(e) => Err(e),
                None => Ok(
                    FileModel {
                        default: self.default_value(),
                        profiles: value_of(self.profiles()),
                        active_profile: None,
                    },
                ),
            }
        }
    }
}

/// What is said of a configuration without a default block.
pub const NO_DEFAULT: &'static str = "config must contain a `default:` block";

/// The mode that a text names.
fn parse_mode(name: &str, raw: &str) -> (r: Result<ProfileMode, String>)
    ensures
        value_read(r) == mode_named(name@, raw@),
{
    let t = trim(raw);
    let m = to_lowercase(t.as_str());
    if str_eq(m.as_str(), "overlay") {
        Ok(ProfileMode::Overlay)
    } else if str_eq(m.as_str(), "fresh") {
        Ok(ProfileMode::Fresh)
    } else {
        let path = cat(name, ".mode");
        let mut what = cat("expected \"overlay\" or \"fresh\", got \"", m.as_str());
        what.append("\"");
        Err(fault_text(path.as_str(), what.as_str()))
    }
}

/// The mode of a profile; an overlay where none is written.
fn profile_mode(rc: &RuneConfig, name: &str) -> (r: Result<ProfileMode, String>)
    requires
        settled(*rc),
    ensures
        value_read(r) == source_of(*rc).mode(name@),
{
    match opt_string(rc, cat(name, ".mode").as_str()) {
        Err(e) => Err(e),
        Ok(None) => parse_mode(name, "overlay"),
        Ok(Some(raw)) => parse_mode(name, raw.as_str()),
    }
}

/// The global knobs that a profile sets.
fn parse_knobs(rc: &RuneConfig, name: &str) -> (r: Result<PartialConfig, String>)
    requires
        settled(*rc),
    ensures
        match r {
            Ok(pc) => source_of(*rc).knobs_fault(name@) is None && pc@ == source_of(
                *rc,
            ).knobs_value(name@),
            Err(e) => source_of(*rc).knobs_fault(name@) == Some(e@),
        },
{
    let mut pc = PartialConfig::default();
    pc.enable_loginctl =
    match opt_bool(rc, cat(name, ".enable_loginctl").as_str()) {
        Ok(v) => v,
        Err(e) => return Err(e),
    };
    pc.enable_dbus_inhibit =
    match opt_bool(rc, cat(name, ".enable_dbus_inhibit").as_str()) {
        Ok(v) => v,
        Err(e) => return Err(e),
    };
    pc.pre_suspend_command =
    match opt_nullable_string2(rc, cat(name, ".pre_suspend_command").as_str()) {
        Ok(v) => v,
        Err(e) => return Err(e),
    };
    pc.monitor_media =
    match opt_bool(rc, cat(name, ".monitor_media").as_str()) {
        Ok(v) => v,
        Err(e) => return Err(e),
    };
    pc.ignore_remote_media =
    match opt_bool(rc, cat(name, ".ignore_remote_media").as_str()) {
        Ok(v) => v,
        Err(e) => return Err(e),
    };
    pc.media_blacklist =
    match opt_vec_pattern(rc, cat(name, ".media_blacklist").as_str()) {
        Ok(v) => v,
        Err(e) => return Err(e),
    };
    pc.debounce_seconds =
    match opt_u64(rc, cat(name, ".debounce_seconds").as_str()) {
        Ok(v) => v,
        Err(e) => return Err(e),
    };
    pc.notify_on_unpause =
    match opt_bool(rc, cat(name, ".notify_on_unpause").as_str()) {
        Ok(v) => v,
        Err(e) => return Err(e),
    };
    pc.notify_before_action =
    match opt_bool(rc, cat(name, ".notify_before_action").as_str()) {
        Ok(v) => v,
        Err(e) => return Err(e),
    };
    pc.inhibit_apps =
    match opt_vec_pattern(rc, cat(name, ".inhibit_apps").as_str()) {
        Ok(v) => v,
        Err(e) => return Err(e),
    };
    pc.lid_close_action =
    match parse_lid_action_override(rc, cat(name, ".lid_close_action").as_str()) {
        Ok(v) => v,
        Err(e) => return Err(e),
    };
    pc.lid_open_action =
    match parse_lid_action_override(rc, cat(name, ".lid_open_action").as_str()) {
        Ok(v) => v,
        Err(e) => return Err(e),
    };
    Ok(pc)
}

/// A plan is an override only where it has steps.
fn override_with(plan: Vec<PlanStep>) -> (r: Option<Vec<PlanStep>>)
    ensures
        plan_set(r) == plan_override(plan_view(plan@)),
{
    if plan.len() == 0 {
        None
    } else {
        Some(plan)
    }
}

/// What a profile sets.
fn parse_profile(rc: &RuneConfig, name: &str) -> (r: Result<PartialConfig, String>)
    requires
        settled(*rc),
    ensures
        match r {
            Ok(pc) => first_fault(
                source_of(*rc).knobs_fault(name@),
                source_of(*rc).plans_fault(name@),
            ) is None && pc@ == source_of(*rc).profile_value(name@),
            Err(e) => first_fault(
                source_of(*rc).knobs_fault(name@),
                source_of(*rc).plans_fault(name@),
            ) == Some(e@),
        },
{
    let mut pc = match parse_knobs(rc, name) {
        Ok(v) => v,
        Err(e) => return Err(e),
    };
    let plan_desktop = match parse_plan_block(rc, name, true) {
        Ok(v) => v,
        Err(e) => return Err(e),
    };
    let plan_ac = match parse_named_plan(rc, cat(name, ".ac").as_str()) {
        Ok(v) => v,
        Err(e) => return Err(e),
    };
    let plan_battery = match parse_named_plan(rc, cat(name, ".battery").as_str()) {
        Ok(v) => v,
        Err(e) => return Err(e),
    };
    pc.plan_desktop = override_with(plan_desktop);
    pc.plan_ac = override_with(plan_ac);
    pc.plan_battery = override_with(plan_battery);
    Ok(pc)
}

/// A top-level key that names a profile. A name is considered a profile ONLY if it is an
/// object/block (i.e. it has subkeys); a scalar or an array is a global.
fn names_profile(rc: &RuneConfig, name: &str) -> (r: bool)
    requires
        settled(*rc),
    ensures
        r == source_of(*rc).is_profile(name@),
{
    if name.unicode_len() == 0 || str_eq(name, "default") || starts_with(name, "@") {
        proof {
            reveal_strlit("@");
            if has_prefix(name@, "@"@) {
                assert(name@.take(1)[0] == "@"@[0]);
            }
        }
        return false;
    }
    proof {
        reveal_strlit("@");
        if name@[0] == '@' {
            assert(name@.take(1) =~= "@"@);
        }
    }
    if !rune_has(rc, name) {
        return false;
    }
    let subkeys = keys_under(rc, name);
    assert(views(subkeys@).len() == subkeys@.len());
    subkeys.len() > 0
}

/// What comes after a profile that cannot be read is of no account.
proof fn bad_profile_decides(s: SourceModel, names: Seq<Seq<char>>, n: int)
    requires
        0 <= n <= names.len(),
        s.profiles_of(names.take(n)) is Err,
    ensures
        s.profiles_of(names) == s.profiles_of(names.take(n)),
    decreases names.len(),
{
    if n == names.len() {
        assert(names.take(n) =~= names);
    } else {
        assert(names.drop_last().take(n) =~= names.take(n));
        bad_profile_decides(s, names.drop_last(), n);
    }
}

/// Parse profiles (top-level blocks other than `default`).
pub fn parse_profiles(rc: &RuneConfig) -> (r: Result<Vec<Profile>, String>)
    requires
        settled(*rc),
    ensures
        match r {
            Ok(v) => source_of(*rc).profiles() is Ok && profile_views(v@) == value_of(
                source_of(*rc).profiles(),
            ),
            Err(e) => fault_of(source_of(*rc).profiles()) == Some(e@),
        },
{
    let top = keys_under(rc, "");
    let ghost s = source_of(*rc);
    let ghost all = s.keys(""@);
    let mut profiles: Vec<Profile> = Vec::new();
    assert(profile_views(profiles@) =~= Seq::empty());
    for i in 0..top.len()
        invariant
            settled(*rc),
            s == source_of(*rc),
            all == s.keys(""@),
            all == views(top@),
            s.profiles_of(all.take(i as int)) == Ok::<_, Seq<char>>(profile_views(profiles@)),
    {
        let name = top[i].as_str();
        assert(all.take(i + 1).drop_last() =~= all.take(i as int));
        assert(all.take(i + 1).last() == name@);
        let ghost before = profiles@;
        if names_profile(rc, name) {
            let mode = match profile_mode(rc, name) {
                Ok(m) => m,
                Err(e) => {
                    proof {
                        bad_profile_decides(s, all, i + 1);
                    }
                    return Err(e);
                },
            };
            let config = match parse_profile(rc, name) {
                Ok(c) => c,
                Err(e) => {
                    proof {
                        bad_profile_decides(s, all, i + 1);
                    }
                    return Err(e);
                },
            };
            let p = Profile { name: top[i].clone(), mode, config };
            profiles.push(p);
            assert(profile_views(profiles@) =~= profile_views(before).push(p@));
        }
    }
    assert(all.take(top@.len() as int) =~= all);
    Ok(profiles)
}

// ---------------------------------------------------------------------------------------------
// The file
// ---------------------------------------------------------------------------------------------

/// What stands for the outcome of reading a configuration file in contracts.
pub open spec fn file_read(r: Result<ConfigFile, String>) -> Result<FileModel, Seq<char>> {
    match r {
        Ok(f) => Ok(f@),
        Err(e) => Err(e@),
    }
}

/// The configuration file that a configuration whose values are fixed describes.
pub fn parse_settled(rc: &RuneConfig) -> (r: Result<ConfigFile, String>)
    requires
        settled(*rc),
    ensures
        file_read(r) == source_of(*rc).file(),
{
    if !rune_has(rc, "default") {
        return Err(String::from_str(NO_DEFAULT));
    }
    let default = match parse_default(rc) {
        Ok(c) => c,
        Err(e) => return Err(e),
    };
    let profiles = match parse_profiles(rc) {
        Ok(v) => v,
        Err(e) => return Err(e),
    };
    Ok(ConfigFile { default, profiles, active_profile: None })
}

/// The configuration file that a parsed configuration describes. One with references that lead
/// nowhere, or back to themselves, has no values at all, so no default block either.
pub fn parse_config_file(rc: RuneConfig) -> (r: Result<ConfigFile, String>)
    ensures
        file_read(r) == (if readable(rc) {
            source_of(rc).file()
        } else {
            Err(NO_DEFAULT@)
        }),
{
    if !docs_of(&rc).references_end() {
        return Err(String::from_str(NO_DEFAULT));
    }
    match settle(rc) {
        None => Err(String::from_str(NO_DEFAULT)),
        Some(s) => parse_settled(&s),
    }
}

// ---------------------------------------------------------------------------------------------
// Laws
// ---------------------------------------------------------------------------------------------

/// A configuration never selects a profile, and its desktop plan is never empty.
pub proof fn read_file_is_ready(s: SourceModel)
    ensures
        s.file() matches Ok(f) ==> f.active_profile is None && f.default.plan_desktop.len() > 0,
{
}

/// A file without a default block is refused, whatever else it holds.
pub proof fn default_block_is_required(s: SourceModel)
    ensures
        !s.has("default"@) ==> s.file() is Err,
{
}

/// The profiles come in the order in which they are written, and none has a name that cannot be
/// one.
pub proof fn profiles_keep_their_order(s: SourceModel, names: Seq<Seq<char>>)
    requires
        s.profiles_of(names) is Ok,
    ensures
        value_of(s.profiles_of(names)).map_values(|p: ProfileModel| p.name) == names.filter(
            |n: Seq<char>| s.is_profile(n),
        ),
    decreases names.len(),
{
    reveal(Seq::filter);
    let is_one = |n: Seq<char>| s.is_profile(n);
    let name_of = |p: ProfileModel| p.name;
    if names.len() == 0 {
        assert(value_of(s.profiles_of(names)).map_values(name_of) =~= names.filter(is_one));
    } else {
        profiles_keep_their_order(s, names.drop_last());
        let done = value_of(s.profiles_of(names.drop_last()));
        if let Ok(Some(p)) = s.profile(names.last()) {
            assert(done.push(p).map_values(name_of) =~= done.map_values(name_of).push(p.name));
        }
    }
}

/// A step never takes its name from a key that sets a global knob.
pub proof fn global_keys_name_no_step(
    s: SourceModel,
    block: Seq<char>,
    containers: bool,
    keys: Seq<Seq<char>>,
    i: int,
)
    requires
        s.steps(block, containers, keys) is Ok,
        0 <= i < value_of(s.steps(block, containers, keys)).len(),
    ensures
        value_of(s.steps(block, containers, keys))[i].kind matches KindModel::Custom(k)
            ==> !is_global_key(k, containers),
    decreases keys.len(),
{
    if keys.len() > 0 {
        let done = value_of(s.steps(block, containers, keys.drop_last()));
        if i < done.len() {
            global_keys_name_no_step(s, block, containers, keys.drop_last(), i);
        }
    }
}

} // verus!
