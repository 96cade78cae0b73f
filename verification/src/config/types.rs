//! The configuration's data, and what stands for it in contracts.

use vstd::prelude::*;

use super::pattern::{clone_patterns, pattern_views, Pattern, PatternModel};
use crate::text::strings::opt_view;

verus! {

#[derive(Debug, Clone, Copy, PartialEq, Eq, Structural)]
pub enum ProfileMode {
    /// Start from a fully disabled config; only fields set in the profile apply.
    Fresh,
    /// Start from `default`, then override fields set in the profile (globals + blocks).
    Overlay,
}

impl Default for ProfileMode {
    /// If the mode is left out, an overlay is the least surprising.
    fn default() -> (r: Self)
        ensures
            r == ProfileMode::Overlay,
    {
        ProfileMode::Overlay
    }
}

/// Which plan source should be active right now.
#[derive(Debug, Clone, Copy, PartialEq, Eq, Structural)]
pub enum PlanSource {
    Desktop,
    Ac,
    Battery,
}

/// What kind of step this is in the ordered execution plan.
#[derive(Debug, PartialEq, Eq)]
pub enum PlanStepKind {
    Startup,
    Brightness,
    LockScreen,
    Dpms,
    Suspend,
    /// A block under a name of the user's own.
    Custom(String),
}

/// What stands for a [`PlanStepKind`] in contracts.
pub enum KindModel {
    Startup,
    Brightness,
    LockScreen,
    Dpms,
    Suspend,
    Custom(Seq<char>),
}

impl View for PlanStepKind {
    type V = KindModel;

    open spec fn view(&self) -> KindModel {
        match self {
            PlanStepKind::Startup => KindModel::Startup,
            PlanStepKind::Brightness => KindModel::Brightness,
            PlanStepKind::LockScreen => KindModel::LockScreen,
            PlanStepKind::Dpms => KindModel::Dpms,
            PlanStepKind::Suspend => KindModel::Suspend,
            PlanStepKind::Custom(s) => KindModel::Custom(s@),
        }
    }
}

impl Clone for PlanStepKind {
    fn clone(&self) -> (r: Self)
        ensures
            r@ == self@,
    {
        match self {
            PlanStepKind::Startup => PlanStepKind::Startup,
            PlanStepKind::Brightness => PlanStepKind::Brightness,
            PlanStepKind::LockScreen => PlanStepKind::LockScreen,
            PlanStepKind::Dpms => PlanStepKind::Dpms,
            PlanStepKind::Suspend => PlanStepKind::Suspend,
            PlanStepKind::Custom(s) => PlanStepKind::Custom(s.clone()),
        }
    }
}

/// One step in the ordered plan.
#[derive(Debug, PartialEq, Eq)]
pub struct PlanStep {
    pub kind: PlanStepKind,
    /// When this step triggers relative to the previous step firing.
    /// `0` means instant one-shot (fires immediately once when the plan starts).
    pub timeout_seconds: u64,
    /// Primary command to run when the step fires (if any).
    pub command: Option<String>,
    /// Optional command to run on user activity after this step has fired.
    pub resume_command: Option<String>,
    /// Optional notification emitted before firing this step.
    pub notification: Option<String>,
    /// Wait this long between the notification and the command.
    pub notify_seconds_before: Option<u64>,
}

/// What stands for a [`PlanStep`] in contracts.
#[verifier::ext_equal]
pub struct StepModel {
    pub kind: KindModel,
    pub timeout_seconds: u64,
    pub command: Option<Seq<char>>,
    pub resume_command: Option<Seq<char>>,
    pub notification: Option<Seq<char>>,
    pub notify_seconds_before: Option<u64>,
}

impl View for PlanStep {
    type V = StepModel;

    open spec fn view(&self) -> StepModel {
        StepModel {
            kind: self.kind@,
            timeout_seconds: self.timeout_seconds,
            command: opt_view(self.command),
            resume_command: opt_view(self.resume_command),
            notification: opt_view(self.notification),
            notify_seconds_before: self.notify_seconds_before,
        }
    }
}

impl Clone for PlanStep {
    fn clone(&self) -> (r: Self)
        ensures
            r@ == self@,
    {
        PlanStep {
            kind: self.kind.clone(),
            timeout_seconds: self.timeout_seconds,
            command: self.command.clone(),
            resume_command: self.resume_command.clone(),
            notification: self.notification.clone(),
            notify_seconds_before: self.notify_seconds_before,
        }
    }
}

impl StepModel {
    /// A step without a command takes no part in the plan.
    pub open spec fn enabled(self) -> bool {
        self.command is Some
    }

    /// An enabled step that waits for nothing.
    pub open spec fn is_instant(self) -> bool {
        self.enabled() && self.timeout_seconds == 0
    }
}

impl PlanStep {
    /// Enabled if it has a command.
    ///
    /// NOTE: `timeout_seconds == 0` is *not* disabled; it's an instant one-shot.
    pub fn enabled(&self) -> (r: bool)
        ensures
            r == self@.enabled(),
    {
        self.command.is_some()
    }

    /// Instant one-shot step: fires immediately once when the plan starts.
    pub fn is_instant(&self) -> (r: bool)
        ensures
            r == self@.is_instant(),
    {
        self.enabled() && self.timeout_seconds == 0
    }
}

/// What stands for a plan in contracts.
pub open spec fn plan_view(v: Seq<PlanStep>) -> Seq<StepModel> {
    v.map_values(|s: PlanStep| s@)
}

/// A copy of a plan.
pub fn clone_plan(v: &Vec<PlanStep>) -> (r: Vec<PlanStep>)
    ensures
        plan_view(r@) == plan_view(v@),
        r@.len() == v@.len(),
{
    let mut out: Vec<PlanStep> = Vec::new();
    for i in 0..v.len()
        invariant
            out@.len() == i,
            plan_view(out@) == plan_view(v@).take(i as int),
    {
        let s = v[i].clone();
        let ghost before = out@;
        out.push(s);
        assert(plan_view(out@) =~= plan_view(before).push(s@));
        assert(plan_view(v@).take(i + 1) =~= plan_view(v@).take(i as int).push(v@[i as int]@));
    }
    assert(plan_view(v@).take(v@.len() as int) =~= plan_view(v@));
    out
}

/// What to do when the lid moves: a step of the plan, or a command.
#[derive(Debug, PartialEq, Eq)]
pub enum LidAction {
    Builtin(PlanStepKind),
    Command(String),
}

/// What stands for a [`LidAction`] in contracts.
pub enum LidModel {
    Builtin(KindModel),
    Command(Seq<char>),
}

impl View for LidAction {
    type V = LidModel;

    open spec fn view(&self) -> LidModel {
        match self {
            LidAction::Builtin(k) => LidModel::Builtin(k@),
            LidAction::Command(s) => LidModel::Command(s@),
        }
    }
}

impl Clone for LidAction {
    fn clone(&self) -> (r: Self)
        ensures
            r@ == self@,
    {
        match self {
            LidAction::Builtin(k) => LidAction::Builtin(k.clone()),
            LidAction::Command(s) => LidAction::Command(s.clone()),
        }
    }
}

/// What stands for an optional [`LidAction`] in contracts.
pub open spec fn lid_view(o: Option<LidAction>) -> Option<LidModel> {
    match o {
        Some(a) => Some(a@),
        None => None,
    }
}

pub fn clone_lid(o: &Option<LidAction>) -> (r: Option<LidAction>)
    ensures
        lid_view(r) == lid_view(*o),
{
    match o {
        Some(a) => Some(a.clone()),
        None => None,
    }
}

/// A named block of the configuration.
#[derive(Debug, PartialEq, Eq)]
pub struct ActionBlock {
    pub timeout_seconds: u64,
    pub command: Option<String>,
    pub resume_command: Option<String>,
    /// Optional notification emitted before firing this block (only if notify_before_action is true).
    pub notification: Option<String>,
    /// Wait N seconds after notification before firing the command.
    pub notify_seconds_before: Option<u64>,
}

/// The block that configures the locker.
#[derive(Debug, PartialEq, Eq)]
pub struct LockBlock {
    pub timeout_seconds: u64,
    pub command: Option<String>,
    pub resume_command: Option<String>,
    pub notification: Option<String>,
    pub notify_seconds_before: Option<u64>,
}

/// What stands for an [`ActionBlock`] or a [`LockBlock`] in contracts.
#[verifier::ext_equal]
pub struct BlockModel {
    pub timeout_seconds: u64,
    pub command: Option<Seq<char>>,
    pub resume_command: Option<Seq<char>>,
    pub notification: Option<Seq<char>>,
    pub notify_seconds_before: Option<u64>,
}

impl BlockModel {
    /// A block that sets nothing.
    pub open spec fn disabled() -> BlockModel {
        BlockModel {
            timeout_seconds: 0,
            command: None,
            resume_command: None,
            notification: None,
            notify_seconds_before: None,
        }
    }

    /// The step of the plan that the block describes.
    pub open spec fn as_step(self, kind: KindModel) -> StepModel {
        StepModel {
            kind,
            timeout_seconds: self.timeout_seconds,
            command: self.command,
            resume_command: self.resume_command,
            notification: self.notification,
            notify_seconds_before: self.notify_seconds_before,
        }
    }
}

impl View for ActionBlock {
    type V = BlockModel;

    open spec fn view(&self) -> BlockModel {
        BlockModel {
            timeout_seconds: self.timeout_seconds,
            command: opt_view(self.command),
            resume_command: opt_view(self.resume_command),
            notification: opt_view(self.notification),
            notify_seconds_before: self.notify_seconds_before,
        }
    }
}

impl View for LockBlock {
    type V = BlockModel;

    open spec fn view(&self) -> BlockModel {
        BlockModel {
            timeout_seconds: self.timeout_seconds,
            command: opt_view(self.command),
            resume_command: opt_view(self.resume_command),
            notification: opt_view(self.notification),
            notify_seconds_before: self.notify_seconds_before,
        }
    }
}

impl Clone for ActionBlock {
    fn clone(&self) -> (r: Self)
        ensures
            r@ == self@,
    {
        ActionBlock {
            timeout_seconds: self.timeout_seconds,
            command: self.command.clone(),
            resume_command: self.resume_command.clone(),
            notification: self.notification.clone(),
            notify_seconds_before: self.notify_seconds_before,
        }
    }
}

impl Clone for LockBlock {
    fn clone(&self) -> (r: Self)
        ensures
            r@ == self@,
    {
        LockBlock {
            timeout_seconds: self.timeout_seconds,
            command: self.command.clone(),
            resume_command: self.resume_command.clone(),
            notification: self.notification.clone(),
            notify_seconds_before: self.notify_seconds_before,
        }
    }
}

impl ActionBlock {
    pub fn disabled() -> (r: Self)
        ensures
            r@ == BlockModel::disabled(),
    {
        ActionBlock {
            timeout_seconds: 0,
            command: None,
            resume_command: None,
            notification: None,
            notify_seconds_before: None,
        }
    }

    /// The step of the plan that the block describes.
    pub fn to_step(&self, kind: PlanStepKind) -> (r: PlanStep)
        ensures
            r@ == self@.as_step(kind@),
    {
        PlanStep {
            kind,
            timeout_seconds: self.timeout_seconds,
            command: self.command.clone(),
            resume_command: self.resume_command.clone(),
            notification: self.notification.clone(),
            notify_seconds_before: self.notify_seconds_before,
        }
    }
}

impl LockBlock {
    pub fn disabled() -> (r: Self)
        ensures
            r@ == BlockModel::disabled(),
    {
        LockBlock {
            timeout_seconds: 0,
            command: None,
            resume_command: None,
            notification: None,
            notify_seconds_before: None,
        }
    }

    /// The lock step of the plan that the block describes.
    pub fn to_step(&self) -> (r: PlanStep)
        ensures
            r@ == self@.as_step(KindModel::LockScreen),
    {
        PlanStep {
            kind: PlanStepKind::LockScreen,
            timeout_seconds: self.timeout_seconds,
            command: self.command.clone(),
            resume_command: self.resume_command.clone(),
            notification: self.notification.clone(),
            notify_seconds_before: self.notify_seconds_before,
        }
    }
}

/// A complete configuration.
#[derive(Debug)]
pub struct Config {
    // ---- globals ----
    pub enable_loginctl: bool,
    pub enable_dbus_inhibit: bool,
    pub pre_suspend_command: Option<String>,
    pub monitor_media: bool,
    pub ignore_remote_media: bool,
    /// Media sources/apps to ignore for media inhibit (case-insensitive; loader normalizes).
    pub media_blacklist: Vec<Pattern>,
    /// Debounce window in seconds.
    pub debounce_seconds: u64,
    pub notify_on_unpause: bool,
    pub notify_before_action: bool,
    /// Process/class patterns or names that should inhibit idle behavior.
    pub inhibit_apps: Vec<Pattern>,
    pub lid_close_action: Option<LidAction>,
    pub lid_open_action: Option<LidAction>,
    // ---- named blocks ----
    pub startup: ActionBlock,
    pub brightness: ActionBlock,
    pub lock_screen: LockBlock,
    pub dpms: ActionBlock,
    pub suspend: ActionBlock,
    // ---- plan sources ----
    pub plan_desktop: Vec<PlanStep>,
    pub plan_ac: Vec<PlanStep>,
    pub plan_battery: Vec<PlanStep>,
    // ---- active plan consumed by the manager ----
    pub plan: Vec<PlanStep>,
}

/// What stands for a [`Config`] in contracts.
#[verifier::ext_equal]
pub struct ConfigModel {
    pub enable_loginctl: bool,
    pub enable_dbus_inhibit: bool,
    pub pre_suspend_command: Option<Seq<char>>,
    pub monitor_media: bool,
    pub ignore_remote_media: bool,
    pub media_blacklist: Seq<PatternModel>,
    pub debounce_seconds: u64,
    pub notify_on_unpause: bool,
    pub notify_before_action: bool,
    pub inhibit_apps: Seq<PatternModel>,
    pub lid_close_action: Option<LidModel>,
    pub lid_open_action: Option<LidModel>,
    pub startup: BlockModel,
    pub brightness: BlockModel,
    pub lock_screen: BlockModel,
    pub dpms: BlockModel,
    pub suspend: BlockModel,
    pub plan_desktop: Seq<StepModel>,
    pub plan_ac: Seq<StepModel>,
    pub plan_battery: Seq<StepModel>,
    pub plan: Seq<StepModel>,
}

impl View for Config {
    type V = ConfigModel;

    open spec fn view(&self) -> ConfigModel {
        ConfigModel {
            enable_loginctl: self.enable_loginctl,
            enable_dbus_inhibit: self.enable_dbus_inhibit,
            pre_suspend_command: opt_view(self.pre_suspend_command),
            monitor_media: self.monitor_media,
            ignore_remote_media: self.ignore_remote_media,
            media_blacklist: pattern_views(self.media_blacklist@),
            debounce_seconds: self.debounce_seconds,
            notify_on_unpause: self.notify_on_unpause,
            notify_before_action: self.notify_before_action,
            inhibit_apps: pattern_views(self.inhibit_apps@),
            lid_close_action: lid_view(self.lid_close_action),
            lid_open_action: lid_view(self.lid_open_action),
            startup: self.startup@,
            brightness: self.brightness@,
            lock_screen: self.lock_screen@,
            dpms: self.dpms@,
            suspend: self.suspend@,
            plan_desktop: plan_view(self.plan_desktop@),
            plan_ac: plan_view(self.plan_ac@),
            plan_battery: plan_view(self.plan_battery@),
            plan: plan_view(self.plan@),
        }
    }
}

impl ConfigModel {
    /// A configuration that does nothing.
    pub open spec fn disabled() -> ConfigModel {
        ConfigModel {
            enable_loginctl: false,
            enable_dbus_inhibit: false,
            pre_suspend_command: None,
            monitor_media: false,
            ignore_remote_media: false,
            media_blacklist: Seq::empty(),
            debounce_seconds: 0,
            notify_on_unpause: false,
            notify_before_action: false,
            inhibit_apps: Seq::empty(),
            lid_close_action: None,
            lid_open_action: None,
            startup: BlockModel::disabled(),
            brightness: BlockModel::disabled(),
            lock_screen: BlockModel::disabled(),
            dpms: BlockModel::disabled(),
            suspend: BlockModel::disabled(),
            plan_desktop: Seq::empty(),
            plan_ac: Seq::empty(),
            plan_battery: Seq::empty(),
            plan: Seq::empty(),
        }
    }
}

impl Clone for Config {
    fn clone(&self) -> (r: Self)
        ensures
            r@ == self@,
    {
        Config {
            enable_loginctl: self.enable_loginctl,
            enable_dbus_inhibit: self.enable_dbus_inhibit,
            pre_suspend_command: self.pre_suspend_command.clone(),
            monitor_media: self.monitor_media,
            ignore_remote_media: self.ignore_remote_media,
            media_blacklist: clone_patterns(&self.media_blacklist),
            debounce_seconds: self.debounce_seconds,
            notify_on_unpause: self.notify_on_unpause,
            notify_before_action: self.notify_before_action,
            inhibit_apps: clone_patterns(&self.inhibit_apps),
            lid_close_action: clone_lid(&self.lid_close_action),
            lid_open_action: clone_lid(&self.lid_open_action),
            startup: self.startup.clone(),
            brightness: self.brightness.clone(),
            lock_screen: self.lock_screen.clone(),
            dpms: self.dpms.clone(),
            suspend: self.suspend.clone(),
            plan_desktop: clone_plan(&self.plan_desktop),
            plan_ac: clone_plan(&self.plan_ac),
            plan_battery: clone_plan(&self.plan_battery),
            plan: clone_plan(&self.plan),
        }
    }
}

impl Config {
    /// A configuration that does nothing.
    pub fn disabled() -> (r: Self)
        ensures
            r@ == ConfigModel::disabled(),
    {
        let r = Config {
            enable_loginctl: false,
            enable_dbus_inhibit: false,
            pre_suspend_command: None,
            monitor_media: false,
            ignore_remote_media: false,
            media_blacklist: Vec::new(),
            debounce_seconds: 0,
            notify_on_unpause: false,
            notify_before_action: false,
            inhibit_apps: Vec::new(),
            lid_close_action: None,
            lid_open_action: None,
            startup: ActionBlock::disabled(),
            brightness: ActionBlock::disabled(),
            lock_screen: LockBlock::disabled(),
            dpms: ActionBlock::disabled(),
            suspend: ActionBlock::disabled(),
            plan_desktop: Vec::new(),
            plan_ac: Vec::new(),
            plan_battery: Vec::new(),
            plan: Vec::new(),
        };
        assert(r@ =~= ConfigModel::disabled());
        r
    }
}

impl Default for Config {
    fn default() -> (r: Self)
        ensures
            r@ == ConfigModel::disabled(),
    {
        Config::disabled()
    }
}

/// A named variation of the default configuration.
#[derive(Debug)]
pub struct Profile {
    pub name: String,
    pub mode: ProfileMode,
    pub config: PartialConfig,
}

/// The fields that a profile sets.
#[derive(Debug)]
pub struct PartialConfig {
    // globals
    pub enable_loginctl: Option<bool>,
    pub enable_dbus_inhibit: Option<bool>,
    pub pre_suspend_command: Option<Option<String>>,
    pub monitor_media: Option<bool>,
    pub ignore_remote_media: Option<bool>,
    pub media_blacklist: Option<Vec<Pattern>>,
    pub debounce_seconds: Option<u64>,
    pub notify_on_unpause: Option<bool>,
    pub notify_before_action: Option<bool>,
    pub inhibit_apps: Option<Vec<Pattern>>,
    pub lid_close_action: Option<Option<LidAction>>,
    pub lid_open_action: Option<Option<LidAction>>,
    // plan sources
    pub plan_desktop: Option<Vec<PlanStep>>,
    pub plan_ac: Option<Vec<PlanStep>>,
    pub plan_battery: Option<Vec<PlanStep>>,
    // named blocks
    pub startup: Option<ActionBlock>,
    pub brightness: Option<ActionBlock>,
    pub lock_screen: Option<LockBlock>,
    pub dpms: Option<ActionBlock>,
    pub suspend: Option<ActionBlock>,
}

/// What stands for a [`PartialConfig`] in contracts.
#[verifier::ext_equal]
pub struct PartialModel {
    pub enable_loginctl: Option<bool>,
    pub enable_dbus_inhibit: Option<bool>,
    pub pre_suspend_command: Option<Option<Seq<char>>>,
    pub monitor_media: Option<bool>,
    pub ignore_remote_media: Option<bool>,
    pub media_blacklist: Option<Seq<PatternModel>>,
    pub debounce_seconds: Option<u64>,
    pub notify_on_unpause: Option<bool>,
    pub notify_before_action: Option<bool>,
    pub inhibit_apps: Option<Seq<PatternModel>>,
    pub lid_close_action: Option<Option<LidModel>>,
    pub lid_open_action: Option<Option<LidModel>>,
    pub plan_desktop: Option<Seq<StepModel>>,
    pub plan_ac: Option<Seq<StepModel>>,
    pub plan_battery: Option<Seq<StepModel>>,
    pub startup: Option<BlockModel>,
    pub brightness: Option<BlockModel>,
    pub lock_screen: Option<BlockModel>,
    pub dpms: Option<BlockModel>,
    pub suspend: Option<BlockModel>,
}

pub open spec fn patterns_set(o: Option<Vec<Pattern>>) -> Option<Seq<PatternModel>> {
    match o {
        Some(v) => Some(pattern_views(v@)),
        None => None,
    }
}

pub open spec fn plan_set(o: Option<Vec<PlanStep>>) -> Option<Seq<StepModel>> {
    match o {
        Some(v) => Some(plan_view(v@)),
        None => None,
    }
}

pub open spec fn block_set(o: Option<ActionBlock>) -> Option<BlockModel> {
    match o {
        Some(b) => Some(b@),
        None => None,
    }
}

pub open spec fn lock_set(o: Option<LockBlock>) -> Option<BlockModel> {
    match o {
        Some(b) => Some(b@),
        None => None,
    }
}

pub open spec fn text_set(o: Option<Option<String>>) -> Option<Option<Seq<char>>> {
    match o {
        Some(t) => Some(opt_view(t)),
        None => None,
    }
}

pub open spec fn lid_set(o: Option<Option<LidAction>>) -> Option<Option<LidModel>> {
    match o {
        Some(t) => Some(lid_view(t)),
        None => None,
    }
}

impl View for PartialConfig {
    type V = PartialModel;

    open spec fn view(&self) -> PartialModel {
        PartialModel {
            enable_loginctl: self.enable_loginctl,
            enable_dbus_inhibit: self.enable_dbus_inhibit,
            pre_suspend_command: text_set(self.pre_suspend_command),
            monitor_media: self.monitor_media,
            ignore_remote_media: self.ignore_remote_media,
            media_blacklist: patterns_set(self.media_blacklist),
            debounce_seconds: self.debounce_seconds,
            notify_on_unpause: self.notify_on_unpause,
            notify_before_action: self.notify_before_action,
            inhibit_apps: patterns_set(self.inhibit_apps),
            lid_close_action: lid_set(self.lid_close_action),
            lid_open_action: lid_set(self.lid_open_action),
            plan_desktop: plan_set(self.plan_desktop),
            plan_ac: plan_set(self.plan_ac),
            plan_battery: plan_set(self.plan_battery),
            startup: block_set(self.startup),
            brightness: block_set(self.brightness),
            lock_screen: lock_set(self.lock_screen),
            dpms: block_set(self.dpms),
            suspend: block_set(self.suspend),
        }
    }
}

impl PartialModel {
    /// Nothing is set.
    pub open spec fn unset() -> PartialModel {
        PartialModel {
            enable_loginctl: None,
            enable_dbus_inhibit: None,
            pre_suspend_command: None,
            monitor_media: None,
            ignore_remote_media: None,
            media_blacklist: None,
            debounce_seconds: None,
            notify_on_unpause: None,
            notify_before_action: None,
            inhibit_apps: None,
            lid_close_action: None,
            lid_open_action: None,
            plan_desktop: None,
            plan_ac: None,
            plan_battery: None,
            startup: None,
            brightness: None,
            lock_screen: None,
            dpms: None,
            suspend: None,
        }
    }
}

impl Default for PartialConfig {
    fn default() -> (r: Self)
        ensures
            r@ == PartialModel::unset(),
    {
        PartialConfig {
            enable_loginctl: None,
            enable_dbus_inhibit: None,
            pre_suspend_command: None,
            monitor_media: None,
            ignore_remote_media: None,
            media_blacklist: None,
            debounce_seconds: None,
            notify_on_unpause: None,
            notify_before_action: None,
            inhibit_apps: None,
            lid_close_action: None,
            lid_open_action: None,
            plan_desktop: None,
            plan_ac: None,
            plan_battery: None,
            startup: None,
            brightness: None,
            lock_screen: None,
            dpms: None,
            suspend: None,
        }
    }
}

/// What stands for a [`Profile`] in contracts.
#[verifier::ext_equal]
pub struct ProfileModel {
    pub name: Seq<char>,
    pub mode: ProfileMode,
    pub config: PartialModel,
}

impl View for Profile {
    type V = ProfileModel;

    open spec fn view(&self) -> ProfileModel {
        ProfileModel { name: self.name@, mode: self.mode, config: self.config@ }
    }
}

/// What stands for a list of profiles in contracts.
pub open spec fn profile_views(v: Seq<Profile>) -> Seq<ProfileModel> {
    v.map_values(|p: Profile| p@)
}

/// What a configuration file says.
#[derive(Debug)]
pub struct ConfigFile {
    pub default: Config,
    pub profiles: Vec<Profile>,
    pub active_profile: Option<String>,
}

/// What stands for a [`ConfigFile`] in contracts.
#[verifier::ext_equal]
pub struct FileModel {
    pub default: ConfigModel,
    pub profiles: Seq<ProfileModel>,
    pub active_profile: Option<Seq<char>>,
}

impl View for ConfigFile {
    type V = FileModel;

    open spec fn view(&self) -> FileModel {
        FileModel {
            default: self.default@,
            profiles: profile_views(self.profiles@),
            active_profile: opt_view(self.active_profile),
        }
    }
}

impl Clone for PartialConfig {
    fn clone(&self) -> (r: Self)
        ensures
            r@ == self@,
    {
        PartialConfig {
            enable_loginctl: self.enable_loginctl,
            enable_dbus_inhibit: self.enable_dbus_inhibit,
            pre_suspend_command: match &self.pre_suspend_command {
                Some(v) => Some(v.clone()),
                None => None,
            },
            monitor_media: self.monitor_media,
            ignore_remote_media: self.ignore_remote_media,
            media_blacklist: match &self.media_blacklist {
                Some(v) => Some(clone_patterns(v)),
                None => None,
            },
            debounce_seconds: self.debounce_seconds,
            notify_on_unpause: self.notify_on_unpause,
            notify_before_action: self.notify_before_action,
            inhibit_apps: match &self.inhibit_apps {
                Some(v) => Some(clone_patterns(v)),
                None => None,
            },
            lid_close_action: match &self.lid_close_action {
                Some(v) => Some(clone_lid(v)),
                None => None,
            },
            lid_open_action: match &self.lid_open_action {
                Some(v) => Some(clone_lid(v)),
                None => None,
            },
            plan_desktop: match &self.plan_desktop {
                Some(v) => Some(clone_plan(v)),
                None => None,
            },
            plan_ac: match &self.plan_ac {
                Some(v) => Some(clone_plan(v)),
                None => None,
            },
            plan_battery: match &self.plan_battery {
                Some(v) => Some(clone_plan(v)),
                None => None,
            },
            startup: match &self.startup {
                Some(v) => Some(v.clone()),
                None => None,
            },
            brightness: match &self.brightness {
                Some(v) => Some(v.clone()),
                None => None,
            },
            lock_screen: match &self.lock_screen {
                Some(v) => Some(v.clone()),
                None => None,
            },
            dpms: match &self.dpms {
                Some(v) => Some(v.clone()),
                None => None,
            },
            suspend: match &self.suspend {
                Some(v) => Some(v.clone()),
                None => None,
            },
        }
    }
}

impl Clone for Profile {
    fn clone(&self) -> (r: Self)
        ensures
            r@ == self@,
    {
        Profile { name: self.name.clone(), mode: self.mode, config: self.config.clone() }
    }
}

impl Clone for ConfigFile {
    fn clone(&self) -> (r: Self)
        ensures
            r@ == self@,
    {
        let mut profiles: Vec<Profile> = Vec::new();
        for i in 0..self.profiles.len()
            invariant
                profile_views(profiles@) == profile_views(self.profiles@).take(i as int),
        {
            let p = self.profiles[i].clone();
            let ghost before = profiles@;
            profiles.push(p);
            assert(profile_views(profiles@) =~= profile_views(before).push(p@));
            assert(profile_views(self.profiles@).take(i + 1) =~= profile_views(
                self.profiles@,
            ).take(i as int).push(self.profiles@[i as int]@));
        }
        assert(profile_views(self.profiles@).take(self.profiles@.len() as int) =~= profile_views(
            self.profiles@,
        ));
        ConfigFile {
            default: self.default.clone(),
            profiles,
            active_profile: self.active_profile.clone(),
        }
    }
}

} // verus!
