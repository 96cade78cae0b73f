//! The daemon: the manager and its state, the configuration's file, and the rules that the
//! services watch by.
//!
//! What is awaited, run and sent is the caller's work. Each method takes one message and says
//! what is to be done for it.

use vstd::prelude::*;

use crate::action::{action_views, Action, ActionModel};
use crate::config::load::{LoadedConfig, LoadedModel};
use crate::config::pattern::{clone_patterns, pattern_views, Pattern, PatternModel};
use crate::config::select::set_or;
use crate::config::types::{Config, ConfigFile, ConfigModel, FileModel, PlanSource};
use crate::error::{ConfigError, Error};
use crate::events::{Event, MediaState, PowerState};
use crate::host::{escape_single_quotes, escaped, ChassisKind};
use crate::info::InfoSnapshot;
use crate::ipc::handlers::{reply_view, ListKind};
use crate::manager::info::pretty_text;
use crate::manager::list::{action_list, profile_list};
use crate::manager::laws::fits;
use crate::manager::machine::{profile_of, Handled};
use crate::manager::profiles::{profile_change_takes_effect, well_named};
use crate::manager::{Manager, ManagerModel};
use crate::paths::{same_path, same_place};
use crate::services::app_inhibit::AppRules;
use crate::services::media::MediaRules;
use crate::state::{State, StateModel};
use crate::text::strings::{
    cat, eq_ignore_case, name_view, opt_view, str_eq, trim, trimmed, trimmed_is_bare,
};

verus! {

// ---------------------------------------------------------------------------------------------
// What stands for the daemon in contracts
// ---------------------------------------------------------------------------------------------

/// What the services watch by. The epoch tells new rules from old ones with the same values.
#[derive(Debug)]
pub struct InhibitRules {
    pub epoch: u64,
    pub inhibit_apps: Vec<Pattern>,
    pub monitor_media: bool,
    pub ignore_remote_media: bool,
    pub media_blacklist: Vec<Pattern>,
}

/// What stands for [`InhibitRules`] in contracts.
#[verifier::ext_equal]
pub struct RulesModel {
    pub epoch: u64,
    pub inhibit_apps: Seq<PatternModel>,
    pub monitor_media: bool,
    pub ignore_remote_media: bool,
    pub media_blacklist: Seq<PatternModel>,
}

impl View for InhibitRules {
    type V = RulesModel;

    open spec fn view(&self) -> RulesModel {
        RulesModel {
            epoch: self.epoch,
            inhibit_apps: pattern_views(self.inhibit_apps@),
            monitor_media: self.monitor_media,
            ignore_remote_media: self.ignore_remote_media,
            media_blacklist: pattern_views(self.media_blacklist@),
        }
    }
}

/// The rules that a configuration sets.
pub open spec fn rules_of(c: ConfigModel, epoch: u64) -> RulesModel {
    RulesModel {
        epoch,
        inhibit_apps: c.inhibit_apps,
        monitor_media: c.monitor_media,
        ignore_remote_media: c.ignore_remote_media,
        media_blacklist: c.media_blacklist,
    }
}

impl FileModel {
    /// The configuration in effect; the default one on a desktop where there is none.
    pub open spec fn effective_or_default(
        self,
        profile: Option<Seq<char>>,
        src: PlanSource,
    ) -> ConfigModel {
        match self.effective(profile, src) {
            Some(c) => c,
            None => self.default.selected(PlanSource::Desktop),
        }
    }

    /// There is a profile of the very name.
    pub open spec fn has_profile(self, name: Seq<char>) -> bool {
        exists|i: int| 0 <= i < self.profiles.len() && (#[trigger] self.profiles[i]).name == name
    }

    /// The profile that the file asks for, if it asks for one that it has.
    pub open spec fn asked_profile(self) -> Option<Seq<char>> {
        match self.active_profile {
            None => None,
            Some(raw) => {
                let name = trimmed(raw);
                if name.len() == 0 || profile_of(name) is None || !self.has_profile(name) {
                    None
                } else {
                    Some(name)
                }
            },
        }
    }
}

/// The plan that a machine starts with.
pub open spec fn first_source(chassis: ChassisKind, on_ac: bool) -> PlanSource {
    match chassis {
        ChassisKind::Desktop => PlanSource::Desktop,
        ChassisKind::Laptop => if on_ac {
            PlanSource::Ac
        } else {
            PlanSource::Battery
        },
    }
}

/// The state of power that goes with a plan.
pub open spec fn first_power(src: PlanSource) -> Option<PowerState> {
    match src {
        PlanSource::Ac => Some(PowerState::OnAC),
        PlanSource::Battery => Some(PowerState::OnBattery),
        PlanSource::Desktop => None,
    }
}

/// What stands for a [`Daemon`] in contracts.
#[verifier::ext_equal]
pub struct DaemonModel {
    pub manager: ManagerModel,
    pub state: StateModel,
    pub config_path: Seq<char>,
    /// The rules that were adopted last; their epoch counts the rules that were given out.
    pub rules: RulesModel,
    pub enable_loginctl: bool,
    pub enable_dbus_inhibit: bool,
    pub chassis: ChassisKind,
    pub bad_profile_logged: bool,
}

impl DaemonModel {
    /// The daemon at its start.
    pub open spec fn started(
        file: FileModel,
        config_path: Seq<char>,
        chassis: ChassisKind,
        on_ac: bool,
        now_ms: u64,
    ) -> DaemonModel {
        let src = first_source(chassis, on_ac);
        let profile = file.asked_profile();
        let known = FileModel { active_profile: profile, ..file };
        let cfg = known.effective_or_default(profile, src);
        DaemonModel {
            manager: ManagerModel { file: known, last_media: MediaState::Idle },
            state: StateModel {
                plan_source: src,
                power_state: first_power(src),
                active_profile: profile,
                ..StateModel::fresh(now_ms)
            },
            config_path,
            rules: rules_of(cfg, 0),
            enable_loginctl: cfg.enable_loginctl,
            enable_dbus_inhibit: cfg.enable_dbus_inhibit,
            chassis,
            bad_profile_logged: false,
        }
    }

    /// The rules that the configuration in effect sets, under the next epoch.
    pub open spec fn next_rules(self) -> RulesModel {
        rules_of(
            self.manager.file.effective_or_default(
                self.state.active_profile,
                self.state.plan_source,
            ),
            self.rules.epoch.wrapping_add(1),
        )
    }

    /// The daemon once rules have been given out.
    pub open spec fn with_rules_given(self) -> DaemonModel {
        DaemonModel { rules: RulesModel { epoch: self.next_rules().epoch, ..self.rules }, ..self }
    }

    /// The daemon once the manager has handled something.
    pub open spec fn after(self, h: Handled) -> DaemonModel {
        DaemonModel { manager: h.manager, state: h.state, ..self }
    }

    /// The daemon once the failure of an event, if it is one, has been told.
    pub open spec fn after_telling(self, h: Handled) -> DaemonModel {
        let d = self.after(h);
        match h.result {
            Err(Error::InvalidConfig(ConfigError::ProfileNotFound)) => DaemonModel {
                bad_profile_logged: true,
                ..d
            },
            _ => d,
        }
    }

    /// What is to be told of how an event was handled. That there is no such profile is told
    /// once only, until a profile is picked.
    pub open spec fn complaint(self, h: Handled) -> Option<Error> {
        match h.result {
            Ok(_) => None,
            Err(e) => if e == Error::InvalidConfig(ConfigError::ProfileNotFound)
                && self.bad_profile_logged {
                None
            } else {
                Some(e)
            },
        }
    }
}

/// An event after which other rules may be in effect.
pub open spec fn changes_rules(e: Event) -> bool {
    e is ProfileChanged || e is PowerChanged
}

/// The actions of a handling; none where it failed.
pub open spec fn actions_of(h: Handled) -> Seq<ActionModel> {
    match h.result {
        Ok(a) => a,
        Err(_) => Seq::empty(),
    }
}

/// What stands for rules that may be missing in contracts.
pub open spec fn rules_view(o: Option<InhibitRules>) -> Option<RulesModel> {
    match o {
        Some(r) => Some(r@),
        None => None,
    }
}

// ---------------------------------------------------------------------------------------------
// The daemon
// ---------------------------------------------------------------------------------------------

#[derive(Debug)]
pub struct Daemon {
    manager: Manager,
    state: State,
    config_path: String,
    inhibit_apps: Vec<Pattern>,
    monitor_media: bool,
    ignore_remote_media: bool,
    media_blacklist: Vec<Pattern>,
    inhibit_epoch: u64,
    enable_loginctl: bool,
    enable_dbus_inhibit: bool,
    chassis: ChassisKind,
    bad_profile_logged: bool,
}

impl View for Daemon {
    type V = DaemonModel;

    closed spec fn view(&self) -> DaemonModel {
        DaemonModel {
            manager: self.manager@,
            state: self.state@,
            config_path: self.config_path@,
            rules: RulesModel {
                epoch: self.inhibit_epoch,
                inhibit_apps: pattern_views(self.inhibit_apps@),
                monitor_media: self.monitor_media,
                ignore_remote_media: self.ignore_remote_media,
                media_blacklist: pattern_views(self.media_blacklist@),
            },
            enable_loginctl: self.enable_loginctl,
            enable_dbus_inhibit: self.enable_dbus_inhibit,
            chassis: self.chassis,
            bad_profile_logged: self.bad_profile_logged,
        }
    }
}

/// What an event leads to.
#[derive(Debug)]
pub struct Turn {
    pub actions: Vec<Action>,
    /// New rules for the services.
    pub rules: Option<InhibitRules>,
    /// A failure that is to be told.
    pub complaint: Option<Error>,
}

/// What a request leads to.
#[derive(Debug)]
pub struct Answer {
    pub reply: Result<String, String>,
    pub actions: Vec<Action>,
    /// New rules for the services.
    pub rules: Option<InhibitRules>,
}

impl ConfigFile {
    /// There is a profile of the very name.
    fn has_profile(&self, name: &str) -> (r: bool)
        ensures
            r == self@.has_profile(name@),
    {
        let ghost all = self@.profiles;
        for i in 0..self.profiles.len()
            invariant
                all == self@.profiles,
                forall|j: int| 0 <= j < i ==> (#[trigger] all[j]).name != name@,
        {
            assert(all[i as int] == self.profiles@[i as int]@);
            if str_eq(self.profiles[i].name.as_str(), name) {
                return true;
            }
        }
        false
    }

    /// The profile that the file asks for, if it asks for one that it has.
    fn asked_profile(&self) -> (r: Option<String>)
        ensures
            opt_view(r) == self@.asked_profile(),
    {
        match &self.active_profile {
            None => None,
            Some(raw) => {
                let name = trim(raw.as_str());
                if name.as_str().unicode_len() == 0 || eq_ignore_case(name.as_str(), "default")
                    || eq_ignore_case(name.as_str(), "none") || !self.has_profile(name.as_str()) {
                    None
                } else {
                    Some(name)
                }
            },
        }
    }

    /// The configuration in effect; the default one on a desktop where there is none.
    fn effective_or_default(&self, profile: Option<&str>, src: PlanSource) -> (r: Config)
        ensures
            r@ == self@.effective_or_default(name_view(profile), src),
    {
        match self.effective_for(profile, src) {
            Some(c) => c,
            None => {
                let mut c = self.default.clone();
                c.select_plan_source(PlanSource::Desktop);
                c
            },
        }
    }
}

impl Daemon {
    /// The daemon at its start, on a machine and at a time.
    pub fn new(
        cfg_file: ConfigFile,
        config_path: String,
        chassis: ChassisKind,
        on_ac: bool,
        now_ms: u64,
    ) -> (r: Self)
        ensures
            r@ == DaemonModel::started(cfg_file@, config_path@, chassis, on_ac, now_ms),
    {
        let plan_src = match chassis {
            ChassisKind::Desktop => PlanSource::Desktop,
            ChassisKind::Laptop => if on_ac {
                PlanSource::Ac
            } else {
                PlanSource::Battery
            },
        };
        let profile = cfg_file.asked_profile();
        let known = ConfigFile {
            default: cfg_file.default,
            profiles: cfg_file.profiles,
            active_profile: profile.clone(),
        };
        let effective = match &profile {
            Some(p) => known.effective_or_default(Some(p.as_str()), plan_src),
            None => known.effective_or_default(None, plan_src),
        };
        let mut state = State::new(now_ms);
        state.set_plan_source(plan_src);
        match plan_src {
            PlanSource::Ac => state.set_power_state(PowerState::OnAC),
            PlanSource::Battery => state.set_power_state(PowerState::OnBattery),
            PlanSource::Desktop => {},
        }
        state.set_active_profile(profile);
        Daemon {
            manager: Manager::new(known),
            state,
            config_path,
            inhibit_apps: effective.inhibit_apps,
            monitor_media: effective.monitor_media,
            ignore_remote_media: effective.ignore_remote_media,
            media_blacklist: effective.media_blacklist,
            inhibit_epoch: 0,
            enable_loginctl: effective.enable_loginctl,
            enable_dbus_inhibit: effective.enable_dbus_inhibit,
            chassis,
            bad_profile_logged: false,
        }
    }

    /// The rules that the configuration in effect sets, under the next epoch.
    pub fn push_inhibit_rules_from_effective(&mut self) -> (r: InhibitRules)
        ensures
            r@ == old(self)@.next_rules(),
            final(self)@ == old(self)@.with_rules_given(),
    {
        let effective = self.manager.cfg_file_ref().effective_or_default(
            self.state.active_profile(),
            self.state.plan_source(),
        );
        self.inhibit_epoch = self.inhibit_epoch.wrapping_add(1);
        InhibitRules {
            epoch: self.inhibit_epoch,
            inhibit_apps: effective.inhibit_apps,
            monitor_media: effective.monitor_media,
            ignore_remote_media: effective.ignore_remote_media,
            media_blacklist: effective.media_blacklist,
        }
    }

    /// Takes the rules that were given out, and hands them to the services.
    pub fn adopt_rules(&mut self, rules: InhibitRules) -> (r: (AppRules, MediaRules))
        ensures
            final(self)@ == (DaemonModel { rules: rules@, ..old(self)@ }),
            r.0.epoch == rules.epoch,
            pattern_views(r.0.apps@) == rules@.inhibit_apps,
            r.1.epoch == rules.epoch,
            r.1.monitor_media == rules.monitor_media,
            r.1.ignore_remote_media == rules.ignore_remote_media,
            pattern_views(r.1.media_blacklist@) == rules@.media_blacklist,
    {
        let app = AppRules { epoch: rules.epoch, apps: clone_patterns(&rules.inhibit_apps) };
        let media = MediaRules {
            epoch: rules.epoch,
            monitor_media: rules.monitor_media,
            ignore_remote_media: rules.ignore_remote_media,
            media_blacklist: clone_patterns(&rules.media_blacklist),
        };
        self.inhibit_epoch = rules.epoch;
        self.inhibit_apps = rules.inhibit_apps;
        self.monitor_media = rules.monitor_media;
        self.ignore_remote_media = rules.ignore_remote_media;
        self.media_blacklist = rules.media_blacklist;
        (app, media)
    }

    /// The rules that the services start with.
    pub fn current_rules(&self) -> (r: (AppRules, MediaRules))
        ensures
            r.0.epoch == self@.rules.epoch,
            pattern_views(r.0.apps@) == self@.rules.inhibit_apps,
            r.1.epoch == self@.rules.epoch,
            r.1.monitor_media == self@.rules.monitor_media,
            r.1.ignore_remote_media == self@.rules.ignore_remote_media,
            pattern_views(r.1.media_blacklist@) == self@.rules.media_blacklist,
    {
        let app = AppRules { epoch: self.inhibit_epoch, apps: clone_patterns(&self.inhibit_apps) };
        let media = MediaRules {
            epoch: self.inhibit_epoch,
            monitor_media: self.monitor_media,
            ignore_remote_media: self.ignore_remote_media,
            media_blacklist: clone_patterns(&self.media_blacklist),
        };
        (app, media)
    }

    /// Decides whether a failure is to be told.
    fn log_handle_event_error_once(&mut self, e: Error) -> (r: Option<Error>)
        ensures
            ({
                let missing = e == Error::InvalidConfig(ConfigError::ProfileNotFound);
                &&& r == (if missing && old(self)@.bad_profile_logged {
                    None
                } else {
                    Some(e)
                })
                &&& final(self)@ == (DaemonModel {
                    bad_profile_logged: missing || old(self)@.bad_profile_logged,
                    ..old(self)@
                })
            }),
    {
        match e {
            Error::InvalidConfig(ConfigError::ProfileNotFound) => {
                if self.bad_profile_logged {
                    None
                } else {
                    self.bad_profile_logged = true;
                    Some(e)
                }
            },
            _ => Some(e),
        }
    }

    /// Hands an event to the manager.
    pub fn handle_event(&mut self, event: Event) -> (r: Turn)
        ensures
            ({
                let h = old(self)@.manager.handled(old(self)@.state, event);
                let told = old(self)@.after_telling(h);
                &&& action_views(r.actions@) == actions_of(h)
                &&& r.complaint == old(self)@.complaint(h)
                &&& rules_view(r.rules) == (if changes_rules(event) {
                    Some(told.next_rules())
                } else {
                    None
                })
                &&& final(self)@ == (if changes_rules(event) {
                    told.with_rules_given()
                } else {
                    told
                })
            }),
    {
        let ghost before = self@;
        let ghost h = self@.manager.handled(self@.state, event);
        let refresh_after = match &event {
            Event::ProfileChanged { .. } => true,
            Event::PowerChanged { .. } => true,
            _ => false,
        };
        let mut complaint: Option<Error> = None;
        let actions = match self.manager.handle_event(&mut self.state, event) {
            Ok(actions) => actions,
            Err(e) => {
                complaint = self.log_handle_event_error_once(e);
                let none: Vec<Action> = Vec::new();
                assert(action_views(none@) =~= Seq::empty());
                none
            },
        };
        assert(self@ == before.after_telling(h));
        let rules = if refresh_after {
            Some(self.push_inhibit_rules_from_effective())
        } else {
            None
        };
        Turn { actions, rules, complaint }
    }

    /// What is listed.
    pub fn list(&self, kind: ListKind) -> (r: String)
        ensures
            r@ == (match kind {
                ListKind::Actions => action_list(self@.manager.effective(self@.state)),
                ListKind::Profiles => profile_list(self@.manager.file.profiles),
            }),
    {
        match kind {
            ListKind::Actions => self.manager.list_actions(&self.state),
            ListKind::Profiles => self.manager.list_profiles(),
        }
    }

    /// The state as it is shown to the user and to a bar.
    pub fn info(&self, now_ms: u64) -> (r: InfoSnapshot)
        ensures
            r.waybar@ == self@.manager.bar(self@.state, now_ms),
            r.pretty_text@ == pretty_text(
                self@.manager.effective(self@.state),
                self@.state,
                now_ms,
            ),
            r.manually_paused == self@.state.manually_paused,
    {
        self.manager.snapshot(&self.state, now_ms)
    }

    /// Login1's signals are watched, and tell when the session is locked.
    pub fn enable_loginctl(&self) -> (r: bool)
        ensures
            r == self@.enable_loginctl,
    {
        self.enable_loginctl
    }

    /// The inhibits of the session bus are watched.
    pub fn enable_dbus_inhibit(&self) -> (r: bool)
        ensures
            r == self@.enable_dbus_inhibit,
    {
        self.enable_dbus_inhibit
    }

    /// What the machine is.
    pub fn chassis(&self) -> (r: ChassisKind)
        ensures
            r == self@.chassis,
    {
        self.chassis
    }

    /// Where the configuration came from.
    pub fn config_path(&self) -> (r: &str)
        ensures
            r@ == self@.config_path,
    {
        self.config_path.as_str()
    }
}

// ---------------------------------------------------------------------------------------------
// Profiles and reloading
// ---------------------------------------------------------------------------------------------

/// What the manager makes of a change to the profile of a name is what it makes of the event.
proof fn profile_event_is_profile_change(m: ManagerModel, s: StateModel, name: String, now_ms: u64)
    ensures
        m.handled(s, Event::ProfileChanged { name, now_ms }) == m.profile_handled(s, name@, now_ms),
{
    reveal(ManagerModel::reacted);
}

/// What a daemon makes of a request: how the manager handled it, and what it replies.
pub open spec fn request_answered(
    before: DaemonModel,
    after: DaemonModel,
    h: Handled,
    ok: Seq<char>,
    reply: Result<Seq<char>, Seq<char>>,
    rules: Option<RulesModel>,
) -> bool {
    match h.result {
        Ok(_) => {
            let picked = DaemonModel { bad_profile_logged: false, ..before.after(h) };
            &&& after == picked.with_rules_given()
            &&& rules == Some(picked.next_rules())
            &&& reply == Ok::<Seq<char>, Seq<char>>(ok)
        },
        Err(e) => {
            &&& after == before.after(h)
            &&& rules is None
            &&& reply == Err::<Seq<char>, Seq<char>>(e.label())
        },
    }
}

impl DaemonModel {
    /// The daemon with the configuration that was loaded.
    pub open spec fn with_config(self, l: LoadedModel) -> DaemonModel {
        DaemonModel {
            manager: ManagerModel { file: l.cfg, ..self.manager },
            config_path: if same_place(l.path, self.config_path) {
                self.config_path
            } else {
                l.path
            },
            ..self
        }
    }

    /// The profile that stays in effect: the one that is, if the configuration still has it.
    pub open spec fn kept_profile(self) -> Seq<char> {
        match self.state.active_profile {
            Some(n) => if self.manager.file.effective(Some(n), self.state.plan_source) is Some {
                n
            } else {
                "none"@
            },
            None => "none"@,
        }
    }
}

/// What is replied to a reload after which a profile is in effect.
pub open spec fn reload_reply(profile: Seq<char>) -> Seq<char> {
    if profile == "none"@ {
        "Reloaded (profile missing; switched to none)"@
    } else {
        "Reloaded (profile kept: "@ + profile + ")"@
    }
}

/// What stands for the outcome of loading a configuration in contracts.
pub open spec fn loaded_view(l: Result<LoadedConfig, String>) -> Result<LoadedModel, Seq<char>> {
    match l {
        Ok(l) => Ok(l@),
        Err(e) => Err(e@),
    }
}

impl Daemon {
    /// Changes to the profile of a name, and gives the actions or why there is none.
    fn change_profile(&mut self, name: &str, now_ms: u64) -> (r: Result<
        (Vec<Action>, InhibitRules),
        Error,
    >)
        ensures
            ({
                let h = old(self)@.manager.profile_handled(old(self)@.state, name@, now_ms);
                match r {
                    Ok((actions, rules)) => {
                        let picked = DaemonModel {
                            bad_profile_logged: false,
                            ..old(self)@.after(h)
                        };
                        &&& h.result == Ok::<_, Error>(action_views(actions@))
                        &&& rules@ == picked.next_rules()
                        &&& final(self)@ == picked.with_rules_given()
                    },
                    Err(e) => h.result == Err::<Seq<ActionModel>, _>(e) && final(self)@ == old(
                        self,
                    )@.after(h),
                }
            }),
    {
        let name = String::from_str(name);
        proof {
            profile_event_is_profile_change(self@.manager, self@.state, name, now_ms);
        }
        let ev = Event::ProfileChanged { name, now_ms };
        match self.manager.handle_event(&mut self.state, ev) {
            Ok(actions) => {
                self.bad_profile_logged = false;
                let rules = self.push_inhibit_rules_from_effective();
                Ok((actions, rules))
            },
            Err(e) => Err(e),
        }
    }

    /// Changes to a profile; none is the default one. The actions of the change are not taken.
    pub fn set_profile(&mut self, name: Option<String>, now_ms: u64) -> (r: Answer)
        ensures
            ({
                let shown = set_or(opt_view(name), "none"@);
                let h = old(self)@.manager.profile_handled(old(self)@.state, shown, now_ms);
                &&& r.actions@.len() == 0
                &&& request_answered(
                    old(self)@,
                    final(self)@,
                    h,
                    "Profile set: "@ + shown,
                    reply_view(r.reply),
                    rules_view(r.rules),
                )
            }),
    {
        let shown = match name {
            Some(n) => n,
            None => String::from_str("none"),
        };
        let none: Vec<Action> = Vec::new();
        match self.change_profile(shown.as_str(), now_ms) {
            Ok((_, rules)) => Answer {
                reply: Ok(cat("Profile set: ", shown.as_str())),
                actions: none,
                rules: Some(rules),
            },
            Err(e) => Answer {
                reply: Err(String::from_str(e.label_text())),
                actions: none,
                rules: None,
            },
        }
    }

    /// Takes the configuration that was loaded anew. The profile in effect stays if the new
    /// configuration has it; where loading failed, nothing changes.
    pub fn reload(&mut self, loaded: Result<LoadedConfig, String>, now_ms: u64) -> (r: Answer)
        ensures
            match loaded_view(loaded) {
                Err(e) => {
                    &&& final(self)@ == old(self)@
                    &&& reply_view(r.reply) == Err::<Seq<char>, _>(e)
                    &&& r.actions@.len() == 0
                    &&& r.rules is None
                },
                Ok(l) => {
                    let d = old(self)@.with_config(l);
                    let h = d.manager.profile_handled(d.state, d.kept_profile(), now_ms);
                    &&& action_views(r.actions@) == actions_of(h)
                    &&& request_answered(
                        d,
                        final(self)@,
                        h,
                        reload_reply(d.kept_profile()),
                        reply_view(r.reply),
                        rules_view(r.rules),
                    )
                },
            },
    {
        let none: Vec<Action> = Vec::new();
        assert(action_views(none@) =~= Seq::empty());
        let l = match loaded {
            Ok(l) => l,
            Err(e) => {
                return Answer { reply: Err(e), actions: none, rules: None };
            },
        };
        if !same_path(l.path.as_str(), self.config_path.as_str()) {
            self.config_path = l.path;
        }
        self.manager.set_config(l.cfg);
        let desired = match self.state.active_profile() {
            Some(name) => {
                match self.manager.cfg_file_ref().effective_for(
                    Some(name),
                    self.state.plan_source(),
                ) {
                    Some(_) => String::from_str(name),
                    None => String::from_str("none"),
                }
            },
            None => String::from_str("none"),
        };
        match self.change_profile(desired.as_str(), now_ms) {
            Ok((actions, rules)) => {
                let reply = if str_eq(desired.as_str(), "none") {
                    String::from_str("Reloaded (profile missing; switched to none)")
                } else {
                    let mut t = cat("Reloaded (profile kept: ", desired.as_str());
                    t.append(")");
                    t
                };
                Answer { reply: Ok(reply), actions, rules: Some(rules) }
            },
            Err(e) => Answer {
                reply: Err(String::from_str(e.label_text())),
                actions: none,
                rules: None,
            },
        }
    }
}

// ---------------------------------------------------------------------------------------------
// Carrying actions out
// ---------------------------------------------------------------------------------------------

/// How an action is carried out.
#[derive(Debug)]
pub enum Work {
    /// A shell command, whose failure is told.
    Run(String),
    /// A shell command that is left to itself.
    Spawn(String),
    /// A locker. Either login1 tells when the session is locked, or the locker's life does.
    Lock { command: String, by_loginctl: bool },
    Nothing,
}

/// What stands for [`Work`] in contracts.
pub enum WorkModel {
    Run(Seq<char>),
    Spawn(Seq<char>),
    Lock { command: Seq<char>, by_loginctl: bool },
    Nothing,
}

impl View for Work {
    type V = WorkModel;

    open spec fn view(&self) -> WorkModel {
        match self {
            Work::Run(c) => WorkModel::Run(c@),
            Work::Spawn(c) => WorkModel::Spawn(c@),
            Work::Lock { command, by_loginctl } => WorkModel::Lock {
                command: command@,
                by_loginctl: *by_loginctl,
            },
            Work::Nothing => WorkModel::Nothing,
        }
    }
}

/// The command that asks login1 to lock the session.
pub const LOCK_SESSION: &'static str = "loginctl lock-session";

/// How an action is carried out.
pub open spec fn work_of(a: ActionModel, by_loginctl: bool) -> WorkModel {
    match a {
        ActionModel::RunCommand { command } => WorkModel::Run(command),
        ActionModel::RunResumeCommand { command } => WorkModel::Run(command),
        ActionModel::Notify { message } => WorkModel::Spawn(
            "notify-send -a Stasis '"@ + escaped(message) + "'"@,
        ),
        ActionModel::LockSession => WorkModel::Run(LOCK_SESSION@),
        ActionModel::RunLockScreen { command } => WorkModel::Lock { command, by_loginctl },
        ActionModel::Suspend => WorkModel::Nothing,
    }
}

/// How an action is carried out.
pub fn work_for(action: Action, by_loginctl: bool) -> (r: Work)
    ensures
        r@ == work_of(action@, by_loginctl),
{
    match action {
        Action::RunCommand { command } => Work::Run(command),
        Action::RunResumeCommand { command } => Work::Run(command),
        Action::Notify { message } => {
            let text = escape_single_quotes(message.as_str());
            let mut line = cat("notify-send -a Stasis '", text.as_str());
            line.append("'");
            Work::Spawn(line)
        },
        Action::LockSession => Work::Run(String::from_str(LOCK_SESSION)),
        Action::RunLockScreen { command } => Work::Lock { command, by_loginctl },
        Action::Suspend => Work::Nothing,
    }
}

/// The event at the start of a locker. Where login1 tells of locks, the locker does not.
pub fn lock_begins(by_loginctl: bool, now_ms: u64) -> (r: Option<Event>)
    ensures
        r == (if by_loginctl {
            None
        } else {
            Some(Event::SessionLocked { now_ms })
        }),
{
    if by_loginctl {
        None
    } else {
        Some(Event::SessionLocked { now_ms })
    }
}

/// The event once a locker has ended, or could not be started. Where login1 tells of locks, the
/// locker does not.
pub fn lock_ends(by_loginctl: bool, now_ms: u64) -> (r: Option<Event>)
    ensures
        r == (if by_loginctl {
            None
        } else {
            Some(Event::SessionUnlocked { now_ms })
        }),
{
    if by_loginctl {
        None
    } else {
        Some(Event::SessionUnlocked { now_ms })
    }
}

// ---------------------------------------------------------------------------------------------
// Laws
// ---------------------------------------------------------------------------------------------

/// The daemon starts under a profile that the configuration has, or under none.
pub proof fn daemon_starts_well_named(
    file: FileModel,
    config_path: Seq<char>,
    chassis: ChassisKind,
    on_ac: bool,
    now_ms: u64,
)
    ensures
        ({
            let d = DaemonModel::started(file, config_path, chassis, on_ac, now_ms);
            &&& well_named(d.state.active_profile)
            &&& d.state.active_profile matches Some(n) ==> file.has_profile(n)
        }),
{
    if let Some(raw) = file.active_profile {
        trimmed_is_bare(raw);
    }
}

/// Rules that are given out are those of the configuration in effect, under an epoch that the
/// rules before them did not have.
pub proof fn given_rules_are_new(d: DaemonModel)
    ensures
        d.next_rules().epoch != d.rules.epoch,
        d.manager.effective(d.state) matches Some(c) ==> d.next_rules() == rules_of(
            c,
            d.next_rules().epoch,
        ),
{
}

/// A reload keeps the profile in effect, if the new configuration has it; where none was in
/// effect, none is.
pub proof fn reload_keeps_the_profile(d: DaemonModel, l: LoadedModel, now_ms: u64)
    requires
        fits(d.with_config(l).manager),
        well_named(d.state.active_profile),
        l.cfg.effective(d.state.active_profile, d.state.plan_source) is Some,
    ensures
        ({
            let n = d.with_config(l);
            let h = n.manager.profile_handled(n.state, n.kept_profile(), now_ms);
            &&& h.result is Ok
            &&& h.manager.file == l.cfg
            &&& h.state.active_profile == d.state.active_profile
            &&& h.state.plan_source == d.state.plan_source
        }),
{
    let n = d.with_config(l);
    reveal_strlit("none");
    profile_change_takes_effect(n.manager, n.state, n.kept_profile(), now_ms);
}

} // verus!
