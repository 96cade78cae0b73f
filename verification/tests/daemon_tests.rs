use stasis::action::Action;
use stasis::config::load::LoadedConfig;
use stasis::config::pattern::Pattern;
use stasis::config::types::{
    Config, ConfigFile, PartialConfig, PlanStep, PlanStepKind, Profile, ProfileMode,
};
use stasis::daemon::{lock_begins, lock_ends, work_for, Daemon, Work, LOCK_SESSION};
use stasis::error::{ConfigError, Error, StateError};
use stasis::events::{Event, PowerState};
use stasis::host::{
    detect_chassis, escape_single_quotes, is_laptop, is_on_ac_power, ChassisKind, PowerSupply,
};
use stasis::ipc::handlers::ListKind;
use stasis::paths::{
    default_user_config_path, join_path, lock_path, log_path, resolve_default_config_path,
    same_path, socket_path, ETC_CONFIG,
};
use stasis::session::{
    after_first_attempt, already_running_text, complaint, is_wayland_name, lock_failed_text,
    no_answer_text, wayland_socket, Bound, LockStep,
};

fn step(kind: PlanStepKind, timeout: u64, cmd: &str) -> PlanStep {
    PlanStep {
        kind,
        timeout_seconds: timeout,
        command: Some(cmd.to_string()),
        resume_command: None,
        notification: None,
        notify_seconds_before: None,
    }
}

fn file(active: Option<&str>) -> ConfigFile {
    let mut default = Config::disabled();
    default.monitor_media = true;
    default.enable_loginctl = true;
    default.inhibit_apps = vec![Pattern::Literal("mpv".to_string())];
    default.plan_desktop = vec![step(PlanStepKind::Dpms, 5, "dpms off")];
    let mut work = PartialConfig::default();
    work.monitor_media = Some(false);
    ConfigFile {
        default,
        profiles: vec![Profile {
            name: "work".to_string(),
            mode: ProfileMode::Overlay,
            config: work,
        }],
        active_profile: active.map(|s| s.to_string()),
    }
}

fn daemon() -> Daemon {
    Daemon::new(file(None), "/c".to_string(), ChassisKind::Desktop, true, 0)
}

#[test]
fn daemon_starts_under_the_profile_that_is_asked_for() {
    let d = Daemon::new(file(Some(" work ")), "/c".to_string(), ChassisKind::Laptop, false, 0);
    let (app, media) = d.current_rules();
    assert_eq!(app.epoch, 0);
    assert_eq!(app.apps.len(), 1);
    assert!(!media.monitor_media);
    assert!(d.enable_loginctl());
    assert_eq!(d.chassis(), ChassisKind::Laptop);
    assert_eq!(d.config_path(), "/c");
    assert_eq!(d.info(0).waybar.profile.as_deref(), Some("work"));
    let d = Daemon::new(file(Some("nobody")), "/c".to_string(), ChassisKind::Desktop, true, 0);
    assert!(d.current_rules().1.monitor_media);
    assert_eq!(d.info(0).waybar.profile.as_deref(), Some("default"));
    let d = Daemon::new(file(Some("None")), "/c".to_string(), ChassisKind::Desktop, true, 0);
    assert!(d.current_rules().1.monitor_media);
}

#[test]
fn events_give_actions_and_rules() {
    let mut d = daemon();
    let t = d.handle_event(Event::Tick { now_ms: 4_999 });
    assert!(t.actions.is_empty());
    assert!(t.rules.is_none());
    let t = d.handle_event(Event::Tick { now_ms: 5_000 });
    assert_eq!(t.actions, vec![Action::RunCommand { command: "dpms off".to_string() }]);
    let t = d.handle_event(Event::PowerChanged { state: PowerState::OnAC, now_ms: 6_000 });
    let rules = t.rules.unwrap();
    assert_eq!(rules.epoch, 1);
    assert!(rules.monitor_media);
    let (app, media) = d.adopt_rules(rules);
    assert_eq!(app.epoch, 1);
    assert_eq!(media.epoch, 1);
    assert_eq!(d.push_inhibit_rules_from_effective().epoch, 2);
}

#[test]
fn failures_are_told() {
    let mut d = daemon();
    let t = d.handle_event(Event::ManualResume { now_ms: 1 });
    assert_eq!(t.complaint, Some(Error::InvalidState(StateError::NotPaused)));
    assert!(t.actions.is_empty());
    let e = |name: &str| Event::ProfileChanged { name: name.to_string(), now_ms: 2 };
    let t = d.handle_event(e("nobody"));
    assert_eq!(t.complaint, Some(Error::InvalidConfig(ConfigError::ProfileNotFound)));
    assert!(t.rules.is_some());
    let t = d.handle_event(e("nobody"));
    assert_eq!(t.complaint, None);
    let t = d.handle_event(e(" "));
    assert_eq!(t.complaint, Some(Error::InvalidConfig(ConfigError::InvalidProfileName)));
    assert!(d.set_profile(None, 3).reply.is_ok());
    let t = d.handle_event(e("nobody"));
    assert!(t.complaint.is_some());
}

#[test]
fn profiles_are_set_and_refused() {
    let mut d = daemon();
    let a = d.set_profile(Some("work".to_string()), 1);
    assert_eq!(a.reply, Ok("Profile set: work".to_string()));
    assert!(!a.rules.unwrap().monitor_media);
    assert_eq!(d.info(1).waybar.profile.as_deref(), Some("work"));
    let a = d.set_profile(Some("nobody".to_string()), 2);
    assert_eq!(a.reply, Err("InvalidConfig(ProfileNotFound)".to_string()));
    assert!(a.rules.is_none());
    assert_eq!(d.info(2).waybar.profile.as_deref(), Some("work"));
    let a = d.set_profile(None, 3);
    assert_eq!(a.reply, Ok("Profile set: none".to_string()));
    assert_eq!(d.info(3).waybar.profile.as_deref(), Some("default"));
}

#[test]
fn reloads_keep_the_profile_they_still_have() {
    let mut d = daemon();
    d.set_profile(Some("work".to_string()), 1);
    let mut f = file(None);
    f.default.debounce_seconds = 9;
    let a = d.reload(Ok(LoadedConfig { path: "/other".to_string(), cfg: f }), 2);
    assert_eq!(a.reply, Ok("Reloaded (profile kept: work)".to_string()));
    assert!(a.rules.is_some());
    assert_eq!(d.config_path(), "/other");
    assert_eq!(d.info(2).waybar.profile.as_deref(), Some("work"));
    let a = d.reload(Err("no file".to_string()), 3);
    assert_eq!(a.reply, Err("no file".to_string()));
    assert!(a.rules.is_none());
    assert_eq!(d.config_path(), "/other");
    let mut f = file(None);
    f.profiles.clear();
    let a = d.reload(Ok(LoadedConfig { path: "/other".to_string(), cfg: f }), 4);
    assert_eq!(a.reply, Err("InvalidConfig(ProfileNotFound)".to_string()));
}

#[test]
fn reloads_without_a_profile_stay_without() {
    let mut d = daemon();
    let a = d.reload(Ok(LoadedConfig { path: "/c/.".to_string(), cfg: file(None) }), 2);
    assert_eq!(a.reply, Ok("Reloaded (profile missing; switched to none)".to_string()));
    assert_eq!(d.config_path(), "/c");
}

#[test]
fn lists_and_infos_are_given() {
    let d = daemon();
    assert!(d.list(ListKind::Actions).starts_with("Effective action plan:\n"));
    assert!(d.list(ListKind::Profiles).contains("work"));
    assert!(!d.info(0).manually_paused);
}

#[test]
fn actions_are_carried_out() {
    let run = |a: Action| match work_for(a, false) {
        Work::Run(c) => c,
        _ => panic!("not run"),
    };
    assert_eq!(run(Action::RunCommand { command: "a".to_string() }), "a");
    assert_eq!(run(Action::RunResumeCommand { command: "b".to_string() }), "b");
    assert_eq!(run(Action::LockSession), LOCK_SESSION);
    match work_for(Action::Notify { message: "it's".to_string() }, false) {
        Work::Spawn(c) => assert_eq!(c, "notify-send -a Stasis 'it'\"'\"'s'"),
        _ => panic!("not spawned"),
    }
    match work_for(Action::RunLockScreen { command: "l".to_string() }, true) {
        Work::Lock { command, by_loginctl } => {
            assert_eq!(command, "l");
            assert!(by_loginctl);
        }
        _ => panic!("not locked"),
    }
    assert!(matches!(work_for(Action::Suspend, false), Work::Nothing));
    assert!(lock_begins(true, 1).is_none());
    assert!(lock_ends(true, 1).is_none());
    assert!(matches!(lock_begins(false, 1), Some(Event::SessionLocked { now_ms: 1 })));
    assert!(matches!(lock_ends(false, 2), Some(Event::SessionUnlocked { now_ms: 2 })));
}

#[test]
fn quotes_are_escaped() {
    assert_eq!(escape_single_quotes("a'b"), r#"a'"'"'b"#);
    assert_eq!(escape_single_quotes(""), "");
    assert_eq!(escape_single_quotes("\u{e9}\""), "\u{e9}\"");
}

#[test]
fn laptops_are_told_from_desktops() {
    assert_eq!(detect_chassis(&Some("10\n".to_string())), ChassisKind::Laptop);
    assert_eq!(detect_chassis(&Some("3\n".to_string())), ChassisKind::Desktop);
    assert_eq!(detect_chassis(&None), ChassisKind::Desktop);
    assert!(is_laptop(&Some("31".to_string())));
    assert!(!is_laptop(&None));
}

#[test]
fn mains_power_is_found() {
    let s = |name: &str, kind: &str, online: &str| PowerSupply {
        name: Some(name.to_string()),
        kind: Some(kind.to_string()),
        online: Some(online.to_string()),
    };
    assert!(is_on_ac_power(&vec![s("BAT0", "Battery", "1"), s("x", "Mains\n", "1\n")]));
    assert!(is_on_ac_power(&vec![s("ADP1", "USB", "1")]));
    assert!(!is_on_ac_power(&vec![s("AC", "Mains", "0"), s("BAT0", "Battery", "1")]));
    assert!(!is_on_ac_power(&vec![]));
}

#[test]
fn paths_are_put_together() {
    assert_eq!(join_path("/a", "b"), "/a/b");
    assert_eq!(join_path("/a/", "b"), "/a/b");
    assert_eq!(join_path("", "b"), "b");
    assert_eq!(join_path("/a", "/b"), "/b");
    assert_eq!(
        default_user_config_path(Some("/x"), Some("/h")),
        "/x/stasis/stasis.rune"
    );
    assert_eq!(
        default_user_config_path(None, Some("/h")),
        "/h/.config/stasis/stasis.rune"
    );
    assert_eq!(default_user_config_path(None, None), "./.config/stasis/stasis.rune");
    assert_eq!(log_path(Some("/s"), None).as_deref(), Some("/s/stasis/stasis.log"));
    assert_eq!(
        log_path(None, Some("/h")).as_deref(),
        Some("/h/.local/state/stasis/stasis.log")
    );
    assert_eq!(log_path(None, None), None);
    assert_eq!(socket_path(Some("/run/u")), Ok("/run/u/stasis/stasis.sock".to_string()));
    assert_eq!(lock_path(Some("/run/u")), Ok("/run/u/stasis/stasis.lock".to_string()));
    assert_eq!(socket_path(None), Err("XDG_RUNTIME_DIR is not set".to_string()));
}

#[test]
fn paths_are_compared_by_their_parts() {
    let same = |a: &str, b: &str| {
        assert_eq!(
            same_path(a, b),
            std::path::Path::new(a) == std::path::Path::new(b),
            "{a} {b}"
        );
    };
    same("/a//b/./c/", "/a/b/c");
    same("a", "./a");
    same("./a", "./a/.");
    same("a/../b", "b");
    same("/a", "a");
    same("", ".");
    same("", "");
    same("/", "//");
    same("/", "");
    assert!(same_path("/a//b", "/a/b"));
    assert!(!same_path("/a", "a"));
}

#[test]
fn default_configs_are_resolved() {
    let user = || "/u".to_string();
    assert_eq!(resolve_default_config_path(user(), true, true), "/u");
    assert_eq!(resolve_default_config_path(user(), false, true), ETC_CONFIG);
    assert_eq!(resolve_default_config_path(user(), false, false), "/u");
}

#[test]
fn one_daemon_runs_in_a_session() {
    assert_eq!(after_first_attempt(Bound::Taken, true), LockStep::Held);
    assert_eq!(after_first_attempt(Bound::InUse, true), LockStep::Busy);
    assert_eq!(after_first_attempt(Bound::InUse, false), LockStep::Retry);
    assert_eq!(after_first_attempt(Bound::Failed, true), LockStep::GiveUp);
    assert_eq!(
        already_running_text("/l"),
        "stasis is already running (another instance holds /l)"
    );
    assert_eq!(lock_failed_text("/l", "no"), "failed to bind instance lock /l: no");
}

#[test]
fn sessions_are_those_of_wayland() {
    assert_eq!(wayland_socket("/r", Some("wayland-1")).as_deref(), Some("/r/wayland-1"));
    assert_eq!(wayland_socket("/r", Some("/x/w")).as_deref(), Some("/x/w"));
    assert_eq!(wayland_socket("/r", Some("")), None);
    assert_eq!(wayland_socket("/r", None), None);
    assert!(is_wayland_name("wayland-0"));
    assert!(!is_wayland_name("x-wayland-0"));
    assert_eq!(
        complaint("p".to_string(), Some("x11")),
        "not a wayland session: XDG_SESSION_TYPE=x11"
    );
    assert_eq!(complaint("p".to_string(), Some("wayland")), "p");
    assert_eq!(complaint("p".to_string(), None), "p");
    assert_eq!(
        no_answer_text("/s", "refused"),
        "failed to connect to wayland socket /s: refused"
    );
}

#[test]
fn errors_have_words_and_labels() {
    let e = Error::InvalidState(StateError::AlreadyPaused);
    assert_eq!(e.message(), "already paused");
    assert_eq!(e.label_text(), format!("{e:?}"));
    let e = Error::InvalidConfig(ConfigError::InvalidProfileName);
    assert_eq!(e.message(), "invalid profile name");
    assert_eq!(e.label_text(), format!("{e:?}"));
    let e = Error::InvalidConfig(ConfigError::ProfileNotFound);
    assert_eq!(e.label_text(), format!("{e:?}"));
    let e = Error::InvalidState(StateError::NotPaused);
    assert_eq!(e.label_text(), format!("{e:?}"));
}
