use stasis::action::Action;
use stasis::config::types::{Config, ConfigFile, PartialConfig, PlanStep, PlanStepKind, Profile, ProfileMode};
use stasis::error::{ConfigError, Error, StateError};
use stasis::events::{ActivityKind, Event, MediaState, PowerState};
use stasis::manager::engine::{
    normalize_trigger_name, resume_commands_for_activity, skip_disabled,
};
use stasis::manager::Manager;
use stasis::services::dbus::{BusMessage, DbusInhibitTracker};
use stasis::state::State;

fn step(kind: PlanStepKind, timeout: u64, cmd: &str) -> PlanStep {
    PlanStep {
        kind,
        timeout_seconds: timeout,
        command: Some(cmd.to_string()),
        resume_command: None,
        notification: None,
        notify_seconds_before: None,
    }
}

fn with_resume(mut s: PlanStep, cmd: &str) -> PlanStep {
    s.resume_command = Some(cmd.to_string());
    s
}

fn manager(plan: Vec<PlanStep>, change: fn(&mut Config)) -> (Manager, State) {
    let mut default = Config::disabled();
    default.plan_desktop = plan;
    change(&mut default);
    let file = ConfigFile { default, profiles: vec![], active_profile: None };
    (Manager::new(file), State::new(0))
}

fn plain(plan: Vec<PlanStep>) -> (Manager, State) {
    manager(plan, |_| {})
}

fn run(command: &str) -> Action {
    Action::RunCommand { command: command.to_string() }
}

fn resume(command: &str) -> Action {
    Action::RunResumeCommand { command: command.to_string() }
}

fn notify(message: &str) -> Action {
    Action::Notify { message: message.to_string() }
}

fn locker(command: &str) -> Action {
    Action::RunLockScreen { command: command.to_string() }
}

fn tick(m: &mut Manager, s: &mut State, now_ms: u64) -> Vec<Action> {
    m.handle_event(s, Event::Tick { now_ms }).unwrap()
}

fn activity(m: &mut Manager, s: &mut State, now_ms: u64) -> Vec<Action> {
    m.handle_event(s, Event::UserActivity { kind: ActivityKind::Any, now_ms })
        .unwrap()
}

#[test]
fn time_that_is_held_is_not_counted() {
    let (mut m, mut s) = plain(vec![step(PlanStepKind::Dpms, 10, "off")]);
    m.handle_event(&mut s, Event::AppInhibitorCount { count: 1, now_ms: 4_000 })
        .unwrap();
    assert!(s.paused());
    assert!(tick(&mut m, &mut s, 60_000).is_empty());
    m.handle_event(&mut s, Event::AppInhibitorCount { count: 0, now_ms: 64_000 })
        .unwrap();
    assert!(!s.paused());
    assert!(tick(&mut m, &mut s, 69_999).is_empty());
    assert_eq!(tick(&mut m, &mut s, 70_000), vec![run("off")]);
}

#[test]
fn pauses_and_resumes_alternate() {
    let (mut m, mut s) = plain(vec![step(PlanStepKind::Dpms, 10, "off")]);
    assert_eq!(
        m.handle_event(&mut s, Event::ManualResume { now_ms: 1 }).unwrap_err(),
        Error::InvalidState(StateError::NotPaused)
    );
    m.handle_event(&mut s, Event::ManualPause { now_ms: 1_000 }).unwrap();
    assert!(s.manually_paused());
    assert_eq!(
        m.handle_event(&mut s, Event::ManualPause { now_ms: 2_000 }).unwrap_err(),
        Error::InvalidState(StateError::AlreadyPaused)
    );
    assert!(tick(&mut m, &mut s, 30_000).is_empty());
    m.handle_event(&mut s, Event::ManualResume { now_ms: 31_000 }).unwrap();
    assert!(!s.manually_paused());
    assert!(tick(&mut m, &mut s, 40_999).is_empty());
    assert_eq!(tick(&mut m, &mut s, 41_000), vec![run("off")]);
}

#[test]
fn expired_pauses_are_announced() {
    let (mut m, mut s) = manager(vec![step(PlanStepKind::Dpms, 10, "off")], |c| {
        c.notify_on_unpause = true;
    });
    m.handle_event(&mut s, Event::ManualPause { now_ms: 1 }).unwrap();
    let out = m
        .handle_event(&mut s, Event::PauseExpired { message: "over".to_string(), now_ms: 2 })
        .unwrap();
    assert_eq!(out, vec![notify("resumed"), notify("over")]);
    let out = m
        .handle_event(&mut s, Event::PauseExpired { message: "over".to_string(), now_ms: 3 })
        .unwrap();
    assert!(out.is_empty());
    m.handle_event(&mut s, Event::ManualPause { now_ms: 4 }).unwrap();
    let out = m.handle_event(&mut s, Event::ManualResume { now_ms: 5 }).unwrap();
    assert!(out.is_empty());
}

#[test]
fn activity_starts_the_plan_anew_and_resumes_once() {
    let (mut m, mut s) = plain(vec![
        with_resume(step(PlanStepKind::Brightness, 5, "dim"), "undim"),
        with_resume(step(PlanStepKind::Dpms, 5, "off"), "on"),
    ]);
    assert_eq!(tick(&mut m, &mut s, 5_000), vec![run("dim")]);
    assert_eq!(tick(&mut m, &mut s, 10_000), vec![run("off")]);
    let out = activity(&mut m, &mut s, 20_000);
    assert!(out.contains(&resume("on")));
    assert!(out.contains(&resume("undim")));
    assert_eq!(out.len(), 2);
    assert!(activity(&mut m, &mut s, 21_000).is_empty());
    assert_eq!(s.step_index(), 0);
    assert!(tick(&mut m, &mut s, 25_999).is_empty());
    assert_eq!(tick(&mut m, &mut s, 26_000), vec![run("dim")]);
}

#[test]
fn media_in_a_browser_is_activity() {
    let plan = || vec![step(PlanStepKind::Dpms, 5, "off")];
    let (mut a, mut sa) = plain(plan());
    let (mut b, mut sb) = plain(plan());
    activity(&mut a, &mut sa, 3_000);
    b.handle_event(&mut sb, Event::BrowserActivity { now_ms: 3_000 }).unwrap();
    assert!(tick(&mut a, &mut sa, 7_999).is_empty());
    assert!(tick(&mut b, &mut sb, 7_999).is_empty());
    assert_eq!(tick(&mut a, &mut sa, 8_000), tick(&mut b, &mut sb, 8_000));
}

#[test]
fn idle_compositors_drive_nothing() {
    let (mut m, mut s) = plain(vec![step(PlanStepKind::Dpms, 5, "off")]);
    assert!(m
        .handle_event(&mut s, Event::CompositorIdled { now_ms: 9_000 })
        .unwrap()
        .is_empty());
    assert_eq!(tick(&mut m, &mut s, 9_001), vec![run("off")]);
}

#[test]
fn locked_sessions_start_no_locker() {
    let (mut m, mut s) = plain(vec![
        step(PlanStepKind::LockScreen, 5, "lock"),
        step(PlanStepKind::Dpms, 5, "off"),
    ]);
    m.handle_event(&mut s, Event::SessionLocked { now_ms: 1_000 }).unwrap();
    assert!(s.is_locked());
    assert_eq!(tick(&mut m, &mut s, 5_000), vec![run("off")]);
    let out = m
        .handle_event(&mut s, Event::ManualTrigger { name: "lock".to_string(), now_ms: 6_000 })
        .unwrap();
    assert!(out.is_empty());
    m.handle_event(&mut s, Event::SessionUnlocked { now_ms: 7_000 }).unwrap();
    assert!(!s.is_locked());
    assert_eq!(tick(&mut m, &mut s, 12_000), vec![locker("lock")]);
}

#[test]
fn unlocking_needs_a_lock() {
    let (mut m, mut s) = plain(vec![step(PlanStepKind::Dpms, 5, "off")]);
    let e = m
        .handle_event(&mut s, Event::SessionUnlocked { now_ms: 1_000 })
        .unwrap_err();
    assert_eq!(e, Error::InvalidState(StateError::NotLocked));
    assert_eq!(e.message(), "not locked");
    assert!(!s.is_locked());
    m.handle_event(&mut s, Event::SessionLocked { now_ms: 2_000 }).unwrap();
    m.handle_event(&mut s, Event::SessionUnlocked { now_ms: 3_000 }).unwrap();
    assert!(m.handle_event(&mut s, Event::SessionUnlocked { now_ms: 4_000 }).is_err());
}

#[test]
fn resumes_come_in_order_and_once() {
    let (mut m, mut s) = plain(vec![
        with_resume(step(PlanStepKind::Brightness, 1, "dim"), "undim"),
        with_resume(step(PlanStepKind::Dpms, 1, "off"), "on"),
        with_resume(step(PlanStepKind::Custom("fan".to_string()), 1, "slow"), "fast"),
    ]);
    tick(&mut m, &mut s, 1_000);
    tick(&mut m, &mut s, 2_000);
    tick(&mut m, &mut s, 3_000);
    let mut asked = s.clone();
    let plan = vec![
        with_resume(step(PlanStepKind::Brightness, 1, "dim"), "undim"),
        with_resume(step(PlanStepKind::Dpms, 1, "off"), "on"),
    ];
    let mut out = vec![];
    resume_commands_for_activity(&mut asked, &plan, &mut out);
    assert_eq!(out, vec![resume("on"), resume("undim")]);
    assert!(!asked.resume_due());
    resume_commands_for_activity(&mut asked, &plan, &mut out);
    assert_eq!(out.len(), 2);
    assert_eq!(
        activity(&mut m, &mut s, 4_000),
        vec![resume("on"), resume("undim"), resume("fast")]
    );
    assert!(activity(&mut m, &mut s, 5_000).is_empty());
}

#[test]
fn notices_come_before_their_steps() {
    let mut st = step(PlanStepKind::Suspend, 10, "sleep");
    st.notification = Some("soon".to_string());
    st.notify_seconds_before = Some(3);
    let (mut m, mut s) = manager(vec![st], |c| c.notify_before_action = true);
    assert!(tick(&mut m, &mut s, 9_999).is_empty());
    assert_eq!(tick(&mut m, &mut s, 10_000), vec![notify("soon")]);
    assert!(tick(&mut m, &mut s, 12_999).is_empty());
    assert_eq!(tick(&mut m, &mut s, 13_000), vec![run("sleep")]);
    assert!(tick(&mut m, &mut s, 99_000).is_empty());
}

#[test]
fn activity_takes_back_a_notice() {
    let mut st = step(PlanStepKind::Suspend, 10, "sleep");
    st.notification = Some("soon".to_string());
    st.notify_seconds_before = Some(3);
    let (mut m, mut s) = manager(vec![st], |c| c.notify_before_action = true);
    assert_eq!(tick(&mut m, &mut s, 10_000), vec![notify("soon")]);
    activity(&mut m, &mut s, 11_000);
    assert!(tick(&mut m, &mut s, 13_000).is_empty());
    assert_eq!(tick(&mut m, &mut s, 21_000), vec![notify("soon")]);
}

#[test]
fn debounce_is_waited_out_once() {
    let (mut m, mut s) = manager(
        vec![step(PlanStepKind::Brightness, 5, "dim"), step(PlanStepKind::Dpms, 5, "off")],
        |c| c.debounce_seconds = 2,
    );
    assert!(tick(&mut m, &mut s, 6_999).is_empty());
    assert_eq!(tick(&mut m, &mut s, 7_000), vec![run("dim")]);
    assert_eq!(tick(&mut m, &mut s, 12_000), vec![run("off")]);
}

#[test]
fn triggering_all_runs_every_waiting_step() {
    let (mut m, mut s) = plain(vec![
        step(PlanStepKind::Startup, 0, "start"),
        step(PlanStepKind::Brightness, 5, "dim"),
        step(PlanStepKind::Custom("my_step".to_string()), 5, "mine"),
        step(PlanStepKind::LockScreen, 5, "lock"),
    ]);
    let out = m
        .handle_event(&mut s, Event::ManualTrigger { name: " ALL ".to_string(), now_ms: 100 })
        .unwrap();
    assert_eq!(out, vec![run("start"), run("dim"), run("mine"), locker("lock")]);
    assert!(tick(&mut m, &mut s, 90_000).is_empty());
}

#[test]
fn triggers_go_by_name() {
    let plan = || {
        vec![
            step(PlanStepKind::Brightness, 5, "dim"),
            step(PlanStepKind::Custom("early_dpms".to_string()), 5, "early"),
            step(PlanStepKind::Suspend, 5, "sleep"),
        ]
    };
    let fired = |name: &str| {
        let (mut m, mut s) = plain(plan());
        m.handle_event(&mut s, Event::ManualTrigger { name: name.to_string(), now_ms: 100 })
            .unwrap()
    };
    assert_eq!(fired("brightness"), vec![run("dim")]);
    assert_eq!(fired("Early DPMS"), Vec::<Action>::new());
    assert_eq!(fired("Early-DPMS"), vec![run("early")]);
    assert_eq!(fired("custom:early_dpms"), vec![run("early")]);
    assert_eq!(fired("nothing"), Vec::<Action>::new());
    assert_eq!(normalize_trigger_name(" My_Step X"), "my-stepx");
}

#[test]
fn startup_steps_fire_once() {
    let (mut m, mut s) = plain(vec![
        step(PlanStepKind::Startup, 0, "start"),
        step(PlanStepKind::Dpms, 5, "off"),
    ]);
    assert_eq!(tick(&mut m, &mut s, 10), vec![run("start")]);
    assert!(tick(&mut m, &mut s, 20).is_empty());
    assert!(activity(&mut m, &mut s, 30).is_empty());
    assert!(tick(&mut m, &mut s, 40).is_empty());
    let out = m
        .handle_event(&mut s, Event::PowerChanged { state: PowerState::OnAC, now_ms: 50 })
        .unwrap();
    assert_eq!(out, vec![run("start")]);
}

#[test]
fn disabled_steps_are_skipped() {
    let mut off = step(PlanStepKind::Brightness, 1, "");
    off.command = None;
    let plan = vec![off, step(PlanStepKind::Dpms, 5, "off")];
    assert_eq!(skip_disabled(&plan, 0), 1);
    assert_eq!(skip_disabled(&plan, 2), 2);
    let (mut m, mut s) = plain(plan);
    assert_eq!(tick(&mut m, &mut s, 5_000), vec![run("off")]);
}

#[test]
fn sleeping_and_lids_hold_the_plan() {
    let (mut m, mut s) = plain(vec![step(PlanStepKind::Dpms, 5, "off")]);
    m.handle_event(&mut s, Event::LidClosed { now_ms: 1_000 }).unwrap();
    assert!(tick(&mut m, &mut s, 50_000).is_empty());
    m.handle_event(&mut s, Event::LidOpened { now_ms: 60_000 }).unwrap();
    assert_eq!(tick(&mut m, &mut s, 65_000), vec![run("off")]);
    m.handle_event(&mut s, Event::PrepareForSleep { now_ms: 66_000 }).unwrap();
    assert!(s.system_paused());
    m.handle_event(&mut s, Event::ResumedFromSleep { now_ms: 67_000 }).unwrap();
    assert!(!s.system_paused());
}

#[test]
fn ended_media_is_activity() {
    let (mut m, mut s) = plain(vec![step(PlanStepKind::Dpms, 5, "off")]);
    let state = |state: MediaState, now_ms: u64| Event::MediaStateChanged { state, now_ms };
    m.handle_event(&mut s, state(MediaState::PlayingLocal, 1_000)).unwrap();
    m.handle_event(&mut s, state(MediaState::Idle, 4_000)).unwrap();
    assert!(tick(&mut m, &mut s, 8_999).is_empty());
    assert_eq!(tick(&mut m, &mut s, 9_000), vec![run("off")]);
}

#[test]
fn suspends_run_what_comes_before_them() {
    let (mut m, mut s) = manager(vec![step(PlanStepKind::Suspend, 5, "sleep")], |c| {
        c.pre_suspend_command = Some("lock".to_string());
    });
    assert_eq!(tick(&mut m, &mut s, 5_000), vec![run("lock"), run("sleep")]);
}

fn with_profile() -> (Manager, State) {
    let mut default = Config::disabled();
    default.plan_desktop = vec![step(PlanStepKind::Dpms, 5, "off")];
    let mut work = PartialConfig::default();
    work.plan_desktop = Some(vec![step(PlanStepKind::Dpms, 2, "work off")]);
    let file = ConfigFile {
        default,
        profiles: vec![Profile {
            name: "work".to_string(),
            mode: ProfileMode::Overlay,
            config: work,
        }],
        active_profile: None,
    };
    (Manager::new(file), State::new(0))
}

#[test]
fn profiles_take_effect_or_are_refused() {
    let (mut m, mut s) = with_profile();
    let to = |name: &str, now_ms: u64| Event::ProfileChanged { name: name.to_string(), now_ms };
    m.handle_event(&mut s, Event::AppInhibitorCount { count: 3, now_ms: 1 }).unwrap();
    m.handle_event(&mut s, to(" work ", 1_000)).unwrap();
    assert_eq!(s.active_profile(), Some("work"));
    assert_eq!(s.app_inhibitor_count(), 0);
    assert_eq!(tick(&mut m, &mut s, 3_000), vec![run("work off")]);
    assert_eq!(
        m.handle_event(&mut s, to("nobody", 4_000)).unwrap_err(),
        Error::InvalidConfig(ConfigError::ProfileNotFound)
    );
    assert_eq!(s.active_profile(), Some("work"));
    assert_eq!(
        m.handle_event(&mut s, to("  ", 4_000)).unwrap_err(),
        Error::InvalidConfig(ConfigError::InvalidProfileName)
    );
    m.handle_event(&mut s, to("Default", 5_000)).unwrap();
    assert_eq!(s.active_profile(), None);
}

#[test]
fn states_are_shown() {
    let (mut m, mut s) = with_profile();
    let bar = m.snapshot(&s, 0).waybar;
    assert_eq!(bar.text, "waiting");
    assert_eq!(bar.alt, "idle_waiting");
    assert_eq!(bar.profile.as_deref(), Some("default"));
    m.handle_event(&mut s, Event::ManualPause { now_ms: 1 }).unwrap();
    let snap = m.snapshot(&s, 2);
    assert_eq!(snap.waybar.text, "manual");
    assert_eq!(snap.waybar.class, "manually_inhibited");
    assert!(snap.manually_paused);
    m.handle_event(&mut s, Event::ManualResume { now_ms: 3 }).unwrap();
    m.handle_event(&mut s, Event::AppInhibitorCount { count: 1, now_ms: 4 }).unwrap();
    assert_eq!(m.snapshot(&s, 5).waybar.text, "inhibited");
    m.handle_event(&mut s, Event::SessionLocked { now_ms: 6 }).unwrap();
    assert_eq!(m.snapshot(&s, 7).waybar.text, "locked");
    assert_eq!(m.snapshot(&s, 7).waybar.alt, "idle_inhibited");
}

#[test]
fn profiles_are_listed_in_order() {
    let (m, s) = with_profile();
    assert!(m.list_profiles().contains("work"));
    assert!(m.list_actions(&s).starts_with("Effective action plan:\n"));
}

#[test]
fn replies_that_nobody_asked_for_have_no_effect() {
    let mut t = DbusInhibitTracker::new();
    let m = BusMessage::Return {
        destination: Some(":1.5".to_string()),
        reply_serial: Some(9),
        number: Some(44),
        object: None,
    }
    .meaning();
    assert!(t.take(&m, false, 1).is_none());
    assert_eq!(t.total(), 0);
}

#[test]
fn cookies_hold_until_they_are_given_back() {
    let mut t = DbusInhibitTracker::new();
    t.mark_legacy_call(":1.5", 1);
    assert!(t.confirm_legacy_cookie(":1.5", 1, 7));
    assert!(!t.clear_legacy_cookie(":1.5", 8));
    assert_eq!(t.total(), 1);
    assert!(t.clear_legacy_cookie(":1.5", 7));
    assert_eq!(t.total(), 0);
}

#[test]
fn closing_waits_while_a_browser_records() {
    let mut t = DbusInhibitTracker::new();
    t.mark_portal_call(":1.5", 1);
    assert!(t.confirm_portal_handle(":1.5", 1, "/h"));
    let close = BusMessage::Call {
        sender: Some(":1.5".to_string()),
        serial: 2,
        interface: "org.freedesktop.portal.Request".to_string(),
        member: "Close".to_string(),
        path: Some("/h".to_string()),
        number: None,
    }
    .meaning();
    assert!(t.take(&close, true, 1).is_none());
    assert_eq!(t.total(), 1);
    assert!(matches!(t.take(&close, false, 2), Some(Event::BrowserInactive { now_ms: 2 })));
    assert_eq!(t.total(), 0);
}
