use stasis::config::pattern::Pattern;
use stasis::events::{ActivityKind, Event, MediaState, PowerState};
use stasis::host::ChassisKind;
use stasis::services::app_inhibit::{
    count_hyprland, count_niri, count_processes, detect_app_backend, proc_match_key,
    should_inhibit_app_id, AppBackend, AppInhibitService, AppRules, AppWatch, ProcEntry,
};
use stasis::services::dbus::{
    lid_event, parse_browser_stream_blocks, select_session, sleep_event, BusMessage,
    DbusInhibitTracker, Meaning, SessionEntry,
};
use stasis::services::json::{says_yes, Json};
use stasis::services::media::{
    count_playing, detect_media_backend, idle_events, is_browser_text, MediaBackend, MediaRules,
    MediaService, MediaStep, MediaWatch,
};
use stasis::services::power::PowerWatch;
use stasis::services::wayland::{
    after_round, wanted_of, Round, SeatSignal, SeatWatch, Wanted, WaylandError, BOOT_DELAY_MS,
    IDLE_TIMEOUT_MS,
};

fn lits(v: &[&str]) -> Vec<Pattern> {
    v.iter().map(|s| Pattern::Literal(s.to_string())).collect()
}

fn bytes(s: &str) -> Vec<u8> {
    s.as_bytes().to_vec()
}

#[test]
fn app_backends_follow_the_compositor() {
    let niri = Some("Niri".to_string());
    let hypr = Some("x:Hyprland".to_string());
    assert_eq!(detect_app_backend(true, &niri, false), AppBackend::Hyprland);
    assert_eq!(detect_app_backend(false, &hypr, false), AppBackend::Hyprland);
    assert_eq!(detect_app_backend(false, &niri, false), AppBackend::Niri);
    assert_eq!(detect_app_backend(false, &None, true), AppBackend::Niri);
    assert_eq!(detect_app_backend(false, &None, false), AppBackend::Proc);
}

#[test]
fn app_ids_match_in_several_spellings() {
    let p = lits(&["org.videolan.vlc", "steam"]);
    assert!(should_inhibit_app_id("VLC", &p));
    assert!(should_inhibit_app_id("steam.exe", &p));
    assert!(should_inhibit_app_id("Org.VideoLAN.VLC", &p));
    assert!(!should_inhibit_app_id("steamer", &p));
    assert!(!should_inhibit_app_id("", &p));
    assert!(should_inhibit_app_id("mpv2", &vec![Pattern::Regex("^mpv".to_string())]));
    assert!(!should_inhibit_app_id("xmpv", &vec![Pattern::Regex("^mpv".to_string())]));
    assert_eq!(proc_match_key("MPV", &lits(&["mpv"])), Some("mpv".to_string()));
    assert_eq!(proc_match_key("mpvx", &lits(&["mpv"])), None);
}

#[test]
fn hyprland_windows_are_counted_by_class() {
    let out = bytes(r#"[{"class":"mpv"},{"class":"mpv"},{"class":"MPV"},{"class":"kitty"},{"pid":3}]"#);
    assert_eq!(count_hyprland(&out, &lits(&["mpv"])), Some(2));
    assert_eq!(count_hyprland(&out, &lits(&["mpv", "kitty"])), Some(3));
    assert_eq!(count_hyprland(&bytes("[]"), &lits(&["mpv"])), Some(0));
    assert_eq!(count_hyprland(&bytes("{}"), &lits(&["mpv"])), None);
    assert_eq!(count_hyprland(&bytes("no json"), &lits(&["mpv"])), None);
}

#[test]
fn niri_windows_are_counted_by_app_id() {
    let out = "Window ID 1:\n  App ID: \"mpv\"\nWindow ID 2:\n  App ID: \"mpv\"\n  App ID: \"vlc\"\n";
    assert_eq!(count_niri(out, &lits(&["mpv"])), 1);
    assert_eq!(count_niri(out, &lits(&["mpv", "vlc"])), 2);
    assert_eq!(count_niri("", &lits(&["mpv"])), 0);
}

#[test]
fn processes_are_counted_by_name() {
    let entry = |name: &str, comm: Option<&str>, line: Option<&str>| ProcEntry {
        name: name.to_string(),
        comm: comm.map(|s| s.to_string()),
        cmdline: line.map(|s| s.to_string()),
    };
    let v = vec![
        entry("1", Some("mpv\n"), None),
        entry("2", Some("MPV"), None),
        entry("3", Some("sh"), Some("vlc\0file\0")),
        entry("self", Some("mpv2"), None),
        entry("4", None, Some("")),
    ];
    assert_eq!(count_processes(&v, &lits(&["mpv"])), 1);
    assert_eq!(count_processes(&v, &lits(&["mpv", "vlc"])), 2);
    assert_eq!(count_processes(&v, &lits(&["mpv2"])), 0);
}

#[test]
fn app_counts_are_reported_when_they_change() {
    let mut s = AppInhibitService::new(&lits(&["mpv"]), AppBackend::Proc);
    assert_eq!(s.backend_name(), "proc");
    assert!(!s.begin_poll(999));
    assert!(s.begin_poll(1000));
    assert!(matches!(
        s.finish_poll(1000, Some(2)),
        Some(Event::AppInhibitorCount { count: 2, now_ms: 1000 })
    ));
    assert!(!s.begin_poll(1500));
    assert!(s.begin_poll(2000));
    assert!(s.finish_poll(2000, Some(2)).is_none());
    assert!(s.begin_poll(3000));
    assert!(s.finish_poll(3000, None).is_none());
    s.force_emit_next();
    assert!(s.begin_poll(3100));
    assert!(matches!(
        s.finish_poll(3100, None),
        Some(Event::AppInhibitorCount { count: 2, .. })
    ));
    s.reconfigure(&lits(&[]));
    assert!(s.begin_poll(3200));
    assert!(matches!(
        s.finish_poll(3200, Some(2)),
        Some(Event::AppInhibitorCount { count: 0, .. })
    ));
}

#[test]
fn short_poll_intervals_are_raised() {
    let mut s = AppInhibitService::new(&lits(&[]), AppBackend::Niri).with_poll_interval_ms(1);
    assert!(!s.begin_poll(99));
    assert!(s.begin_poll(100));
}

#[test]
fn rules_of_another_epoch_are_reported() {
    let rules = |epoch: u64| AppRules { epoch, apps: lits(&["mpv"]) };
    let (mut w, mut s) = AppWatch::start(&rules(0), AppBackend::Proc);
    assert!(s.begin_poll(1000));
    assert!(s.finish_poll(1000, Some(1)).is_some());
    w.update(&mut s, &rules(0));
    assert!(!s.begin_poll(1100));
    w.update(&mut s, &rules(1));
    assert!(s.begin_poll(1200));
    assert!(s.finish_poll(1200, Some(1)).is_some());
}

#[test]
fn json_values_say_yes_or_no() {
    assert!(says_yes("visible"));
    assert!(!says_yes("off"));
    assert!(Json::Bool(true).is_truthy());
    assert!(!Json::Null.is_truthy());
    assert!(!Json::Array(vec![]).is_truthy());
}

#[test]
fn playing_windows_are_counted() {
    let out = bytes(
        r#"[{"inhibitingIdle":true,"class":"mpv","address":"0xA"},
            {"inhibitingIdle":true,"class":"mpv","address":"0xa"},
            {"inhibitingIdle":true,"class":"firefox","address":"0xb"},
            {"inhibitingIdle":false,"class":"vlc","address":"0xc"},
            {"idleInhibitor":"on","class":"vlc","pid":7},
            {"idle_inhibit":1,"class":"Spotify"}]"#,
    );
    assert_eq!(count_playing(&out, &vec![]), Some(3));
    assert_eq!(count_playing(&out, &lits(&["spotify"])), Some(2));
    assert_eq!(count_playing(&bytes("{}"), &vec![]), None);
    assert!(is_browser_text("x librewolf y"));
    assert!(!is_browser_text("mpv"));
}

#[test]
fn media_backends_follow_the_compositor() {
    let niri = Some("niri".to_string());
    assert_eq!(detect_media_backend(true, &niri, true), MediaBackend::Hyprland);
    assert_eq!(detect_media_backend(false, &None, true), MediaBackend::Niri);
    assert_eq!(detect_media_backend(false, &niri, false), MediaBackend::Niri);
    assert_eq!(detect_media_backend(false, &None, false), MediaBackend::Nowhere);
}

#[test]
fn media_is_reported_when_it_changes() {
    let mut s = MediaService::new(false, vec![], MediaBackend::Hyprland).with_poll_interval_ms(500);
    assert!(s.begin_poll(10_000));
    let e = s.finish_poll(10_000, Some(1)).unwrap();
    assert_eq!(e.len(), 2);
    assert!(matches!(e[0], Event::MediaInhibitorCount { count: 1, now_ms: 10_000 }));
    assert!(matches!(
        e[1],
        Event::MediaStateChanged { state: MediaState::PlayingLocal, now_ms: 10_000 }
    ));
    assert!(s.begin_poll(20_000));
    assert!(s.finish_poll(20_000, Some(1)).is_none());
    assert!(s.begin_poll(30_000));
    let e = s.finish_poll(30_000, Some(0)).unwrap();
    assert!(matches!(e[1], Event::MediaStateChanged { state: MediaState::Idle, .. }));
    let idle = idle_events(5);
    assert!(matches!(idle[0], Event::MediaInhibitorCount { count: 0, now_ms: 5 }));
}

#[test]
fn media_rules_are_followed() {
    let rules = |epoch: u64, on: bool| MediaRules {
        epoch,
        monitor_media: on,
        ignore_remote_media: false,
        media_blacklist: vec![],
    };
    let mut svc = MediaService::new(false, vec![], MediaBackend::Niri);
    let (mut w, first) = MediaWatch::start(&rules(0, true));
    assert_eq!(first, MediaStep::Poll);
    assert_eq!(w.update(&mut svc, &rules(1, true)), MediaStep::Nothing);
    assert_eq!(w.update(&mut svc, &rules(2, true)), MediaStep::Poll);
    assert_eq!(w.update(&mut svc, &rules(3, false)), MediaStep::SeedIdle);
    assert_eq!(w.update(&mut svc, &rules(4, false)), MediaStep::Nothing);
    assert_eq!(w.update(&mut svc, &rules(5, true)), MediaStep::Poll);
    let (_, first) = MediaWatch::start(&rules(0, false));
    assert_eq!(first, MediaStep::SeedIdle);
}

fn call(sender: &str, serial: u32, interface: &str, member: &str) -> BusMessage {
    BusMessage::Call {
        sender: Some(sender.to_string()),
        serial,
        interface: interface.to_string(),
        member: member.to_string(),
        path: None,
        number: None,
    }
}

#[test]
fn inhibits_of_the_session_bus_begin_and_end() {
    let mut t = DbusInhibitTracker::new();
    let m = call(":1.5", 9, "org.freedesktop.ScreenSaver", "Inhibit").meaning();
    assert!(t.take(&m, false, 1).is_none());
    let m = BusMessage::Return {
        destination: Some(":1.5".to_string()),
        reply_serial: Some(9),
        number: Some(44),
        object: None,
    }
    .meaning();
    assert!(matches!(t.take(&m, false, 2), Some(Event::BrowserActivity { now_ms: 2 })));
    assert_eq!(t.total(), 1);
    let m = BusMessage::Call {
        sender: Some(":1.5".to_string()),
        serial: 10,
        interface: "org.freedesktop.ScreenSaver".to_string(),
        member: "UnInhibit".to_string(),
        path: None,
        number: Some(44),
    }
    .meaning();
    assert!(matches!(t.take(&m, false, 3), Some(Event::BrowserInactive { now_ms: 3 })));
    assert_eq!(t.total(), 0);
}

#[test]
fn departed_senders_hold_nothing() {
    let mut t = DbusInhibitTracker::new();
    t.mark_portal_call(":1.7", 1);
    t.confirm_portal_handle(":1.7", 1, "/h");
    assert_eq!(t.total(), 1);
    let m = BusMessage::Signal {
        interface: "org.freedesktop.DBus".to_string(),
        member: "NameOwnerChanged".to_string(),
        names: Some((":1.7".to_string(), ":1.7".to_string(), String::new())),
    }
    .meaning();
    assert!(matches!(t.take(&m, false, 8), Some(Event::BrowserInactive { now_ms: 8 })));
    assert_eq!(t.total(), 0);
}

#[test]
fn unknown_messages_mean_nothing() {
    let m = call(":1.5", 9, "org.freedesktop.Notifications", "Notify").meaning();
    assert!(matches!(m, Meaning::Nothing));
}

#[test]
fn streams_of_browsers_are_found() {
    let text = "Source Output #1\n\tProperties:\n\t\tapplication.name = \"Firefox\"\n";
    assert!(parse_browser_stream_blocks(text));
    let text = "Source Output #1\n\tProperties:\n\t\tapplication.name = \"Audacity\"\n";
    assert!(!parse_browser_stream_blocks(text));
}

#[test]
fn login_signals_become_events() {
    assert!(matches!(sleep_event(true, 1), Event::PrepareForSleep { now_ms: 1 }));
    assert!(matches!(sleep_event(false, 1), Event::ResumedFromSleep { now_ms: 1 }));
    let up = "org.freedesktop.UPower";
    assert!(matches!(lid_event(up, Some(true), 2), Some(Event::LidClosed { now_ms: 2 })));
    assert!(matches!(lid_event(up, Some(false), 2), Some(Event::LidOpened { now_ms: 2 })));
    assert!(lid_event(up, None, 2).is_none());
    assert!(lid_event("other", Some(true), 2).is_none());
}

#[test]
fn graphical_sessions_come_first() {
    let s = |uid: u32, seat: &str, kind: Option<&str>| SessionEntry {
        uid,
        seat: seat.to_string(),
        session_type: kind.map(|k| k.to_string()),
    };
    let v = vec![
        s(1000, "", Some("tty")),
        s(7, "seat0", Some("wayland")),
        s(1000, "seat0", Some("wayland")),
    ];
    assert_eq!(select_session(1000, &v), Some(2));
    assert_eq!(select_session(1000, &vec![s(1000, "", None)]), Some(0));
    assert_eq!(select_session(1, &v), None);
}

#[test]
fn power_changes_are_told() {
    assert!(PowerWatch::start(ChassisKind::Desktop, true, 1).is_none());
    let (mut w, e) = PowerWatch::start(ChassisKind::Laptop, true, 1).unwrap();
    assert!(matches!(e, Event::PowerChanged { state: PowerState::OnAC, now_ms: 1 }));
    assert!(w.poll(true, 2).is_none());
    assert!(matches!(
        w.poll(false, 3),
        Some(Event::PowerChanged { state: PowerState::OnBattery, now_ms: 3 })
    ));
    assert!(w.poll(false, 4).is_none());
}

#[test]
fn seats_tell_of_input_and_idleness() {
    let mut w = SeatWatch::new();
    assert!(matches!(w.bootstrap(1), Some(Event::CompositorIdled { now_ms: 1 })));
    let e = w.take(SeatSignal::Key, 2);
    assert_eq!(e.len(), 1);
    assert!(matches!(e[0], Event::UserActivity { kind: ActivityKind::Any, now_ms: 2 }));
    assert!(w.bootstrap(3).is_some());
    assert!(w.take(SeatSignal::Other, 3).is_empty());
    let e = w.take(SeatSignal::Resumed, 4);
    assert_eq!(e.len(), 2);
    assert!(matches!(e[0], Event::CompositorResumed { now_ms: 4 }));
    assert!(matches!(e[1], Event::UserActivity { .. }));
    assert!(w.bootstrap(5).is_none());
    let e = w.take(SeatSignal::Idled, 6);
    assert!(matches!(e[0], Event::CompositorIdled { now_ms: 6 }));
    assert_eq!(BOOT_DELAY_MS, IDLE_TIMEOUT_MS as u64 + 150);
}

#[test]
fn globals_are_picked_by_interface() {
    assert_eq!(wanted_of("ext_idle_notifier_v1"), Wanted::IdleNotifier);
    assert_eq!(wanted_of("wl_seat"), Wanted::Seat);
    assert_eq!(wanted_of("wl_output"), Wanted::Nothing);
    assert_eq!(after_round(Round::Done), None);
    assert_eq!(after_round(Round::Failed), Some(true));
    assert_eq!(after_round(Round::StopAsked), Some(false));
    assert_eq!(
        WaylandError::Connect("x".to_string()).message(),
        "wayland connect failed: x"
    );
    assert_eq!(
        WaylandError::Roundtrip("y".to_string()).message(),
        "wayland roundtrip failed: y"
    );
}
