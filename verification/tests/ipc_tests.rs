use stasis::cli::Command;
use stasis::events::Event;
use stasis::ipc::clock::{
    parse_clock, until_from_now, until_ms, Clock, LocalNow, Resolved, UntilError,
};
use stasis::ipc::dump::{plan_dump, tail, DumpError, DumpRequest};
use stasis::ipc::duration::{parse_duration, DurationError};
use stasis::ipc::handlers::{
    answer_reply, list_reply, missing_step_name, plan_list, plan_profile, plan_trigger, stop_reply,
    toggle_event, toggle_reply, triggered_reply, ListKind, ListRequest, ProfileRequest,
    TriggerRequest, LIST_HELP_MESSAGE, TRIGGER_HELP_MESSAGE,
};
use stasis::ipc::pause::{
    expired_for, expired_until, paused_for, paused_until, plan_pause, PauseGeneration,
    PauseRequest, PAUSE_HELP_MESSAGE,
};
use stasis::ipc::router::{offline_dump, route_command, InfoFailure, Route};

fn ms(text: &str) -> u64 {
    parse_duration(text).unwrap()
}

fn words(text: &str) -> String {
    parse_duration(text).unwrap_err().message()
}

#[test]
fn durations_add_up() {
    assert_eq!(ms("250ms"), 250);
    assert_eq!(ms("10s"), 10_000);
    assert_eq!(ms("5m"), 300_000);
    assert_eq!(ms("1h30m"), 5_400_000);
    assert_eq!(ms("1d2h3m4s"), 93_784_000);
    assert_eq!(ms(" 1H 30M "), 5_400_000);
    assert_eq!(ms("0s"), 0);
}

#[test]
fn durations_that_cannot_be_read() {
    assert_eq!(words("  "), "missing duration after 'for'");
    assert_eq!(words("1h x"), "Duration format: expected number at 'x'");
    assert_eq!(words("5"), "Duration format: missing unit (ms/s/m/h/d)");
    assert_eq!(words("5 m"), "Duration format: missing unit (ms/s/m/h/d)");
    assert_eq!(words("5Weeks"), "Duration format: unknown unit 'weeks' (ms/s/m/h/d)");
    assert_eq!(
        words("999999999999999999999999999999999999999999s"),
        "Duration format: invalid number"
    );
    assert_eq!(words("18446744073709551616ms"), "Duration too large");
    assert_eq!(words("340282366920938463463374607431768211455d"), "Duration too large");
    assert_eq!(ms("18446744073709551615ms"), u64::MAX);
    assert!(matches!(parse_duration("\u{e9}"), Err(DurationError::ExpectedNumber(s)) if s == "\u{e9}"));
}

#[test]
fn clocks_are_read() {
    assert_eq!(parse_clock("13:30"), Ok(Clock { hour: 13, minute: 30 }));
    assert_eq!(parse_clock("1:30pm"), Ok(Clock { hour: 13, minute: 30 }));
    assert_eq!(parse_clock("1:30 PM"), Ok(Clock { hour: 13, minute: 30 }));
    assert_eq!(parse_clock("12am"), Ok(Clock { hour: 0, minute: 0 }));
    assert_eq!(parse_clock("12pm"), Ok(Clock { hour: 12, minute: 0 }));
    assert_eq!(parse_clock("7"), Ok(Clock { hour: 7, minute: 0 }));
    assert_eq!(parse_clock("+7:05"), Ok(Clock { hour: 7, minute: 5 }));
}

#[test]
fn clocks_that_cannot_be_read() {
    assert_eq!(parse_clock(" "), Err(UntilError::Missing));
    assert_eq!(parse_clock("x:10"), Err(UntilError::BadHour));
    assert_eq!(parse_clock("1:x"), Err(UntilError::BadMinute));
    assert_eq!(parse_clock("noon"), Err(UntilError::BadTime));
    assert_eq!(parse_clock("1:60"), Err(UntilError::MinuteRange));
    assert_eq!(parse_clock("1:-1"), Err(UntilError::MinuteRange));
    assert_eq!(parse_clock("13pm"), Err(UntilError::HourRange12));
    assert_eq!(parse_clock("0am"), Err(UntilError::HourRange12));
    assert_eq!(parse_clock("24:00"), Err(UntilError::HourRange24));
    assert_eq!(UntilError::Missing.message(), "missing time after 'until'");
    assert_eq!(UntilError::HourRange24.message(), "Invalid time: hour must be 0..23");
    assert_eq!(UntilError::HourRange12.message(), "Invalid time: hour must be 1..12 for am/pm");
    assert_eq!(UntilError::MinuteRange.message(), "Invalid time: minute must be 0..59");
}

fn at(secs: i64, nanos: u32) -> LocalNow {
    LocalNow { year: 2026, month: 3, day: 5, secs, nanos }
}

#[test]
fn waits_end_at_the_next_such_time() {
    let today = vec![Resolved::Once(2_000)];
    let tomorrow = vec![Resolved::Once(88_400)];
    assert_eq!(until_ms(&at(1_000, 0), &today, &tomorrow), Ok(1_000_000));
    assert_eq!(until_ms(&at(1_999, 500_000_000), &today, &tomorrow), Ok(500));
    assert_eq!(until_ms(&at(2_000, 0), &today, &tomorrow), Ok(86_400_000));
    let twice = vec![Resolved::Twice(1_500, 1_400)];
    assert_eq!(until_ms(&at(1_000, 0), &twice, &tomorrow), Ok(400_000));
    let skipped = vec![Resolved::Never, Resolved::Never, Resolved::Once(1_100)];
    assert_eq!(until_ms(&at(1_000, 0), &skipped, &tomorrow), Ok(100_000));
    let never = vec![Resolved::Never];
    assert_eq!(until_ms(&at(1_000, 0), &never, &tomorrow), Err(UntilError::NoSuchTime));
    let no_date = vec![Resolved::NoDate];
    assert_eq!(until_ms(&at(1_000, 0), &no_date, &tomorrow), Err(UntilError::NoDate));
    assert_eq!(until_ms(&at(3_000, 0), &today, &no_date), Err(UntilError::NoTomorrow));
}

#[test]
fn waits_from_now_last_a_day_and_two_hours_at_most() {
    let wait = until_from_now(Clock { hour: 12, minute: 0 }).unwrap();
    assert!(wait <= 27 * 3_600_000);
    let other = until_from_now(Clock { hour: 0, minute: 0 }).unwrap();
    assert!(other <= 27 * 3_600_000);
    assert!(wait != other);
}

#[test]
fn waits_need_a_time_of_day() {
    for (hour, minute) in [(24, 0), (0, 60), (99, 99)] {
        assert_eq!(until_from_now(Clock { hour, minute }), Err(UntilError::BadTime));
    }
    assert!(until_from_now(Clock { hour: 23, minute: 59 }).is_ok());
}

#[test]
fn pauses_are_planned() {
    assert!(matches!(plan_pause(" HELP "), PauseRequest::Help));
    assert!(matches!(plan_pause("--help"), PauseRequest::Help));
    assert!(matches!(plan_pause("  "), PauseRequest::Indefinite));
    match plan_pause("for  1h 30m") {
        PauseRequest::For { text, ms } => {
            assert_eq!(text, "1h 30m");
            assert_eq!(ms, 5_400_000);
            assert_eq!(paused_for(&text), "Idle timers paused for 1h 30m");
            assert_eq!(expired_for(&text), "Resume idle manager after 1h 30m pause");
        }
        _ => panic!("no span"),
    }
    match plan_pause("until 1:30 pm") {
        PauseRequest::Until { text, clock } => {
            assert_eq!(clock, Clock { hour: 13, minute: 30 });
            assert_eq!(paused_until(&text), "Idle timers paused until 1:30 pm");
            assert_eq!(
                expired_until(&text),
                "Resume idle manager: pause-until time reached (1:30 pm)"
            );
        }
        _ => panic!("no time"),
    }
}

#[test]
fn refused_pauses_show_the_help() {
    let refused = |args: &str| match plan_pause(args) {
        PauseRequest::Refused { reply } => reply,
        _ => panic!("accepted"),
    };
    assert_eq!(
        refused("5m"),
        format!("ERROR: invalid pause syntax\n\n{PAUSE_HELP_MESSAGE}")
    );
    assert_eq!(
        refused("for"),
        format!("ERROR: invalid pause syntax\n\n{PAUSE_HELP_MESSAGE}")
    );
    assert_eq!(
        refused("for 5"),
        format!("ERROR: Duration format: missing unit (ms/s/m/h/d)\n\n{PAUSE_HELP_MESSAGE}")
    );
    assert_eq!(
        refused("until 25:00"),
        format!("ERROR: Invalid time: hour must be 0..23\n\n{PAUSE_HELP_MESSAGE}")
    );
}

#[test]
fn later_pauses_void_scheduled_resumes() {
    let mut g = PauseGeneration::new();
    let mine = g.advance();
    assert_eq!(mine, 2);
    assert!(g.is_current(mine));
    let later = g.advance();
    assert!(!g.is_current(mine));
    assert!(g.is_current(later));
}

#[test]
fn commands_are_routed() {
    assert!(matches!(route_command("  "), Route::Empty));
    assert!(matches!(route_command("info"), Route::Info { json: false }));
    assert!(matches!(route_command(" info  --json "), Route::Info { json: true }));
    assert!(matches!(route_command("information"), Route::Unknown));
    assert!(matches!(route_command("reload"), Route::Reload));
    assert!(matches!(route_command("reload now"), Route::Unknown));
    assert!(matches!(route_command("toggle-inhibit"), Route::ToggleInhibit));
    assert!(matches!(route_command("stop"), Route::Stop));
    assert!(matches!(route_command("resume"), Route::Resume));
    assert!(matches!(route_command("browser-activity"), Route::BrowserActivity));
    assert!(matches!(route_command("pause for 5m"), Route::Pause { args } if args == "for 5m"));
    assert!(matches!(route_command("trigger  dpms"), Route::Trigger { args } if args == "dpms"));
    assert!(matches!(route_command("dump 5"), Route::Dump { args } if args == "5"));
    assert!(matches!(route_command("profile none"), Route::Profile { args } if args == "none"));
    assert!(matches!(route_command("list"), Route::List { args } if args.is_empty()));
}

#[test]
fn requests_of_commands_reach_their_routes() {
    let c = Command::Pause { args: vec!["for".to_string(), "5m".to_string()] };
    assert_eq!(c.request(), "pause for 5m");
    assert!(matches!(route_command(&c.request()), Route::Pause { args } if args == "for 5m"));
    let c = Command::Info { json: true };
    assert_eq!(c.request(), "info --json");
    assert!(matches!(route_command(&c.request()), Route::Info { json: true }));
    let c = Command::Dump { args: vec![] };
    assert!(matches!(route_command(&c.request()), Route::Dump { args } if args.is_empty()));
    let c = Command::Trigger { step: " early dpms ".to_string() };
    assert!(matches!(route_command(&c.request()), Route::Trigger { args } if args == "early dpms"));
    assert_eq!(Command::ToggleInhibit.request(), "toggle-inhibit");
}

#[test]
fn dump_runs_without_the_daemon() {
    assert_eq!(offline_dump("  dump 5"), Some(" 5".to_string()));
    assert_eq!(offline_dump("info"), None);
}

#[test]
fn failures_of_info_are_told() {
    assert_eq!(InfoFailure::NotRunning.reply(false), "Stasis daemon not running");
    assert_eq!(
        InfoFailure::NotRunning.reply(true),
        r#"{"text":"","alt":"not_running","class":"not_running","tooltip":"Stasis not running","profile":null}"#
    );
    assert_eq!(InfoFailure::NoResponse.reply(false), "No response from daemon");
    assert_eq!(InfoFailure::TimedOut.reply(false), "Timed out waiting for daemon");
    assert_eq!(
        InfoFailure::EncodeFailed.reply(true),
        r#"{"text":"","alt":"not_running","class":"not_running","tooltip":"stasis: json encode failed","profile":null}"#
    );
}

#[test]
fn dumps_are_planned() {
    assert_eq!(plan_dump(""), DumpRequest::Last(100));
    assert_eq!(plan_dump(" 7 "), DumpRequest::Last(7));
    assert_eq!(plan_dump("5000"), DumpRequest::Last(2000));
    assert_eq!(plan_dump("--help"), DumpRequest::Help);
    assert_eq!(plan_dump("1 2"), DumpRequest::Refused(DumpError::Usage));
    assert_eq!(plan_dump("x"), DumpRequest::Refused(DumpError::NotANumber));
    assert_eq!(plan_dump("0"), DumpRequest::Refused(DumpError::Zero));
    assert_eq!(DumpError::Usage.message(), "ERROR: usage: stasis dump [N]");
    assert_eq!(DumpError::NotANumber.message(), "ERROR: N must be a positive integer");
    assert_eq!(DumpError::Zero.message(), "ERROR: N must be >= 1");
}

#[test]
fn tails_are_the_last_lines() {
    assert_eq!(tail("a\nb\r\nc", 2), "b\nc\n");
    assert_eq!(tail("a\nb\n", 5), "a\nb\n");
    assert_eq!(tail("", 5), "");
}

#[test]
fn handlers_plan_and_reply() {
    assert!(matches!(plan_trigger(""), TriggerRequest::MissingName));
    assert!(matches!(plan_trigger("Help"), TriggerRequest::Help));
    assert!(matches!(plan_trigger(" all "), TriggerRequest::Step { name } if name == "all"));
    assert_eq!(
        missing_step_name(),
        format!("ERROR: missing step name\n\n{TRIGGER_HELP_MESSAGE}")
    );
    assert_eq!(triggered_reply("dpms"), "Triggered 'dpms'");
    assert!(matches!(plan_profile(""), ProfileRequest::Help));
    assert!(matches!(plan_profile("a b"), ProfileRequest::Usage));
    assert!(matches!(plan_profile("none"), ProfileRequest::Switch { name: None }));
    assert!(matches!(plan_profile("work"), ProfileRequest::Switch { name: Some(n) } if n == "work"));
    assert_eq!(answer_reply(&Ok("x".to_string())), "x");
    assert_eq!(answer_reply(&Err("x".to_string())), "ERROR: x");
    assert_eq!(stop_reply(&Ok(" \n".to_string())), "Stopping Stasis daemon");
    assert_eq!(stop_reply(&Err("".to_string())), "ERROR: stop failed");
    assert_eq!(stop_reply(&Err("why\n".to_string())), "ERROR: why");
}

#[test]
fn lists_are_planned_and_end_in_a_line_feed() {
    assert!(matches!(plan_list(""), ListRequest::Help));
    assert!(matches!(plan_list("actions x"), ListRequest::List(ListKind::Actions)));
    assert!(matches!(plan_list("profiles"), ListRequest::List(ListKind::Profiles)));
    match plan_list("steps") {
        ListRequest::Unknown { reply } => assert_eq!(
            reply,
            format!("ERROR: unknown list subcommand 'steps'\n\n{LIST_HELP_MESSAGE}")
        ),
        _ => panic!("known"),
    }
    assert_eq!(list_reply(&Ok("a".to_string())), "a\n");
    assert_eq!(list_reply(&Ok("a\n".to_string())), "a\n");
    assert_eq!(list_reply(&Err("a".to_string())), "ERROR: a\n");
}

#[test]
fn toggles_resume_what_is_paused() {
    assert!(matches!(toggle_event(true, 3), Event::ManualResume { now_ms: 3 }));
    assert!(matches!(toggle_event(false, 3), Event::ManualPause { now_ms: 3 }));
    assert_eq!(toggle_reply(true), "Idle timers resumed");
    assert_eq!(toggle_reply(false), "Idle timers paused");
}

#[test]
fn browser_activity_is_answered() {
    assert_eq!(stasis::ipc::handlers::browser_activity_reply(true), "OK");
    assert_eq!(
        stasis::ipc::handlers::browser_activity_reply(false),
        "ERROR: daemon event channel closed"
    );
}
