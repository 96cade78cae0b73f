use rune_cfg::RuneConfig;
use stasis::config::document::{parse_config_file, NO_DEFAULT};
use stasis::config::load::Loading;
use stasis::config::parse::{is_non_step_key, norm_key, parse_lid_action_from_str};
use stasis::config::pattern::{any_matches, patterns_same, regex_counts, Pattern};
use stasis::config::references::{same_tree, Asks, Docs, Kind, Test, Tree};
use stasis::config::select::merge_plan;
use stasis::config::types::{
    Config, ConfigFile, LidAction, PartialConfig, PlanSource, PlanStep, PlanStepKind, Profile,
    ProfileMode,
};
use stasis::paths::ETC_CONFIG;

fn read(text: &str) -> Result<ConfigFile, String> {
    parse_config_file(RuneConfig::from_str(text).unwrap())
}

fn step(kind: PlanStepKind, timeout: u64, cmd: &str) -> PlanStep {
    PlanStep {
        kind,
        timeout_seconds: timeout,
        command: Some(cmd.to_string()),
        resume_command: None,
        notification: None,
        notify_seconds_before: None,
    }
}

fn literal(p: &Pattern) -> &str {
    match p {
        Pattern::Literal(s) => s.as_str(),
        Pattern::Regex(_) => panic!("a regular expression"),
    }
}

fn regex(p: &Pattern) -> &str {
    match p {
        Pattern::Regex(s) => s.as_str(),
        Pattern::Literal(_) => panic!("a literal"),
    }
}

const FULL: &str = r#"
default:
  enable_loginctl true
  enable_dbus_inhibit true
  pre_suspend_command "swaylock -f"
  monitor_media true
  ignore-remote-media true
  media_blacklist [" Spotify ", "", r"^mpv$"]
  debounce_seconds 4
  notify_on_unpause true
  notify_before_action true
  inhibit_apps ["VLC"]
  lid_close_action "Suspend"
  lid_open_action "echo hi"

  brightness:
    timeout 30
    command "dim"
    resume-command "undim"
  end

  lock_screen:
    timeout 60
    command "swaylock"
    notification "locking"
    notify_seconds_before 5
  end

  my-Step:
    timeout 90
    command "custom"
  end

  note:
    comment "no step"
  end

  ac:
    dpms:
      timeout 120
      command "dpms off"
    end
  end

  battery:
    suspend:
      timeout 10
      command "systemctl suspend"
    end
  end
end

gaming:
  mode "fresh"
  monitor_media false
  pre_suspend_command null
  lid_close_action ""
  startup:
    timeout 0
    command "start"
  end
end

quiet:
  inhibit_apps []
end

theme "dark"
"#;

#[test]
fn full_file_is_read() {
    let f = read(FULL).unwrap();
    let d = &f.default;
    assert!(d.enable_loginctl);
    assert!(d.enable_dbus_inhibit);
    assert_eq!(d.pre_suspend_command.as_deref(), Some("swaylock -f"));
    assert!(d.monitor_media);
    assert!(d.ignore_remote_media);
    assert_eq!(d.debounce_seconds, 4);
    assert!(d.notify_on_unpause);
    assert!(d.notify_before_action);
    assert_eq!(d.media_blacklist.len(), 2);
    assert_eq!(literal(&d.media_blacklist[0]), "spotify");
    assert_eq!(regex(&d.media_blacklist[1]), "^mpv$");
    assert_eq!(d.inhibit_apps.len(), 1);
    assert_eq!(literal(&d.inhibit_apps[0]), "vlc");
    assert!(matches!(d.lid_close_action, Some(LidAction::Builtin(PlanStepKind::Suspend))));
    assert!(matches!(&d.lid_open_action, Some(LidAction::Command(c)) if c == "echo hi"));
    assert!(f.active_profile.is_none());
}

#[test]
fn plans_hold_their_steps_in_order() {
    let f = read(FULL).unwrap();
    let p = &f.default.plan_desktop;
    assert_eq!(p.len(), 3);
    assert_eq!(p[0].kind, PlanStepKind::Brightness);
    assert_eq!(p[0].timeout_seconds, 30);
    assert_eq!(p[0].resume_command.as_deref(), Some("undim"));
    assert_eq!(p[1].kind, PlanStepKind::LockScreen);
    assert_eq!(p[1].notification.as_deref(), Some("locking"));
    assert_eq!(p[1].notify_seconds_before, Some(5));
    assert_eq!(p[2].kind, PlanStepKind::Custom("my_step".to_string()));
    assert_eq!(f.default.plan_ac.len(), 1);
    assert_eq!(f.default.plan_ac[0].kind, PlanStepKind::Dpms);
    assert_eq!(f.default.plan_battery.len(), 1);
    assert_eq!(f.default.plan_battery[0].timeout_seconds, 10);
    assert_eq!(f.default.lock_screen.command.as_deref(), Some("swaylock"));
    assert_eq!(f.default.brightness.command.as_deref(), Some("dim"));
    assert!(f.default.dpms.command.is_none());
}

#[test]
fn profiles_are_blocks_other_than_default() {
    let f = read(FULL).unwrap();
    assert_eq!(f.profiles.len(), 2);
    assert_eq!(f.profiles[0].name, "gaming");
    assert_eq!(f.profiles[0].mode, ProfileMode::Fresh);
    let g = &f.profiles[0].config;
    assert_eq!(g.monitor_media, Some(false));
    assert_eq!(g.pre_suspend_command, Some(None));
    assert!(matches!(g.lid_close_action, Some(None)));
    assert!(g.lid_open_action.is_none());
    assert_eq!(g.plan_desktop.as_ref().unwrap().len(), 1);
    assert!(g.plan_ac.is_none());
    assert_eq!(f.profiles[1].name, "quiet");
    assert_eq!(f.profiles[1].mode, ProfileMode::Overlay);
    assert_eq!(f.profiles[1].config.inhibit_apps.as_ref().unwrap().len(), 0);
    assert!(f.profiles[1].config.monitor_media.is_none());
}

#[test]
fn missing_default_is_refused() {
    assert_eq!(read("theme \"dark\"\n").unwrap_err(), NO_DEFAULT);
    assert_eq!(NO_DEFAULT, "config must contain a `default:` block");
}

#[test]
fn references_that_lead_nowhere_leave_no_default() {
    let text = "default:\n  pre_suspend_command $var.nothing\nend\n";
    assert_eq!(read(text).unwrap_err(), NO_DEFAULT);
}

#[test]
fn empty_default_gets_the_plan_of_the_named_blocks() {
    let f = read("default:\n  monitor_media false\nend\n").unwrap();
    assert_eq!(f.default.plan_desktop.len(), 5);
    assert_eq!(f.default.plan_desktop[0].kind, PlanStepKind::Startup);
    assert_eq!(f.default.plan_desktop[4].kind, PlanStepKind::Suspend);
    assert!(f.default.plan_desktop.iter().all(|s| !s.enabled()));
}

#[test]
fn wrong_types_are_told_by_path() {
    let e = read("default:\n  dpms:\n    timeout 5\n    command 7\n  end\nend\n").unwrap_err();
    assert!(e.starts_with("config error at default.dpms.command: [RUNE] Type Error: "), "{e}");
    let e = read("default:\n  lid_open_action true\nend\n").unwrap_err();
    assert!(e.starts_with("config error at default.lid_open_action: "), "{e}");
    let e = read("default:\n  pre_suspend_command 3\nend\n").unwrap_err();
    assert!(e.starts_with("config error at default.pre_suspend_command: "), "{e}");
    let text = "default:\n  monitor_media true\nend\nwork:\n  monitor_media \"yes\"\nend\n";
    let e = read(text).unwrap_err();
    assert!(e.starts_with("config error at work.monitor_media: "), "{e}");
    let text = "default:\n  monitor_media true\nend\nwork:\n  debounce_seconds \"soon\"\nend\n";
    let e = read(text).unwrap_err();
    assert!(e.starts_with("config error at work.debounce_seconds: "), "{e}");
}

#[test]
fn wrong_types_of_knobs_under_default_count_as_unset() {
    let text = "default:\n  monitor_media \"yes\"\n  debounce_seconds true\nend\n";
    let f = read(text).unwrap();
    assert!(!f.default.monitor_media);
    assert_eq!(f.default.debounce_seconds, 0);
    let f = read("default:\n  debounce_seconds -3\nend\n").unwrap();
    assert_eq!(f.default.debounce_seconds, 0);
}

#[test]
fn lists_hold_texts_and_regular_expressions_only() {
    let e = read("default:\n  inhibit_apps [\"a\", 5]\nend\n").unwrap_err();
    assert_eq!(
        e,
        "config error at default.inhibit_apps: expected string or regex, got Number(5.0)"
    );
    let e = read("default:\n  media_blacklist \"vlc\"\nend\n").unwrap_err();
    assert_eq!(
        e,
        "config error at default.media_blacklist: expected array, got String(\"vlc\")"
    );
}

#[test]
fn lists_are_looked_up_as_they_are_written() {
    let e = read("default:\n  inhibit-apps [\"a\"]\nend\n").unwrap_err();
    assert_eq!(
        e,
        "config error at default.inhibit_apps: [RUNE] Syntax Error: Path 'default.inhibit_apps' \
         not found in configuration Hint: Check that the path exists in your config file Code: 304"
    );
}

#[test]
fn modes_are_overlay_and_fresh() {
    let with = |m: &str| format!("default:\n  monitor_media true\nend\nwork:\n  mode \"{m}\"\nend\n");
    assert_eq!(read(&with(" FRESH ")).unwrap().profiles[0].mode, ProfileMode::Fresh);
    assert_eq!(read(&with("Overlay")).unwrap().profiles[0].mode, ProfileMode::Overlay);
    assert_eq!(
        read(&with("Other")).unwrap_err(),
        "config error at work.mode: expected \"overlay\" or \"fresh\", got \"other\""
    );
}

#[test]
fn keys_are_compared_in_lower_case_with_underscores() {
    assert_eq!(norm_key("  My-Step "), "my_step");
    assert_eq!(norm_key("\u{c4}-B"), "\u{e4}_b");
    assert!(is_non_step_key("ac", true));
    assert!(!is_non_step_key("ac", false));
    assert!(is_non_step_key("enable_dbus_inhibit", false));
    assert!(!is_non_step_key("dpms", true));
}

#[test]
fn lid_actions_are_steps_or_commands() {
    assert!(parse_lid_action_from_str("   ").is_none());
    assert!(matches!(
        parse_lid_action_from_str(" DPMS "),
        Some(LidAction::Builtin(PlanStepKind::Dpms))
    ));
    assert!(matches!(
        parse_lid_action_from_str("startup"),
        Some(LidAction::Builtin(PlanStepKind::Startup))
    ));
    assert!(matches!(
        parse_lid_action_from_str("brightness"),
        Some(LidAction::Builtin(PlanStepKind::Brightness))
    ));
    match parse_lid_action_from_str(" lock_screen ") {
        Some(LidAction::Command(c)) => assert_eq!(c, "lock_screen"),
        _ => panic!("no command"),
    }
}

#[test]
fn patterns_match_parts_and_regular_expressions() {
    let v = vec![
        Pattern::Literal("fire".to_string()),
        Pattern::Regex("^mp[vx]$".to_string()),
    ];
    assert!(any_matches(&v, "firefox"));
    assert!(any_matches(&v, "mpv"));
    assert!(!any_matches(&v, "mpvy"));
    assert!(!any_matches(&vec![Pattern::Literal(String::new())], "x"));
    assert!(!any_matches(&vec![Pattern::Regex("(".to_string())], "("));
    assert!(regex_counts(Some(true)));
    assert!(!regex_counts(Some(false)));
    assert!(!regex_counts(None));
    assert!(patterns_same(&v, &v));
    assert!(!patterns_same(&v, &vec![]));
    assert_eq!(v[1].render(), "/^mp[vx]$/");
}

#[test]
fn merging_replaces_steps_of_the_same_kind_and_appends_others() {
    let mut base = vec![
        step(PlanStepKind::Dpms, 10, "a"),
        step(PlanStepKind::Suspend, 20, "b"),
    ];
    let overlay = vec![
        step(PlanStepKind::Suspend, 5, "c"),
        step(PlanStepKind::Custom("x".to_string()), 7, "d"),
    ];
    merge_plan(&mut base, &overlay);
    assert_eq!(base.len(), 3);
    assert_eq!(base[0].command.as_deref(), Some("a"));
    assert_eq!(base[1].command.as_deref(), Some("c"));
    assert_eq!(base[1].timeout_seconds, 5);
    assert_eq!(base[2].kind, PlanStepKind::Custom("x".to_string()));
}

fn file_with_profiles() -> ConfigFile {
    let mut default = Config::disabled();
    default.enable_loginctl = true;
    default.monitor_media = true;
    default.plan_desktop = vec![step(PlanStepKind::Dpms, 10, "a")];
    let mut over = PartialConfig::default();
    over.debounce_seconds = Some(9);
    let mut fresh = PartialConfig::default();
    fresh.plan_desktop = Some(vec![step(PlanStepKind::Suspend, 1, "s")]);
    ConfigFile {
        default,
        profiles: vec![
            Profile { name: "over".to_string(), mode: ProfileMode::Overlay, config: over },
            Profile { name: "fresh".to_string(), mode: ProfileMode::Fresh, config: fresh },
        ],
        active_profile: None,
    }
}

#[test]
fn overlays_keep_and_fresh_profiles_drop_the_default() {
    let f = file_with_profiles();
    let c = f.effective_for(Some("over"), PlanSource::Desktop).unwrap();
    assert_eq!(c.debounce_seconds, 9);
    assert!(c.monitor_media);
    assert_eq!(c.plan.len(), 1);
    assert_eq!(c.plan[0].command.as_deref(), Some("a"));
    let c = f.effective_for(Some("fresh"), PlanSource::Desktop).unwrap();
    assert!(!c.monitor_media);
    assert!(!c.enable_loginctl);
    assert_eq!(c.plan[0].kind, PlanStepKind::Suspend);
    assert!(f.effective_for(Some("nobody"), PlanSource::Desktop).is_none());
    assert!(f.effective_for(None, PlanSource::Battery).is_some());
}

#[test]
fn sources_without_a_plan_fall_back_to_the_desktop() {
    let mut f = file_with_profiles();
    f.default.plan_ac = vec![step(PlanStepKind::Brightness, 3, "b")];
    let c = f.effective_for(None, PlanSource::Ac).unwrap();
    assert_eq!(c.plan[0].kind, PlanStepKind::Brightness);
    let c = f.effective_for(None, PlanSource::Battery).unwrap();
    assert_eq!(c.plan[0].kind, PlanStepKind::Dpms);
}

#[test]
fn places_are_tried_in_turn() {
    let mut l = Loading::from_path("/a/x.rune", "/home/u/.config/stasis/stasis.rune");
    assert_eq!(l.next_path(), Some("/a/x.rune"));
    assert!(l.take(Err("gone \n".to_string())).is_none());
    assert_eq!(l.next_path(), Some("/home/u/.config/stasis/stasis.rune"));
    let bad = RuneConfig::from_str("x 1\n").unwrap();
    assert!(l.take(Ok(bad)).is_none());
    assert_eq!(l.next_path(), Some(ETC_CONFIG));
    let good = RuneConfig::from_str("default:\n  monitor_media true\nend\n").unwrap();
    let got = l.take(Ok(good)).unwrap();
    assert_eq!(got.path, ETC_CONFIG);
    assert!(got.cfg.default.monitor_media);
}

#[test]
fn places_are_tried_once() {
    let mut l = Loading::new(
        Some("/etc//stasis/./stasis.rune"),
        &vec![ETC_CONFIG.to_string(), "/b".to_string(), "/b/".to_string()],
    );
    assert_eq!(l.next_path(), Some("/etc//stasis/./stasis.rune"));
    assert!(l.take(Err("e1".to_string())).is_none());
    assert_eq!(l.next_path(), Some("/b"));
    assert!(l.take(Err("e2".to_string())).is_none());
    assert_eq!(l.next_path(), None);
    assert_eq!(
        l.report(),
        "failed to load config from all candidate locations:\n  \
         - /etc//stasis/./stasis.rune: failed to read: e1\n  \
         - /b: failed to read: e2"
    );
}

#[test]
fn unusable_files_are_reported_as_such() {
    let mut l = Loading::new(None, &vec!["/b".to_string()]);
    let bad = RuneConfig::from_str("x 1\n").unwrap();
    assert!(l.take(Ok(bad)).is_none());
    assert_eq!(
        l.report(),
        "failed to load config from all candidate locations:\n  \
         - /b: failed to parse: config must contain a `default:` block"
    );
}

fn ends(text: &str) -> bool {
    parse_config_file(RuneConfig::from_str(text).unwrap()).is_ok()
}

const PLAN: &str = "default:\n  dpms:\n    timeout 5\n    command \"off\"\n  end\nend\n";

fn with_plan(text: &str) -> bool {
    ends(&format!("{text}{PLAN}"))
}

#[test]
fn references_that_end_are_followed() {
    assert!(with_plan(""));
    assert!(with_plan("a \"1\"\nb a\nc b\nd [a b c]\n"));
    assert!(with_plan("a nowhere\nmode overlay\n"));
    let text = "off \"swaylock\"\ndefault:\n  dpms:\n    timeout 5\n    command off\n  end\nend\n";
    let f = parse_config_file(RuneConfig::from_str(text).unwrap()).unwrap();
    assert_eq!(f.default.plan_desktop[0].command.as_deref(), Some("swaylock"));
}

#[test]
fn references_that_lead_back_are_refused() {
    for text in [
        "a a\n",
        "a b\nb a\n",
        "a b\nb c\nc [1 a]\n",
        "a $var.a\n",
        "a \"x $var.a y\"\n",
        "a \"$a\"\n",
        "a:\n  b a\nend\n",
        "a:\n  b a.c\n  c a.b\nend\n",
        "a \"x\" with size a\n",
        "m \"x\"\na if m = \"x\" a else \"y\"\n",
    ] {
        let got = parse_config_file(RuneConfig::from_str(&format!("{text}{PLAN}")).unwrap());
        assert_eq!(got.unwrap_err(), NO_DEFAULT, "{text}");
    }
}

#[test]
fn references_behind_a_condition_count_where_it_holds() {
    assert!(with_plan("m \"x\"\na if m = \"y\" a else \"z\"\n"));
    assert!(with_plan("m \"x\"\na if m = \"x\" \"1\" else b\nb if m = \"y\" \"2\" else a\n"));
    assert!(with_plan("m -0\na if m = 0 \"1\" else a\n"));
    assert!(with_plan("a if nothing a else \"1\"\n"));
    assert!(!with_plan("m 1\na if m a else \"1\"\n"));
    assert!(with_plan("m \"x\"\nb:\n  if m = \"y\":\n    c b\n  else:\n    c 1\n  endif\nend\n"));
    assert!(!with_plan("m \"x\"\nb:\n  if m = \"x\":\n    c b\n  endif\nend\n"));
}

#[test]
fn conditions_ask_for_single_names() {
    for text in [
        "a if env.HOME \"1\" else \"2\"\n",
        "a if env.HOME = \"x\" \"1\" else \"2\"\n",
        "a if sys.os \"1\" else \"2\"\n",
        "a if $env.HOME = \"x\" \"1\" else \"2\"\n",
        "a if \"env.HOME\" = \"x\" \"1\" else \"2\"\n",
        "a:\n  if env.HOME = \"x\":\n    b 1\n  endif\nend\n",
    ] {
        assert!(RuneConfig::from_str(text).is_err(), "{text}");
    }
    assert!(with_plan("a if env \"1\" else \"2\"\n"));
}

#[test]
fn references_through_imports_are_followed() {
    let import = |text: &str| RuneConfig::from_str(text).unwrap().document().unwrap().clone();
    let mut good = RuneConfig::from_str(&format!("a other.b\n{PLAN}")).unwrap();
    good.inject_import("other".to_string(), import("b c\nc \"1\"\nd other.d\n"));
    assert!(parse_config_file(good).is_ok());
    let mut bad = RuneConfig::from_str(&format!("a other.b\n{PLAN}")).unwrap();
    bad.inject_import("other".to_string(), import("b a\n"));
    assert_eq!(parse_config_file(bad).unwrap_err(), NO_DEFAULT);
}

#[test]
fn trees_are_tested_by_themselves() {
    let text = |s: &str| Tree::Text(s.to_string());
    let name = |s: &str| Tree::Reference(vec![s.to_string()]);
    let docs = |main: Vec<(&str, Tree)>| Docs {
        main: main.into_iter().map(|(k, t)| (k.to_string(), t)).collect(),
        imports: vec![],
    };
    assert!(docs(vec![]).references_end());
    assert!(docs(vec![("a", text("x")), ("b", name("a"))]).references_end());
    assert!(!docs(vec![("a", name("b")), ("b", name("a"))]).references_end());
    assert!(docs(vec![("a", text("$var.b $var $vara.a")), ("b", text("$a"))]).references_end());
    assert!(!docs(vec![("a", text("$var.b.")), ("b", text("..$var.a-b")), ("a-b", name("a"))])
        .references_end());
    let choice = |path: &str| {
        let test = Test { path: path.to_string(), asks: Asks::Exists };
        let parts = vec![(String::new(), name("a")), (String::new(), text("x"))];
        Tree::Node(Kind::Choice(test), parts)
    };
    assert!(!docs(vec![("a", choice("env.HOME"))]).references_end());
    assert!(docs(vec![("a", choice("env.HOME.x"))]).references_end());
    assert!(!docs(vec![("a", choice("runtime.x"))]).references_end());
    assert!(!docs(vec![("a", choice("var.a"))]).references_end());
    assert!(docs(vec![("a", choice("var.b"))]).references_end());
    let d = docs(vec![("a", text("x")), ("b", name("a"))]);
    assert!(same_tree(d.look_up(&vec!["a".to_string()]).unwrap(), &text("x")));
    assert!(d.look_up(&vec!["c".to_string()]).is_none());
    assert!(same_tree(&Tree::Number(0), &Tree::Number(1 << 63)));
    assert!(!same_tree(&Tree::Number(f64::NAN.to_bits()), &Tree::Number(f64::NAN.to_bits())));
    assert!(!same_tree(&Tree::Number(1), &Tree::Number(2)));
}
