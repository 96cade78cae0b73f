use rune_cfg::RuneConfig;
use stasis::config::document::parse_config_file;
use stasis::migrate::emit::emit_new;
use stasis::migrate::legacy::{parse_old, Line, OldBlock, OldFile};
use stasis::migrate::{
    backup_name, looks_like_new_with_moved_keys, looks_like_old_config, migrate_text,
};

const OLD: &str = r#"@author "me"
# a comment
stasis:
  pre_suspend_command "lock"
  monitor-media true
  notify-before-command true
  respect_idle_inhibitors true
  listen-browser-dbus-inhibit true
  lock_screen:
    timeout 300
    command "loginctl lock-session"
    lock-command "swaylock"
    use_loginctl true
  end
  custom-dim-now:
    timeout 60
    command "dim"
    resume-command "undim"
    extra-key 5
  end
  on_ac:
    dpms:
      timeout 600
      command "dpms off"
    end
  end
end
profiles:
  work:
    monitor-media false
    suspend:
      timeout 900
      command "systemctl suspend"
      notification "sleeping"
      notify-seconds-before 10
    end
  end
end
"#;

const NEW: &str = r#"@author "me"

default:
  enable_loginctl true
  pre_suspend_command "lock"
  monitor_media true
  notify_before_action true
  enable_dbus_inhibit true
  lock_screen:
    timeout 300
    command "swaylock"
  end
  custom_dim_now:
    extra_key 5
    timeout 60
    command "dim"
    resume_command "undim"
  end

  ac:
    dpms:
      timeout 600
      command "dpms off"
    end
  end
end

work:
  mode "overlay"
  monitor_media false
  suspend:
    timeout 900
    command "systemctl suspend"
    notification "sleeping"
    notify_seconds_before 10
  end
end

"#;

#[test]
fn files_of_earlier_releases_are_rewritten() {
    assert!(looks_like_old_config(OLD));
    assert_eq!(migrate_text(OLD).unwrap().unwrap(), NEW);
}

#[test]
fn rewritten_files_are_left_alone_and_can_be_read() {
    assert!(!looks_like_old_config(NEW));
    assert_eq!(migrate_text(NEW), Ok(None));
    let f = parse_config_file(RuneConfig::from_str(NEW).unwrap()).unwrap();
    assert!(f.default.enable_loginctl);
    assert!(f.default.enable_dbus_inhibit);
    assert_eq!(f.default.plan_desktop.len(), 2);
    assert_eq!(f.default.plan_ac.len(), 1);
    assert_eq!(f.profiles.len(), 1);
    assert_eq!(f.profiles[0].name, "work");
}

#[test]
fn lockers_that_are_missing_are_marked() {
    let old = "stasis:\n  lock-screen:\n    command \"loginctl lock-session\"\n  end\nend\n";
    assert_eq!(
        migrate_text(old).unwrap().unwrap(),
        "default:\n  enable_loginctl true\n  lock_screen:\n    \
         # TODO: lock_screen.command missing (was loginctl lock-session)\n  end\nend\n\n"
    );
}

#[test]
fn lines_that_cannot_be_read_are_told() {
    assert_eq!(
        migrate_text("stasis:\n  nonsense\nend\n"),
        Err("parse old config: cannot parse line: nonsense".to_string())
    );
}

#[test]
fn moved_keys_are_rewritten() {
    let text = "default:\n  listen_browser_dbus_inhibit false\n  lock_screen:\n    use_loginctl TRUE\n    timeout 5\n  end\nend";
    assert!(looks_like_new_with_moved_keys(text));
    let now = migrate_text(text).unwrap().unwrap();
    assert_eq!(
        now,
        "default:\n  enable_loginctl true\n  enable_dbus_inhibit false\n  lock_screen:\n    timeout 5\n  end\nend\n"
    );
    assert!(!looks_like_new_with_moved_keys(&now));
    assert_eq!(migrate_text(&now), Ok(None));
}

#[test]
fn moved_keys_that_are_off_are_dropped() {
    let text = "default:\n  enable_loginctl false\n  use_loginctl true\nend\n";
    assert_eq!(
        migrate_text(text).unwrap().unwrap(),
        "default:\n  enable_loginctl false\nend\n"
    );
    let text = "default:\n  use_loginctl false\nend\n";
    assert_eq!(migrate_text(text).unwrap().unwrap(), "default:\nend\n");
}

#[test]
fn current_files_are_left_alone() {
    assert_eq!(migrate_text("default:\n  monitor_media true\nend\n"), Ok(None));
    assert_eq!(migrate_text(""), Ok(None));
}

#[test]
fn backups_lie_beside_the_file() {
    assert_eq!(backup_name("/a/stasis.rune"), "/a/stasis.rune.bak");
}

#[test]
fn lines_that_cannot_be_read_are_named() {
    assert_eq!(
        parse_old("stasis:\n  nonsense \nend\nmore\n").unwrap_err(),
        "cannot parse line: nonsense"
    );
    assert!(parse_old("").is_ok());
}

#[test]
fn keys_with_dashes_are_written_with_underscores() {
    let line = |key: &str, value: &str| Line {
        key: key.to_string(),
        raw_value: value.to_string(),
    };
    let f = OldFile {
        meta_lines: vec![],
        globals: vec![],
        stasis_globals: vec![line("debounce-seconds", "4"), line("notify-seconds-before", "2")],
        blocks: vec![OldBlock {
            name: "dpms".to_string(),
            lines: vec![
                line("resume-command", "\"on\""),
                line("notify-seconds-before", "3"),
                line("some-key", "1"),
                line("resume_command", "\"wake\""),
            ],
        }],
        on_ac: vec![],
        on_battery: vec![],
        profiles: vec![],
    };
    assert_eq!(
        emit_new(&f),
        "default:\n  debounce_seconds 4\n  notify_seconds_before 2\n  dpms:\n    some_key 1\n    \
         resume_command \"wake\"\n    notify_seconds_before 3\n  end\nend\n\n"
    );
}
