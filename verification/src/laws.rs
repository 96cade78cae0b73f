//! Laws on the daemon and on what it learns of the machine.

use vstd::prelude::*;

use crate::action::ActionModel;
use crate::cli::{requests_reach_their_commands, CommandModel};
use crate::config::load::LoadedModel;
use crate::config::types::{FileModel, PlanSource};
use crate::daemon::{
    actions_of, changes_rules, reload_reply, request_answered, work_of,
    DaemonModel, RulesModel, WorkModel,
};
use crate::error::{ConfigError, Error};
use crate::events::{Event, MediaState, PowerState};
use crate::host::{chassis, on_mains, ChassisKind, SupplyModel};
use crate::ipc::router::{routed, RouteModel};
use crate::manager::machine::Handled;
use crate::paths::{counted, counts, joined_path, log_file, same_place, user_config};
use crate::session::{named_socket, session_complaint};
use crate::text::chars::is_white;
use crate::text::split::{fields_of, only, pieces_not_empty};
use crate::text::strings::{joined, lowered, trimmed};

verus! {

// ---------------------------------------------------------------------------------------------
// The machine
// ---------------------------------------------------------------------------------------------

/// A machine runs on mains exactly if one of its supplies is an adapter, by its type or its name,
/// and that one is on line.
pub proof fn mains_is_an_adapter_on_line(supplies: Seq<SupplyModel>, i: int)
    requires
        0 <= i < supplies.len(),
    ensures
        supplies[i].online == Some(seq!['1']) && supplies[i].kind == Some(
            seq!['M', 'a', 'i', 'n', 's'],
        ) ==> on_mains(supplies),
        supplies[i].online == Some(seq!['1']) && (supplies[i].name matches Some(n) && n.len() >= 2
            && n[0] == 'A' && n[1] == 'C') ==> on_mains(supplies),
        supplies[i].online == Some(seq!['1']) && (supplies[i].name matches Some(n) && n.len() >= 3
            && n[0] == 'A' && n[1] == 'D' && n[2] == 'P') ==> on_mains(supplies),
        (forall|k: int|
            0 <= k < supplies.len() ==> ((#[trigger] supplies[k]).online matches Some(t) ==> trimmed(
                t,
            ) != seq!['1'])) ==> !on_mains(supplies),
        (forall|k: int|
            0 <= k < supplies.len() ==> ((#[trigger] supplies[k]).kind matches Some(t) ==> trimmed(t)
                != seq!['M', 'a', 'i', 'n', 's']) && supplies[k].name is None) ==> !on_mains(
            supplies,
        ),
{
    reveal_strlit("1");
    reveal_strlit("Mains");
    reveal_strlit("AC");
    reveal_strlit("ADP");
    assert("1"@ =~= seq!['1']);
    assert("Mains"@ =~= seq!['M', 'a', 'i', 'n', 's']);
    let s = supplies[i];
    if s.online == Some(seq!['1']) {
        assert(trimmed(seq!['1']) == seq!['1']);
        assert(s.is_online());
        if s.kind == Some(seq!['M', 'a', 'i', 'n', 's']) {
            let t = seq!['M', 'a', 'i', 'n', 's'];
            assert(!is_white(t[0]) && !is_white(t.last()));
            assert(trimmed(t) == t);
            assert(s.feeds());
        }
        if let Some(n) = s.name {
            if n.len() >= 2 && n[0] == 'A' && n[1] == 'C' {
                assert(n.take(2) =~= "AC"@);
                assert(s.feeds());
            }
            if n.len() >= 3 && n[0] == 'A' && n[1] == 'D' && n[2] == 'P' {
                assert(n.take(3) =~= "ADP"@);
                assert(s.feeds());
            }
        }
    }
}

/// A machine whose chassis is told to be one to carry is a laptop, any other one a desktop.
pub proof fn chassis_is_told_by_its_code(code: Seq<char>)
    requires
        code.len() > 0,
        !is_white(code[0]),
        !is_white(code.last()),
    ensures
        chassis(Some(code)) == ChassisKind::Laptop <==> code == seq!['8'] || code == seq!['9']
            || code == seq!['1', '0'] || code == seq!['1', '4'] || code == seq!['3', '0'] || code
            == seq!['3', '1'] || code == seq!['3', '2'],
        chassis(None) == ChassisKind::Desktop,
{
    reveal_strlit("8");
    reveal_strlit("9");
    reveal_strlit("10");
    reveal_strlit("14");
    reveal_strlit("30");
    reveal_strlit("31");
    reveal_strlit("32");
    assert("8"@ =~= seq!['8']);
    assert("9"@ =~= seq!['9']);
    assert("10"@ =~= seq!['1', '0']);
    assert("14"@ =~= seq!['1', '4']);
    assert("30"@ =~= seq!['3', '0']);
    assert("31"@ =~= seq!['3', '1']);
    assert("32"@ =~= seq!['3', '2']);
    assert(trimmed(code) == code);
}

/// The directories of the user are those that the environment names, and else those under the
/// user's own.
pub proof fn files_lie_in_the_users_directories(dir: Seq<char>, home: Option<Seq<char>>)
    requires
        dir.len() > 0,
        dir.last() != '/',
    ensures
        user_config(Some(dir), home) == dir + "/"@ + "stasis"@ + "/"@ + "stasis.rune"@,
        user_config(None, Some(dir)) == dir + "/"@ + ".config"@ + "/"@ + "stasis"@ + "/"@
            + "stasis.rune"@,
        log_file(Some(dir), home) == Some(dir + "/"@ + "stasis"@ + "/"@ + "stasis.log"@),
        log_file(None, Some(dir)) == Some(
            dir + "/"@ + ".local"@ + "/"@ + "state"@ + "/"@ + "stasis"@ + "/"@ + "stasis.log"@,
        ),
        log_file(None, None) is None,
{
    reveal_strlit("/");
    reveal_strlit("stasis");
    reveal_strlit("stasis.rune");
    reveal_strlit("stasis.log");
    reveal_strlit(".config");
    reveal_strlit(".local");
    reveal_strlit("state");
    under(dir, "stasis"@);
    under(dir + "/"@ + "stasis"@, "stasis.rune"@);
    under(dir + "/"@ + "stasis"@, "stasis.log"@);
    let c = dir + "/"@ + ".config"@;
    under(dir, ".config"@);
    under(c, "stasis"@);
    under(c + "/"@ + "stasis"@, "stasis.rune"@);
    let l = dir + "/"@ + ".local"@;
    under(dir, ".local"@);
    under(l, "state"@);
    under(l + "/"@ + "state"@, "stasis"@);
    under(l + "/"@ + "state"@ + "/"@ + "stasis"@, "stasis.log"@);
}

/// A relative path under a directory.
proof fn under(dir: Seq<char>, name: Seq<char>)
    requires
        dir.len() > 0,
        dir.last() != '/',
        name.len() > 0,
        name[0] != '/',
    ensures
        joined_path(dir, name) == dir + "/"@ + name,
        (dir + "/"@ + name).len() > 0,
        (dir + "/"@ + name).last() == name.last(),
{
}

proof fn counted_is_of_the_first(parts: Seq<Seq<char>>, more: Seq<char>, n: nat)
    requires
        n <= parts.len(),
    ensures
        counted(parts.push(more), n) == counted(parts, n),
    decreases n,
{
    if n > 0 {
        counted_is_of_the_first(parts, more, (n - 1) as nat);
        assert(parts.push(more)[n - 1] == parts[n - 1]);
    }
}

/// A slash behind a path leads nowhere else.
pub proof fn slash_behind_leads_nowhere_else(path: Seq<char>)
    requires
        path.len() > 0,
    ensures
        same_place(path + seq!['/'], path),
{
    let s = path + seq!['/'];
    let f = fields_of(path, '/');
    assert(s.drop_last() =~= path);
    assert(fields_of(s, '/') == f.push(Seq::empty()));
    pieces_not_empty(path, only('/'));
    counted_is_of_the_first(f, Seq::empty(), f.len());
    let all = f.push(Seq::<char>::empty());
    assert(!counts(all, f.len() as int));
    assert(counted(all, all.len()) == counted(all, f.len()));
}

proof fn field_behind_a_slash(dir: Seq<char>, name: Seq<char>)
    requires
        !name.contains('/'),
    ensures
        fields_of(dir + seq!['/'] + name, '/') == fields_of(dir, '/').push(name),
    decreases name.len(),
{
    let s = dir + seq!['/'] + name;
    let f = fields_of(dir, '/');
    if name.len() == 0 {
        assert(s =~= dir + seq!['/']);
        assert(s.drop_last() =~= dir);
        assert(name =~= Seq::<char>::empty());
    } else {
        let t = name.drop_last();
        assert(!t.contains('/')) by {
            if t.contains('/') {
                let i = choose|i: int| 0 <= i < t.len() && t[i] == '/';
                assert(name[i] == '/');
            }
        }
        field_behind_a_slash(dir, t);
        assert(s.drop_last() =~= dir + seq!['/'] + t);
        assert(name.contains(name.last()));
        assert(s.last() == name.last());
        assert(t.push(name.last()) =~= name);
        assert(f.push(t).update(f.len() as int, name) =~= f.push(name));
    }
}

/// Two files of different names in a directory are two places.
pub proof fn files_of_a_directory_differ(dir: Seq<char>, a: Seq<char>, b: Seq<char>)
    requires
        dir.len() > 0,
        !a.contains('/') && !b.contains('/'),
        a.len() > 0 && b.len() > 0,
        a != seq!['.'] && b != seq!['.'],
    ensures
        same_place(dir + seq!['/'] + a, dir + seq!['/'] + b) <==> a == b,
{
    reveal_strlit(".");
    assert("."@ =~= seq!['.']);
    let f = fields_of(dir, '/');
    pieces_not_empty(dir, only('/'));
    field_behind_a_slash(dir, a);
    field_behind_a_slash(dir, b);
    counted_is_of_the_first(f, a, f.len());
    counted_is_of_the_first(f, b, f.len());
    let x = f.push(a);
    let y = f.push(b);
    let c = counted(f, f.len());
    assert(counts(x, f.len() as int) && counts(y, f.len() as int));
    assert(counted(x, x.len()) == c.push(a));
    assert(counted(y, y.len()) == c.push(b));
    assert(c.push(a).last() == a && c.push(b).last() == b);
    assert((dir + seq!['/'] + a)[0] == dir[0] && (dir + seq!['/'] + b)[0] == dir[0]);
}

/// The socket of the compositor is the one that the environment names; without a name there is
/// none. Of a session of another sort the user is told of which.
pub proof fn session_is_known_by_the_environment(
    runtime: Seq<char>,
    display: Seq<char>,
    probe: Seq<char>,
    kind: Seq<char>,
)
    requires
        runtime.len() > 0,
        runtime.last() != '/',
        display.len() > 0,
        display[0] != '/',
    ensures
        named_socket(runtime, Some(display)) == Some(runtime + "/"@ + display),
        named_socket(runtime, None) is None,
        named_socket(runtime, Some(Seq::empty())) is None,
        kind == "wayland"@ || kind == "<unset>"@ ==> session_complaint(probe, Some(kind)) == probe,
        kind != "wayland"@ && kind != "<unset>"@ ==> session_complaint(probe, Some(kind))
            == "not a wayland session: XDG_SESSION_TYPE="@ + kind,
        session_complaint(probe, None) == probe,
{
}

/// Each command of the user is the one that the daemon is asked for, with its arguments.
pub proof fn commands_ask_for_what_they_name(args: Seq<Seq<char>>, step: Seq<char>, json: bool)
    ensures
        routed(CommandModel::Reload.request()) == RouteModel::Reload,
        routed(CommandModel::Resume.request()) == RouteModel::Resume,
        routed(CommandModel::ToggleInhibit.request()) == RouteModel::ToggleInhibit,
        routed(CommandModel::Stop.request()) == RouteModel::Stop,
        routed((CommandModel::Info { json }).request()) == (RouteModel::Info { json }),
        routed((CommandModel::Trigger { step }).request()) == (RouteModel::Trigger {
            args: trimmed(step),
        }),
        routed((CommandModel::Pause { args }).request()) == (RouteModel::Pause {
            args: trimmed(joined(args, " "@)),
        }),
        routed((CommandModel::List { args }).request()) == (RouteModel::List {
            args: trimmed(joined(args, " "@)),
        }),
        routed((CommandModel::Dump { args }).request()) == (RouteModel::Dump {
            args: trimmed(joined(args, " "@)),
        }),
        routed((CommandModel::Profile { args }).request()) == (RouteModel::Profile {
            args: trimmed(joined(args, " "@)),
        }),
{
    requests_reach_their_commands(CommandModel::Reload);
    requests_reach_their_commands(CommandModel::Resume);
    requests_reach_their_commands(CommandModel::ToggleInhibit);
    requests_reach_their_commands(CommandModel::Stop);
    requests_reach_their_commands(CommandModel::Info { json });
    requests_reach_their_commands(CommandModel::Trigger { step });
    requests_reach_their_commands(CommandModel::Pause { args });
    requests_reach_their_commands(CommandModel::List { args });
    requests_reach_their_commands(CommandModel::Dump { args });
    requests_reach_their_commands(CommandModel::Profile { args });
}

// ---------------------------------------------------------------------------------------------
// The start
// ---------------------------------------------------------------------------------------------

/// A desktop starts with the plan for desktops. A laptop starts with the plan for the source of
/// power that it has.
pub proof fn daemon_starts_with_the_plan_of_its_power(
    file: FileModel,
    path: Seq<char>,
    kind: ChassisKind,
    on_ac: bool,
    now_ms: u64,
)
    ensures
        ({
            let d = DaemonModel::started(file, path, kind, on_ac, now_ms);
            &&& kind == ChassisKind::Desktop ==> d.state.plan_source == PlanSource::Desktop
                && d.state.power_state is None
            &&& kind == ChassisKind::Laptop && on_ac ==> d.state.plan_source == PlanSource::Ac
                && d.state.power_state == Some(PowerState::OnAC)
            &&& kind == ChassisKind::Laptop && !on_ac ==> d.state.plan_source
                == PlanSource::Battery && d.state.power_state == Some(PowerState::OnBattery)
            &&& d.chassis == kind
            &&& d.config_path == path
            &&& d.manager.last_media == MediaState::Idle
            &&& d.manager.file.default == file.default
            &&& d.manager.file.profiles == file.profiles
            &&& !d.state.paused
            &&& !d.state.manually_paused
            &&& !d.state.system_paused
            &&& !d.state.is_locked
            &&& d.state.app_inhibitor_count == 0
            &&& d.state.media_inhibitor_count == 0
            &&& d.state.step_index == 0
            &&& d.state.step_base_ms == now_ms
        }),
{
}

/// The daemon starts under the profile that the file asks for, if it has one of that name, and
/// otherwise under none. The rules are those of the configuration in effect.
pub proof fn daemon_starts_under_the_asked_profile(
    file: FileModel,
    path: Seq<char>,
    kind: ChassisKind,
    on_ac: bool,
    now_ms: u64,
    name: Seq<char>,
    i: int,
)
    requires
        file.active_profile == Some(name),
        trimmed(name) == name,
        name.len() > 0,
        lowered(name) != "default"@,
        lowered(name) != "none"@,
    ensures
        ({
            let d = DaemonModel::started(file, path, kind, on_ac, now_ms);
            &&& 0 <= i < file.profiles.len() && file.profiles[i].name == name
                ==> d.state.active_profile == Some(name)
            &&& (forall|k: int|
                0 <= k < file.profiles.len() ==> (#[trigger] file.profiles[k]).name != name)
                ==> d.state.active_profile is None
            &&& d.manager.effective(d.state) matches Some(c) ==> {
                &&& d.rules.inhibit_apps == c.inhibit_apps
                &&& d.rules.monitor_media == c.monitor_media
                &&& d.rules.ignore_remote_media == c.ignore_remote_media
                &&& d.rules.media_blacklist == c.media_blacklist
                &&& d.enable_loginctl == c.enable_loginctl
                &&& d.enable_dbus_inhibit == c.enable_dbus_inhibit
            }
        }),
{
    reveal_strlit("default");
    reveal_strlit("none");
    assert(lowered("default"@) =~= "default"@);
    assert(lowered("none"@) =~= "none"@);
}

// ---------------------------------------------------------------------------------------------
// Rules and complaints
// ---------------------------------------------------------------------------------------------

/// The rules that are given out next are those of the configuration in effect, one epoch on.
pub proof fn next_rules_are_those_in_effect(d: DaemonModel)
    ensures
        d.manager.file.effective(d.state.active_profile, d.state.plan_source) matches Some(c) ==> {
            let r = d.next_rules();
            &&& r.inhibit_apps == c.inhibit_apps
            &&& r.monitor_media == c.monitor_media
            &&& r.ignore_remote_media == c.ignore_remote_media
            &&& r.media_blacklist == c.media_blacklist
            &&& d.rules.epoch < u64::MAX ==> r.epoch == d.rules.epoch + 1
            &&& d.with_rules_given().rules.epoch == r.epoch
        },
{
}

/// Other rules can come into effect with another profile or another source of power, and with
/// nothing else.
pub proof fn profile_and_power_change_the_rules(e: Event)
    ensures
        changes_rules(e) <==> (e is ProfileChanged || e is PowerChanged),
{
}

/// Every failure is told, but that there is no such profile only once.
pub proof fn missing_profile_is_told_once(d: DaemonModel, h: Handled, again: Handled)
    requires
        h.result == Err::<Seq<ActionModel>, Error>(
            Error::InvalidConfig(ConfigError::ProfileNotFound),
        ),
        again.result == h.result,
    ensures
        !d.bad_profile_logged ==> d.complaint(h) == Some(
            Error::InvalidConfig(ConfigError::ProfileNotFound),
        ),
        d.after_telling(h).complaint(again) is None,
{
}

/// Every other failure is told each time, success never; and what a failure leads to is nothing.
pub proof fn failures_are_told(d: DaemonModel, h: Handled, e: Error)
    ensures
        h.result == Err::<Seq<ActionModel>, Error>(e) && e != Error::InvalidConfig(
            ConfigError::ProfileNotFound,
        ) ==> d.complaint(h) == Some(e) && d.after_telling(h).bad_profile_logged
            == d.bad_profile_logged,
        h.result is Ok ==> d.complaint(h) is None && actions_of(h) == h.result->Ok_0,
        h.result is Err ==> actions_of(h).len() == 0,
        d.after_telling(h).state == h.state,
        d.after_telling(h).manager == h.manager,
{
}

/// A request that succeeds is answered as promised, with new rules; one that fails gives its
/// failure and leaves the rules.
pub proof fn requests_are_answered(
    before: DaemonModel,
    after: DaemonModel,
    h: Handled,
    ok: Seq<char>,
    reply: Result<Seq<char>, Seq<char>>,
    rules: Option<RulesModel>,
)
    requires
        request_answered(before, after, h, ok, reply, rules),
    ensures
        h.result is Ok ==> reply == Ok::<Seq<char>, Seq<char>>(ok) && rules is Some
            && !after.bad_profile_logged,
        h.result is Err ==> reply is Err && rules is None && after.rules == before.rules,
        after.state == h.state,
        after.manager == h.manager,
{
}

/// A configuration that was loaded takes the place of the one before, and nothing else changes by
/// itself. Its path counts only where it leads elsewhere.
pub proof fn loaded_configuration_takes_the_place(d: DaemonModel, l: LoadedModel)
    ensures
        d.with_config(l).manager.file == l.cfg,
        d.with_config(l).manager.last_media == d.manager.last_media,
        d.with_config(l).state == d.state,
        d.with_config(l).rules == d.rules,
        same_place(l.path, d.config_path) ==> d.with_config(l).config_path == d.config_path,
        !same_place(l.path, d.config_path) ==> d.with_config(l).config_path == l.path,
{
}

/// The profile in effect is kept if the configuration has it, and given up if not.
pub proof fn profile_is_kept_if_it_can_be(d: DaemonModel, name: Seq<char>)
    requires
        d.state.active_profile == Some(name),
    ensures
        d.manager.file.effective(Some(name), d.state.plan_source) is Some ==> d.kept_profile()
            == name,
        d.manager.file.effective(Some(name), d.state.plan_source) is None ==> d.kept_profile()
            == "none"@,
{
}

/// A reload tells the profile that it kept.
pub proof fn reload_tells_the_profile(name: Seq<char>)
    requires
        name != "none"@,
    ensures
        reload_reply(name) == "Reloaded (profile kept: "@ + name + ")"@,
{
}

// ---------------------------------------------------------------------------------------------
// Work
// ---------------------------------------------------------------------------------------------

/// A command is run as it is written, whether it is one of a step or of a resume, and a locker is
/// started as it is written.
pub proof fn commands_run_as_written(command: Seq<char>, by_loginctl: bool)
    ensures
        work_of(ActionModel::RunCommand { command }, by_loginctl) == WorkModel::Run(command),
        work_of(ActionModel::RunResumeCommand { command }, by_loginctl) == WorkModel::Run(command),
        work_of(ActionModel::RunLockScreen { command }, by_loginctl) == (WorkModel::Lock {
            command,
            by_loginctl,
        }),
{
}

} // verus!
