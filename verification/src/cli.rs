//! The command line, and the requests that it makes to the daemon.

use vstd::prelude::*;

use crate::ipc::router::{args_of, is_command, routed, RouteModel};
use crate::text::chars::is_white;
use crate::text::split::{words_of_one, words_of_two};
use crate::text::strings::{
    cat, has_prefix, join, joined, trimmed, trimmed_end, trimmed_start, views,
};

verus! {

/// What the program was started with.
#[derive(Debug)]
pub struct Args {
    pub config: Option<String>,
    pub verbose: bool,
    pub no_console: bool,
    pub timestamps: bool,
    pub command: Option<Command>,
}

/// A command to a running daemon.
#[derive(Debug)]
#[allow(inconsistent_fields)]
pub enum Command {
    /// Reload the configuration without restarting Stasis
    Reload,
    /// Pause timers indefinitely, for a duration, or until a time
    Pause { args: Vec<String> },
    /// Resume timers after a pause
    Resume,
    /// List actions or profiles
    List { args: Vec<String> },
    /// Manually trigger an idle action by name
    Trigger { step: String },
    /// Toggle manual idle inhibition
    ToggleInhibit,
    /// Stop all running Stasis instances
    Stop,
    /// Display current session information
    Info { json: bool },
    /// Dump recent log lines
    Dump { args: Vec<String> },
    /// Switch profile or return to base config
    Profile { args: Vec<String> },
}

/// What stands for a [`Command`] in contracts.
#[allow(inconsistent_fields)]
pub enum CommandModel {
    Reload,
    Pause { args: Seq<Seq<char>> },
    Resume,
    List { args: Seq<Seq<char>> },
    Trigger { step: Seq<char> },
    ToggleInhibit,
    Stop,
    Info { json: bool },
    Dump { args: Seq<Seq<char>> },
    Profile { args: Seq<Seq<char>> },
}

impl View for Command {
    type V = CommandModel;

    open spec fn view(&self) -> CommandModel {
        match self {
            Command::Reload => CommandModel::Reload,
            Command::Pause { args } => CommandModel::Pause { args: views(args@) },
            Command::Resume => CommandModel::Resume,
            Command::List { args } => CommandModel::List { args: views(args@) },
            Command::Trigger { step } => CommandModel::Trigger { step: step@ },
            Command::ToggleInhibit => CommandModel::ToggleInhibit,
            Command::Stop => CommandModel::Stop,
            Command::Info { json } => CommandModel::Info { json: *json },
            Command::Dump { args } => CommandModel::Dump { args: views(args@) },
            Command::Profile { args } => CommandModel::Profile { args: views(args@) },
        }
    }
}

/// A command's name with its arguments.
pub open spec fn with_args(name: Seq<char>, args: Seq<Seq<char>>) -> Seq<char> {
    name + " "@ + joined(args, " "@)
}

impl CommandModel {
    /// The request that asks the daemon for the command.
    pub open spec fn request(self) -> Seq<char> {
        match self {
            CommandModel::Reload => "reload"@,
            CommandModel::Pause { args } => with_args("pause"@, args),
            CommandModel::Resume => "resume"@,
            CommandModel::List { args } => with_args("list"@, args),
            CommandModel::Trigger { step } => "trigger"@ + " "@ + step,
            CommandModel::ToggleInhibit => "toggle-inhibit"@,
            CommandModel::Stop => "stop"@,
            CommandModel::Info { json } => if json {
                "info --json"@
            } else {
                "info"@
            },
            CommandModel::Dump { args } => with_args("dump"@, args),
            CommandModel::Profile { args } => with_args("profile"@, args),
        }
    }

    /// The command as the daemon sees it.
    pub open spec fn route(self) -> RouteModel {
        match self {
            CommandModel::Reload => RouteModel::Reload,
            CommandModel::Pause { args } => RouteModel::Pause { args: trimmed(joined(args, " "@)) },
            CommandModel::Resume => RouteModel::Resume,
            CommandModel::List { args } => RouteModel::List { args: trimmed(joined(args, " "@)) },
            CommandModel::Trigger { step } => RouteModel::Trigger { args: trimmed(step) },
            CommandModel::ToggleInhibit => RouteModel::ToggleInhibit,
            CommandModel::Stop => RouteModel::Stop,
            CommandModel::Info { json } => RouteModel::Info { json },
            CommandModel::Dump { args } => RouteModel::Dump { args: trimmed(joined(args, " "@)) },
            CommandModel::Profile { args } => RouteModel::Profile {
                args: trimmed(joined(args, " "@)),
            },
        }
    }
}

/// A command's name with its arguments.
fn name_with_args(name: &str, args: &Vec<String>) -> (r: String)
    ensures
        r@ == with_args(name@, views(args@)),
{
    let mut out = cat(name, " ");
    let rest = join(args, " ");
    out.append(rest.as_str());
    out
}

impl Command {
    /// The request that asks the daemon for the command.
    pub fn request(&self) -> (r: String)
        ensures
            r@ == self@.request(),
    {
        match self {
            Command::Reload => String::from_str("reload"),
            Command::Pause { args } => name_with_args("pause", args),
            Command::Resume => String::from_str("resume"),
            Command::List { args } => name_with_args("list", args),
            Command::Trigger { step } => {
                let mut out = cat("trigger", " ");
                out.append(step.as_str());
                out
            },
            Command::ToggleInhibit => String::from_str("toggle-inhibit"),
            Command::Stop => String::from_str("stop"),
            Command::Info { json } => if *json {
                String::from_str("info --json")
            } else {
                String::from_str("info")
            },
            Command::Dump { args } => name_with_args("dump", args),
            Command::Profile { args } => name_with_args("profile", args),
        }
    }
}

// ---------------------------------------------------------------------------------------------
// Laws
// ---------------------------------------------------------------------------------------------

proof fn end_trim_of_sum(a: Seq<char>, x: Seq<char>)
    ensures
        trimmed_end(a + x) == (if trimmed_end(x).len() > 0 {
            a + trimmed_end(x)
        } else {
            trimmed_end(a)
        }),
    decreases x.len(),
{
    if x.len() == 0 {
        assert(a + x =~= a);
    } else if is_white(x.last()) {
        assert((a + x).drop_last() =~= a + x.drop_last());
        end_trim_of_sum(a, x.drop_last());
    }
}

proof fn trims_commute(x: Seq<char>)
    ensures
        trimmed(trimmed_end(x)) == trimmed(x),
    decreases x.len(),
{
    if x.len() > 0 && is_white(x.last()) {
        trims_commute(x.drop_last());
        start_trim_of_push(x.drop_last(), x.last());
        assert(x =~= x.drop_last().push(x.last()));
    } else if x.len() > 0 && is_white(x[0]) {
        trims_commute(x.skip(1));
    } else {
    }
}

/// White space at the end of a text is trimmed off, whatever stands before it.
proof fn start_trim_of_push(s: Seq<char>, c: char)
    requires
        is_white(c),
    ensures
        trimmed(s.push(c)) == trimmed(s),
    decreases s.len(),
{
    if s.len() == 0 {
        assert(s.push(c).skip(1) =~= Seq::empty());
        assert(s =~= Seq::empty());
    } else if is_white(s[0]) {
        assert(s.push(c).skip(1) =~= s.skip(1).push(c));
        start_trim_of_push(s.skip(1), c);
    } else {
        assert(s.push(c).drop_last() =~= s);
    }
}

/// What stands behind a command's name and a space comes out as its arguments.
proof fn args_come_out(name: Seq<char>, x: Seq<char>)
    requires
        name.len() > 0,
        !is_white(name[0]),
        !is_white(name.last()),
    ensures
        ({
            let cmd = trimmed(name + " "@ + x);
            &&& is_command(cmd, name)
            &&& args_of(cmd, name) == trimmed(x)
        }),
{
    reveal_strlit(" ");
    let all = name + " "@ + x;
    let head = name + " "@;
    let cmd = trimmed(all);
    assert(trimmed_start(all) == all);
    end_trim_of_sum(head, x);
    assert(head.drop_last() =~= name);
    assert(trimmed_end(name) == name);
    assert(trimmed_end(head) == name);
    trims_commute(x);
    if trimmed_end(x).len() > 0 {
        let y = trimmed_end(x);
        assert(cmd == head + y);
        assert(cmd.take(head.len() as int) =~= head);
        assert(cmd.skip(name.len() as int) =~= " "@ + y);
        assert((" "@ + y).skip(1) =~= y);
        assert(trimmed(" "@ + y) == trimmed(y));
    } else {
        assert(cmd == name);
        assert(cmd.skip(name.len() as int) =~= Seq::empty());
        assert(trimmed_end(x) =~= Seq::empty());
        assert(trimmed(Seq::<char>::empty()) =~= Seq::empty());
    }
}

proof fn command_starts_with_name(cmd: Seq<char>, name: Seq<char>)
    requires
        is_command(cmd, name),
    ensures
        cmd.len() >= name.len(),
        forall|i: int| 0 <= i < name.len() ==> cmd[i] == #[trigger] name[i],
{
    reveal_strlit(" ");
    let p = name + " "@;
    if has_prefix(cmd, p) {
        assert forall|i: int| 0 <= i < name.len() implies cmd[i] == #[trigger] name[i] by {
            assert(cmd.take(p.len() as int)[i] == p[i]);
        }
    }
}

proof fn starts_apart(cmd: Seq<char>, name: Seq<char>, other: Seq<char>, i: int)
    requires
        is_command(cmd, name),
        0 <= i < name.len(),
        i < other.len(),
        name[i] != other[i],
    ensures
        !is_command(cmd, other),
        cmd != other,
{
    command_starts_with_name(cmd, name);
    if is_command(cmd, other) {
        command_starts_with_name(cmd, other);
    }
}

proof fn command_names()
    ensures
        "info"@.len() == 4,
        "info"@[0] == 'i',
        "info"@[1] == 'n',
        "info"@[2] == 'f',
        "info"@.last() == 'o',
        "pause"@.len() == 5,
        "pause"@[0] == 'p',
        "pause"@[1] == 'a',
        "pause"@[2] == 'u',
        "pause"@.last() == 'e',
        "trigger"@.len() == 7,
        "trigger"@[0] == 't',
        "trigger"@[1] == 'r',
        "trigger"@[2] == 'i',
        "trigger"@.last() == 'r',
        "dump"@.len() == 4,
        "dump"@[0] == 'd',
        "dump"@[1] == 'u',
        "dump"@[2] == 'm',
        "dump"@.last() == 'p',
        "profile"@.len() == 7,
        "profile"@[0] == 'p',
        "profile"@[1] == 'r',
        "profile"@[2] == 'o',
        "profile"@.last() == 'e',
        "list"@.len() == 4,
        "list"@[0] == 'l',
        "list"@[1] == 'i',
        "list"@[2] == 's',
        "list"@.last() == 't',
        "reload"@.len() == 6,
        "reload"@[0] == 'r',
        "reload"@[1] == 'e',
        "reload"@[2] == 'l',
        "reload"@.last() == 'd',
        "toggle-inhibit"@.len() == 14,
        "toggle-inhibit"@[0] == 't',
        "toggle-inhibit"@[1] == 'o',
        "toggle-inhibit"@[2] == 'g',
        "toggle-inhibit"@.last() == 't',
        "stop"@.len() == 4,
        "stop"@[0] == 's',
        "stop"@[1] == 't',
        "stop"@[2] == 'o',
        "stop"@.last() == 'p',
        "resume"@.len() == 6,
        "resume"@[0] == 'r',
        "resume"@[1] == 'e',
        "resume"@[2] == 's',
        "resume"@.last() == 'e',
        "browser-activity"@.len() == 16,
        "browser-activity"@[0] == 'b',
        "browser-activity"@[1] == 'r',
        "browser-activity"@[2] == 'o',
        "browser-activity"@.last() == 'y',
        "info --json"@.len() == 11,
        "info --json"@[0] == 'i',
        "info --json"@[1] == 'n',
        "info --json"@[2] == 'f',
        "info --json"@.last() == 'n',
{
    reveal_strlit("info");
    reveal_strlit("pause");
    reveal_strlit("trigger");
    reveal_strlit("dump");
    reveal_strlit("profile");
    reveal_strlit("list");
    reveal_strlit("reload");
    reveal_strlit("toggle-inhibit");
    reveal_strlit("stop");
    reveal_strlit("resume");
    reveal_strlit("browser-activity");
    reveal_strlit("info --json");
}

proof fn whole_command(name: Seq<char>)
    requires
        name.len() > 0,
        !is_white(name[0]),
        !is_white(name.last()),
    ensures
        trimmed(name) == name,
        is_command(name, name),
{
}

/// The request that a command makes is taken by the daemon for that command, with the same
/// arguments.
pub proof fn requests_reach_their_commands(c: CommandModel)
    ensures
        routed(c.request()) == c.route(),
{
    command_names();
    let cmd = trimmed(c.request());
    match c {
        CommandModel::Pause { args } => {
            args_come_out("pause"@, joined(args, " "@));
            starts_apart(cmd, "pause"@, "info"@, 0);
            starts_apart(cmd, "pause"@, "reload"@, 0);
            starts_apart(cmd, "pause"@, "toggle-inhibit"@, 0);
            starts_apart(cmd, "pause"@, "stop"@, 0);
            starts_apart(cmd, "pause"@, "resume"@, 0);
            starts_apart(cmd, "pause"@, "browser-activity"@, 0);
        },
        CommandModel::List { args } => {
            args_come_out("list"@, joined(args, " "@));
            starts_apart(cmd, "list"@, "info"@, 0);
            starts_apart(cmd, "list"@, "reload"@, 0);
            starts_apart(cmd, "list"@, "toggle-inhibit"@, 0);
            starts_apart(cmd, "list"@, "stop"@, 0);
            starts_apart(cmd, "list"@, "resume"@, 0);
            starts_apart(cmd, "list"@, "browser-activity"@, 0);
            starts_apart(cmd, "list"@, "pause"@, 0);
            starts_apart(cmd, "list"@, "trigger"@, 0);
            starts_apart(cmd, "list"@, "dump"@, 0);
            starts_apart(cmd, "list"@, "profile"@, 0);
        },
        CommandModel::Trigger { step } => {
            args_come_out("trigger"@, step);
            starts_apart(cmd, "trigger"@, "info"@, 0);
            starts_apart(cmd, "trigger"@, "reload"@, 0);
            starts_apart(cmd, "trigger"@, "toggle-inhibit"@, 1);
            starts_apart(cmd, "trigger"@, "stop"@, 0);
            starts_apart(cmd, "trigger"@, "resume"@, 0);
            starts_apart(cmd, "trigger"@, "browser-activity"@, 0);
            starts_apart(cmd, "trigger"@, "pause"@, 0);
        },
        CommandModel::Dump { args } => {
            args_come_out("dump"@, joined(args, " "@));
            starts_apart(cmd, "dump"@, "info"@, 0);
            starts_apart(cmd, "dump"@, "reload"@, 0);
            starts_apart(cmd, "dump"@, "toggle-inhibit"@, 0);
            starts_apart(cmd, "dump"@, "stop"@, 0);
            starts_apart(cmd, "dump"@, "resume"@, 0);
            starts_apart(cmd, "dump"@, "browser-activity"@, 0);
            starts_apart(cmd, "dump"@, "pause"@, 0);
            starts_apart(cmd, "dump"@, "trigger"@, 0);
        },
        CommandModel::Profile { args } => {
            args_come_out("profile"@, joined(args, " "@));
            starts_apart(cmd, "profile"@, "info"@, 0);
            starts_apart(cmd, "profile"@, "reload"@, 0);
            starts_apart(cmd, "profile"@, "toggle-inhibit"@, 0);
            starts_apart(cmd, "profile"@, "stop"@, 0);
            starts_apart(cmd, "profile"@, "resume"@, 0);
            starts_apart(cmd, "profile"@, "browser-activity"@, 0);
            starts_apart(cmd, "profile"@, "pause"@, 1);
            starts_apart(cmd, "profile"@, "trigger"@, 0);
            starts_apart(cmd, "profile"@, "dump"@, 0);
        },
        CommandModel::Reload => {
            whole_command("reload"@);
            starts_apart(cmd, "reload"@, "info"@, 0);
        },
        CommandModel::Resume => {
            whole_command("resume"@);
            starts_apart(cmd, "resume"@, "info"@, 0);
            starts_apart(cmd, "resume"@, "reload"@, 2);
            starts_apart(cmd, "resume"@, "toggle-inhibit"@, 0);
            starts_apart(cmd, "resume"@, "stop"@, 0);
        },
        CommandModel::ToggleInhibit => {
            whole_command("toggle-inhibit"@);
            starts_apart(cmd, "toggle-inhibit"@, "info"@, 0);
            starts_apart(cmd, "toggle-inhibit"@, "reload"@, 0);
        },
        CommandModel::Stop => {
            whole_command("stop"@);
            starts_apart(cmd, "stop"@, "info"@, 0);
            starts_apart(cmd, "stop"@, "reload"@, 0);
            starts_apart(cmd, "stop"@, "toggle-inhibit"@, 0);
        },
        CommandModel::Info { json } => {
            if json {
                reveal_strlit("info --json");
                reveal_strlit("--json");
                reveal_strlit("info");
                reveal_strlit(" ");
                whole_command("info --json"@);
                assert("info --json"@.take(5) =~= "info"@ + " "@);
                assert("info --json"@ =~= "info"@ + seq![' '] + "--json"@);
                words_of_two("info"@, "--json"@);
                assert(seq!["info"@, "--json"@][1] == "--json"@);
            } else {
                reveal_strlit("info");
                reveal_strlit("--json");
                whole_command("info"@);
                words_of_one("info"@);
                assert("info"@.len() != "--json"@.len());
            }
        },
    }
}

} // verus!
