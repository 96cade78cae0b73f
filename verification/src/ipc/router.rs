//! Which command a request is.

use vstd::prelude::*;

use crate::text::split::{split_whitespace, words_of};
use crate::text::strings::{
    has_prefix, list_has, starts_with, str_eq, strip_prefix, trim, trim_start, trimmed,
    trimmed_start,
};

verus! {

/// A request to the daemon, with its arguments as they were given.
#[derive(Debug)]
#[allow(inconsistent_fields)]
pub enum Route {
    Empty,
    Info { json: bool },
    Reload,
    ToggleInhibit,
    Stop,
    Resume,
    BrowserActivity,
    Pause { args: String },
    Trigger { args: String },
    Dump { args: String },
    Profile { args: String },
    List { args: String },
    Unknown,
}

/// What stands for a [`Route`] in contracts.
#[allow(inconsistent_fields)]
pub enum RouteModel {
    Empty,
    Info { json: bool },
    Reload,
    ToggleInhibit,
    Stop,
    Resume,
    BrowserActivity,
    Pause { args: Seq<char> },
    Trigger { args: Seq<char> },
    Dump { args: Seq<char> },
    Profile { args: Seq<char> },
    List { args: Seq<char> },
    Unknown,
}

impl View for Route {
    type V = RouteModel;

    open spec fn view(&self) -> RouteModel {
        match self {
            Route::Empty => RouteModel::Empty,
            Route::Info { json } => RouteModel::Info { json: *json },
            Route::Reload => RouteModel::Reload,
            Route::ToggleInhibit => RouteModel::ToggleInhibit,
            Route::Stop => RouteModel::Stop,
            Route::Resume => RouteModel::Resume,
            Route::BrowserActivity => RouteModel::BrowserActivity,
            Route::Pause { args } => RouteModel::Pause { args: args@ },
            Route::Trigger { args } => RouteModel::Trigger { args: args@ },
            Route::Dump { args } => RouteModel::Dump { args: args@ },
            Route::Profile { args } => RouteModel::Profile { args: args@ },
            Route::List { args } => RouteModel::List { args: args@ },
            Route::Unknown => RouteModel::Unknown,
        }
    }
}

/// The request is the command itself, or the command with arguments behind a space.
pub open spec fn is_command(cmd: Seq<char>, name: Seq<char>) -> bool {
    cmd == name || has_prefix(cmd, name + " "@)
}

/// The arguments of a command.
pub open spec fn args_of(cmd: Seq<char>, name: Seq<char>) -> Seq<char> {
    trimmed(cmd.skip(name.len() as int))
}

/// Which command a request is.
pub open spec fn routed(request: Seq<char>) -> RouteModel {
    let cmd = trimmed(request);
    if cmd.len() == 0 {
        RouteModel::Empty
    } else if is_command(cmd, "info"@) {
        RouteModel::Info { json: words_of(cmd).contains("--json"@) }
    } else if cmd == "reload"@ {
        RouteModel::Reload
    } else if cmd == "toggle-inhibit"@ {
        RouteModel::ToggleInhibit
    } else if cmd == "stop"@ {
        RouteModel::Stop
    } else if cmd == "resume"@ {
        RouteModel::Resume
    } else if cmd == "browser-activity"@ {
        RouteModel::BrowserActivity
    } else if is_command(cmd, "pause"@) {
        RouteModel::Pause { args: args_of(cmd, "pause"@) }
    } else if is_command(cmd, "trigger"@) {
        RouteModel::Trigger { args: args_of(cmd, "trigger"@) }
    } else if is_command(cmd, "dump"@) {
        RouteModel::Dump { args: args_of(cmd, "dump"@) }
    } else if is_command(cmd, "profile"@) {
        RouteModel::Profile { args: args_of(cmd, "profile"@) }
    } else if is_command(cmd, "list"@) {
        RouteModel::List { args: args_of(cmd, "list"@) }
    } else {
        RouteModel::Unknown
    }
}

/// The arguments, if the request is the command `name`. `spaced` is the name with a space.
fn command_args(cmd: &str, name: &str, spaced: &str) -> (r: Option<String>)
    requires
        spaced@ == name@ + " "@,
    ensures
        match r {
            Some(a) => is_command(cmd@, name@) && a@ == args_of(cmd@, name@),
            None => !is_command(cmd@, name@),
        },
{
    if str_eq(cmd, name) || starts_with(cmd, spaced) {
        match strip_prefix(cmd, name) {
            Some(rest) => Some(trim(rest.as_str())),
            None => {
                proof {
                    if cmd@ == name@ {
                        assert(cmd@.take(name@.len() as int) =~= name@);
                    } else {
                        let p = name@ + " "@;
                        assert(cmd@.take(name@.len() as int) =~= cmd@.take(p.len() as int).take(
                            name@.len() as int,
                        ));
                        assert(p.take(name@.len() as int) =~= name@);
                    }
                }
                None
            },
        }
    } else {
        None
    }
}

/// Which command a request is.
pub fn route_command(request: &str) -> (r: Route)
    ensures
        r@ == routed(request@),
{
    proof {
        reveal_strlit("info");
        reveal_strlit("info ");
        reveal_strlit("pause");
        reveal_strlit("pause ");
        reveal_strlit("trigger");
        reveal_strlit("trigger ");
        reveal_strlit("dump");
        reveal_strlit("dump ");
        reveal_strlit("profile");
        reveal_strlit("profile ");
        reveal_strlit("list");
        reveal_strlit("list ");
        reveal_strlit(" ");
        assert("info "@ =~= "info"@ + " "@);
        assert("pause "@ =~= "pause"@ + " "@);
        assert("trigger "@ =~= "trigger"@ + " "@);
        assert("dump "@ =~= "dump"@ + " "@);
        assert("profile "@ =~= "profile"@ + " "@);
        assert("list "@ =~= "list"@ + " "@);
    }
    let cmd = trim(request);
    let c = cmd.as_str();
    if c.unicode_len() == 0 {
        return Route::Empty;
    }
    if command_args(c, "info", "info ").is_some() {
        let words = split_whitespace(c);
        return Route::Info { json: list_has(&words, "--json") };
    }
    if str_eq(c, "reload") {
        return Route::Reload;
    }
    if str_eq(c, "toggle-inhibit") {
        return Route::ToggleInhibit;
    }
    if str_eq(c, "stop") {
        return Route::Stop;
    }
    if str_eq(c, "resume") {
        return Route::Resume;
    }
    if str_eq(c, "browser-activity") {
        return Route::BrowserActivity;
    }
    if let Some(args) = command_args(c, "pause", "pause ") {
        return Route::Pause { args };
    }
    if let Some(args) = command_args(c, "trigger", "trigger ") {
        return Route::Trigger { args };
    }
    if let Some(args) = command_args(c, "dump", "dump ") {
        return Route::Dump { args };
    }
    if let Some(args) = command_args(c, "profile", "profile ") {
        return Route::Profile { args };
    }
    if let Some(args) = command_args(c, "list", "list ") {
        return Route::List { args };
    }
    Route::Unknown
}

/// The arguments of a `dump`, which needs no daemon to be answered.
pub fn offline_dump(cmd: &str) -> (r: Option<String>)
    ensures
        match r {
            Some(rest) => has_prefix(trimmed_start(cmd@), "dump"@) && rest@ == trimmed_start(
                cmd@,
            ).skip("dump"@.len() as int),
            None => !has_prefix(trimmed_start(cmd@), "dump"@),
        },
{
    let t = trim_start(cmd);
    strip_prefix(t.as_str(), "dump")
}

// ---------------------------------------------------------------------------------------------
// info
// ---------------------------------------------------------------------------------------------

/// Why an `info` has nothing to show.
#[derive(Debug, Clone, Copy, PartialEq, Eq, Structural)]
pub enum InfoFailure {
    NotRunning,
    EncodeFailed,
    NoResponse,
    TimedOut,
}

impl InfoFailure {
    pub open spec fn words(self, json: bool) -> Seq<char> {
        match self {
            InfoFailure::NotRunning => if json {
                "{\"text\":\"\",\"alt\":\"not_running\",\"class\":\"not_running\",\"tooltip\":\"Stasis not running\",\"profile\":null}"@
            } else {
                "Stasis daemon not running"@
            },
            InfoFailure::EncodeFailed => "{\"text\":\"\",\"alt\":\"not_running\",\"class\":\"not_running\",\"tooltip\":\"stasis: json encode failed\",\"profile\":null}"@,
            InfoFailure::NoResponse => if json {
                "{\"text\":\"\",\"alt\":\"not_running\",\"class\":\"not_running\",\"tooltip\":\"No response from daemon\",\"profile\":null}"@
            } else {
                "No response from daemon"@
            },
            InfoFailure::TimedOut => if json {
                "{\"text\":\"\",\"alt\":\"not_running\",\"class\":\"not_running\",\"tooltip\":\"Timed out waiting for daemon\",\"profile\":null}"@
            } else {
                "Timed out waiting for daemon"@
            },
        }
    }

    /// The answer to an `info` that has nothing to show.
    pub fn reply(&self, json: bool) -> (r: &'static str)
        ensures
            r@ == self.words(json),
    {
        match self {
            InfoFailure::NotRunning => if json {
                "{\"text\":\"\",\"alt\":\"not_running\",\"class\":\"not_running\",\"tooltip\":\"Stasis not running\",\"profile\":null}"
            } else {
                "Stasis daemon not running"
            },
            InfoFailure::EncodeFailed => "{\"text\":\"\",\"alt\":\"not_running\",\"class\":\"not_running\",\"tooltip\":\"stasis: json encode failed\",\"profile\":null}",
            InfoFailure::NoResponse => if json {
                "{\"text\":\"\",\"alt\":\"not_running\",\"class\":\"not_running\",\"tooltip\":\"No response from daemon\",\"profile\":null}"
            } else {
                "No response from daemon"
            },
            InfoFailure::TimedOut => if json {
                "{\"text\":\"\",\"alt\":\"not_running\",\"class\":\"not_running\",\"tooltip\":\"Timed out waiting for daemon\",\"profile\":null}"
            } else {
                "Timed out waiting for daemon"
            },
        }
    }
}

} // verus!
