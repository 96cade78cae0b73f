//! The smaller commands: what is asked of the daemon, and what is answered.

use vstd::prelude::*;

use crate::events::Event;
use crate::text::split::{split_whitespace, words_of};
use crate::text::strings::{
    cat, ends_with, eq_ignore_case, has_suffix, opt_view, same_ignoring_case, str_eq, trim, trim_end,
    trimmed, trimmed_end, views,
};

verus! {

// ---------------------------------------------------------------------------------------------
// trigger
// ---------------------------------------------------------------------------------------------

pub const TRIGGER_HELP_MESSAGE: &'static str = "Usage:
  stasis trigger <step>

Examples:
  stasis trigger all
  stasis trigger startup
  stasis trigger dpms
  stasis trigger early-dpms
  stasis trigger brightness
  stasis trigger lock_screen
  stasis trigger suspend
  stasis trigger custom:my-step

Notes:
  - This sends a request to the running daemon.
  - The daemon decides what \u{201c}<step>\u{201d} means for the active profile/plan.
  - `all` runs every enabled non-instant step in plan order (skips timeout_seconds==0 steps).
";

/// What a `trigger` asks for.
#[derive(Debug)]
pub enum TriggerRequest {
    Help,
    MissingName,
    Step { name: String },
}

/// What stands for a [`TriggerRequest`] in contracts.
pub enum TriggerModel {
    Help,
    MissingName,
    Step { name: Seq<char> },
}

impl View for TriggerRequest {
    type V = TriggerModel;

    open spec fn view(&self) -> TriggerModel {
        match self {
            TriggerRequest::Help => TriggerModel::Help,
            TriggerRequest::MissingName => TriggerModel::MissingName,
            TriggerRequest::Step { name } => TriggerModel::Step { name: name@ },
        }
    }
}

/// What a `trigger` with these arguments asks for: everything that is given is the name.
pub open spec fn trigger_asked(args: Seq<char>) -> TriggerModel {
    let a = trimmed(args);
    if a.len() == 0 {
        TriggerModel::MissingName
    } else if same_ignoring_case(a, "help"@) || a == "-h"@ || a == "--help"@ {
        TriggerModel::Help
    } else {
        TriggerModel::Step { name: a }
    }
}

/// What a `trigger` with these arguments asks for.
pub fn plan_trigger(args: &str) -> (r: TriggerRequest)
    ensures
        r@ == trigger_asked(args@),
{
    let a = trim(args);
    if a.as_str().unicode_len() == 0 {
        TriggerRequest::MissingName
    } else if eq_ignore_case(a.as_str(), "help") || str_eq(a.as_str(), "-h") || str_eq(
        a.as_str(),
        "--help",
    ) {
        TriggerRequest::Help
    } else {
        TriggerRequest::Step { name: a }
    }
}

/// The answer to a `trigger` without a name.
pub fn missing_step_name() -> (r: String)
    ensures
        r@ == "ERROR: missing step name\n\n"@ + TRIGGER_HELP_MESSAGE@,
{
    cat("ERROR: missing step name\n\n", TRIGGER_HELP_MESSAGE)
}

/// The answer to a `trigger` that was passed on.
pub fn triggered_reply(name: &str) -> (r: String)
    ensures
        r@ == "Triggered '"@ + name@ + "'"@,
{
    let head = cat("Triggered '", name);
    cat(head.as_str(), "'")
}

// ---------------------------------------------------------------------------------------------
// profile
// ---------------------------------------------------------------------------------------------

pub const PROFILE_HELP_MESSAGE: &'static str = "Usage: stasis profile <name|none>

Switch the active profile used for config selection.

Examples:
  stasis profile desktop
  stasis profile laptop
  stasis profile none
";

/// What a `profile` asks for.
#[derive(Debug)]
pub enum ProfileRequest {
    Help,
    Usage,
    /// The profile of this name, or none.
    Switch { name: Option<String> },
}

/// What stands for a [`ProfileRequest`] in contracts.
pub enum ProfileRequestModel {
    Help,
    Usage,
    Switch { name: Option<Seq<char>> },
}

impl View for ProfileRequest {
    type V = ProfileRequestModel;

    open spec fn view(&self) -> ProfileRequestModel {
        match self {
            ProfileRequest::Help => ProfileRequestModel::Help,
            ProfileRequest::Usage => ProfileRequestModel::Usage,
            ProfileRequest::Switch { name } => ProfileRequestModel::Switch {
                name: opt_view(*name),
            },
        }
    }
}

/// What a `profile` with these arguments asks for.
pub open spec fn profile_asked(args: Seq<char>) -> ProfileRequestModel {
    let a = trimmed(args);
    let words = words_of(a);
    if a.len() == 0 || a == "help"@ || a == "-h"@ || a == "--help"@ {
        ProfileRequestModel::Help
    } else if words.len() != 1 {
        ProfileRequestModel::Usage
    } else if words[0] == "none"@ {
        ProfileRequestModel::Switch { name: None }
    } else {
        ProfileRequestModel::Switch { name: Some(words[0]) }
    }
}

/// What a `profile` with these arguments asks for.
pub fn plan_profile(args: &str) -> (r: ProfileRequest)
    ensures
        r@ == profile_asked(args@),
{
    let a = trim(args);
    if a.as_str().unicode_len() == 0 || str_eq(a.as_str(), "help") || str_eq(a.as_str(), "-h")
        || str_eq(a.as_str(), "--help") {
        return ProfileRequest::Help;
    }
    let words = split_whitespace(a.as_str());
    assert(views(words@).len() == words@.len());
    if words.len() != 1 {
        return ProfileRequest::Usage;
    }
    assert(views(words@)[0] == words@[0]@);
    if str_eq(words[0].as_str(), "none") {
        ProfileRequest::Switch { name: None }
    } else {
        ProfileRequest::Switch { name: Some(words[0].clone()) }
    }
}

/// What the daemon answered, as words.
pub open spec fn answer_words(r: Result<Seq<char>, Seq<char>>) -> Seq<char> {
    match r {
        Ok(m) => m,
        Err(e) => "ERROR: "@ + e,
    }
}

/// What stands for an answer of the daemon in contracts.
pub open spec fn reply_view(r: Result<String, String>) -> Result<Seq<char>, Seq<char>> {
    match r {
        Ok(m) => Ok(m@),
        Err(e) => Err(e@),
    }
}

/// What the daemon answered, as words.
pub fn answer_reply(r: &Result<String, String>) -> (words: String)
    ensures
        words@ == answer_words(reply_view(*r)),
{
    match r {
        Ok(m) => m.clone(),
        Err(e) => cat("ERROR: ", e.as_str()),
    }
}

// ---------------------------------------------------------------------------------------------
// stop
// ---------------------------------------------------------------------------------------------

/// The answer to a `stop`: what the daemon said, or words for it if it said nothing.
pub open spec fn stop_words(r: Result<Seq<char>, Seq<char>>) -> Seq<char> {
    match r {
        Ok(m) => if trimmed_end(m).len() == 0 {
            "Stopping Stasis daemon"@
        } else {
            trimmed_end(m)
        },
        Err(e) => if trimmed_end(e).len() == 0 {
            "ERROR: stop failed"@
        } else {
            "ERROR: "@ + trimmed_end(e)
        },
    }
}

/// The answer to a `stop`.
pub fn stop_reply(r: &Result<String, String>) -> (words: String)
    ensures
        words@ == stop_words(reply_view(*r)),
{
    match r {
        Ok(m) => {
            let out = trim_end(m.as_str());
            if out.as_str().unicode_len() == 0 {
                String::from_str("Stopping Stasis daemon")
            } else {
                out
            }
        },
        Err(e) => {
            let out = trim_end(e.as_str());
            if out.as_str().unicode_len() == 0 {
                String::from_str("ERROR: stop failed")
            } else {
                cat("ERROR: ", out.as_str())
            }
        },
    }
}

// ---------------------------------------------------------------------------------------------
// list
// ---------------------------------------------------------------------------------------------

pub const LIST_HELP_MESSAGE: &'static str = "Usage:
  stasis list actions
  stasis list profiles

Notes:
  - `actions` shows the currently effective plan (profile + power source).
  - `profiles` shows all configured profile names you can switch to.
";

/// What can be listed.
#[derive(Debug, Clone, Copy, PartialEq, Eq, Structural)]
pub enum ListKind {
    Actions,
    Profiles,
}

/// What a `list` asks for.
#[derive(Debug)]
pub enum ListRequest {
    Help,
    List(ListKind),
    Unknown { reply: String },
}

/// What stands for a [`ListRequest`] in contracts.
pub enum ListModel {
    Help,
    List(ListKind),
    Unknown { reply: Seq<char> },
}

impl View for ListRequest {
    type V = ListModel;

    open spec fn view(&self) -> ListModel {
        match self {
            ListRequest::Help => ListModel::Help,
            ListRequest::List(k) => ListModel::List(*k),
            ListRequest::Unknown { reply } => ListModel::Unknown { reply: reply@ },
        }
    }
}

/// What a `list` with these arguments asks for: the first word decides.
pub open spec fn list_asked(args: Seq<char>) -> ListModel {
    let a = trimmed(args);
    let words = words_of(a);
    let sub = if words.len() > 0 {
        words[0]
    } else {
        Seq::empty()
    };
    if a.len() == 0 || same_ignoring_case(a, "help"@) || a == "-h"@ || a == "--help"@ {
        ListModel::Help
    } else if sub == "actions"@ {
        ListModel::List(ListKind::Actions)
    } else if sub == "profiles"@ {
        ListModel::List(ListKind::Profiles)
    } else if sub == "help"@ || sub == "-h"@ || sub == "--help"@ {
        ListModel::Help
    } else {
        ListModel::Unknown {
            reply: "ERROR: unknown list subcommand '"@ + sub + "'\n\n"@ + LIST_HELP_MESSAGE@,
        }
    }
}

/// What a `list` with these arguments asks for.
pub fn plan_list(args: &str) -> (r: ListRequest)
    ensures
        r@ == list_asked(args@),
{
    let a = trim(args);
    if a.as_str().unicode_len() == 0 || eq_ignore_case(a.as_str(), "help") || str_eq(
        a.as_str(),
        "-h",
    ) || str_eq(a.as_str(), "--help") {
        return ListRequest::Help;
    }
    let words = split_whitespace(a.as_str());
    assert(views(words@).len() == words@.len());
    let sub = if words.len() > 0 {
        assert(views(words@)[0] == words@[0]@);
        words[0].clone()
    } else {
        let none = String::new();
        assert(none@ =~= Seq::<char>::empty());
        none
    };
    if str_eq(sub.as_str(), "actions") {
        ListRequest::List(ListKind::Actions)
    } else if str_eq(sub.as_str(), "profiles") {
        ListRequest::List(ListKind::Profiles)
    } else if str_eq(sub.as_str(), "help") || str_eq(sub.as_str(), "-h") || str_eq(
        sub.as_str(),
        "--help",
    ) {
        ListRequest::Help
    } else {
        let mut reply = String::from_str("ERROR: unknown list subcommand '");
        reply.append(sub.as_str());
        reply.append("'\n\n");
        reply.append(LIST_HELP_MESSAGE);
        ListRequest::Unknown { reply }
    }
}

/// The answer to a `list`, with a line feed at its end.
pub open spec fn list_words(r: Result<Seq<char>, Seq<char>>) -> Seq<char> {
    match r {
        Ok(s) => if has_suffix(s, "\n"@) {
            s
        } else {
            s + "\n"@
        },
        Err(e) => "ERROR: "@ + e + "\n"@,
    }
}

/// The answer to a `list`.
pub fn list_reply(r: &Result<String, String>) -> (words: String)
    ensures
        words@ == list_words(reply_view(*r)),
{
    match r {
        Ok(s) => if ends_with(s.as_str(), "\n") {
            s.clone()
        } else {
            cat(s.as_str(), "\n")
        },
        Err(e) => {
            let head = cat("ERROR: ", e.as_str());
            cat(head.as_str(), "\n")
        },
    }
}

// ---------------------------------------------------------------------------------------------
// toggle-inhibit
// ---------------------------------------------------------------------------------------------

/// The event of a `toggle-inhibit`: a manual pause ends, and otherwise one begins.
pub fn toggle_event(manually_paused: bool, now_ms: u64) -> (r: Event)
    ensures
        r == (if manually_paused {
            Event::ManualResume { now_ms }
        } else {
            Event::ManualPause { now_ms }
        }),
{
    if manually_paused {
        Event::ManualResume { now_ms }
    } else {
        Event::ManualPause { now_ms }
    }
}

/// The answer to a `toggle-inhibit`.
pub fn toggle_reply(manually_paused: bool) -> (r: &'static str)
    ensures
        r@ == (if manually_paused {
            "Idle timers resumed"@
        } else {
            "Idle timers paused"@
        }),
{
    if manually_paused {
        "Idle timers resumed"
    } else {
        "Idle timers paused"
    }
}

// ---------------------------------------------------------------------------------------------
// browser-activity
// ---------------------------------------------------------------------------------------------

/// What a client reads when the daemon takes no more events.
pub const CHANNEL_CLOSED: &'static str = "ERROR: daemon event channel closed";

/// The answer to a `browser-activity`, after its event was sent or could not be.
pub fn browser_activity_reply(sent: bool) -> (r: &'static str)
    ensures
        r@ == (if sent {
            "OK"@
        } else {
            CHANNEL_CLOSED@
        }),
{
    if sent {
        "OK"
    } else {
        CHANNEL_CLOSED
    }
}

} // verus!
