//! The session that the daemon runs in: one daemon for each, and only under Wayland.

use vstd::prelude::*;

use crate::paths::{join_path, joined_path};
use crate::text::strings::{cat, has_prefix, name_view, starts_with, str_eq};

verus! {

/// How the attempt to take the lock of the session went.
#[derive(Debug, Clone, Copy, PartialEq, Eq, Structural)]
pub enum Bound {
    /// The lock is held now.
    Taken,
    /// Its socket is there already.
    InUse,
    Failed,
}

/// What follows an attempt to take the lock.
#[derive(Debug, Clone, Copy, PartialEq, Eq, Structural)]
pub enum LockStep {
    /// This daemon is the one of the session.
    Held,
    /// Another daemon runs.
    Busy,
    /// The socket was left behind: it is removed, and the lock is tried once more.
    Retry,
    GiveUp,
}

/// What follows the first attempt to take the lock, by whether someone answers at its socket.
pub fn after_first_attempt(bound: Bound, answered: bool) -> (r: LockStep)
    ensures
        r == (match bound {
            Bound::Taken => LockStep::Held,
            Bound::InUse => if answered {
                LockStep::Busy
            } else {
                LockStep::Retry
            },
            Bound::Failed => LockStep::GiveUp,
        }),
{
    match bound {
        Bound::Taken => LockStep::Held,
        Bound::InUse => if answered {
            LockStep::Busy
        } else {
            LockStep::Retry
        },
        Bound::Failed => LockStep::GiveUp,
    }
}

/// What is said where another daemon runs.
pub fn already_running_text(path: &str) -> (r: String)
    ensures
        r@ == "stasis is already running (another instance holds "@ + path@ + ")"@,
{
    let mut out = cat("stasis is already running (another instance holds ", path);
    out.append(")");
    out
}

/// What is said where the lock cannot be taken.
pub fn lock_failed_text(path: &str, why: &str) -> (r: String)
    ensures
        r@ == "failed to bind instance lock "@ + path@ + ": "@ + why@,
{
    let mut out = cat("failed to bind instance lock ", path);
    out.append(": ");
    out.append(why);
    out
}

/// The compositor's socket, if the environment names one.
pub open spec fn named_socket(runtime: Seq<char>, display: Option<Seq<char>>) -> Option<Seq<char>> {
    match display {
        Some(d) => if d.len() > 0 {
            Some(joined_path(runtime, d))
        } else {
            None
        },
        None => None,
    }
}

/// The compositor's socket, if the environment names one.
pub fn wayland_socket(runtime: &str, display: Option<&str>) -> (r: Option<String>)
    ensures
        r is Some <==> named_socket(runtime@, name_view(display)) is Some,
        r matches Some(p) ==> named_socket(runtime@, name_view(display)) == Some(p@),
{
    match display {
        Some(d) => if d.unicode_len() > 0 {
            Some(join_path(runtime, d))
        } else {
            None
        },
        None => None,
    }
}

/// A file that may be a compositor's socket, by its name.
pub fn is_wayland_name(name: &str) -> (r: bool)
    ensures
        r == has_prefix(name@, "wayland-"@),
{
    starts_with(name, "wayland-")
}

/// What is said where no compositor's socket is found.
pub const NO_SOCKET: &'static str = "WAYLAND_DISPLAY is not set and no connectable wayland-* socket was found in XDG_RUNTIME_DIR";

/// The kind of session that is not told.
pub const UNSET_SESSION: &'static str = "<unset>";

/// Why the session is not one of Wayland: its own word for what it is, or else what the search
/// for a socket said.
pub open spec fn session_complaint(probe: Seq<char>, kind: Option<Seq<char>>) -> Seq<char> {
    match kind {
        Some(k) => if k != UNSET_SESSION@ && k != "wayland"@ {
            "not a wayland session: XDG_SESSION_TYPE="@ + k
        } else {
            probe
        },
        None => probe,
    }
}

/// Why the session is not one of Wayland.
pub fn complaint(probe: String, kind: Option<&str>) -> (r: String)
    ensures
        r@ == session_complaint(probe@, name_view(kind)),
{
    match kind {
        Some(k) => if !str_eq(k, UNSET_SESSION) && !str_eq(k, "wayland") {
            cat("not a wayland session: XDG_SESSION_TYPE=", k)
        } else {
            probe
        },
        None => probe,
    }
}

/// What is said where nobody answers at the compositor's socket.
pub fn no_answer_text(socket: &str, why: &str) -> (r: String)
    ensures
        r@ == "failed to connect to wayland socket "@ + socket@ + ": "@ + why@,
{
    let mut out = cat("failed to connect to wayland socket ", socket);
    out.append(": ");
    out.append(why);
    out
}

} // verus!
