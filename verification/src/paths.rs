//! Where the files of the daemon lie.
//!
//! A path is held as text. What the environment says comes in as arguments.

use vstd::prelude::*;

use crate::text::split::{fields_of, split_char};
use crate::text::strings::{cat, name_view, str_eq, views};

verus! {

/// The configuration that is used where the user has none.
pub const ETC_CONFIG: &'static str = "/etc/stasis/stasis.rune";

/// What is said where the directory of the session is not known.
pub const NO_RUNTIME_DIR: &'static str = "XDG_RUNTIME_DIR is not set";

/// A path put under a directory. One that is absolute stands alone.
pub open spec fn joined_path(dir: Seq<char>, name: Seq<char>) -> Seq<char> {
    if dir.len() == 0 || (name.len() > 0 && name[0] == '/') {
        name
    } else if dir.last() == '/' {
        dir + name
    } else {
        dir + "/"@ + name
    }
}

/// A part of a path that leads somewhere: neither empty nor the place itself. Only at the start
/// of a relative path does `.` count.
pub open spec fn counts(parts: Seq<Seq<char>>, i: int) -> bool {
    parts[i].len() > 0 && (i == 0 || parts[i] != "."@)
}

/// The first parts of a path that count.
pub open spec fn counted(parts: Seq<Seq<char>>, n: nat) -> Seq<Seq<char>>
    decreases n,
{
    if n == 0 {
        Seq::empty()
    } else if counts(parts, n - 1) {
        counted(parts, (n - 1) as nat).push(parts[n - 1])
    } else {
        counted(parts, (n - 1) as nat)
    }
}

/// The parts of a path that count.
pub open spec fn path_parts(path: Seq<char>) -> Seq<Seq<char>> {
    counted(fields_of(path, '/'), fields_of(path, '/').len())
}

/// A path that starts at the root.
pub open spec fn is_absolute(path: Seq<char>) -> bool {
    path.len() > 0 && path[0] == '/'
}

/// Two paths that lead to the same place by their parts.
pub open spec fn same_place(a: Seq<char>, b: Seq<char>) -> bool {
    is_absolute(a) == is_absolute(b) && path_parts(a) == path_parts(b)
}

/// The file of a name in the daemon's directory under another.
pub open spec fn own_file(base: Seq<char>, name: Seq<char>) -> Seq<char> {
    joined_path(joined_path(base, "stasis"@), name)
}

/// The directory in which the user keeps configurations.
pub open spec fn config_home(xdg: Option<Seq<char>>, home: Option<Seq<char>>) -> Seq<char> {
    match xdg {
        Some(dir) => dir,
        None => match home {
            Some(dir) => joined_path(dir, ".config"@),
            None => joined_path("."@, ".config"@),
        },
    }
}

/// Where the user's configuration lies.
pub open spec fn user_config(xdg: Option<Seq<char>>, home: Option<Seq<char>>) -> Seq<char> {
    own_file(config_home(xdg, home), "stasis.rune"@)
}

/// Where the log lies, if the user's directory is known.
pub open spec fn log_file(state: Option<Seq<char>>, home: Option<Seq<char>>) -> Option<Seq<char>> {
    match state {
        Some(dir) => Some(own_file(dir, "stasis.log"@)),
        None => match home {
            Some(dir) => Some(
                own_file(joined_path(joined_path(dir, ".local"@), "state"@), "stasis.log"@),
            ),
            None => None,
        },
    }
}

/// A path put under a directory.
pub fn join_path(dir: &str, name: &str) -> (r: String)
    ensures
        r@ == joined_path(dir@, name@),
{
    let d = dir.unicode_len();
    let n = name.unicode_len();
    if d == 0 {
        return String::from_str(name);
    }
    if n > 0 && name.get_char(0) == '/' {
        return String::from_str(name);
    }
    if dir.get_char(d - 1) == '/' {
        return cat(dir, name);
    }
    let mut out = cat(dir, "/");
    out.append(name);
    out
}

/// The parts of a path that count.
fn parts_of(path: &str) -> (r: Vec<String>)
    ensures
        views(r@) == path_parts(path@),
{
    let fields = split_char(path, '/');
    let ghost all = fields_of(path@, '/');
    let mut out: Vec<String> = Vec::new();
    assert(views(out@) =~= Seq::<Seq<char>>::empty());
    for i in 0..fields.len()
        invariant
            all == views(fields@),
            views(out@) == counted(all, i as nat),
    {
        assert(all[i as int] == fields@[i as int]@);
        let ghost before = out@;
        if fields[i].as_str().unicode_len() > 0 && (i == 0 || !str_eq(fields[i].as_str(), ".")) {
            let part = fields[i].clone();
            out.push(part);
            assert(views(out@) =~= views(before).push(part@));
        }
    }
    out
}

/// Two paths that lead to the same place by their parts.
pub fn same_path(a: &str, b: &str) -> (r: bool)
    ensures
        r == same_place(a@, b@),
{
    let root_a = a.unicode_len() > 0 && a.get_char(0) == '/';
    let root_b = b.unicode_len() > 0 && b.get_char(0) == '/';
    if root_a != root_b {
        return false;
    }
    let pa = parts_of(a);
    let pb = parts_of(b);
    let ghost va = path_parts(a@);
    let ghost vb = path_parts(b@);
    if pa.len() != pb.len() {
        assert(va.len() == pa@.len() && vb.len() == pb@.len());
        return false;
    }
    for i in 0..pa.len()
        invariant
            va == views(pa@),
            vb == views(pb@),
            va == path_parts(a@),
            vb == path_parts(b@),
            pa.len() == pb.len(),
            forall|j: int| 0 <= j < i ==> va[j] == vb[j],
    {
        assert(va[i as int] == pa@[i as int]@ && vb[i as int] == pb@[i as int]@);
        if !str_eq(pa[i].as_str(), pb[i].as_str()) {
            return false;
        }
    }
    assert(va =~= vb);
    true
}

/// The file of a name in the daemon's directory under another.
fn own_path(base: &str, name: &str) -> (r: String)
    ensures
        r@ == own_file(base@, name@),
{
    let dir = join_path(base, "stasis");
    join_path(dir.as_str(), name)
}

/// Where the user's configuration lies, by what `XDG_CONFIG_HOME` and `HOME` say.
pub fn default_user_config_path(xdg: Option<&str>, home: Option<&str>) -> (r: String)
    ensures
        r@ == user_config(name_view(xdg), name_view(home)),
{
    match xdg {
        Some(dir) => own_path(dir, "stasis.rune"),
        None => {
            let dir = match home {
                Some(h) => join_path(h, ".config"),
                None => join_path(".", ".config"),
            };
            own_path(dir.as_str(), "stasis.rune")
        },
    }
}

/// Resolve the concrete config path Stasis should use when `--config` is not provided.
///
/// Rules:
/// - Prefer user config if it exists
/// - Otherwise use /etc fallback if it exists
/// - Otherwise return the user path (so errors mention where we'd expect it)
pub fn resolve_default_config_path(
    primary: String,
    primary_exists: bool,
    fallback_exists: bool,
) -> (r: String)
    ensures
        r@ == (if !primary_exists && fallback_exists {
            ETC_CONFIG@
        } else {
            primary@
        }),
{
    if !primary_exists && fallback_exists {
        String::from_str(ETC_CONFIG)
    } else {
        primary
    }
}

/// Where the log lies, by the directory of states and that of the user.
pub fn log_path(state: Option<&str>, home: Option<&str>) -> (r: Option<String>)
    ensures
        r is Some <==> log_file(name_view(state), name_view(home)) is Some,
        r matches Some(p) ==> log_file(name_view(state), name_view(home)) == Some(p@),
{
    match state {
        Some(dir) => Some(own_path(dir, "stasis.log")),
        None => match home {
            Some(h) => {
                let local = join_path(h, ".local");
                let dir = join_path(local.as_str(), "state");
                Some(own_path(dir.as_str(), "stasis.log"))
            },
            None => None,
        },
    }
}

/// The file of a name in the daemon's directory of the session.
fn session_path(runtime: Option<&str>, name: &str) -> (r: Result<String, String>)
    ensures
        match r {
            Ok(p) => runtime matches Some(dir) && p@ == own_file(dir@, name@),
            Err(e) => runtime is None && e@ == NO_RUNTIME_DIR@,
        },
{
    match runtime {
        Some(dir) => Ok(own_path(dir, name)),
        None => Err(String::from_str(NO_RUNTIME_DIR)),
    }
}

/// Where the daemon listens for commands.
pub fn socket_path(runtime: Option<&str>) -> (r: Result<String, String>)
    ensures
        match r {
            Ok(p) => runtime matches Some(dir) && p@ == own_file(dir@, "stasis.sock"@),
            Err(e) => runtime is None && e@ == NO_RUNTIME_DIR@,
        },
{
    session_path(runtime, "stasis.sock")
}

/// Where the one daemon of a session holds its lock.
pub fn lock_path(runtime: Option<&str>) -> (r: Result<String, String>)
    ensures
        match r {
            Ok(p) => runtime matches Some(dir) && p@ == own_file(dir@, "stasis.lock"@),
            Err(e) => runtime is None && e@ == NO_RUNTIME_DIR@,
        },
{
    session_path(runtime, "stasis.lock")
}

} // verus!
