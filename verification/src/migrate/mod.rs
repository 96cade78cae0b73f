//! Bringing configurations of earlier releases into the current form.
//!
//! `keys` rewrites single keys of the current form, `legacy` reads the form that came before it, and
//! `emit` writes what was read in the current form. `carrying` states what is carried over, and
//! `laws` that the result is current.

pub mod carrying;
pub mod emit;
pub mod keys;
pub mod laws;
pub mod legacy;

use vstd::prelude::*;

use crate::text::split::{lines, lines_of};
use crate::text::strings::{cat, has_prefix, starts_with, trim_start, trimmed_start, views};

verus! {

/// What became of a configuration file.
#[derive(Debug)]
pub enum MigrateOutcome {
    NotOldFormat,
    Migrated { backup_path: String },
}

/// Some line begins with `p`, apart from white space before it.
pub open spec fn has_line(text: Seq<char>, p: Seq<char>) -> bool {
    some_line(lines_of(text), p)
}

/// Some line of the list begins with `p`, apart from white space before it.
pub open spec fn some_line(all: Seq<Seq<char>>, p: Seq<char>) -> bool {
    exists|i: int| 0 <= i < all.len() && has_prefix(trimmed_start(#[trigger] all[i]), p)
}

/// Whether some line of the list begins with `p`, apart from white space before it.
pub fn any_line(all: &Vec<String>, p: &str) -> (r: bool)
    ensures
        r == some_line(views(all@), p@),
{
    let ghost v = views(all@);
    for i in 0..all.len()
        invariant
            v == views(all@),
            forall|k: int| 0 <= k < i ==> !has_prefix(trimmed_start(#[trigger] v[k]), p@),
    {
        assert(v[i as int] == all@[i as int]@);
        let t = trim_start(all[i].as_str());
        if starts_with(t.as_str(), p) {
            assert(has_prefix(trimmed_start(v[i as int]), p@));
            return true;
        }
    }
    false
}

/// The form of earlier releases: a `stasis:` block and no `default:` block.
pub open spec fn is_old(text: Seq<char>) -> bool {
    has_line(text, "stasis:"@) && !has_line(text, "default:"@)
}

/// The current form, with keys that were renamed or moved.
pub open spec fn has_moved_keys(text: Seq<char>) -> bool {
    has_line(text, "default:"@) && (has_line(text, "use_loginctl "@) || has_line(
        text,
        "listen_browser_dbus_inhibit "@,
    ))
}

/// Whether the text has the form of earlier releases.
pub fn looks_like_old_config(text: &str) -> (r: bool)
    ensures
        r == is_old(text@),
{
    let all = lines(text);
    any_line(&all, "stasis:") && !any_line(&all, "default:")
}

/// Whether the text has keys that were renamed or moved.
pub fn looks_like_new_with_moved_keys(text: &str) -> (r: bool)
    ensures
        r == has_moved_keys(text@),
{
    let all = lines(text);
    any_line(&all, "default:") && (any_line(&all, "use_loginctl ") || any_line(
        &all,
        "listen_browser_dbus_inhibit ",
    ))
}

/// Where the file is kept before it is rewritten.
pub fn backup_name(path: &str) -> (r: String)
    ensures
        r@ == path@ + ".bak"@,
{
    cat(path, ".bak")
}

/// The text in the current form; none if it has it already. Fails on a line that cannot be read.
pub open spec fn migrated(text: Seq<char>) -> Result<Option<Seq<char>>, Seq<char>> {
    if has_moved_keys(text) {
        Ok(Some(keys::rewritten(text)))
    } else if is_old(text) {
        match legacy::old_file(text) {
            Ok(f) => Ok(Some(emit::file_text(f))),
            Err(e) => Err("parse old config: "@ + e),
        }
    } else {
        Ok(None)
    }
}

/// What stands for the result of [`migrate_text`] in contracts.
pub open spec fn migrated_view(r: Result<Option<String>, String>) -> Result<
    Option<Seq<char>>,
    Seq<char>,
> {
    match r {
        Ok(Some(t)) => Ok(Some(t@)),
        Ok(None) => Ok(None),
        Err(e) => Err(e@),
    }
}

/// The text in the current form; none if it has it already.
pub fn migrate_text(text: &str) -> (r: Result<Option<String>, String>)
    ensures
        migrated_view(r) == migrated(text@),
{
    if looks_like_new_with_moved_keys(text) {
        return Ok(Some(keys::migrate_new_keys(text)));
    }
    if !looks_like_old_config(text) {
        return Ok(None);
    }
    match legacy::parse_old(text) {
        Ok(f) => Ok(Some(emit::emit_new(&f))),
        Err(e) => Err(cat("parse old config: ", e.as_str())),
    }
}

} // verus!
