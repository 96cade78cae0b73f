//! Keys that were renamed or moved.

use vstd::prelude::*;

use super::{any_line, some_line};
use crate::text::chars::{ascii_white, is_ascii_white};
use crate::text::split::{lines, lines_of, split_whitespace, words_of};
use crate::text::strings::{
    cat, chars_of, ends_with, eq_ignore_case, has_prefix, has_suffix, join, joined,
    same_ignoring_case, starts_with, str_eq, string_of, trim_start, trimmed_start, views,
};

verus! {

/// The white space at the front of a line.
pub open spec fn indent_of(line: Seq<char>) -> Seq<char>
    decreases line.len(),
{
    if line.len() > 0 && is_ascii_white(line[0]) {
        seq![line[0]] + indent_of(line.skip(1))
    } else {
        Seq::empty()
    }
}

/// The line sets the key that is now `enable_dbus_inhibit`.
pub open spec fn sets_dbus(line: Seq<char>) -> bool {
    has_prefix(trimmed_start(line), "listen_browser_dbus_inhibit "@)
}

/// The line sets the key that is now `enable_loginctl` of the whole configuration.
pub open spec fn sets_loginctl(line: Seq<char>) -> bool {
    has_prefix(trimmed_start(line), "use_loginctl "@)
}

/// The second word of a line.
pub open spec fn second_word(line: Seq<char>) -> Option<Seq<char>> {
    let w = words_of(trimmed_start(line));
    if w.len() > 1 {
        Some(w[1])
    } else {
        None
    }
}

/// The line with the key of today.
pub open spec fn renamed(line: Seq<char>) -> Seq<char> {
    indent_of(line) + "enable_dbus_inhibit "@ + match second_word(line) {
        Some(v) => v,
        None => "true"@,
    }
}

/// The first `i` lines with the keys of today, and without those that moved.
pub open spec fn kept_lines(all: Seq<Seq<char>>, i: int) -> Seq<Seq<char>>
    decreases i,
{
    if i <= 0 {
        Seq::empty()
    } else {
        let before = kept_lines(all, i - 1);
        let line = all[i - 1];
        if sets_dbus(line) {
            before.push(renamed(line))
        } else if sets_loginctl(line) {
            before
        } else {
            before.push(line)
        }
    }
}

/// Some line turns the session manager on.
pub open spec fn wants_loginctl(all: Seq<Seq<char>>) -> bool {
    exists|i: int|
        0 <= i < all.len() && sets_loginctl(#[trigger] all[i]) && !sets_dbus(all[i]) && (
        second_word(all[i]) matches Some(v) && same_ignoring_case(v, "true"@))
}

/// The position of the first line `default:`, or the number of lines.
pub open spec fn default_line(all: Seq<Seq<char>>) -> int
    decreases all.len(),
{
    if all.len() == 0 || trimmed_start(all[0]) == "default:"@ {
        0
    } else {
        1 + default_line(all.skip(1))
    }
}

/// The lines with `line` behind the first line `default:`, if there is one.
pub open spec fn with_default_key(all: Seq<Seq<char>>, line: Seq<char>) -> Seq<Seq<char>> {
    let i = default_line(all);
    if i < all.len() {
        all.insert(i + 1, line)
    } else {
        all
    }
}

/// The text with a line feed at its end.
pub open spec fn with_newline(s: Seq<char>) -> Seq<char> {
    if has_suffix(s, "\n"@) {
        s
    } else {
        s + "\n"@
    }
}

/// The lines of the text with the keys of today.
pub open spec fn rewritten_lines(text: Seq<char>) -> Seq<Seq<char>> {
    let all = lines_of(text);
    let kept = kept_lines(all, all.len() as int);
    if wants_loginctl(all) && !some_line(kept, "enable_loginctl "@) {
        with_default_key(kept, "  enable_loginctl true"@)
    } else {
        kept
    }
}

/// The text with the keys of today.
pub open spec fn rewritten(text: Seq<char>) -> Seq<char> {
    with_newline(joined(rewritten_lines(text), "\n"@))
}

fn indent(line: &str) -> (r: String)
    ensures
        r@ == indent_of(line@),
{
    let v = chars_of(line);
    let mut n: usize = 0;
    assert(v@.subrange(0, 0) + indent_of(line@.skip(0)) =~= indent_of(line@)) by {
        assert(line@.skip(0) =~= line@);
    }
    while n < v.len() && ascii_white(v[n])
        invariant
            v@ == line@,
            n <= v@.len(),
            v@.subrange(0, n as int) + indent_of(line@.skip(n as int)) == indent_of(line@),
        decreases v@.len() - n,
    {
        assert(line@.skip(n as int).skip(1) =~= line@.skip(n + 1));
        assert(line@.skip(n as int)[0] == v@[n as int]);
        assert(v@.subrange(0, n as int) + (seq![v@[n as int]] + indent_of(line@.skip(n + 1)))
            =~= v@.subrange(0, n + 1) + indent_of(line@.skip(n + 1)));
        n += 1;
    }
    proof {
        if n < v@.len() {
            assert(line@.skip(n as int)[0] == v@[n as int]);
        }
        assert(indent_of(line@.skip(n as int)) =~= Seq::<char>::empty());
        assert(v@.subrange(0, n as int) + Seq::<char>::empty() =~= v@.subrange(0, n as int));
    }
    string_of(&v, 0, n)
}

fn second(line: &str) -> (r: Option<String>)
    ensures
        match r {
            Some(v) => second_word(line@) == Some(v@),
            None => second_word(line@) is None,
        },
{
    let t = trim_start(line);
    let words = split_whitespace(t.as_str());
    assert(views(words@).len() == words@.len());
    if words.len() > 1 {
        assert(views(words@)[1] == words@[1]@);
        Some(words[1].clone())
    } else {
        None
    }
}

fn starts_trimmed(line: &str, p: &str) -> (r: bool)
    ensures
        r == has_prefix(trimmed_start(line@), p@),
{
    let t = trim_start(line);
    starts_with(t.as_str(), p)
}

fn insert_default_key(all: &mut Vec<String>, line: &str)
    ensures
        views(final(all)@) == with_default_key(views(old(all)@), line@),
{
    let ghost v = views(all@);
    let mut i: usize = 0;
    assert(v.skip(0) =~= v);
    while i < all.len() && !str_eq(trim_start(all[i].as_str()).as_str(), "default:")
        invariant
            v == views(all@),
            i <= all@.len(),
            default_line(v) == i + default_line(v.skip(i as int)),
        decreases all@.len() - i,
    {
        assert(v.skip(i as int)[0] == all@[i as int]@);
        assert(v.skip(i as int).skip(1) =~= v.skip(i + 1));
        i += 1;
    }
    proof {
        if i < all@.len() {
            assert(v.skip(i as int)[0] == all@[i as int]@);
        }
    }
    assert(default_line(v) == i);
    if i < all.len() {
        all.insert(i + 1, String::from_str(line));
        assert(views(all@) =~= v.insert(i + 1, line@));
    }
}

/// The text with the keys of today.
pub fn migrate_new_keys(text: &str) -> (r: String)
    ensures
        r@ == rewritten(text@),
{
    let all = lines(text);
    let ghost v = views(all@);
    let mut saw_true = false;
    let mut out: Vec<String> = Vec::new();
    assert(views(out@) =~= Seq::<Seq<char>>::empty());
    for i in 0..all.len()
        invariant
            v == views(all@),
            views(out@) == kept_lines(v, i as int),
            saw_true == exists|k: int|
                0 <= k < i && sets_loginctl(#[trigger] v[k]) && !sets_dbus(v[k]) && (second_word(
                    v[k],
                ) matches Some(w) && same_ignoring_case(w, "true"@)),
    {
        let line = &all[i];
        assert(v[i as int] == line@);
        let ghost before = views(out@);
        if starts_trimmed(line.as_str(), "listen_browser_dbus_inhibit ") {
            let mut t = indent(line.as_str());
            t.append("enable_dbus_inhibit ");
            match second(line.as_str()) {
                Some(w) => {
                    t.append(w.as_str());
                },
                None => {
                    t.append("true");
                },
            }
            assert(t@ == renamed(line@));
            out.push(t);
            assert(views(out@) =~= before.push(renamed(line@)));
        } else if starts_trimmed(line.as_str(), "use_loginctl ") {
            match second(line.as_str()) {
                Some(w) => {
                    if eq_ignore_case(w.as_str(), "true") {
                        saw_true = true;
                        assert(sets_loginctl(v[i as int]));
                    }
                },
                None => {},
            }
        } else {
            out.push(line.clone());
            assert(views(out@) =~= before.push(line@));
        }
    }
    if saw_true && !any_line(&out, "enable_loginctl ") {
        insert_default_key(&mut out, "  enable_loginctl true");
    }
    let whole = join(&out, "\n");
    if ends_with(whole.as_str(), "\n") {
        whole
    } else {
        cat(whole.as_str(), "\n")
    }
}

} // verus!
