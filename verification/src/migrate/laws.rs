//! A text that was migrated needs no further migration.

use vstd::prelude::*;

use super::emit::{body_text, file_text, head_text, meta_text};
use super::keys::{
    default_line, indent_of, kept_lines, renamed, rewritten, rewritten_lines, second_word,
    sets_dbus, sets_loginctl, with_newline,
};
use super::legacy::OldFileModel;
use super::{has_line, has_moved_keys, is_old, migrated};
use crate::text::chars::{is_ascii_white, is_white};
use crate::text::split::{lines_of, only, pieces, pieces_not_empty, whites, without_cr, words_of};
use crate::text::strings::{has_prefix, has_suffix, joined, trimmed_start};

verus! {

// ---------------------------------------------------------------------------------------------
// Pieces and lines
// ---------------------------------------------------------------------------------------------

/// No character of the string is one that `at` picks.
pub open spec fn clean(s: Seq<char>, at: spec_fn(char) -> bool) -> bool {
    forall|k: int| 0 <= k < s.len() ==> !at(#[trigger] s[k])
}

proof fn pieces_are_clean(s: Seq<char>, at: spec_fn(char) -> bool)
    ensures
        forall|i: int| 0 <= i < pieces(s, at).len() ==> clean(#[trigger] pieces(s, at)[i], at),
    decreases s.len(),
{
    if s.len() > 0 {
        pieces_are_clean(s.drop_last(), at);
        pieces_not_empty(s.drop_last(), at);
    }
}

proof fn clean_is_one_piece(s: Seq<char>, at: spec_fn(char) -> bool)
    requires
        clean(s, at),
    ensures
        pieces(s, at) == seq![s],
    decreases s.len(),
{
    if s.len() > 0 {
        let rest = s.drop_last();
        assert forall|k: int| 0 <= k < rest.len() implies !at(#[trigger] rest[k]) by {
            assert(rest[k] == s[k]);
        }
        clean_is_one_piece(rest, at);
        assert(!at(s[s.len() - 1]));
        assert(rest.push(s.last()) =~= s);
        assert(pieces(s, at) =~= seq![s]);
    } else {
        assert(s =~= Seq::<char>::empty());
    }
}

/// The pieces of a sum: the last piece of the first part and the first of the second are one.
proof fn pieces_of_sum(a: Seq<char>, b: Seq<char>, at: spec_fn(char) -> bool)
    ensures
        pieces(a + b, at) == pieces(a, at).drop_last().push(
            pieces(a, at).last() + pieces(b, at)[0],
        ) + pieces(b, at).skip(1),
    decreases b.len(),
{
    pieces_not_empty(a, at);
    pieces_not_empty(b, at);
    let pa = pieces(a, at);
    let pb = pieces(b, at);
    if b.len() == 0 {
        assert(a + b =~= a);
        assert(pa.last() + Seq::<char>::empty() =~= pa.last());
        assert(pa =~= pa.drop_last().push(pa.last() + pb[0]) + pb.skip(1));
    } else {
        let rest = b.drop_last();
        pieces_of_sum(a, rest, at);
        pieces_not_empty(rest, at);
        let pr = pieces(rest, at);
        assert((a + b).drop_last() =~= a + rest);
        assert((a + b).last() == b.last());
        let whole = pieces(a + rest, at);
        if at(b.last()) {
            assert(pieces(a + b, at) =~= pa.drop_last().push(pa.last() + pb[0]) + pb.skip(1));
        } else if pr.len() == 1 {
            assert(whole.last() == pa.last() + pr[0]);
            assert(pb[0] =~= pr[0].push(b.last()));
            assert((pa.last() + pr[0]).push(b.last()) =~= pa.last() + pb[0]);
            assert(pieces(a + b, at) =~= pa.drop_last().push(pa.last() + pb[0]) + pb.skip(1));
        } else {
            assert(whole.last() == pr.last());
            assert(pieces(a + b, at) =~= pa.drop_last().push(pa.last() + pb[0]) + pb.skip(1));
        }
    }
}

proof fn newline_pieces()
    ensures
        pieces("\n"@, only('\n')) == seq![Seq::<char>::empty(), Seq::<char>::empty()],
        "\n"@ == seq!['\n'],
{
    reveal_strlit("\n");
    assert("\n"@ =~= seq!['\n']);
    let s = "\n"@;
    assert(s.drop_last() =~= Seq::<char>::empty());
    assert(pieces(s.drop_last(), only('\n')) == seq![Seq::<char>::empty()]);
    assert(pieces(s, only('\n')) =~= seq![Seq::<char>::empty(), Seq::<char>::empty()]);
}

/// A line feed at the end adds an empty piece.
proof fn pieces_with_newline(s: Seq<char>)
    ensures
        pieces(s + "\n"@, only('\n')) == pieces(s, only('\n')).push(Seq::empty()),
{
    newline_pieces();
    let t = s + "\n"@;
    assert(t.drop_last() =~= s);
    assert(t.last() == '\n');
}

/// Lines that are put together with line feeds are the pieces of the result.
proof fn pieces_of_joined(ls: Seq<Seq<char>>)
    requires
        ls.len() > 0,
        forall|i: int| 0 <= i < ls.len() ==> clean(#[trigger] ls[i], only('\n')),
    ensures
        pieces(joined(ls, "\n"@), only('\n')) == ls,
    decreases ls.len(),
{
    let at = only('\n');
    if ls.len() == 1 {
        clean_is_one_piece(ls[0], at);
        assert(seq![ls[0]] =~= ls);
    } else {
        let rest = ls.drop_last();
        assert forall|i: int| 0 <= i < rest.len() implies clean(#[trigger] rest[i], at) by {
            assert(rest[i] == ls[i]);
        }
        pieces_of_joined(rest);
        let j = joined(rest, "\n"@);
        pieces_with_newline(j);
        pieces_of_sum(j + "\n"@, ls.last(), at);
        assert(clean(ls[ls.len() - 1], at));
        clean_is_one_piece(ls.last(), at);
        assert(Seq::<char>::empty() + ls.last() =~= ls.last());
        assert(rest.push(Seq::empty()).drop_last() =~= rest);
        assert(pieces(joined(ls, "\n"@), at) =~= ls);
    }
}

proof fn lines_are_clean(s: Seq<char>)
    ensures
        forall|i: int| 0 <= i < lines_of(s).len() ==> clean(#[trigger] lines_of(s)[i], only('\n')),
{
    let at = only('\n');
    pieces_are_clean(s, at);
    pieces_not_empty(s, at);
    let p = pieces(s, at);
    assert forall|i: int| 0 <= i < lines_of(s).len() implies clean(
        #[trigger] lines_of(s)[i],
        at,
    ) by {
        assert(clean(p[i], at));
    }
}

/// Every line of a text that was put together is one of its lines, but for a carriage return at
/// its end; and every such line that is not empty is there.
proof fn lines_of_joined(ls: Seq<Seq<char>>)
    requires
        ls.len() > 0,
        forall|i: int| 0 <= i < ls.len() ==> clean(#[trigger] ls[i], only('\n')),
    ensures
        ({
            let t = with_newline(joined(ls, "\n"@));
            &&& lines_of(t).len() <= ls.len()
            &&& forall|i: int|
                0 <= i < lines_of(t).len() ==> #[trigger] lines_of(t)[i] == without_cr(ls[i])
            &&& forall|i: int|
                0 <= i < ls.len() && (#[trigger] ls[i]).len() > 0 ==> i < lines_of(t).len()
        }),
{
    let at = only('\n');
    let j = joined(ls, "\n"@);
    let t = with_newline(j);
    pieces_of_joined(ls);
    newline_pieces();
    if has_suffix(j, "\n"@) {
        assert(j.skip(j.len() - 1) == "\n"@);
        assert(j.last() == j.skip(j.len() - 1)[0]);
        assert(j.last() == '\n');
        assert(ls.last().len() == 0);
        assert(lines_of(t) =~= ls.drop_last().map_values(|l: Seq<char>| without_cr(l)));
    } else {
        pieces_with_newline(j);
        assert(ls.push(Seq::empty()).drop_last() =~= ls);
        assert(lines_of(t) =~= ls.map_values(|l: Seq<char>| without_cr(l)));
    }
}

// ---------------------------------------------------------------------------------------------
// Beginnings of lines
// ---------------------------------------------------------------------------------------------

proof fn trimmed_start_of_push(s: Seq<char>, c: char)
    ensures
        trimmed_start(s).len() > 0 ==> trimmed_start(s.push(c)) == trimmed_start(s).push(c),
    decreases s.len(),
{
    if s.len() > 0 && is_white(s[0]) {
        trimmed_start_of_push(s.skip(1), c);
        assert(s.push(c).skip(1) =~= s.skip(1).push(c));
        assert(s.push(c)[0] == s[0]);
    }
}

/// A carriage return at the end of a line has no part in its beginning.
proof fn beginning_without_cr(line: Seq<char>, p: Seq<char>)
    requires
        p.len() > 0,
        p.last() != '\r',
    ensures
        has_prefix(trimmed_start(without_cr(line)), p) <==> has_prefix(trimmed_start(line), p),
{
    if line.len() > 0 && line.last() == '\r' {
        let s = line.drop_last();
        assert(s.push('\r') =~= line);
        trimmed_start_of_push(s, '\r');
        let t = trimmed_start(s);
        if t.len() > 0 {
            assert(trimmed_start(line) == t.push('\r'));
            if has_prefix(t, p) {
                assert(t.push('\r').take(p.len() as int) =~= t.take(p.len() as int));
            }
            if has_prefix(t.push('\r'), p) {
                if p.len() > t.len() {
                    assert(t.push('\r').take(p.len() as int).last() == '\r');
                } else {
                    assert(t.push('\r').take(p.len() as int) =~= t.take(p.len() as int));
                }
            }
        } else {
            all_white_stays_empty(s, '\r');
        }
    }
}

proof fn all_white_stays_empty(s: Seq<char>, c: char)
    requires
        trimmed_start(s).len() == 0,
        is_white(c),
    ensures
        trimmed_start(s.push(c)).len() == 0,
    decreases s.len(),
{
    let t = s.push(c);
    if s.len() == 0 {
        assert(t.skip(1) =~= Seq::<char>::empty());
        assert(trimmed_start(t.skip(1)).len() == 0);
        assert(t[0] == c);
    } else {
        assert(is_white(s[0]));
        all_white_stays_empty(s.skip(1), c);
        assert(t.skip(1) =~= s.skip(1).push(c));
        assert(t[0] == s[0]);
    }
}

proof fn trimmed_start_of_indented(line: Seq<char>, rest: Seq<char>)
    requires
        rest.len() > 0,
        !is_white(rest[0]),
    ensures
        trimmed_start(indent_of(line) + rest) == rest,
    decreases line.len(),
{
    if line.len() > 0 && is_ascii_white(line[0]) {
        trimmed_start_of_indented(line.skip(1), rest);
        let t = indent_of(line) + rest;
        assert(t[0] == line[0]);
        assert(t.skip(1) =~= indent_of(line.skip(1)) + rest);
    } else {
        assert(indent_of(line) + rest =~= rest);
    }
}

proof fn indent_is_clean(line: Seq<char>)
    requires
        clean(line, only('\n')),
    ensures
        clean(indent_of(line), only('\n')),
    decreases line.len(),
{
    if line.len() > 0 && is_ascii_white(line[0]) {
        let rest = line.skip(1);
        assert forall|k: int| 0 <= k < rest.len() implies !only('\n')(#[trigger] rest[k]) by {
            assert(rest[k] == line[k + 1]);
        }
        indent_is_clean(rest);
        let t = indent_of(line);
        assert forall|k: int| 0 <= k < t.len() implies !only('\n')(#[trigger] t[k]) by {
            if k > 0 {
                assert(t[k] == indent_of(rest)[k - 1]);
            }
        }
    }
}

proof fn filtered_is_of(v: Seq<Seq<char>>, keep: spec_fn(Seq<char>) -> bool)
    ensures
        forall|i: int|
            0 <= i < v.filter(keep).len() ==> v.contains(#[trigger] v.filter(keep)[i]),
    decreases v.len(),
{
    reveal(Seq::filter);
    if v.len() > 0 {
        let rest = v.drop_last();
        filtered_is_of(rest, keep);
        let f = v.filter(keep);
        assert forall|i: int| 0 <= i < f.len() implies v.contains(#[trigger] f[i]) by {
            if i < rest.filter(keep).len() {
                assert(rest.contains(rest.filter(keep)[i]));
                let j = choose|j: int| 0 <= j < rest.len() && rest[j] == f[i];
                assert(v[j] == f[i]);
            } else {
                assert(v[v.len() - 1] == f[i]);
            }
        }
    }
}

/// A word has no line feed in it.
proof fn words_are_clean(s: Seq<char>)
    ensures
        forall|i: int| 0 <= i < words_of(s).len() ==> clean(#[trigger] words_of(s)[i], only('\n')),
{
    let keep = |w: Seq<char>| w.len() > 0;
    let p = pieces(s, whites());
    pieces_are_clean(s, whites());
    filtered_is_of(p, keep);
    assert forall|i: int| 0 <= i < words_of(s).len() implies clean(
        #[trigger] words_of(s)[i],
        only('\n'),
    ) by {
        let w = words_of(s)[i];
        assert(p.contains(p.filter(keep)[i]));
        let j = choose|j: int| 0 <= j < p.len() && p[j] == w;
        assert(clean(p[j], whites()));
        assert forall|k: int| 0 <= k < w.len() implies !only('\n')(#[trigger] w[k]) by {
            assert(!whites()(p[j][k]));
        }
    }
}

// ---------------------------------------------------------------------------------------------
// Rewritten keys
// ---------------------------------------------------------------------------------------------

/// The line is one without a key that moved, and has no line feed in it.
pub open spec fn settled_line(line: Seq<char>) -> bool {
    clean(line, only('\n')) && !sets_dbus(line) && !sets_loginctl(line)
}

proof fn beginning_decides(line: Seq<char>)
    requires
        trimmed_start(line).len() > 0,
        trimmed_start(line)[0] == 'e' || trimmed_start(line)[0] == 'd',
    ensures
        !sets_dbus(line),
        !sets_loginctl(line),
{
    reveal_strlit("listen_browser_dbus_inhibit ");
    reveal_strlit("use_loginctl ");
    let t = trimmed_start(line);
    if sets_dbus(line) {
        assert(t.take("listen_browser_dbus_inhibit "@.len() as int)[0] == t[0]);
    }
    if sets_loginctl(line) {
        assert(t.take("use_loginctl "@.len() as int)[0] == t[0]);
    }
}

proof fn renamed_is_settled(line: Seq<char>)
    requires
        clean(line, only('\n')),
    ensures
        settled_line(renamed(line)),
{
    reveal_strlit("enable_dbus_inhibit ");
    reveal_strlit("true");
    let value = match second_word(line) {
        Some(v) => v,
        None => "true"@,
    };
    let rest = "enable_dbus_inhibit "@ + value;
    words_are_clean(trimmed_start(line));
    indent_is_clean(line);
    let r = renamed(line);
    assert(r =~= indent_of(line) + rest);
    assert(rest[0] == 'e');
    trimmed_start_of_indented(line, rest);
    beginning_decides(r);
    assert(clean(value, only('\n')));
    assert forall|k: int| 0 <= k < r.len() implies !only('\n')(#[trigger] r[k]) by {
        let n = indent_of(line).len() as int;
        let m = "enable_dbus_inhibit "@.len() as int;
        if k < n {
            assert(r[k] == indent_of(line)[k]);
        } else if k < n + m {
            assert(r[k] == "enable_dbus_inhibit "@[k - n]);
        } else {
            assert(r[k] == value[k - n - m]);
        }
    }
}

proof fn kept_lines_are_settled(all: Seq<Seq<char>>, n: int)
    requires
        0 <= n <= all.len(),
        forall|i: int| 0 <= i < all.len() ==> clean(#[trigger] all[i], only('\n')),
    ensures
        forall|i: int|
            0 <= i < kept_lines(all, n).len() ==> settled_line(#[trigger] kept_lines(all, n)[i]),
        forall|i: int|
            0 <= i < n && !sets_dbus(#[trigger] all[i]) && !sets_loginctl(all[i]) ==> kept_lines(
                all,
                n,
            ).contains(all[i]),
    decreases n,
{
    if n > 0 {
        kept_lines_are_settled(all, n - 1);
        let before = kept_lines(all, n - 1);
        let line = all[n - 1];
        let now = kept_lines(all, n);
        assert(clean(line, only('\n')));
        renamed_is_settled(line);
        assert forall|i: int|
            0 <= i < n && !sets_dbus(#[trigger] all[i]) && !sets_loginctl(all[i]) implies now.contains(
        all[i]) by {
            if i < n - 1 {
                assert(before.contains(all[i]));
                let k = choose|k: int| 0 <= k < before.len() && before[k] == all[i];
                assert(now[k] == all[i]);
            } else {
                assert(now[now.len() - 1] == all[i]);
            }
        }
    }
}

proof fn default_line_is_in(all: Seq<Seq<char>>)
    ensures
        0 <= default_line(all) <= all.len(),
    decreases all.len(),
{
    if all.len() > 0 && trimmed_start(all[0]) != "default:"@ {
        default_line_is_in(all.skip(1));
    }
}

proof fn inserted_key_is_settled()
    ensures
        settled_line("  enable_loginctl true"@),
{
    reveal_strlit("  enable_loginctl true");
    let l = "  enable_loginctl true"@;
    assert(l[0] == ' ' && l[1] == ' ' && l[2] == 'e');
    assert(trimmed_start(l) == trimmed_start(l.skip(1)));
    assert(l.skip(1)[0] == ' ');
    assert(trimmed_start(l.skip(1)) == trimmed_start(l.skip(1).skip(1)));
    assert(l.skip(1).skip(1)[0] == 'e');
    assert(trimmed_start(l.skip(1).skip(1)) == l.skip(1).skip(1));
    beginning_decides(l);
}

/// Once the keys are rewritten, nothing is left to rewrite: the text has a `default:` block still,
/// and none of the keys that moved. So it is not migrated again.
pub proof fn rewritten_text_is_settled(text: Seq<char>)
    requires
        has_moved_keys(text),
    ensures
        migrated(rewritten(text)) == Ok::<Option<Seq<char>>, Seq<char>>(None),
        has_line(rewritten(text), "default:"@),
{
    let all = lines_of(text);
    let n = all.len() as int;
    let kept = kept_lines(all, n);
    let ls = rewritten_lines(text);
    lines_are_clean(text);
    kept_lines_are_settled(all, n);
    inserted_key_is_settled();
    default_line_is_in(kept);
    reveal_strlit("default:");
    // The line of the default block is kept.
    let d = choose|i: int| 0 <= i < n && has_prefix(trimmed_start(#[trigger] all[i]), "default:"@);
    assert(trimmed_start(all[d])[0] == 'd') by {
        let t = trimmed_start(all[d]);
        assert(t.take("default:"@.len() as int)[0] == t[0]);
    }
    beginning_decides(all[d]);
    assert(kept.contains(all[d]));
    let k = choose|k: int| 0 <= k < kept.len() && kept[k] == all[d];
    let at = default_line(kept) + 1;
    let e = if ls != kept && k >= at {
        k + 1
    } else {
        k
    };
    assert(ls[e] == all[d]);
    assert forall|i: int| 0 <= i < ls.len() implies settled_line(#[trigger] ls[i]) by {
        if ls != kept {
            if i < at {
                assert(ls[i] == kept[i]);
            } else if i > at {
                assert(ls[i] == kept[i - 1]);
            }
        } else {
            assert(settled_line(kept[i]));
        }
    }
    assert forall|i: int| 0 <= i < ls.len() implies clean(#[trigger] ls[i], only('\n')) by {
        assert(settled_line(ls[i]));
    }
    lines_of_joined(ls);
    let out = rewritten(text);
    let out_lines = lines_of(out);
    assert(all[d].len() > 0) by {
        if all[d].len() == 0 {
            assert(trimmed_start(all[d]) == all[d]);
        }
    }
    assert(out_lines[e] == without_cr(ls[e]));
    beginning_without_cr(ls[e], "default:"@);
    assert(has_prefix(trimmed_start(out_lines[e]), "default:"@));
    reveal_strlit("use_loginctl ");
    reveal_strlit("listen_browser_dbus_inhibit ");
    assert forall|i: int| 0 <= i < out_lines.len() implies !sets_dbus(#[trigger] out_lines[i])
        && !sets_loginctl(out_lines[i]) by {
        assert(settled_line(ls[i]));
        beginning_without_cr(ls[i], "use_loginctl "@);
        beginning_without_cr(ls[i], "listen_browser_dbus_inhibit "@);
    }
    assert(!has_line(out, "use_loginctl "@)) by {
        if has_line(out, "use_loginctl "@) {
            let i = choose|i: int|
                0 <= i < out_lines.len() && has_prefix(
                    trimmed_start(#[trigger] out_lines[i]),
                    "use_loginctl "@,
                );
            assert(sets_loginctl(out_lines[i]));
        }
    }
    assert(!has_line(out, "listen_browser_dbus_inhibit "@)) by {
        if has_line(out, "listen_browser_dbus_inhibit "@) {
            let i = choose|i: int|
                0 <= i < out_lines.len() && has_prefix(
                    trimmed_start(#[trigger] out_lines[i]),
                    "listen_browser_dbus_inhibit "@,
                );
            assert(sets_dbus(out_lines[i]));
        }
    }
}

// ---------------------------------------------------------------------------------------------
// Files of the earlier form
// ---------------------------------------------------------------------------------------------

proof fn head_ends_a_line(f: OldFileModel)
    ensures
        head_text(f).len() == 0 || head_text(f).last() == '\n',
{
    reveal_strlit("\n");
    let n = f.meta_lines.len() as int;
    if n > 0 {
        let h = meta_text(f.meta_lines, n);
        assert(head_text(f) == h + "\n"@);
        assert(head_text(f).last() == "\n"@[0]);
    }
}

/// What is written for a file of the earlier form is of the current form.
pub proof fn written_file_is_current(f: OldFileModel)
    ensures
        has_line(file_text(f), "default:"@),
        !is_old(file_text(f)),
{
    let nl = only('\n');
    let h = head_text(f);
    let t = file_text(f);
    head_ends_a_line(f);
    reveal_strlit("default:\n");
    reveal_strlit("default:");
    let d = "default:"@;
    let dn = "default:\n"@;
    newline_pieces();
    assert(dn =~= d + "\n"@);
    let first = h + d + "\n"@;
    assert(first =~= h + dn);
    let rest = body_text(f);
    assert(t == first + rest);
    // The pieces of the head end with an empty one.
    pieces_not_empty(h, nl);
    assert(pieces(h, nl).last().len() == 0);
    assert forall|k: int| 0 <= k < d.len() implies !nl(#[trigger] d[k]) by {}
    clean_is_one_piece(d, nl);
    pieces_of_sum(h, d, nl);
    assert(pieces(h, nl).last() + d =~= d);
    let n = pieces(h, nl).len() - 1;
    assert(pieces(h + d, nl)[n] == d);
    assert(pieces(h + d, nl).len() == n + 1);
    pieces_with_newline(h + d);
    pieces_of_sum(first, rest, nl);
    pieces_not_empty(rest, nl);
    assert(pieces(t, nl)[n] == d);
    assert(pieces(t, nl).len() > n + 1);
    assert(lines_of(t)[n] == d);
    assert(trimmed_start(d) == d);
    assert(d.take(d.len() as int) =~= d);
    assert(has_prefix(trimmed_start(lines_of(t)[n]), d));
}

/// A file of the earlier form that could be read is not of that form afterwards.
pub proof fn migrated_file_is_current(text: Seq<char>)
    requires
        is_old(text),
    ensures
        migrated(text) matches Ok(new) ==> new matches Some(t) && !is_old(t) && has_line(
            t,
            "default:"@,
        ),
{
    assert(!has_moved_keys(text));
    if let Ok(f) = super::legacy::old_file(text) {
        written_file_is_current(f);
    }
}

} // verus!
