//! Splitting strings into lines, words and fields.

use vstd::prelude::*;

use super::chars::{is_white, white};
use super::strings::{chars_of, push_char, string_of, views};

verus! {

/// The pieces of `s` between the characters that `at` picks. There is always one more piece than
/// there are such characters, so an empty string has one empty piece.
pub open spec fn pieces(s: Seq<char>, at: spec_fn(char) -> bool) -> Seq<Seq<char>>
    decreases s.len(),
{
    if s.len() == 0 {
        seq![Seq::empty()]
    } else {
        let before = pieces(s.drop_last(), at);
        if at(s.last()) {
            before.push(Seq::empty())
        } else {
            before.update(before.len() - 1, before.last().push(s.last()))
        }
    }
}

/// `s` without one carriage return at its end.
pub open spec fn without_cr(s: Seq<char>) -> Seq<char> {
    if s.len() > 0 && s.last() == '\r' {
        s.drop_last()
    } else {
        s
    }
}

/// Picks the character `c`.
pub open spec fn only(c: char) -> spec_fn(char) -> bool {
    |x: char| x == c
}

/// Picks white space.
pub open spec fn whites() -> spec_fn(char) -> bool {
    |x: char| is_white(x)
}

/// The lines of `s`: what precedes each line feed, without a carriage return directly before it,
/// and what follows the last line feed unless that is empty.
pub open spec fn lines_of(s: Seq<char>) -> Seq<Seq<char>> {
    let p = pieces(s, only('\n'));
    let ended = p.drop_last().map_values(|l: Seq<char>| without_cr(l));
    if p.last().len() == 0 {
        ended
    } else {
        ended.push(p.last())
    }
}

/// The words of `s`: its longest runs without white space.
pub open spec fn words_of(s: Seq<char>) -> Seq<Seq<char>> {
    pieces(s, whites()).filter(|w: Seq<char>| w.len() > 0)
}

/// The fields of `s` between the occurrences of `c`.
pub open spec fn fields_of(s: Seq<char>, c: char) -> Seq<Seq<char>> {
    pieces(s, only(c))
}

/// The position of the first `c` in `s`, or the length of `s`.
pub open spec fn first_index(s: Seq<char>, c: char) -> nat
    decreases s.len(),
{
    if s.len() == 0 || s[0] == c {
        0
    } else {
        1 + first_index(s.skip(1), c)
    }
}

/// The position of the first white space in `s`, or the length of `s`.
pub open spec fn first_white(s: Seq<char>) -> nat
    decreases s.len(),
{
    if s.len() == 0 || is_white(s[0]) {
        0
    } else {
        1 + first_white(s.skip(1))
    }
}

/// White space is all that parts words.
pub open spec fn is_word(w: Seq<char>) -> bool {
    w.len() > 0 && forall|i: int| 0 <= i < w.len() ==> !is_white(#[trigger] w[i])
}

proof fn pieces_grow_by_word(s: Seq<char>, w: Seq<char>)
    requires
        forall|i: int| 0 <= i < w.len() ==> !is_white(#[trigger] w[i]),
    ensures
        ({
            let p = pieces(s, whites());
            pieces(s + w, whites()) == p.update(p.len() - 1, p.last() + w)
        }),
    decreases w.len(),
{
    let p = pieces(s, whites());
    pieces_not_empty(s, whites());
    if w.len() == 0 {
        assert(s + w =~= s);
        assert(p.last() + w =~= p.last());
        assert(p.update(p.len() - 1, p.last() + w) =~= p);
    } else {
        assert((s + w).drop_last() =~= s + w.drop_last());
        assert forall|i: int| 0 <= i < w.drop_last().len() implies !is_white(
            #[trigger] w.drop_last()[i],
        ) by {
            assert(w.drop_last()[i] == w[i]);
        }
        pieces_grow_by_word(s, w.drop_last());
        assert(!is_white(w[w.len() - 1]));
        assert((p.last() + w.drop_last()).push(w.last()) =~= p.last() + w);
        assert(pieces(s + w, whites()) =~= p.update(p.len() - 1, p.last() + w));
    }
}

/// A text without white space is one word.
pub proof fn words_of_one(w: Seq<char>)
    requires
        is_word(w),
    ensures
        words_of(w) == seq![w],
{
    reveal(Seq::filter);
    let keep = |x: Seq<char>| x.len() > 0;
    pieces_grow_by_word(Seq::empty(), w);
    assert(Seq::<char>::empty() + w =~= w);
    assert(pieces(w, whites()) =~= seq![w]);
    assert(seq![w].drop_last() =~= Seq::empty());
    assert(seq![w].drop_last().filter(keep) =~= Seq::empty());
    assert(seq![w].filter(keep) =~= seq![w]);
}

/// Two texts without white space and a space between them are two words.
pub proof fn words_of_two(a: Seq<char>, b: Seq<char>)
    requires
        is_word(a),
        is_word(b),
    ensures
        words_of(a + seq![' '] + b) == seq![a, b],
{
    reveal(Seq::filter);
    let keep = |x: Seq<char>| x.len() > 0;
    pieces_grow_by_word(Seq::empty(), a);
    assert(Seq::<char>::empty() + a =~= a);
    assert(pieces(a, whites()) =~= seq![a]);
    let head = a + seq![' '];
    assert(head.drop_last() =~= a);
    assert(pieces(head, whites()) =~= seq![a, Seq::empty()]);
    pieces_grow_by_word(head, b);
    assert(Seq::<char>::empty() + b =~= b);
    assert(pieces(head + b, whites()) =~= seq![a, b]);
    assert(seq![a, b].drop_last() =~= seq![a]);
    assert(seq![a].drop_last() =~= Seq::empty());
    assert(seq![a].drop_last().filter(keep) =~= Seq::empty());
    assert(seq![a].filter(keep) =~= seq![a]);
    assert(seq![a, b].filter(keep) =~= seq![a, b]);
}

pub proof fn pieces_not_empty(s: Seq<char>, at: spec_fn(char) -> bool)
    ensures
        pieces(s, at).len() >= 1,
    decreases s.len(),
{
    if s.len() > 0 {
        pieces_not_empty(s.drop_last(), at);
    }
}

/// A string without the character is a single field.
pub proof fn fields_of_one(s: Seq<char>, c: char)
    requires
        !s.contains(c),
    ensures
        fields_of(s, c) == seq![s],
    decreases s.len(),
{
    if s.len() > 0 {
        let rest = s.drop_last();
        assert forall|k: int| 0 <= k < rest.len() implies rest[k] != c by {
            assert(s.contains(s[k]));
        }
        fields_of_one(rest, c);
        assert(s.contains(s[s.len() - 1]));
        assert(rest.push(s.last()) =~= s);
        assert(fields_of(s, c) =~= seq![s]);
    } else {
        assert(s =~= Seq::<char>::empty());
    }
}

/// `first_index` is where the first `c` stands.
pub proof fn first_index_is_first(s: Seq<char>, c: char)
    ensures
        first_index(s, c) <= s.len(),
        first_index(s, c) < s.len() ==> s[first_index(s, c) as int] == c,
        forall|k: int| 0 <= k < first_index(s, c) ==> s[k] != c,
    decreases s.len(),
{
    if s.len() > 0 && s[0] != c {
        first_index_is_first(s.skip(1), c);
        let n = first_index(s.skip(1), c);
        assert forall|k: int| 0 <= k < 1 + n implies s[k] != c by {
            if k > 0 {
                assert(s[k] == s.skip(1)[k - 1]);
            }
        }
    }
}

/// `first_white` is where the first white space stands.
pub proof fn first_white_is_first(s: Seq<char>)
    ensures
        first_white(s) <= s.len(),
        first_white(s) < s.len() ==> is_white(s[first_white(s) as int]),
        forall|k: int| 0 <= k < first_white(s) ==> !is_white(s[k]),
    decreases s.len(),
{
    if s.len() > 0 && !is_white(s[0]) {
        first_white_is_first(s.skip(1));
        let n = first_white(s.skip(1));
        assert forall|k: int| 0 <= k < 1 + n implies !is_white(s[k]) by {
            if k > 0 {
                assert(s[k] == s.skip(1)[k - 1]);
            }
        }
    }
}

/// The fields of `s` between the occurrences of `c`.
pub fn split_char(s: &str, c: char) -> (r: Vec<String>)
    ensures
        views(r@) == fields_of(s@, c),
        r@.len() >= 1,
{
    let v = chars_of(s);
    let ghost at = only(c);
    let mut done: Vec<String> = Vec::new();
    let mut cur = String::new();
    assert(views(done@).push(cur@) =~= pieces(s@.take(0), at));
    for i in 0..v.len()
        invariant
            v@ == s@,
            at == only(c),
            views(done@).push(cur@) == pieces(s@.take(i as int), at),
    {
        assert(s@.take(i + 1).drop_last() =~= s@.take(i as int));
        let ghost before = views(done@).push(cur@);
        if v[i] == c {
            let ghost prev = done@;
            done.push(cur);
            cur = String::new();
            assert(views(done@) =~= before);
            assert(views(done@).push(cur@) =~= before.push(Seq::empty()));
        } else {
            push_char(&mut cur, v[i]);
            assert(views(done@).push(cur@) =~= before.update(
                before.len() - 1,
                before.last().push(v@[i as int]),
            ));
        }
    }
    assert(s@.take(s@.len() as int) =~= s@);
    let ghost prev = done@;
    let ghost last = cur@;
    done.push(cur);
    assert(views(done@) =~= views(prev).push(last));
    done
}

fn split_white(s: &str) -> (r: Vec<String>)
    ensures
        views(r@) == pieces(s@, whites()),
{
    let v = chars_of(s);
    let ghost at = whites();
    let mut done: Vec<String> = Vec::new();
    let mut cur = String::new();
    assert(views(done@).push(cur@) =~= pieces(s@.take(0), at));
    for i in 0..v.len()
        invariant
            v@ == s@,
            at == whites(),
            views(done@).push(cur@) == pieces(s@.take(i as int), at),
    {
        assert(s@.take(i + 1).drop_last() =~= s@.take(i as int));
        let ghost before = views(done@).push(cur@);
        if white(v[i]) {
            done.push(cur);
            cur = String::new();
            assert(views(done@) =~= before);
            assert(views(done@).push(cur@) =~= before.push(Seq::empty()));
        } else {
            push_char(&mut cur, v[i]);
            assert(views(done@).push(cur@) =~= before.update(
                before.len() - 1,
                before.last().push(v@[i as int]),
            ));
        }
    }
    assert(s@.take(s@.len() as int) =~= s@);
    let ghost prev = done@;
    let ghost last = cur@;
    done.push(cur);
    assert(views(done@) =~= views(prev).push(last));
    done
}

/// The words of `s`.
pub fn split_whitespace(s: &str) -> (r: Vec<String>)
    ensures
        views(r@) == words_of(s@),
{
    let all = split_white(s);
    let ghost keep = |w: Seq<char>| w.len() > 0;
    let mut out: Vec<String> = Vec::new();
    assert(views(all@).take(0).filter(keep) =~= Seq::<Seq<char>>::empty()) by {
        reveal(Seq::filter);
    }
    for i in 0..all.len()
        invariant
            keep == (|w: Seq<char>| w.len() > 0),
            views(out@) =~= views(all@).take(i as int).filter(keep),
    {
        let ghost sofar = views(all@).take(i + 1);
        assert(sofar.drop_last() =~= views(all@).take(i as int));
        assert(sofar.last() == all@[i as int]@);
        let ghost prev = views(out@);
        reveal(Seq::filter);
        if all[i].unicode_len() > 0 {
            out.push(all[i].clone());
            assert(views(out@) =~= prev.push(all@[i as int]@));
        }
    }
    assert(views(all@).take(all@.len() as int) =~= views(all@));
    out
}

fn strip_cr(s: &str) -> (r: String)
    ensures
        r@ == without_cr(s@),
{
    let v = chars_of(s);
    let n = v.len();
    if n > 0 && v[n - 1] == '\r' {
        assert(s@.subrange(0, n - 1) =~= s@.drop_last());
        string_of(&v, 0, n - 1)
    } else {
        assert(s@.subrange(0, n as int) =~= s@);
        string_of(&v, 0, n)
    }
}

/// The lines of `s`.
pub fn lines(s: &str) -> (r: Vec<String>)
    ensures
        views(r@) == lines_of(s@),
{
    let all = split_char(s, '\n');
    let ghost p = pieces(s@, only('\n'));
    let n = all.len() - 1;
    let mut out: Vec<String> = Vec::new();
    let ghost ended = p.drop_last().map_values(|l: Seq<char>| without_cr(l));
    assert(ended.take(0) =~= views(out@));
    for i in 0..n
        invariant
            n + 1 == all@.len(),
            views(all@) == p,
            ended == p.drop_last().map_values(|l: Seq<char>| without_cr(l)),
            views(out@) == ended.take(i as int),
    {
        let l = strip_cr(all[i].as_str());
        let ghost prev = views(out@);
        let ghost lv = l@;
        assert(p[i as int] == all@[i as int]@);
        out.push(l);
        assert(views(out@) =~= prev.push(lv));
        assert(ended.take(i + 1) =~= ended.take(i as int).push(ended[i as int]));
    }
    assert(ended.take(n as int) =~= ended);
    assert(p.last() == all@[n as int]@);
    if all[n].unicode_len() > 0 {
        let ghost prev = views(out@);
        out.push(all[n].clone());
        assert(views(out@) =~= prev.push(p.last()));
    }
    out
}

/// The parts of `s` before and after its first `c`, if it has one.
pub fn split_once(s: &str, c: char) -> (r: Option<(String, String)>)
    ensures
        match r {
            Some(p) => first_index(s@, c) < s@.len() && p.0@ == s@.take(first_index(s@, c) as int)
                && p.1@ == s@.skip(first_index(s@, c) as int + 1),
            None => first_index(s@, c) == s@.len(),
        },
{
    let v = chars_of(s);
    let mut i: usize = 0;
    while i < v.len() && v[i] != c
        invariant
            v@ == s@,
            i <= v@.len(),
            forall|k: int| 0 <= k < i ==> v@[k] != c,
        decreases v@.len() - i,
    {
        i += 1;
    }
    proof {
        first_index_is_first(s@, c);
        if first_index(s@, c) < i {
            assert(v@[first_index(s@, c) as int] != c);
        }
    }
    assert(first_index(s@, c) == i);
    if i == v.len() {
        None
    } else {
        assert(s@.subrange(0, i as int) =~= s@.take(i as int));
        assert(s@.subrange(i + 1, s@.len() as int) =~= s@.skip(i + 1));
        Some((string_of(&v, 0, i), string_of(&v, i + 1, v.len())))
    }
}

/// The parts of `s` before and after its first white space, if it has any.
pub fn split_once_white(s: &str) -> (r: Option<(String, String)>)
    ensures
        match r {
            Some(p) => first_white(s@) < s@.len() && p.0@ == s@.take(first_white(s@) as int)
                && p.1@ == s@.skip(first_white(s@) as int + 1),
            None => first_white(s@) == s@.len(),
        },
{
    let v = chars_of(s);
    let mut i: usize = 0;
    while i < v.len() && !white(v[i])
        invariant
            v@ == s@,
            i <= v@.len(),
            forall|k: int| 0 <= k < i ==> !is_white(v@[k]),
        decreases v@.len() - i,
    {
        i += 1;
    }
    proof {
        first_white_is_first(s@);
        if first_white(s@) < i {
            assert(!is_white(v@[first_white(s@) as int]));
        }
    }
    assert(first_white(s@) == i);
    if i == v.len() {
        None
    } else {
        assert(s@.subrange(0, i as int) =~= s@.take(i as int));
        assert(s@.subrange(i + 1, s@.len() as int) =~= s@.skip(i + 1));
        Some((string_of(&v, 0, i), string_of(&v, i + 1, v.len())))
    }
}

} // verus!
