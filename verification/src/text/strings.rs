//! Comparing, trimming, searching and rewriting strings.

use vstd::prelude::*;

use super::chars::{is_white, lower, to_lower, white};

verus! {

/// `String::push` puts one character at the end of the string.
#[verifier::external_body]
pub(crate) fn push_char(s: &mut String, c: char)
    ensures
        final(s)@ == old(s)@.push(c),
{
    s.push(c)
}

/// `s` in lower case, by the rules of Unicode.
pub uninterp spec fn lowercase(s: Seq<char>) -> Seq<char>;

/// Every character is an ASCII character.
pub open spec fn ascii_only(s: Seq<char>) -> bool {
    forall|i: int| 0 <= i < s.len() ==> (#[trigger] s[i] as u32) < 128
}

/// `str::to_lowercase` lowers by the rules of Unicode, so that what it gives depends on the string
/// alone; of ASCII characters it lowers the letters from A to Z.
#[verifier::external_body]
pub(crate) fn to_lowercase(s: &str) -> (r: String)
    ensures
        r@ == lowercase(s@),
        ascii_only(s@) ==> r@ == lowered(s@),
{
    s.to_lowercase()
}

// ---------------------------------------------------------------------------------------------
// What the functions compute
// ---------------------------------------------------------------------------------------------

/// The characters of a list of strings.
pub open spec fn views(v: Seq<String>) -> Seq<Seq<char>> {
    v.map_values(|s: String| s@)
}

/// The characters of an optional string.
pub open spec fn opt_view(o: Option<String>) -> Option<Seq<char>> {
    match o {
        Some(s) => Some(s@),
        None => None,
    }
}

/// The characters of an optional borrowed string.
pub open spec fn name_view(o: Option<&str>) -> Option<Seq<char>> {
    match o {
        Some(s) => Some(s@),
        None => None,
    }
}

/// `s` with its ASCII letters lowered.
pub open spec fn lowered(s: Seq<char>) -> Seq<char> {
    s.map_values(|c: char| lower(c))
}

/// Two strings that are equal when ASCII case is ignored.
pub open spec fn same_ignoring_case(a: Seq<char>, b: Seq<char>) -> bool {
    lowered(a) == lowered(b)
}

pub open spec fn has_prefix(s: Seq<char>, p: Seq<char>) -> bool {
    p.len() <= s.len() && s.take(p.len() as int) == p
}

pub open spec fn has_suffix(s: Seq<char>, p: Seq<char>) -> bool {
    p.len() <= s.len() && s.skip(s.len() - p.len()) == p
}

/// `p` occurs in `s` at position `i`.
pub open spec fn occurs_at(s: Seq<char>, p: Seq<char>, i: int) -> bool {
    0 <= i && i + p.len() <= s.len() && s.subrange(i, i + p.len()) == p
}

/// `p` occurs somewhere in `s`.
pub open spec fn has_part(s: Seq<char>, p: Seq<char>) -> bool {
    exists|i: int| occurs_at(s, p, i)
}

/// What is a part of one of two texts is a part of both together.
pub proof fn part_stays(a: Seq<char>, b: Seq<char>, p: Seq<char>)
    requires
        has_part(a, p) || has_part(b, p),
    ensures
        has_part(a + b, p),
{
    let s = a + b;
    if has_part(a, p) {
        let i = choose|i: int| occurs_at(a, p, i);
        assert(s.subrange(i, i + p.len()) =~= a.subrange(i, i + p.len()));
        assert(occurs_at(s, p, i));
    } else {
        let i = choose|i: int| occurs_at(b, p, i);
        assert(s.subrange(a.len() + i, a.len() + i + p.len()) =~= b.subrange(i, i + p.len()));
        assert(occurs_at(s, p, a.len() + i));
    }
}

/// A text is a part of itself.
pub proof fn whole_is_a_part(p: Seq<char>)
    ensures
        has_part(p, p),
{
    assert(p.subrange(0, p.len() as int) =~= p);
    assert(occurs_at(p, p, 0));
}

/// `s` without its leading white space.
pub open spec fn trimmed_start(s: Seq<char>) -> Seq<char>
    decreases s.len(),
{
    if s.len() > 0 && is_white(s[0]) {
        trimmed_start(s.skip(1))
    } else {
        s
    }
}

/// `s` without its trailing white space.
pub open spec fn trimmed_end(s: Seq<char>) -> Seq<char>
    decreases s.len(),
{
    if s.len() > 0 && is_white(s.last()) {
        trimmed_end(s.drop_last())
    } else {
        s
    }
}

/// `s` without leading and trailing white space.
pub open spec fn trimmed(s: Seq<char>) -> Seq<char> {
    trimmed_end(trimmed_start(s))
}

proof fn end_trim_keeps_start(s: Seq<char>)
    requires
        s.len() > 0,
        !is_white(s[0]),
    ensures
        trimmed_end(s).len() > 0,
        trimmed_end(s)[0] == s[0],
    decreases s.len(),
{
    if is_white(s.last()) {
        end_trim_keeps_start(s.drop_last());
    }
}

proof fn end_trimmed_is_bare(s: Seq<char>)
    ensures
        trimmed_end(trimmed_end(s)) == trimmed_end(s),
    decreases s.len(),
{
    if s.len() > 0 && is_white(s.last()) {
        end_trimmed_is_bare(s.drop_last());
    }
}

proof fn start_trimmed_is_bare(s: Seq<char>)
    ensures
        trimmed_start(s).len() > 0 ==> !is_white(trimmed_start(s)[0]),
    decreases s.len(),
{
    if s.len() > 0 && is_white(s[0]) {
        start_trimmed_is_bare(s.skip(1));
    }
}

/// There is nothing left to trim off a trimmed text.
pub proof fn trimmed_is_bare(s: Seq<char>)
    ensures
        trimmed(trimmed(s)) == trimmed(s),
{
    let t = trimmed_start(s);
    start_trimmed_is_bare(s);
    end_trimmed_is_bare(t);
    if t.len() > 0 {
        end_trim_keeps_start(t);
    }
}

/// `s` without the occurrences of `c` at its start.
pub open spec fn stripped_start(s: Seq<char>, c: char) -> Seq<char>
    decreases s.len(),
{
    if s.len() > 0 && s[0] == c {
        stripped_start(s.skip(1), c)
    } else {
        s
    }
}

/// `s` without the occurrences of `c` at its end.
pub open spec fn stripped_end(s: Seq<char>, c: char) -> Seq<char>
    decreases s.len(),
{
    if s.len() > 0 && s.last() == c {
        stripped_end(s.drop_last(), c)
    } else {
        s
    }
}

/// `s` with every `from` turned into `to`.
pub open spec fn with_char_replaced(s: Seq<char>, from: char, to: char) -> Seq<char> {
    s.map_values(|c: char| if c == from { to } else { c })
}

/// `s` without the white space in it.
pub open spec fn without_white(s: Seq<char>) -> Seq<char> {
    s.filter(|c: char| !is_white(c))
}

/// `s` without spaces and tabs.
pub open spec fn without_blanks(s: Seq<char>) -> Seq<char> {
    s.filter(|c: char| !(c == ' ' || c == '\t'))
}

/// `n` spaces.
pub open spec fn spaces(n: nat) -> Seq<char> {
    Seq::new(n, |i: int| ' ')
}

/// The parts with `sep` between each two of them.
pub open spec fn joined(parts: Seq<Seq<char>>, sep: Seq<char>) -> Seq<char>
    decreases parts.len(),
{
    if parts.len() == 0 {
        Seq::empty()
    } else if parts.len() == 1 {
        parts[0]
    } else {
        joined(parts.drop_last(), sep) + sep + parts.last()
    }
}

// ---------------------------------------------------------------------------------------------
// Functions
// ---------------------------------------------------------------------------------------------

/// The characters of a string, as a vector.
pub fn chars_of(s: &str) -> (r: Vec<char>)
    ensures
        r@ == s@,
{
    let mut out: Vec<char> = Vec::new();
    for c in it: s.chars()
        invariant
            out@ == s@.take(it.index()),
            it.seq() == s@,
    {
        out.push(c);
        assert(s@.take(it.index() + 1) =~= s@.take(it.index()).push(c));
    }
    assert(s@.take(s@.len() as int) =~= s@);
    out
}

/// The string of the characters from `from` up to `to`.
pub fn string_of(v: &Vec<char>, from: usize, to: usize) -> (r: String)
    requires
        from <= to <= v@.len(),
    ensures
        r@ == v@.subrange(from as int, to as int),
{
    let mut out = String::new();
    for i in from..to
        invariant
            from <= to <= v@.len(),
            out@ == v@.subrange(from as int, i as int),
    {
        push_char(&mut out, v[i]);
        assert(v@.subrange(from as int, i + 1) =~= v@.subrange(from as int, i as int).push(v@[i as int]));
    }
    assert(v@.subrange(from as int, to as int) == out@);
    out
}

/// Equality of two strings.
pub fn str_eq(a: &str, b: &str) -> (r: bool)
    ensures
        r == (a@ == b@),
{
    let x = chars_of(a);
    let y = chars_of(b);
    if x.len() != y.len() {
        return false;
    }
    for i in 0..x.len()
        invariant
            x@ == a@,
            y@ == b@,
            x@.len() == y@.len(),
            forall|k: int| 0 <= k < i ==> x@[k] == y@[k],
    {
        if x[i] != y[i] {
            return false;
        }
    }
    assert(a@ =~= b@);
    true
}

/// `s` with its ASCII letters lowered.
pub fn to_ascii_lower(s: &str) -> (r: String)
    ensures
        r@ == lowered(s@),
{
    let mut out = String::new();
    let v = chars_of(s);
    for i in 0..v.len()
        invariant
            v@ == s@,
            out@ == lowered(s@.take(i as int)),
    {
        push_char(&mut out, to_lower(v[i]));
        assert(lowered(s@.take(i + 1)) =~= lowered(s@.take(i as int)).push(lower(v@[i as int])));
    }
    assert(s@.take(s@.len() as int) =~= s@);
    out
}

/// Equality that ignores ASCII case.
pub fn eq_ignore_case(a: &str, b: &str) -> (r: bool)
    ensures
        r == same_ignoring_case(a@, b@),
{
    let x = to_ascii_lower(a);
    let y = to_ascii_lower(b);
    str_eq(x.as_str(), y.as_str())
}

pub fn starts_with(s: &str, p: &str) -> (r: bool)
    ensures
        r == has_prefix(s@, p@),
{
    let x = chars_of(s);
    let y = chars_of(p);
    if y.len() > x.len() {
        return false;
    }
    for i in 0..y.len()
        invariant
            x@ == s@,
            y@ == p@,
            y@.len() <= x@.len(),
            forall|k: int| 0 <= k < i ==> x@[k] == y@[k],
    {
        if x[i] != y[i] {
            assert(s@.take(p@.len() as int)[i as int] != p@[i as int]);
            return false;
        }
    }
    assert(s@.take(p@.len() as int) =~= p@);
    true
}

pub fn ends_with(s: &str, p: &str) -> (r: bool)
    ensures
        r == has_suffix(s@, p@),
{
    let x = chars_of(s);
    let y = chars_of(p);
    if y.len() > x.len() {
        return false;
    }
    let d = x.len() - y.len();
    for i in 0..y.len()
        invariant
            x@ == s@,
            y@ == p@,
            y@.len() <= x@.len(),
            d + y.len() == x.len(),
            forall|k: int| 0 <= k < i ==> x@[d + k] == y@[k],
    {
        if x[d + i] != y[i] {
            assert(s@.skip(d as int)[i as int] != p@[i as int]);
            return false;
        }
    }
    assert(s@.skip(d as int) =~= p@);
    true
}

/// What follows the prefix `p` of `s`, if `s` has that prefix.
pub fn strip_prefix(s: &str, p: &str) -> (r: Option<String>)
    ensures
        match r {
            Some(rest) => has_prefix(s@, p@) && rest@ == s@.skip(p@.len() as int),
            None => !has_prefix(s@, p@),
        },
{
    if starts_with(s, p) {
        let x = chars_of(s);
        let n = p.unicode_len();
        let rest = string_of(&x, n, x.len());
        assert(s@.subrange(n as int, s@.len() as int) =~= s@.skip(n as int));
        Some(rest)
    } else {
        None
    }
}

/// What precedes the suffix `p` of `s`, if `s` has that suffix.
pub fn strip_suffix(s: &str, p: &str) -> (r: Option<String>)
    ensures
        match r {
            Some(rest) => has_suffix(s@, p@) && rest@ == s@.take(s@.len() - p@.len()),
            None => !has_suffix(s@, p@),
        },
{
    if ends_with(s, p) {
        let x = chars_of(s);
        let n = p.unicode_len();
        let rest = string_of(&x, 0, x.len() - n);
        assert(s@.subrange(0, s@.len() - n) =~= s@.take(s@.len() - n));
        Some(rest)
    } else {
        None
    }
}

/// Tells whether `p` occurs in `s`.
pub fn contains(s: &str, p: &str) -> (r: bool)
    ensures
        r == has_part(s@, p@),
{
    let x = chars_of(s);
    let y = chars_of(p);
    if y.len() > x.len() {
        return false;
    }
    if y.len() == 0 {
        assert(s@.subrange(0, 0) =~= p@);
        assert(occurs_at(s@, p@, 0));
        return true;
    }
    let last = x.len() - y.len();
    let mut i: usize = 0;
    while i <= last
        invariant
            x@ == s@,
            y@ == p@,
            0 < y.len(),
            last + y.len() == x.len(),
            i <= last + 1,
            forall|k: int| 0 <= k < i ==> !occurs_at(s@, p@, k),
        decreases last + 1 - i,
    {
        let mut j: usize = 0;
        while j < y.len() && x[i + j] == y[j]
            invariant
                x@ == s@,
                y@ == p@,
                i <= last,
                last + y.len() == x.len(),
                j <= y@.len(),
                forall|k: int| 0 <= k < j ==> x@[i + k] == y@[k],
            decreases y@.len() - j,
        {
            j += 1;
        }
        if j == y.len() {
            assert(s@.subrange(i as int, i + p@.len()) =~= p@);
            assert(occurs_at(s@, p@, i as int));
            return true;
        }
        assert(!occurs_at(s@, p@, i as int)) by {
            if occurs_at(s@, p@, i as int) {
                assert(s@.subrange(i as int, i + p@.len())[j as int] == p@[j as int]);
            }
        }
        i += 1;
    }
    assert(!has_part(s@, p@)) by {
        if has_part(s@, p@) {
            let k = choose|k: int| occurs_at(s@, p@, k);
            assert(0 <= k <= last);
        }
    }
    false
}

/// `s` without its leading white space.
pub fn trim_start(s: &str) -> (r: String)
    ensures
        r@ == trimmed_start(s@),
{
    let v = chars_of(s);
    let mut i: usize = 0;
    assert(s@.skip(0) =~= s@);
    while i < v.len() && white(v[i])
        invariant
            v@ == s@,
            i <= v@.len(),
            trimmed_start(s@) == trimmed_start(s@.skip(i as int)),
        decreases v@.len() - i,
    {
        assert(s@.skip(i as int).skip(1) =~= s@.skip(i + 1));
        i += 1;
    }
    assert(s@.subrange(i as int, s@.len() as int) =~= s@.skip(i as int));
    string_of(&v, i, v.len())
}

/// `s` without its trailing white space.
pub fn trim_end(s: &str) -> (r: String)
    ensures
        r@ == trimmed_end(s@),
{
    let v = chars_of(s);
    let mut n: usize = v.len();
    assert(s@.take(s@.len() as int) =~= s@);
    while n > 0 && white(v[n - 1])
        invariant
            v@ == s@,
            n <= v@.len(),
            trimmed_end(s@) == trimmed_end(s@.take(n as int)),
        decreases n,
    {
        assert(s@.take(n as int).drop_last() =~= s@.take(n - 1));
        n -= 1;
    }
    assert(s@.subrange(0, n as int) =~= s@.take(n as int));
    string_of(&v, 0, n)
}

/// `s` without leading and trailing white space.
pub fn trim(s: &str) -> (r: String)
    ensures
        r@ == trimmed(s@),
{
    let t = trim_start(s);
    trim_end(t.as_str())
}

/// `s` without the occurrences of `c` at its end.
pub fn trim_end_char(s: &str, c: char) -> (r: String)
    ensures
        r@ == stripped_end(s@, c),
{
    let v = chars_of(s);
    let mut n: usize = v.len();
    assert(s@.take(s@.len() as int) =~= s@);
    while n > 0 && v[n - 1] == c
        invariant
            v@ == s@,
            n <= v@.len(),
            stripped_end(s@, c) == stripped_end(s@.take(n as int), c),
        decreases n,
    {
        assert(s@.take(n as int).drop_last() =~= s@.take(n - 1));
        n -= 1;
    }
    assert(s@.subrange(0, n as int) =~= s@.take(n as int));
    string_of(&v, 0, n)
}

/// `s` without the occurrences of `c` at both ends.
pub fn trim_char(s: &str, c: char) -> (r: String)
    ensures
        r@ == stripped_end(stripped_start(s@, c), c),
{
    let v = chars_of(s);
    let mut i: usize = 0;
    assert(s@.skip(0) =~= s@);
    while i < v.len() && v[i] == c
        invariant
            v@ == s@,
            i <= v@.len(),
            stripped_start(s@, c) == stripped_start(s@.skip(i as int), c),
        decreases v@.len() - i,
    {
        assert(s@.skip(i as int).skip(1) =~= s@.skip(i + 1));
        i += 1;
    }
    assert(s@.subrange(i as int, s@.len() as int) =~= s@.skip(i as int));
    let t = string_of(&v, i, v.len());
    trim_end_char(t.as_str(), c)
}

/// `s` with every `from` turned into `to`.
pub fn replace_char(s: &str, from: char, to: char) -> (r: String)
    ensures
        r@ == with_char_replaced(s@, from, to),
{
    let mut out = String::new();
    let v = chars_of(s);
    for i in 0..v.len()
        invariant
            v@ == s@,
            out@ == with_char_replaced(s@.take(i as int), from, to),
    {
        let c = if v[i] == from {
            to
        } else {
            v[i]
        };
        push_char(&mut out, c);
        assert(with_char_replaced(s@.take(i + 1), from, to) =~= with_char_replaced(
            s@.take(i as int),
            from,
            to,
        ).push(c));
    }
    assert(s@.take(s@.len() as int) =~= s@);
    out
}

/// `s` without the white space in it.
pub fn remove_white(s: &str) -> (r: String)
    ensures
        r@ == without_white(s@),
{
    let mut out = String::new();
    let v = chars_of(s);
    let ghost keep = |c: char| !is_white(c);
    assert(s@.take(0).filter(keep) =~= Seq::<char>::empty()) by {
        reveal(Seq::filter);
    }
    for i in 0..v.len()
        invariant
            v@ == s@,
            keep == (|c: char| !is_white(c)),
            out@ == s@.take(i as int).filter(keep),
    {
        assert(s@.take(i + 1).drop_last() =~= s@.take(i as int));
        reveal(Seq::filter);
        if !white(v[i]) {
            push_char(&mut out, v[i]);
        }
    }
    assert(s@.take(s@.len() as int) =~= s@);
    out
}

/// `s` without spaces and tabs.
pub fn remove_blanks(s: &str) -> (r: String)
    ensures
        r@ == without_blanks(s@),
{
    let mut out = String::new();
    let v = chars_of(s);
    let ghost keep = |c: char| !(c == ' ' || c == '\t');
    assert(s@.take(0).filter(keep) =~= Seq::<char>::empty()) by {
        reveal(Seq::filter);
    }
    for i in 0..v.len()
        invariant
            v@ == s@,
            keep == (|c: char| !(c == ' ' || c == '\t')),
            out@ == s@.take(i as int).filter(keep),
    {
        assert(s@.take(i + 1).drop_last() =~= s@.take(i as int));
        reveal(Seq::filter);
        if !(v[i] == ' ' || v[i] == '\t') {
            push_char(&mut out, v[i]);
        }
    }
    assert(s@.take(s@.len() as int) =~= s@);
    out
}

/// Puts `n` spaces at the end of `out`.
pub fn push_spaces(out: &mut String, n: usize)
    ensures
        final(out)@ == old(out)@ + spaces(n as nat),
{
    let mut i: usize = 0;
    assert(out@ + spaces(0) =~= out@);
    while i < n
        invariant
            i <= n,
            out@ == old(out)@ + spaces(i as nat),
        decreases n - i,
    {
        push_char(out, ' ');
        assert(old(out)@ + spaces((i + 1) as nat) =~= (old(out)@ + spaces(i as nat)).push(' '));
        i += 1;
    }
}

/// The parts with `sep` between each two of them.
pub fn join(parts: &Vec<String>, sep: &str) -> (r: String)
    ensures
        r@ == joined(views(parts@), sep@),
{
    let mut out = String::new();
    for i in 0..parts.len()
        invariant
            out@ == joined(views(parts@.take(i as int)), sep@),
    {
        let ghost before = views(parts@.take(i as int));
        let ghost after = views(parts@.take(i + 1));
        assert(after.drop_last() =~= before);
        assert(after.last() == parts@[i as int]@);
        if i > 0 {
            out.append(sep);
        }
        out.append(parts[i].as_str());
        assert(out@ =~= joined(after, sep@));
    }
    assert(parts@.take(parts@.len() as int) =~= parts@);
    out
}

/// The concatenation of two strings.
pub fn cat(a: &str, b: &str) -> (r: String)
    ensures
        r@ == a@ + b@,
{
    let mut out = String::new();
    out.append(a);
    out.append(b);
    assert(out@ =~= a@ + b@);
    out
}

/// Tells whether the list holds a string equal to `s`.
pub fn list_has(v: &Vec<String>, s: &str) -> (r: bool)
    ensures
        r == views(v@).contains(s@),
{
    for i in 0..v.len()
        invariant
            forall|k: int| 0 <= k < i ==> v@[k]@ != s@,
    {
        if str_eq(v[i].as_str(), s) {
            assert(views(v@)[i as int] == s@);
            return true;
        }
    }
    assert forall|k: int| 0 <= k < views(v@).len() implies views(v@)[k] != s@ by {
        assert(views(v@)[k] == v@[k]@);
    }
    false
}

} // verus!
