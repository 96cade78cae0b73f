//! The order of strings.

use vstd::prelude::*;

use super::strings::{chars_of, str_eq, views};

verus! {

/// `a` stands before `b`: at the first place where they differ, `a` has the smaller character or
/// ends.
pub open spec fn precedes(a: Seq<char>, b: Seq<char>) -> bool
    decreases a.len(),
{
    if a.len() == 0 {
        b.len() > 0
    } else if b.len() == 0 {
        false
    } else if a[0] != b[0] {
        a[0] < b[0]
    } else {
        precedes(a.skip(1), b.skip(1))
    }
}

/// Each string stands before the next one.
pub open spec fn ascending(v: Seq<Seq<char>>) -> bool {
    forall|i: int, j: int| 0 <= i < j < v.len() ==> precedes(#[trigger] v[i], #[trigger] v[j])
}

/// How many strings of the ascending list stand before `s`.
pub open spec fn place_of(v: Seq<Seq<char>>, s: Seq<char>) -> nat
    decreases v.len(),
{
    if v.len() == 0 || !precedes(v[0], s) {
        0
    } else {
        1 + place_of(v.skip(1), s)
    }
}

/// The ascending list with `s` put in its place, unless it is there already.
pub open spec fn with_string(v: Seq<Seq<char>>, s: Seq<char>) -> Seq<Seq<char>> {
    let i = place_of(v, s) as int;
    if i < v.len() && v[i] == s {
        v
    } else {
        v.insert(i, s)
    }
}

/// The strings of a list in ascending order, each once.
pub open spec fn sorted_once(v: Seq<Seq<char>>) -> Seq<Seq<char>>
    decreases v.len(),
{
    if v.len() == 0 {
        Seq::empty()
    } else {
        with_string(sorted_once(v.drop_last()), v.last())
    }
}

pub proof fn precedes_is_strict(a: Seq<char>, b: Seq<char>)
    ensures
        !(precedes(a, b) && precedes(b, a)),
        !precedes(a, a),
        precedes(a, b) || precedes(b, a) || a == b,
    decreases a.len(),
{
    if a.len() > 0 {
        precedes_is_strict(a.skip(1), a.skip(1));
        if b.len() > 0 {
            precedes_is_strict(a.skip(1), b.skip(1));
            if a[0] == b[0] && a.skip(1) == b.skip(1) {
                assert(a =~= seq![a[0]] + a.skip(1));
                assert(b =~= seq![b[0]] + b.skip(1));
            }
        }
    } else if b.len() == 0 {
        assert(a =~= b);
    }
}

pub proof fn precedes_is_transitive(a: Seq<char>, b: Seq<char>, c: Seq<char>)
    requires
        precedes(a, b),
        precedes(b, c),
    ensures
        precedes(a, c),
    decreases a.len(),
{
    if a.len() > 0 && a[0] == b[0] && b[0] == c[0] {
        precedes_is_transitive(a.skip(1), b.skip(1), c.skip(1));
    }
}

pub proof fn place_is_place(v: Seq<Seq<char>>, s: Seq<char>)
    ensures
        place_of(v, s) <= v.len(),
        forall|k: int| 0 <= k < place_of(v, s) ==> precedes(#[trigger] v[k], s),
        place_of(v, s) < v.len() ==> !precedes(v[place_of(v, s) as int], s),
    decreases v.len(),
{
    if v.len() > 0 && precedes(v[0], s) {
        place_is_place(v.skip(1), s);
        assert forall|k: int| 0 <= k < place_of(v, s) implies precedes(#[trigger] v[k], s) by {
            if k > 0 {
                assert(v[k] == v.skip(1)[k - 1]);
            }
        }
    }
}

proof fn with_string_ascends(v: Seq<Seq<char>>, s: Seq<char>)
    requires
        ascending(v),
    ensures
        ascending(with_string(v, s)),
        forall|x: Seq<char>| with_string(v, s).contains(x) <==> v.contains(x) || x == s,
{
    place_is_place(v, s);
    let p = place_of(v, s) as int;
    let w = with_string(v, s);
    if p < v.len() && v[p] == s {
    } else {
        assert forall|i: int, j: int| 0 <= i < j < w.len() implies precedes(
            #[trigger] w[i],
            #[trigger] w[j],
        ) by {
            if j == p {
                assert(w[i] == v[i]);
            } else if i == p {
                assert(w[j] == v[j - 1]);
                precedes_is_strict(v[p], s);
                if j - 1 > p {
                    precedes_is_transitive(s, v[p], v[j - 1]);
                }
            } else {
                let a = if i < p {
                    i
                } else {
                    i - 1
                };
                let b = if j < p {
                    j
                } else {
                    j - 1
                };
                assert(w[i] == v[a] && w[j] == v[b]);
            }
        }
        assert forall|x: Seq<char>| w.contains(x) <==> v.contains(x) || x == s by {
            if v.contains(x) {
                let i = choose|i: int| 0 <= i < v.len() && v[i] == x;
                if i < p {
                    assert(w[i] == x);
                } else {
                    assert(w[i + 1] == x);
                }
            }
            if x == s {
                assert(w[p] == x);
            }
            if w.contains(x) {
                let i = choose|i: int| 0 <= i < w.len() && w[i] == x;
                if i < p {
                    assert(v[i] == x);
                } else if i > p {
                    assert(v[i - 1] == x);
                }
            }
        }
    }
}

/// Sorting keeps the strings, puts them into ascending order, and so keeps none twice.
pub proof fn sorting_sorts(v: Seq<Seq<char>>)
    ensures
        ascending(sorted_once(v)),
        forall|x: Seq<char>| sorted_once(v).contains(x) <==> v.contains(x),
    decreases v.len(),
{
    if v.len() > 0 {
        let rest = v.drop_last();
        sorting_sorts(rest);
        with_string_ascends(sorted_once(rest), v.last());
        assert forall|x: Seq<char>| sorted_once(v).contains(x) <==> v.contains(x) by {
            if v.contains(x) {
                let i = choose|i: int| 0 <= i < v.len() && v[i] == x;
                if i < rest.len() {
                    assert(rest[i] == x);
                }
            }
            if rest.contains(x) {
                let i = choose|i: int| 0 <= i < rest.len() && rest[i] == x;
                assert(v[i] == x);
            }
            if x == v.last() {
                assert(v[v.len() - 1] == x);
            }
        }
    }
}

/// Whether `a` stands before `b`.
pub fn str_precedes(a: &str, b: &str) -> (r: bool)
    ensures
        r == precedes(a@, b@),
{
    let x = chars_of(a);
    let y = chars_of(b);
    let mut i: usize = 0;
    assert(a@.skip(0) =~= a@);
    assert(b@.skip(0) =~= b@);
    while i < x.len() && i < y.len()
        invariant
            x@ == a@,
            y@ == b@,
            i <= x@.len(),
            i <= y@.len(),
            precedes(a@, b@) == precedes(a@.skip(i as int), b@.skip(i as int)),
        decreases x@.len() - i,
    {
        if x[i] != y[i] {
            return x[i] < y[i];
        }
        assert(a@.skip(i as int).skip(1) =~= a@.skip(i + 1));
        assert(b@.skip(i as int).skip(1) =~= b@.skip(i + 1));
        i += 1;
    }
    i < y.len()
}

/// The strings of a list in ascending order, each once.
pub fn sort_once(v: &Vec<String>) -> (r: Vec<String>)
    ensures
        views(r@) == sorted_once(views(v@)),
{
    let ghost all = views(v@);
    let mut out: Vec<String> = Vec::new();
    assert(views(out@) =~= Seq::<Seq<char>>::empty());
    for n in 0..v.len()
        invariant
            all == views(v@),
            views(out@) == sorted_once(all.take(n as int)),
    {
        let ghost w = views(out@);
        let s = v[n].clone();
        assert(all.take(n + 1).drop_last() =~= all.take(n as int));
        assert(all.take(n + 1).last() == s@);
        let mut i: usize = 0;
        while i < out.len() && str_precedes(out[i].as_str(), s.as_str())
            invariant
                w == views(out@),
                i <= out@.len(),
                forall|k: int| 0 <= k < i ==> precedes(#[trigger] w[k], s@),
            decreases out@.len() - i,
        {
            assert(w[i as int] == out@[i as int]@);
            i += 1;
        }
        proof {
            place_is_place(w, s@);
            if i < out@.len() {
                assert(w[i as int] == out@[i as int]@);
                if place_of(w, s@) > i {
                    assert(precedes(w[i as int], s@));
                }
            }
            if place_of(w, s@) < i {
                assert(precedes(w[place_of(w, s@) as int], s@));
            }
        }
        assert(place_of(w, s@) == i);
        if !(i < out.len() && str_eq(out[i].as_str(), s.as_str())) {
            out.insert(i, s);
            assert(views(out@) =~= w.insert(i as int, s@));
        }
    }
    assert(all.take(all.len() as int) =~= all);
    out
}

} // verus!
