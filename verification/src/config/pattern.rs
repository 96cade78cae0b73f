//! Patterns of the inhibit lists.

use vstd::prelude::*;

use crate::text::strings::{cat, contains, has_part, str_eq};

verus! {

/// Pattern used for inhibit lists (applications that inhibit, media sources that do not).
///
/// Literals are expected in lower case: the loader brings them into that form.
#[derive(Debug)]
pub enum Pattern {
    Literal(String),
    /// The source text of a regular expression.
    Regex(String),
}

/// What stands for a [`Pattern`] in contracts.
pub enum PatternModel {
    Literal(Seq<char>),
    Regex(Seq<char>),
}

impl View for Pattern {
    type V = PatternModel;

    open spec fn view(&self) -> PatternModel {
        match self {
            Pattern::Literal(s) => PatternModel::Literal(s@),
            Pattern::Regex(s) => PatternModel::Regex(s@),
        }
    }
}

/// Whether the regular expression with this source matches somewhere in `hay`; `None` if the
/// source is no regular expression.
pub uninterp spec fn regex_match(source: Seq<char>, hay: Seq<char>) -> Option<bool>;

/// Compiles `source` with `regex::Regex::new` and asks `regex::Regex::is_match` about `hay`.
/// Claimed is only that the answer depends on the two texts alone; that the compiler refuses the
/// source is answered by `None`.
#[verifier::external_body]
fn regex_is_match(source: &str, hay: &str) -> (r: Option<bool>)
    ensures
        r == regex_match(source@, hay@),
{
    match regex::Regex::new(source) {
        Ok(re) => Some(re.is_match(hay)),
        Err(_) => None,
    }
}

impl PatternModel {
    /// A literal that is not empty matches every text that it is a part of, a regular expression
    /// what its engine finds it in.
    pub open spec fn matches(self, hay: Seq<char>) -> bool {
        match self {
            PatternModel::Literal(s) => s.len() > 0 && has_part(hay, s),
            PatternModel::Regex(source) => regex_match(source, hay) == Some(true),
        }
    }

    /// The pattern as it is shown: a regular expression stands between slashes.
    pub open spec fn shown(self) -> Seq<char> {
        match self {
            PatternModel::Literal(s) => s,
            PatternModel::Regex(source) => "/"@ + source + "/"@,
        }
    }
}

/// What stands for a list of patterns in contracts.
pub open spec fn pattern_views(v: Seq<Pattern>) -> Seq<PatternModel> {
    v.map_values(|p: Pattern| p@)
}

/// Some pattern of the list matches `hay`.
pub open spec fn some_matches(v: Seq<PatternModel>, hay: Seq<char>) -> bool {
    exists|i: int| 0 <= i < v.len() && #[trigger] v[i].matches(hay)
}

/// Whether a regular expression that was tried counts as matching: one that could not be
/// compiled does not.
pub fn regex_counts(answer: Option<bool>) -> (r: bool)
    ensures
        r == (answer == Some(true)),
{
    match answer {
        Some(b) => b,
        None => false,
    }
}

/// Whether the regular expression with this source matches somewhere in `hay`.
pub fn regex_found(source: &str, hay: &str) -> (r: bool)
    ensures
        r == (regex_match(source@, hay@) == Some(true)),
{
    regex_counts(regex_is_match(source, hay))
}

impl Pattern {
    /// Match against a lowercase haystack string.
    pub fn matches_lc(&self, hay_lc: &str) -> (r: bool)
        ensures
            r == self@.matches(hay_lc@),
    {
        match self {
            Pattern::Literal(s) => s.as_str().unicode_len() > 0 && contains(hay_lc, s.as_str()),
            Pattern::Regex(source) => regex_found(source.as_str(), hay_lc),
        }
    }

    /// The pattern as it is shown to the user.
    pub fn render(&self) -> (r: String)
        ensures
            r@ == self@.shown(),
    {
        match self {
            Pattern::Literal(s) => s.clone(),
            Pattern::Regex(source) => {
                let opened = cat("/", source.as_str());
                cat(opened.as_str(), "/")
            },
        }
    }
}

impl Clone for Pattern {
    fn clone(&self) -> (r: Self)
        ensures
            r@ == self@,
    {
        match self {
            Pattern::Literal(s) => Pattern::Literal(s.clone()),
            Pattern::Regex(s) => Pattern::Regex(s.clone()),
        }
    }
}

/// The two lists show the same patterns in the same order.
pub open spec fn shown_alike(a: Seq<PatternModel>, b: Seq<PatternModel>) -> bool {
    a.len() == b.len() && forall|i: int|
        0 <= i < a.len() ==> (#[trigger] a[i]).shown() == b[i].shown()
}

/// Whether the two lists show the same patterns in the same order.
pub fn patterns_same(a: &Vec<Pattern>, b: &Vec<Pattern>) -> (r: bool)
    ensures
        r == shown_alike(pattern_views(a@), pattern_views(b@)),
{
    let ghost x = pattern_views(a@);
    let ghost y = pattern_views(b@);
    if a.len() != b.len() {
        return false;
    }
    for i in 0..a.len()
        invariant
            a.len() == b.len(),
            x == pattern_views(a@),
            y == pattern_views(b@),
            forall|k: int| 0 <= k < i ==> (#[trigger] x[k]).shown() == y[k].shown(),
    {
        assert(x[i as int] == a@[i as int]@ && y[i as int] == b@[i as int]@);
        if !str_eq(a[i].render().as_str(), b[i].render().as_str()) {
            return false;
        }
    }
    true
}

/// A copy of a list of patterns.
pub fn clone_patterns(v: &Vec<Pattern>) -> (r: Vec<Pattern>)
    ensures
        pattern_views(r@) == pattern_views(v@),
{
    let mut out: Vec<Pattern> = Vec::new();
    for i in 0..v.len()
        invariant
            pattern_views(out@) == pattern_views(v@).take(i as int),
    {
        let p = v[i].clone();
        let ghost before = out@;
        out.push(p);
        assert(pattern_views(out@) =~= pattern_views(before).push(p@));
        assert(pattern_views(v@).take(i + 1) =~= pattern_views(v@).take(i as int).push(v@[i as int]@));
    }
    assert(pattern_views(v@).take(v@.len() as int) =~= pattern_views(v@));
    out
}

/// Whether some pattern of the list matches `hay`.
pub fn any_matches(v: &Vec<Pattern>, hay: &str) -> (r: bool)
    ensures
        r == some_matches(pattern_views(v@), hay@),
{
    for i in 0..v.len()
        invariant
            forall|j: int| 0 <= j < i ==> !(#[trigger] pattern_views(v@)[j]).matches(hay@),
    {
        if v[i].matches_lc(hay) {
            assert(pattern_views(v@)[i as int].matches(hay@));
            return true;
        }
        assert(pattern_views(v@)[i as int] == v@[i as int]@);
    }
    false
}

} // verus!
