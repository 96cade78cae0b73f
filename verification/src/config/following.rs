//! Laws on the references of a configuration: what is looked up, and when that comes to an end.

use vstd::prelude::*;

use super::references::{
    block, followed, found_at, import_at, same, Asked, Asks, DocsModel, KindModel, TestModel,
    TreeModel,
};

verus! {

// ---------------------------------------------------------------------------------------------
// What is looked up
// ---------------------------------------------------------------------------------------------

/// A reference is looked up by its path, one that begins with `var` by the rest of it. What the
/// environment, the machine or the running program says is not looked up among the values.
pub proof fn references_are_looked_up_by_path(d: DocsModel, p: Seq<Seq<char>>)
    requires
        p.len() > 0,
    ensures
        p[0] != "env"@ && p[0] != "sys"@ && p[0] != "runtime"@ && p[0] != "var"@ ==> d.needed(
            TreeModel::Reference(p),
        ) == seq![p],
        p[0] == "var"@ && p.len() >= 2 ==> d.needed(TreeModel::Reference(p)) == seq![p.skip(1)],
        p[0] == "env"@ && p.len() == 2 ==> d.needed(TreeModel::Reference(p)).len() == 0,
        p[0] == "sys"@ || p[0] == "runtime"@ ==> d.needed(TreeModel::Reference(p)).len() == 0,
{
    reveal_strlit("env");
    reveal_strlit("sys");
    reveal_strlit("runtime");
    reveal_strlit("var");
    assert("env"@[0] == 'e' && "sys"@[0] == 's' && "runtime"@[0] == 'r' && "var"@[0] == 'v');
    assert(followed(p) is Some ==> d.needed(TreeModel::Reference(p)) == seq![followed(p)->0]);
}

proof fn live_part_is_needed(
    d: DocsModel,
    k: KindModel,
    c: Seq<(Seq<char>, TreeModel)>,
    n: int,
    i: int,
    q: Seq<Seq<char>>,
)
    requires
        0 <= i < n <= c.len(),
        d.is_live(k, c, i),
        d.needed(c[i].1).contains(q),
    ensures
        d.parts_needed(k, c, n).contains(q),
    decreases n,
{
    let before = d.parts_needed(k, c, n - 1);
    let own = d.needed(c[n - 1].1);
    let all = before + own;
    if i == n - 1 {
        let j = choose|j: int| 0 <= j < own.len() && own[j] == q;
        assert(all[before.len() + j] == q);
        assert(all.contains(q));
    } else {
        live_part_is_needed(d, k, c, n - 1, i, q);
        let j = choose|j: int| 0 <= j < before.len() && before[j] == q;
        assert(all[j] == q);
        assert(all.contains(q));
    }
}

proof fn needed_comes_from_a_live_part(
    d: DocsModel,
    k: KindModel,
    c: Seq<(Seq<char>, TreeModel)>,
    n: int,
    q: Seq<Seq<char>>,
)
    requires
        0 <= n <= c.len(),
        d.parts_needed(k, c, n).contains(q),
    ensures
        exists|i: int|
            0 <= i < n && d.is_live(k, c, i) && d.needed((#[trigger] c[i]).1).contains(q),
    decreases n,
{
    if n > 0 {
        let before = d.parts_needed(k, c, n - 1);
        let own = d.needed(c[n - 1].1);
        let all = d.parts_needed(k, c, n);
        let j = choose|j: int| 0 <= j < all.len() && all[j] == q;
        if j < before.len() {
            assert(before[j] == q);
            assert(before.contains(q));
            needed_comes_from_a_live_part(d, k, c, n - 1, q);
        } else {
            assert(own[j - before.len()] == q);
            assert(own.contains(q));
            assert(d.needed(c[n - 1].1).contains(q));
        }
    }
}

/// A list, a block and an annotated value need what their parts need, each of them, and nothing
/// else.
pub proof fn every_part_is_looked_into(
    d: DocsModel,
    k: KindModel,
    c: Seq<(Seq<char>, TreeModel)>,
    i: int,
    q: Seq<Seq<char>>,
)
    requires
        k == KindModel::List || k == KindModel::Block || k == KindModel::Annotated,
    ensures
        0 <= i < c.len() && d.needed(c[i].1).contains(q) ==> d.needed(
            TreeModel::Node(k, c),
        ).contains(q),
        d.needed(TreeModel::Node(k, c)).contains(q) ==> exists|j: int|
            0 <= j < c.len() && d.needed((#[trigger] c[j]).1).contains(q),
{
    let n = c.len() as int;
    if 0 <= i < c.len() && d.needed(c[i].1).contains(q) {
        live_part_is_needed(d, k, c, n, i, q);
    }
    if d.needed(TreeModel::Node(k, c)).contains(q) {
        needed_comes_from_a_live_part(d, k, c, n, q);
    }
}

/// A condition that is decided needs what the branch needs that it picks, and nothing of the other.
pub proof fn picked_branch_is_looked_into(
    d: DocsModel,
    t: TestModel,
    c: Seq<(Seq<char>, TreeModel)>,
    v: Option<TreeModel>,
    q: Seq<Seq<char>>,
)
    requires
        d.asked(t.path) == Asked::Found(v),
        t.asks == Asks::Exists || t.asks == Asks::Lacks,
        c.len() == 2,
    ensures
        ({
            let holds = if t.asks == Asks::Exists {
                v is Some
            } else {
                v is None
            };
            let picked = if holds {
                c[0].1
            } else {
                c[1].1
            };
            &&& d.needed(TreeModel::Node(KindModel::Choice(t), c)).contains(q) <==> d.needed(
                picked,
            ).contains(q)
            &&& d.needed(TreeModel::Node(KindModel::When(t), c)).contains(q) <==> d.needed(
                picked,
            ).contains(q)
        }),
{
    let holds = if t.asks == Asks::Exists {
        v is Some
    } else {
        v is None
    };
    let i: int = if holds {
        0
    } else {
        1
    };
    branch_alone_counts(d, KindModel::Choice(t), c, i, q);
    branch_alone_counts(d, KindModel::When(t), c, i, q);
}

proof fn branch_alone_counts(
    d: DocsModel,
    k: KindModel,
    c: Seq<(Seq<char>, TreeModel)>,
    i: int,
    q: Seq<Seq<char>>,
)
    requires
        0 <= i < c.len(),
        forall|j: int| 0 <= j < c.len() ==> (#[trigger] d.is_live(k, c, j) <==> j == i),
    ensures
        d.needed(TreeModel::Node(k, c)).contains(q) <==> d.needed(c[i].1).contains(q),
{
    let n = c.len() as int;
    assert(d.is_live(k, c, i));
    if d.needed(c[i].1).contains(q) {
        live_part_is_needed(d, k, c, n, i, q);
    }
    if d.needed(TreeModel::Node(k, c)).contains(q) {
        needed_comes_from_a_live_part(d, k, c, n, q);
        let j = choose|j: int|
            0 <= j < n && d.is_live(k, c, j) && d.needed((#[trigger] c[j]).1).contains(q);
        assert(d.is_live(k, c, j));
    }
}

/// A condition on equality and one on difference have opposite answers, and so have one on presence
/// and one on absence. Nothing equals a value that is not there.
pub proof fn opposite_conditions_differ(
    path: Seq<char>,
    v: Option<TreeModel>,
    parts: Seq<(Seq<char>, TreeModel)>,
)
    ensures
        (TestModel { path, asks: Asks::Equals }).answer(v, parts) != (TestModel {
            path,
            asks: Asks::Differs,
        }).answer(v, parts),
        (TestModel { path, asks: Asks::Exists }).answer(v, parts) == (v is Some),
        (TestModel { path, asks: Asks::Lacks }).answer(v, parts) == (v is None),
        v is None ==> !(TestModel { path, asks: Asks::Equals }).answer(v, parts),
{
}

/// Texts, flags and references equal what is written alike, and nothing else.
pub proof fn plain_values_equal_themselves(a: Seq<char>, b: Seq<char>, x: bool, y: bool)
    ensures
        same(TreeModel::Text(a), TreeModel::Text(b)) <==> a == b,
        same(TreeModel::Flag(x), TreeModel::Flag(y)) <==> x == y,
        same(TreeModel::Null, TreeModel::Null),
        !same(TreeModel::Text(a), TreeModel::Flag(x)),
        !same(TreeModel::Text(a), TreeModel::Regex(a)),
{
}

// ---------------------------------------------------------------------------------------------
// Where a path leads
// ---------------------------------------------------------------------------------------------

proof fn first_key_is_found(
    parts: Seq<(Seq<char>, TreeModel)>,
    key: Seq<char>,
    from: int,
    i: int,
)
    requires
        0 <= from <= i < parts.len(),
        parts[i].0 == key,
        !(parts[i].1 matches TreeModel::Node(KindModel::When(_), _)),
        forall|n: int| from <= n < i ==> (#[trigger] parts[n]).0 != key,
    ensures
        found_at(parts, key, from) == i,
    decreases i - from,
{
    if from < i {
        assert(parts[from].0 != key);
        first_key_is_found(parts, key, from + 1, i);
    }
}

proof fn no_import_is_found(
    imports: Seq<(Seq<char>, Seq<(Seq<char>, TreeModel)>)>,
    alias: Seq<char>,
    from: int,
)
    requires
        0 <= from <= imports.len(),
        forall|n: int| from <= n < imports.len() ==> (#[trigger] imports[n]).0 != alias,
    ensures
        import_at(imports, alias, from) == imports.len(),
    decreases imports.len() - from,
{
    if from < imports.len() {
        assert(imports[from].0 != alias);
        no_import_is_found(imports, alias, from + 1);
    }
}

/// A name leads to the first value of that name, and a path on from there into the block that it
/// names. The names of imports come before those of the file itself.
pub proof fn names_lead_to_their_values(
    d: DocsModel,
    i: int,
    inner: Seq<(Seq<char>, TreeModel)>,
    j: int,
)
    requires
        0 <= i < d.main.len(),
        !(d.main[i].1 matches TreeModel::Node(KindModel::When(_), _)),
        forall|n: int| 0 <= n < i ==> (#[trigger] d.main[n]).0 != d.main[i].0,
        forall|n: int| 0 <= n < d.imports.len() ==> (#[trigger] d.imports[n]).0 != d.main[i].0,
    ensures
        d.looked_up(seq![d.main[i].0]) == Some(d.main[i].1),
        d.main[i].1 == TreeModel::Node(KindModel::Block, inner) && 0 <= j < inner.len() && !(
        inner[j].1 matches TreeModel::Node(KindModel::When(_), _)) && (forall|n: int|
            0 <= n < j ==> (#[trigger] inner[n]).0 != inner[j].0) ==> d.looked_up(
            seq![d.main[i].0, inner[j].0],
        ) == Some(inner[j].1),
{
    let k = d.main[i].0;
    no_import_is_found(d.imports, k, 0);
    first_key_is_found(d.main, k, 0, i);
    let p = seq![k];
    assert(p.skip(1) =~= Seq::<Seq<char>>::empty());
    reveal_with_fuel(TreeModel::down, 3);
    if d.main[i].1 == TreeModel::Node(KindModel::Block, inner) && 0 <= j < inner.len() && !(
    inner[j].1 matches TreeModel::Node(KindModel::When(_), _)) && (forall|n: int|
        0 <= n < j ==> (#[trigger] inner[n]).0 != inner[j].0) {
        let q = seq![k, inner[j].0];
        assert(q.skip(1) =~= seq![inner[j].0]);
        assert(q.skip(1).skip(1) =~= Seq::<Seq<char>>::empty());
        first_key_is_found(inner, inner[j].0, 0, j);
        assert(q.skip(1)[0] == inner[j].0);
    }
}

// ---------------------------------------------------------------------------------------------
// Whether it comes to an end
// ---------------------------------------------------------------------------------------------

/// A value that refers to itself is looked up without end.
pub proof fn reference_to_itself_does_not_end(d: DocsModel, i: int)
    requires
        0 <= i < d.main.len(),
        d.main[i].1 == TreeModel::Reference(seq![d.main[i].0]),
        d.main[i].0 != "env"@,
        d.main[i].0 != "sys"@,
        d.main[i].0 != "runtime"@,
        d.main[i].0 != "var"@,
        forall|n: int| 0 <= n < i ==> (#[trigger] d.main[n]).0 != d.main[i].0,
        forall|n: int| 0 <= n < d.imports.len() ==> (#[trigger] d.imports[n]).0 != d.main[i].0,
    ensures
        !d.ends(),
{
    let p = seq![d.main[i].0];
    references_are_looked_up_by_path(d, p);
    assert(d.needed(d.main[i].1)[0] == p);
    assert(d.needed(d.main[i].1).contains(p));
    every_part_is_looked_into(d, KindModel::Block, d.main, i, p);
    names_lead_to_their_values(d, i, Seq::empty(), 0);
    super::references::a_loop_does_not_end(d, p);
}

/// Where what is referred to refers to nothing itself, looking up comes to an end.
pub proof fn references_to_plain_values_end(d: DocsModel)
    requires
        forall|p: Seq<Seq<char>>| #[trigger]
            d.needed(block(d.main)).contains(p) ==> (d.looked_up(p) matches Some(t) ==> d.needed(
                t,
            ).len() == 0),
    ensures
        d.ends(),
{
    let needs = d.needed(block(d.main));
    let rank = Map::new(|p: Seq<Seq<char>>| needs.contains(p), |p: Seq<Seq<char>>| 0nat);
    assert forall|j: int| 0 <= j < needs.len() implies rank.contains_key(#[trigger] needs[j]) by {
        assert(needs.contains(needs[j]));
    }
    assert forall|p: Seq<Seq<char>>| #[trigger] rank.contains_key(p) implies d.leads_down(
        rank,
        p,
    ) by {
        assert(d.needed(block(d.main)).contains(p));
    }
    assert(d.ranked(rank));
}

} // verus!
