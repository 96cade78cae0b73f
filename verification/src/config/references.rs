//! The references of a parsed configuration, and whether looking them up comes to an end.
//!
//! `rune_cfg` puts the value that a reference names in its place, and goes on with the references
//! in that value. It does not notice when it comes back to where it was. So before anything is
//! looked up, the configuration is taken apart into plain values, and these are tested.

use rune_cfg::ast::{AnnotatedValue, Condition, ConditionalValue, ObjectItem};
use rune_cfg::{Document, RuneConfig, Value};
use vstd::prelude::*;

use crate::text::chars::{alphanumeric, is_alphanumeric};
use crate::text::split::{fields_of, fields_of_one, split_char};
use crate::text::strings::{chars_of, str_eq, string_of, views};

verus! {

// ---------------------------------------------------------------------------------------------
// Configurations as plain values
// ---------------------------------------------------------------------------------------------

/// What a condition asks of the value at a path.
#[derive(Debug, Clone, Copy, PartialEq, Eq, Structural)]
pub enum Asks {
    Equals,
    Differs,
    Exists,
    Lacks,
}

/// A condition, but for the value that it compares with.
#[derive(Debug)]
pub struct Test {
    pub path: String,
    pub asks: Asks,
}

/// What a value that has parts is.
#[derive(Debug)]
pub enum Kind {
    List,
    Joined,
    /// Keys with their values; a part may also be a block that a condition decides on.
    Block,
    /// A value, and behind it its attributes.
    Annotated,
    /// What the condition compares with, if it compares, the value if it holds, and the one if it
    /// does not.
    Choice(Test),
    /// What the condition compares with, if it compares, the block if it holds, and the one if it
    /// does not.
    When(Test),
}

/// A value as it is written.
#[derive(Debug)]
pub enum Tree {
    Null,
    Flag(bool),
    /// A number, by the bits of its double precision.
    Number(u64),
    Text(String),
    /// A regular expression, by its source.
    Regex(String),
    Reference(Vec<String>),
    Node(Kind, Vec<(String, Tree)>),
}

/// The values of a configuration and of what it imports. Those of a file stand in the order in
/// which they are searched.
#[derive(Debug)]
pub struct Docs {
    pub main: Vec<(String, Tree)>,
    pub imports: Vec<(String, Vec<(String, Tree)>)>,
}

/// What stands for a [`Test`] in contracts.
#[verifier::ext_equal]
pub struct TestModel {
    pub path: Seq<char>,
    pub asks: Asks,
}

/// What stands for a [`Kind`] in contracts.
#[verifier::ext_equal]
pub enum KindModel {
    List,
    Joined,
    Block,
    Annotated,
    Choice(TestModel),
    When(TestModel),
}

/// What stands for a [`Tree`] in contracts.
#[verifier::ext_equal]
pub enum TreeModel {
    Null,
    Flag(bool),
    Number(u64),
    Text(Seq<char>),
    Regex(Seq<char>),
    Reference(Seq<Seq<char>>),
    Node(KindModel, Seq<(Seq<char>, TreeModel)>),
}

/// What stands for [`Docs`] in contracts.
#[verifier::ext_equal]
pub struct DocsModel {
    pub main: Seq<(Seq<char>, TreeModel)>,
    pub imports: Seq<(Seq<char>, Seq<(Seq<char>, TreeModel)>)>,
}

impl View for Test {
    type V = TestModel;

    open spec fn view(&self) -> TestModel {
        TestModel { path: self.path@, asks: self.asks }
    }
}

impl View for Kind {
    type V = KindModel;

    open spec fn view(&self) -> KindModel {
        match self {
            Kind::List => KindModel::List,
            Kind::Joined => KindModel::Joined,
            Kind::Block => KindModel::Block,
            Kind::Annotated => KindModel::Annotated,
            Kind::Choice(t) => KindModel::Choice(t@),
            Kind::When(t) => KindModel::When(t@),
        }
    }
}

impl Tree {
    /// What the value stands for.
    pub open spec fn model(self) -> TreeModel
        decreases self,
    {
        match self {
            Tree::Null => TreeModel::Null,
            Tree::Flag(b) => TreeModel::Flag(b),
            Tree::Number(n) => TreeModel::Number(n),
            Tree::Text(s) => TreeModel::Text(s@),
            Tree::Regex(s) => TreeModel::Regex(s@),
            Tree::Reference(p) => TreeModel::Reference(views(p@)),
            Tree::Node(k, c) => TreeModel::Node(
                k@,
                Seq::new(
                    c@.len(),
                    |i: int|
                        if 0 <= i < c@.len() {
                            (c@[i].0@, c@[i].1.model())
                        } else {
                            (Seq::empty(), TreeModel::Null)
                        },
                ),
            ),
        }
    }
}

impl View for Tree {
    type V = TreeModel;

    open spec fn view(&self) -> TreeModel {
        self.model()
    }
}

/// What stands for parts in contracts.
pub open spec fn part_views(v: Seq<(String, Tree)>) -> Seq<(Seq<char>, TreeModel)> {
    v.map_values(|p: (String, Tree)| (p.0@, p.1@))
}

impl View for Docs {
    type V = DocsModel;

    open spec fn view(&self) -> DocsModel {
        DocsModel {
            main: part_views(self.main@),
            imports: self.imports@.map_values(
                |p: (String, Vec<(String, Tree)>)| (p.0@, part_views(p.1@)),
            ),
        }
    }
}

/// What stands for a list of paths in contracts.
pub open spec fn path_views(v: Seq<Vec<String>>) -> Seq<Seq<Seq<char>>> {
    v.map_values(|p: Vec<String>| views(p@))
}

/// The values of a configuration as they are written.
pub uninterp spec fn rune_docs(rc: RuneConfig) -> DocsModel;

// ---------------------------------------------------------------------------------------------
// Trusted: taking a configuration of rune_cfg apart
// ---------------------------------------------------------------------------------------------

/// A value of `rune_cfg`, which is only taken apart.
#[verifier::external_type_specification]
#[verifier::external_body]
pub struct ExValue(Value);

/// A part of a block of `rune_cfg`, which is only taken apart.
#[verifier::external_type_specification]
#[verifier::external_body]
pub struct ExObjectItem(ObjectItem);

/// A condition of `rune_cfg`, which is only taken apart.
#[verifier::external_type_specification]
#[verifier::external_body]
pub struct ExCondition(Condition);

/// An inline condition of `rune_cfg`, which is only taken apart.
#[verifier::external_type_specification]
#[verifier::external_body]
pub struct ExConditionalValue(ConditionalValue);

/// A value with attributes of `rune_cfg`, which is only taken apart.
#[verifier::external_type_specification]
#[verifier::external_body]
pub struct ExAnnotatedValue(AnnotatedValue);

/// A file of `rune_cfg`, which is only taken apart.
#[verifier::external_type_specification]
#[verifier::external_body]
pub struct ExDocument(Document);

/// Takes a `rune_cfg::ast::Condition` apart; nothing is claimed of it here.
#[verifier::external_body]
fn test_of(c: &Condition) -> Test {
    match c {
        Condition::Equals(p, _) => Test { path: p.clone(), asks: Asks::Equals },
        Condition::NotEquals(p, _) => Test { path: p.clone(), asks: Asks::Differs },
        Condition::Exists(p) => Test { path: p.clone(), asks: Asks::Exists },
        Condition::NotExists(p) => Test { path: p.clone(), asks: Asks::Lacks },
    }
}

/// Takes the value out of a `rune_cfg::ast::Condition` that it compares with, if it does; nothing
/// is claimed of it here.
#[verifier::external_body]
fn compared_of(c: &Condition) -> Option<Tree> {
    match c {
        Condition::Equals(_, v) => Some(tree_of(v)),
        Condition::NotEquals(_, v) => Some(tree_of(v)),
        Condition::Exists(_) => None,
        Condition::NotExists(_) => None,
    }
}

/// Takes a list of `rune_cfg::ast::ObjectItem` apart, one part for one; nothing is claimed of it
/// here.
#[verifier::external_body]
fn block_of(items: &Vec<ObjectItem>) -> Tree {
    Tree::Node(Kind::Block, items.iter().map(item_of).collect())
}

/// Takes a `rune_cfg::ast::ObjectItem` apart, one part for one; nothing is claimed of it here.
#[verifier::external_body]
fn item_of(i: &ObjectItem) -> (String, Tree) {
    match i {
        ObjectItem::Assign(k, v) => (k.clone(), tree_of(v)),
        ObjectItem::IfBlock(b) => {
            let compared = compared_of(&b.condition).into_iter();
            let all = compared.chain([block_of(&b.then_items)]);
            let all = all.chain(b.else_items.as_ref().map(block_of));
            let parts = all.map(|t| (String::new(), t)).collect();
            (String::new(), Tree::Node(Kind::When(test_of(&b.condition)), parts))
        },
    }
}

/// Takes a `rune_cfg::ast::ConditionalValue` apart, one value for one; nothing is claimed of it
/// here.
#[verifier::external_body]
fn choice_of(c: &ConditionalValue) -> Tree {
    let compared = compared_of(&c.condition).into_iter();
    let all = compared.chain([tree_of(&c.then_value)]);
    let all = all.chain(c.else_value.as_ref().map(tree_of));
    let parts = all.map(|t| (String::new(), t)).collect();
    Tree::Node(Kind::Choice(test_of(&c.condition)), parts)
}

/// Takes a `rune_cfg::ast::AnnotatedValue` apart, one value for one; nothing is claimed of it here.
#[verifier::external_body]
fn annotated_of(a: &AnnotatedValue) -> Tree {
    let rest = a.attributes.iter().map(|(k, v)| (k.clone(), tree_of(v)));
    Tree::Node(Kind::Annotated, [unnamed_of(&a.value)].into_iter().chain(rest).collect())
}

/// Takes a `rune_cfg::Value` apart, one value for one; nothing is claimed of it here.
#[verifier::external_body]
fn tree_of(v: &Value) -> Tree {
    match v {
        Value::Null => Tree::Null,
        Value::Bool(b) => Tree::Flag(*b),
        Value::Number(n) => Tree::Number(n.to_bits()),
        Value::String(s) => Tree::Text(s.clone()),
        Value::Regex(x) => Tree::Regex(x.to_string()),
        Value::Reference(p) => Tree::Reference(p.clone()),
        Value::Array(a) => Tree::Node(Kind::List, a.iter().map(unnamed_of).collect()),
        Value::Interpolated(a) => Tree::Node(Kind::Joined, a.iter().map(unnamed_of).collect()),
        Value::Object(o) => block_of(o),
        Value::Conditional(c) => choice_of(c),
        Value::Annotated(a) => annotated_of(a),
    }
}

/// Takes a `rune_cfg::Value` that has no key apart; nothing is claimed of it here.
#[verifier::external_body]
fn unnamed_of(v: &Value) -> (String, Tree) {
    (String::new(), tree_of(v))
}

/// Takes a `rune_cfg::Document` apart: what it holds as items, and behind it what it holds as
/// globals. Nothing is claimed of it here.
#[verifier::external_body]
fn entries_of(d: &Document) -> Vec<(String, Tree)> {
    let all = d.items.iter().chain(d.globals.iter());
    all.map(|(k, v)| (k.clone(), tree_of(v))).collect()
}

/// Calls `RuneConfig::document`, `RuneConfig::import_aliases` and `RuneConfig::get_document`, and
/// takes apart what they give. Claimed is only that it is what the configuration holds.
#[verifier::external_body]
pub(crate) fn docs_of(rc: &RuneConfig) -> (r: Docs)
    ensures
        r@ == rune_docs(*rc),
{
    let aliases = rc.import_aliases().into_iter();
    let imports = aliases.map(
        |a|
            {
                let entries = rc.get_document(&a).map(entries_of).unwrap_or_default();
                (a, entries)
            },
    ).collect();
    Docs { main: rc.document().map(entries_of).unwrap_or_default(), imports }
}

// ---------------------------------------------------------------------------------------------
// Finding values
// ---------------------------------------------------------------------------------------------

impl TreeModel {
    /// A block that a condition decides on; it has no key.
    pub open spec fn is_when(self) -> bool {
        self matches TreeModel::Node(KindModel::When(_), _)
    }

    /// The value at a path below this one. What a condition decides on is not entered.
    pub open spec fn down(self, path: Seq<Seq<char>>) -> Option<TreeModel>
        decreases path.len(),
    {
        if path.len() == 0 {
            Some(self)
        } else {
            match self {
                TreeModel::Node(KindModel::Block, c) => {
                    let i = found_at(c, path[0], 0);
                    if i < c.len() {
                        c[i].1.down(path.skip(1))
                    } else {
                        None
                    }
                },
                TreeModel::Node(KindModel::Annotated, c) => {
                    let i = found_at(c, path[0], 1);
                    if i < c.len() {
                        c[i].1.down(path.skip(1))
                    } else {
                        None
                    }
                },
                _ => None,
            }
        }
    }
}

/// The position of the first part with this key, from `i` on, or one behind the parts.
pub open spec fn found_at(parts: Seq<(Seq<char>, TreeModel)>, key: Seq<char>, i: int) -> int
    decreases parts.len() - i,
{
    if 0 <= i < parts.len() && !(parts[i].0 == key && !parts[i].1.is_when()) {
        found_at(parts, key, i + 1)
    } else {
        i
    }
}

/// The position of the import of this name, from `i` on, or the number of imports.
pub open spec fn import_at(
    imports: Seq<(Seq<char>, Seq<(Seq<char>, TreeModel)>)>,
    alias: Seq<char>,
    i: int,
) -> int
    decreases imports.len() - i,
{
    if 0 <= i < imports.len() && imports[i].0 != alias {
        import_at(imports, alias, i + 1)
    } else {
        i
    }
}

/// A file as one block.
pub open spec fn block(entries: Seq<(Seq<char>, TreeModel)>) -> TreeModel {
    TreeModel::Node(KindModel::Block, entries)
}

impl DocsModel {
    /// The value at a path, which may begin with the name of an import.
    pub open spec fn looked_up(self, path: Seq<Seq<char>>) -> Option<TreeModel> {
        if path.len() == 0 {
            None
        } else {
            let a = import_at(self.imports, path[0], 0);
            if a < self.imports.len() {
                if path.len() == 1 {
                    None
                } else {
                    block(self.imports[a].1).down(path.skip(1))
                }
            } else {
                block(self.main).down(path)
            }
        }
    }
}

// ---------------------------------------------------------------------------------------------
// Conditions
// ---------------------------------------------------------------------------------------------

/// Two numbers are equal, by the bits of their double precision: a zero equals the negative one,
/// and what is no number equals nothing.
pub open spec fn same_number(a: u64, b: u64) -> bool {
    let x = a % 0x8000_0000_0000_0000;
    let y = b % 0x8000_0000_0000_0000;
    x == 0 && y == 0 || a == b && x <= 0x7ff0_0000_0000_0000
}

/// Two values are equal.
pub open spec fn same(a: TreeModel, b: TreeModel) -> bool
    decreases a,
{
    match (a, b) {
        (TreeModel::Number(x), TreeModel::Number(y)) => same_number(x, y),
        (TreeModel::Node(k, c), TreeModel::Node(l, d)) => k == l && c.len() == d.len() && forall|
            i: int,
        |
            0 <= i < c.len() ==> (#[trigger] c[i]).0 == d[i].0 && same(c[i].1, d[i].1),
        _ => !(a is Node) && a == b,
    }
}

impl TestModel {
    /// The condition compares with a value.
    pub open spec fn compares(self) -> bool {
        self.asks == Asks::Equals || self.asks == Asks::Differs
    }

    /// The position of the part that counts if the condition holds.
    pub open spec fn first_branch(self) -> int {
        if self.compares() {
            1
        } else {
            0
        }
    }

    /// The answer of the condition on what is at its path.
    pub open spec fn answer(
        self,
        value: Option<TreeModel>,
        parts: Seq<(Seq<char>, TreeModel)>,
    ) -> bool {
        let equal = match value {
            Some(v) => parts.len() > 0 && same(v, parts[0].1),
            None => false,
        };
        match self.asks {
            Asks::Equals => equal,
            Asks::Differs => !equal,
            Asks::Exists => value is Some,
            Asks::Lacks => value is None,
        }
    }
}

/// What a condition finds at its path.
#[verifier::ext_equal]
pub enum Asked {
    /// That is for the environment or the machine to say.
    Open,
    Found(Option<TreeModel>),
}

impl DocsModel {
    /// What is at the path of a condition. In a file such a path is a single name, since a
    /// condition ends at a dot there. So only a configuration that was put together without a file
    /// can ask the environment or the machine.
    pub open spec fn asked(self, path: Seq<char>) -> Asked {
        let segs = fields_of(path, '.');
        if segs.len() == 2 && segs[0] == "env"@ || segs.len() >= 2 && segs[0] == "sys"@ {
            Asked::Open
        } else if segs.len() > 2 && segs[0] == "env"@ {
            Asked::Found(None)
        } else if segs.len() >= 2 && segs[0] == "runtime"@ {
            Asked::Found(Some(TreeModel::Reference(segs)))
        } else if segs.len() >= 2 && segs[0] == "var"@ {
            Asked::Found(self.looked_up(segs.skip(1)))
        } else {
            Asked::Found(self.looked_up(segs))
        }
    }

    /// The condition can have this answer.
    pub open spec fn may_answer(
        self,
        t: TestModel,
        parts: Seq<(Seq<char>, TreeModel)>,
        answer: bool,
    ) -> bool {
        match self.asked(t.path) {
            Asked::Open => true,
            Asked::Found(v) => t.answer(v, parts) == answer,
        }
    }

    /// The references in the part at `i` may be looked up.
    pub open spec fn is_live(
        self,
        k: KindModel,
        parts: Seq<(Seq<char>, TreeModel)>,
        i: int,
    ) -> bool {
        match k {
            KindModel::List | KindModel::Block | KindModel::Annotated => true,
            KindModel::Joined => false,
            KindModel::Choice(t) | KindModel::When(t) => {
                ||| i == t.first_branch() && self.may_answer(t, parts, true)
                ||| i == t.first_branch() + 1 && self.may_answer(t, parts, false)
            },
        }
    }
}

// ---------------------------------------------------------------------------------------------
// References
// ---------------------------------------------------------------------------------------------

/// The path that a reference is looked up by, if it is looked up among the values.
pub open spec fn followed(p: Seq<Seq<char>>) -> Option<Seq<Seq<char>>> {
    if p.len() == 2 && p[0] == "env"@ || p.len() > 0 && (p[0] == "sys"@ || p[0] == "runtime"@) {
        None
    } else if p.len() > 0 && p[0] == "var"@ {
        if p.len() < 2 {
            None
        } else {
            Some(p.skip(1))
        }
    } else {
        Some(p)
    }
}

/// A character of a name.
pub open spec fn in_name(c: char) -> bool {
    alphanumeric(c) || c == '_' || c == '-'
}

/// How far, from `i` on, names go that single dots keep apart.
pub open spec fn names_end(s: Seq<char>, i: int) -> int
    decreases s.len() - i,
{
    if 0 <= i < s.len() && (in_name(s[i]) || s[i] == '.' && 0 < i && i + 1 < s.len() && in_name(
        s[i + 1],
    )) {
        names_end(s, i + 1)
    } else {
        i
    }
}

/// The path of the reference in a text that this piece behind a dollar sign begins with, if it is
/// looked up.
pub open spec fn piece_path(piece: Seq<char>) -> Seq<Seq<Seq<char>>> {
    let p = fields_of(piece.take(names_end(piece, 0)), '.');
    if p.len() >= 2 && p[0] == "var"@ {
        seq![p.skip(1)]
    } else {
        Seq::empty()
    }
}

/// The paths of the references in a text, of which these are the first `n` pieces between the
/// dollar signs.
pub open spec fn text_paths(all: Seq<Seq<char>>, n: int) -> Seq<Seq<Seq<char>>>
    decreases n,
{
    if n <= 1 {
        Seq::empty()
    } else {
        text_paths(all, n - 1) + piece_path(all[n - 1])
    }
}

impl DocsModel {
    /// The paths that are looked up to put the values in place of the references in `t`, without
    /// those that follow from these values.
    pub open spec fn needed(self, t: TreeModel) -> Seq<Seq<Seq<char>>>
        decreases t, 0int,
    {
        match t {
            TreeModel::Reference(p) => match followed(p) {
                Some(q) => seq![q],
                None => Seq::empty(),
            },
            TreeModel::Text(s) => text_paths(fields_of(s, '$'), fields_of(s, '$').len() as int),
            TreeModel::Node(k, c) => self.parts_needed(k, c, c.len() as int),
            _ => Seq::empty(),
        }
    }

    /// The paths that are looked up for the first `n` parts.
    pub open spec fn parts_needed(
        self,
        k: KindModel,
        c: Seq<(Seq<char>, TreeModel)>,
        n: int,
    ) -> Seq<Seq<Seq<char>>>
        decreases c, n,
    {
        if !(0 < n <= c.len()) {
            Seq::empty()
        } else {
            let before = self.parts_needed(k, c, n - 1);
            if self.is_live(k, c, n - 1) {
                before + self.needed(c[n - 1].1)
            } else {
                before
            }
        }
    }

    /// What is looked up at `p` needs only paths of a lower rank.
    pub open spec fn leads_down(self, rank: Map<Seq<Seq<char>>, nat>, p: Seq<Seq<char>>) -> bool {
        match self.looked_up(p) {
            None => true,
            Some(t) => forall|j: int|
                0 <= j < self.needed(t).len() ==> rank.contains_key(#[trigger] self.needed(t)[j])
                    && rank[self.needed(t)[j]] < rank[p],
        }
    }

    /// The paths that the configuration needs have ranks, and each leads to lower ones only.
    pub open spec fn ranked(self, rank: Map<Seq<Seq<char>>, nat>) -> bool {
        &&& forall|j: int|
            0 <= j < self.needed(block(self.main)).len() ==> rank.contains_key(
                #[trigger] self.needed(block(self.main))[j],
            )
        &&& forall|p: Seq<Seq<char>>| #[trigger] rank.contains_key(p) ==> self.leads_down(rank, p)
    }

    /// Looking up the references comes to an end, whatever the environment and the machine say: no
    /// reference leads back to itself.
    pub open spec fn ends(self) -> bool {
        exists|rank: Map<Seq<Seq<char>>, nat>| #[trigger] self.ranked(rank)
    }
}

// ---------------------------------------------------------------------------------------------
// Looking for references
// ---------------------------------------------------------------------------------------------

proof fn node_view(t: Tree)
    ensures
        t matches Tree::Node(k, c) ==> t@ == TreeModel::Node(k@, part_views(c@)),
{
    if let Tree::Node(k, c) = t {
        assert(t@->Node_1 =~= part_views(c@));
    }
}

fn same_names(a: &Vec<String>, b: &Vec<String>) -> (r: bool)
    ensures
        r == (views(a@) == views(b@)),
{
    assert(views(a@).len() == a@.len() && views(b@).len() == b@.len());
    if a.len() != b.len() {
        return false;
    }
    for i in 0..a.len()
        invariant
            a@.len() == b@.len(),
            forall|k: int| 0 <= k < i ==> views(a@)[k] == views(b@)[k],
    {
        assert(views(a@)[i as int] == a@[i as int]@ && views(b@)[i as int] == b@[i as int]@);
        if !str_eq(a[i].as_str(), b[i].as_str()) {
            return false;
        }
    }
    assert(views(a@) =~= views(b@));
    true
}

fn same_test(a: &Test, b: &Test) -> (r: bool)
    ensures
        r == (a@ == b@),
{
    a.asks == b.asks && str_eq(a.path.as_str(), b.path.as_str())
}

fn same_kind(a: &Kind, b: &Kind) -> (r: bool)
    ensures
        r == (a@ == b@),
{
    match (a, b) {
        (Kind::List, Kind::List) => true,
        (Kind::Joined, Kind::Joined) => true,
        (Kind::Block, Kind::Block) => true,
        (Kind::Annotated, Kind::Annotated) => true,
        (Kind::Choice(x), Kind::Choice(y)) => same_test(x, y),
        (Kind::When(x), Kind::When(y)) => same_test(x, y),
        _ => false,
    }
}

/// Whether two values are equal.
pub fn same_tree(a: &Tree, b: &Tree) -> (r: bool)
    ensures
        r == same(a@, b@),
    decreases a,
{
    match (a, b) {
        (Tree::Null, Tree::Null) => true,
        (Tree::Flag(x), Tree::Flag(y)) => *x == *y,
        (Tree::Number(x), Tree::Number(y)) => {
            let p: u64 = *x % 0x8000_0000_0000_0000;
            let q: u64 = *y % 0x8000_0000_0000_0000;
            p == 0 && q == 0 || *x == *y && p <= 0x7ff0_0000_0000_0000
        },
        (Tree::Text(x), Tree::Text(y)) => str_eq(x.as_str(), y.as_str()),
        (Tree::Regex(x), Tree::Regex(y)) => str_eq(x.as_str(), y.as_str()),
        (Tree::Reference(x), Tree::Reference(y)) => same_names(x, y),
        (Tree::Node(k, c), Tree::Node(l, d)) => {
            proof {
                node_view(*a);
                node_view(*b);
            }
            let ghost cs = part_views(c@);
            let ghost ds = part_views(d@);
            assert(cs.len() == c@.len() && ds.len() == d@.len());
            if !same_kind(k, l) || c.len() != d.len() {
                return false;
            }
            #[verifier::loop_isolation(false)]
            for i in 0..c.len()
                invariant
                    forall|j: int|
                        0 <= j < i ==> (#[trigger] cs[j]).0 == ds[j].0 && same(cs[j].1, ds[j].1),
            {
                assert(decreases_to!(*a => c@[i as int]));
                assert(decreases_to!(c@[i as int] => c@[i as int].1));
                assert(cs[i as int] == (c@[i as int].0@, c@[i as int].1@));
                assert(ds[i as int] == (d@[i as int].0@, d@[i as int].1@));
                if !str_eq(c[i].0.as_str(), d[i].0.as_str()) || !same_tree(&c[i].1, &d[i].1) {
                    return false;
                }
            }
            true
        },
        _ => false,
    }
}

fn is_when(t: &Tree) -> (r: bool)
    ensures
        r == t@.is_when(),
{
    match t {
        Tree::Node(Kind::When(_), _) => true,
        _ => false,
    }
}

fn find_part(parts: &Vec<(String, Tree)>, key: &str, from: usize) -> (r: Option<usize>)
    ensures
        match r {
            Some(i) => from <= i < parts@.len() && i == found_at(
                part_views(parts@),
                key@,
                from as int,
            ),
            None => found_at(part_views(parts@), key@, from as int) >= parts@.len(),
        },
{
    let ghost v = part_views(parts@);
    let mut i: usize = from;
    while i < parts.len()
        invariant
            from <= i,
            v == part_views(parts@),
            found_at(v, key@, from as int) == found_at(v, key@, i as int),
        decreases parts@.len() - i,
    {
        assert(v[i as int] == (parts@[i as int].0@, parts@[i as int].1@));
        if str_eq(parts[i].0.as_str(), key) && !is_when(&parts[i].1) {
            return Some(i);
        }
        i += 1;
    }
    None
}

fn go_down<'a>(t: &'a Tree, path: &Vec<String>, at: usize) -> (r: Option<&'a Tree>)
    requires
        at <= path@.len(),
    ensures
        match r {
            Some(u) => t@.down(views(path@).skip(at as int)) == Some(u@),
            None => t@.down(views(path@).skip(at as int)) is None,
        },
    decreases path@.len() - at,
{
    let ghost rest = views(path@).skip(at as int);
    if at == path.len() {
        return Some(t);
    }
    proof {
        node_view(*t);
        assert(rest[0] == path@[at as int]@);
        assert(rest.skip(1) =~= views(path@).skip(at + 1));
    }
    match t {
        Tree::Node(k, c) => {
            let from: usize = match k {
                Kind::Block => 0,
                Kind::Annotated => 1,
                _ => return None,
            };
            match find_part(c, path[at].as_str(), from) {
                Some(i) => {
                    assert(part_views(c@)[i as int] == (c@[i as int].0@, c@[i as int].1@));
                    go_down(&c[i].1, path, at + 1)
                },
                None => None,
            }
        },
        _ => None,
    }
}

/// The value at a path below the entries of a file.
fn go_down_from<'a>(entries: &'a Vec<(String, Tree)>, path: &Vec<String>, at: usize) -> (r: Option<
    &'a Tree,
>)
    requires
        at < path@.len(),
    ensures
        match r {
            Some(u) => block(part_views(entries@)).down(views(path@).skip(at as int)) == Some(u@),
            None => block(part_views(entries@)).down(views(path@).skip(at as int)) is None,
        },
{
    let ghost rest = views(path@).skip(at as int);
    let n: usize = path.len();
    proof {
        assert(at < n);
        assert(rest[0] == path@[at as int]@);
        assert(rest.skip(1) =~= views(path@).skip(at + 1));
    }
    match find_part(entries, path[at].as_str(), 0) {
        Some(i) => {
            assert(part_views(entries@)[i as int] == (
                entries@[i as int].0@,
                entries@[i as int].1@,
            ));
            go_down(&entries[i].1, path, at + 1)
        },
        None => None,
    }
}

impl Docs {
    /// The value at a path, which may begin with the name of an import.
    pub fn look_up(&self, path: &Vec<String>) -> (r: Option<&Tree>)
        ensures
            match r {
                Some(u) => self@.looked_up(views(path@)) == Some(u@),
                None => self@.looked_up(views(path@)) is None,
            },
    {
        let ghost p = views(path@);
        assert(p.len() == path@.len());
        if path.len() == 0 {
            return None;
        }
        assert(p[0] == path@[0]@);
        assert(p.skip(0) =~= p);
        let mut i: usize = 0;
        while i < self.imports.len()
            invariant
                i <= self.imports@.len(),
                path@.len() > 0,
                p == views(path@),
                p.len() == path@.len(),
                p[0] == path@[0]@,
                import_at(self@.imports, p[0], 0) == import_at(self@.imports, p[0], i as int),
            decreases self.imports@.len() - i,
        {
            assert(self@.imports[i as int] == (
                self.imports@[i as int].0@,
                part_views(self.imports@[i as int].1@),
            ));
            if str_eq(self.imports[i].0.as_str(), path[0].as_str()) {
                if path.len() == 1 {
                    return None;
                }
                return go_down_from(&self.imports[i].1, path, 1);
            }
            i += 1;
        }
        go_down_from(&self.main, path, 0)
    }

    /// Whether a condition can have this answer.
    fn can_answer(&self, t: &Test, parts: &Vec<(String, Tree)>, answer: bool) -> (r: bool)
        ensures
            r == self@.may_answer(t@, part_views(parts@), answer),
    {
        let segs = split_char(t.path.as_str(), '.');
        let ghost s = views(segs@);
        assert(s.len() == segs@.len());
        assert(s[0] == segs@[0]@);
        assert(part_views(parts@).len() == parts@.len());
        let in_env = str_eq(segs[0].as_str(), "env");
        if segs.len() == 2 && in_env || segs.len() >= 2 && str_eq(segs[0].as_str(), "sys") {
            return true;
        }
        if segs.len() > 2 && in_env {
            return answer == test_answer(t, None, parts);
        }
        if segs.len() >= 2 && str_eq(segs[0].as_str(), "runtime") {
            let value = Tree::Reference(segs);
            return answer == test_answer(t, Some(&value), parts);
        }
        if segs.len() >= 2 && str_eq(segs[0].as_str(), "var") {
            let rest = without_first(&segs);
            return answer == test_answer(t, self.look_up(&rest), parts);
        }
        answer == test_answer(t, self.look_up(&segs), parts)
    }

    fn part_is_live(&self, k: &Kind, parts: &Vec<(String, Tree)>, i: usize) -> (r: bool)
        ensures
            r == self@.is_live(k@, part_views(parts@), i as int),
    {
        match k {
            Kind::List | Kind::Block | Kind::Annotated => true,
            Kind::Joined => false,
            Kind::Choice(t) | Kind::When(t) => {
                let first: usize = if t.asks == Asks::Equals || t.asks == Asks::Differs {
                    1
                } else {
                    0
                };
                i == first && self.can_answer(t, parts, true) || i == first + 1 && self.can_answer(
                    t,
                    parts,
                    false,
                )
            },
        }
    }
}

fn test_answer(t: &Test, value: Option<&Tree>, parts: &Vec<(String, Tree)>) -> (r: bool)
    ensures
        r == t@.answer(
            match value {
                Some(v) => Some(v@),
                None => None,
            },
            part_views(parts@),
        ),
{
    assert(part_views(parts@).len() == parts@.len());
    let equal = match value {
        Some(v) => if parts.len() > 0 {
            assert(part_views(parts@)[0] == (parts@[0].0@, parts@[0].1@));
            same_tree(v, &parts[0].1)
        } else {
            false
        },
        None => false,
    };
    match t.asks {
        Asks::Equals => equal,
        Asks::Differs => !equal,
        Asks::Exists => value.is_some(),
        Asks::Lacks => value.is_none(),
    }
}

fn without_first(p: &Vec<String>) -> (r: Vec<String>)
    requires
        p@.len() > 0,
    ensures
        views(r@) == views(p@).skip(1),
{
    let mut r: Vec<String> = Vec::new();
    assert(views(r@) =~= views(p@).subrange(1, 1));
    for i in 1..p.len()
        invariant
            p@.len() > 0,
            views(r@) == views(p@).subrange(1, i as int),
    {
        let ghost before = views(r@);
        r.push(p[i].clone());
        assert(views(r@) =~= before.push(p@[i as int]@));
        assert(views(r@) =~= views(p@).subrange(1, i + 1));
    }
    assert(views(p@).subrange(1, p@.len() as int) =~= views(p@).skip(1));
    r
}

fn push_path(out: &mut Vec<Vec<String>>, p: Vec<String>)
    ensures
        path_views(final(out)@) == path_views(old(out)@) + seq![views(p@)],
{
    out.push(p);
    assert(path_views(out@) =~= path_views(old(out)@) + seq![views(p@)]);
}

fn name_char(c: char) -> (r: bool)
    ensures
        r == in_name(c),
{
    is_alphanumeric(c) || c == '_' || c == '-'
}

fn collect_piece(piece: &str, out: &mut Vec<Vec<String>>)
    ensures
        path_views(final(out)@) == path_views(old(out)@) + piece_path(piece@),
{
    let v = chars_of(piece);
    let mut i: usize = 0;
    while i < v.len() && (name_char(v[i]) || v[i] == '.' && 0 < i && i < v.len() - 1 && name_char(
        v[i + 1],
    ))
        invariant
            v@ == piece@,
            i <= v@.len(),
            names_end(v@, 0) == names_end(v@, i as int),
        decreases v@.len() - i,
    {
        i += 1;
    }
    let names = string_of(&v, 0, i);
    assert(names@ =~= piece@.take(i as int));
    let p = split_char(names.as_str(), '.');
    assert(views(p@).len() == p@.len());
    assert(views(p@)[0] == p@[0]@);
    if p.len() >= 2 && str_eq(p[0].as_str(), "var") {
        push_path(out, without_first(&p));
    } else {
        assert(path_views(out@) =~= path_views(out@) + Seq::<Seq<Seq<char>>>::empty());
    }
}

fn collect_text(s: &str, out: &mut Vec<Vec<String>>)
    ensures
        path_views(final(out)@) == path_views(old(out)@) + text_paths(
            fields_of(s@, '$'),
            fields_of(s@, '$').len() as int,
        ),
{
    let all = split_char(s, '$');
    let ghost v = views(all@);
    let ghost given = path_views(out@);
    assert(given =~= given + text_paths(v, 1));
    for i in 1..all.len()
        invariant
            v == views(all@),
            path_views(out@) == given + text_paths(v, i as int),
    {
        assert(v[i as int] == all@[i as int]@);
        collect_piece(all[i].as_str(), out);
        assert(path_views(out@) =~= given + text_paths(v, i + 1));
    }
}

fn followed_path(p: &Vec<String>) -> (r: Option<Vec<String>>)
    ensures
        match r {
            Some(q) => followed(views(p@)) == Some(views(q@)),
            None => followed(views(p@)) is None,
        },
{
    assert(views(p@).len() == p@.len());
    if p.len() > 0 {
        assert(views(p@)[0] == p@[0]@);
        let first = p[0].as_str();
        if p.len() == 2 && str_eq(first, "env") || str_eq(first, "sys") || str_eq(
            first,
            "runtime",
        ) {
            return None;
        }
        if str_eq(first, "var") {
            if p.len() < 2 {
                return None;
            }
            return Some(without_first(p));
        }
    }
    let q = p.clone();
    assert(views(q@) =~= views(p@));
    Some(q)
}

impl Docs {
    fn collect(&self, t: &Tree, out: &mut Vec<Vec<String>>)
        ensures
            path_views(final(out)@) == path_views(old(out)@) + self@.needed(t@),
        decreases t,
    {
        let ghost given = path_views(out@);
        assert(given =~= given + Seq::<Seq<Seq<char>>>::empty());
        match t {
            Tree::Reference(p) => {
                if let Some(q) = followed_path(p) {
                    push_path(out, q);
                }
            },
            Tree::Text(s) => {
                collect_text(s.as_str(), out);
            },
            Tree::Node(k, c) => {
                proof {
                    node_view(*t);
                }
                let ghost cs = part_views(c@);
                assert(cs.len() == c@.len());
                #[verifier::loop_isolation(false)]
                for i in 0..c.len()
                    invariant
                        path_views(out@) == given + self@.parts_needed(k@, cs, i as int),
                {
                    assert(decreases_to!(*t => c@[i as int]));
                    assert(decreases_to!(c@[i as int] => c@[i as int].1));
                    assert(cs[i as int] == (c@[i as int].0@, c@[i as int].1@));
                    if self.part_is_live(k, c, i) {
                        self.collect(&c[i].1, out);
                    }
                    assert(path_views(out@) =~= given + self@.parts_needed(k@, cs, i + 1));
                }
            },
            _ => {},
        }
    }

    fn collect_entries(&self, entries: &Vec<(String, Tree)>, out: &mut Vec<Vec<String>>)
        ensures
            path_views(final(out)@) == path_views(old(out)@) + self@.needed(
                block(part_views(entries@)),
            ),
    {
        let ghost given = path_views(out@);
        let ghost cs = part_views(entries@);
        assert(given =~= given + Seq::<Seq<Seq<char>>>::empty());
        for i in 0..entries.len()
            invariant
                cs == part_views(entries@),
                path_views(out@) == given + self@.parts_needed(KindModel::Block, cs, i as int),
        {
            assert(cs[i as int] == (entries@[i as int].0@, entries@[i as int].1@));
            self.collect(&entries[i].1, out);
            assert(path_views(out@) =~= given + self@.parts_needed(KindModel::Block, cs, i + 1));
        }
    }
}

// ---------------------------------------------------------------------------------------------
// Whether the look-up ends
// ---------------------------------------------------------------------------------------------

proof fn part_is_needed(d: DocsModel, k: KindModel, c: Seq<(Seq<char>, TreeModel)>, i: int, n: int)
    requires
        0 <= i < n <= c.len(),
        d.is_live(k, c, i),
    ensures
        forall|q: Seq<Seq<char>>| #[trigger]
            d.needed(c[i].1).contains(q) ==> d.parts_needed(k, c, n).contains(q),
    decreases n,
{
    let all = d.parts_needed(k, c, n);
    let before = d.parts_needed(k, c, n - 1);
    assert forall|q: Seq<Seq<char>>| #[trigger] d.needed(c[i].1).contains(q) implies all.contains(
        q,
    ) by {
        if i == n - 1 {
            let j = choose|j: int| 0 <= j < d.needed(c[i].1).len() && d.needed(c[i].1)[j] == q;
            assert(all[before.len() + j] == q);
        } else {
            part_is_needed(d, k, c, i, n - 1);
            let j = choose|j: int| 0 <= j < before.len() && before[j] == q;
            assert(all[j] == q);
        }
    }
}

proof fn found_is_behind(parts: Seq<(Seq<char>, TreeModel)>, key: Seq<char>, i: int)
    requires
        0 <= i,
    ensures
        found_at(parts, key, i) >= i,
    decreases parts.len() - i,
{
    if i < parts.len() && !(parts[i].0 == key && !parts[i].1.is_when()) {
        found_is_behind(parts, key, i + 1);
    }
}

/// What is below a value needs no paths that the value does not need.
proof fn down_needs_no_more(d: DocsModel, t: TreeModel, path: Seq<Seq<char>>)
    ensures
        t.down(path) matches Some(u) ==> forall|q: Seq<Seq<char>>| #[trigger]
            d.needed(u).contains(q) ==> d.needed(t).contains(q),
    decreases path.len(),
{
    if path.len() > 0 {
        if let TreeModel::Node(k, c) = t {
            let from = if k == KindModel::Annotated {
                1int
            } else {
                0
            };
            let i = found_at(c, path[0], from);
            found_is_behind(c, path[0], from);
            if (k == KindModel::Block || k == KindModel::Annotated) && i < c.len() {
                down_needs_no_more(d, c[i].1, path.skip(1));
                part_is_needed(d, k, c, i, c.len() as int);
            }
        }
    }
}

proof fn import_is_behind(
    imports: Seq<(Seq<char>, Seq<(Seq<char>, TreeModel)>)>,
    alias: Seq<char>,
    i: int,
)
    requires
        0 <= i,
    ensures
        import_at(imports, alias, i) >= i,
    decreases imports.len() - i,
{
    if i < imports.len() && imports[i].0 != alias {
        import_is_behind(imports, alias, i + 1);
    }
}

/// The list holds every path that some file needs.
spec fn holds_all(d: DocsModel, all: Seq<Seq<Seq<char>>>) -> bool {
    &&& forall|q: Seq<Seq<char>>| #[trigger]
        d.needed(block(d.main)).contains(q) ==> all.contains(q)
    &&& forall|i: int, q: Seq<Seq<char>>|
        0 <= i < d.imports.len() && #[trigger] d.needed(block(d.imports[i].1)).contains(q)
            ==> all.contains(q)
}

proof fn needed_is_held(d: DocsModel, all: Seq<Seq<Seq<char>>>, p: Seq<Seq<char>>)
    requires
        holds_all(d, all),
    ensures
        d.looked_up(p) matches Some(t) ==> forall|q: Seq<Seq<char>>| #[trigger]
            d.needed(t).contains(q) ==> all.contains(q),
{
    if p.len() > 0 {
        let a = import_at(d.imports, p[0], 0);
        import_is_behind(d.imports, p[0], 0);
        if a < d.imports.len() {
            down_needs_no_more(d, block(d.imports[a].1), p.skip(1));
        } else {
            down_needs_no_more(d, block(d.main), p);
        }
    }
}

/// The paths that are marked.
spec fn marked(all: Seq<Seq<Seq<char>>>, good: Seq<bool>) -> Set<Seq<Seq<char>>> {
    Set::new(
        |p: Seq<Seq<char>>|
            exists|i: int| 0 <= i < good.len() && #[trigger] good[i] && all[i] == p,
    )
}

/// What is looked up at `p` needs only marked paths.
spec fn is_free(d: DocsModel, m: Set<Seq<Seq<char>>>, p: Seq<Seq<char>>) -> bool {
    match d.looked_up(p) {
        None => true,
        Some(t) => forall|j: int|
            0 <= j < d.needed(t).len() ==> m.contains(#[trigger] d.needed(t)[j]),
    }
}

/// How many flags are not set.
spec fn unset(good: Seq<bool>) -> nat
    decreases good.len(),
{
    if good.len() == 0 {
        0
    } else if good.last() {
        unset(good.drop_last())
    } else {
        unset(good.drop_last()) + 1
    }
}

proof fn setting_leaves_fewer(good: Seq<bool>, i: int)
    requires
        0 <= i < good.len(),
        !good[i],
    ensures
        unset(good.update(i, true)) + 1 == unset(good),
    decreases good.len(),
{
    let now = good.update(i, true);
    if i == good.len() - 1 {
        assert(now.drop_last() =~= good.drop_last());
    } else {
        setting_leaves_fewer(good.drop_last(), i);
        assert(now.drop_last() =~= good.drop_last().update(i, true));
        assert(now.last() == good.last());
    }
}

/// Where nothing more can be marked, every path that has a rank is marked.
proof fn ranked_is_marked(
    d: DocsModel,
    all: Seq<Seq<Seq<char>>>,
    m: Set<Seq<Seq<char>>>,
    rank: Map<Seq<Seq<char>>, nat>,
    p: Seq<Seq<char>>,
)
    requires
        holds_all(d, all),
        forall|q: Seq<Seq<char>>| #[trigger]
            all.contains(q) && !m.contains(q) ==> !is_free(d, m, q),
        d.ranked(rank),
        rank.contains_key(p),
        all.contains(p),
    ensures
        m.contains(p),
    decreases rank[p],
{
    if let Some(t) = d.looked_up(p) {
        assert(d.leads_down(rank, p));
        needed_is_held(d, all, p);
        assert forall|j: int| 0 <= j < d.needed(t).len() implies m.contains(
            #[trigger] d.needed(t)[j],
        ) by {
            assert(d.needed(t).contains(d.needed(t)[j]));
            ranked_is_marked(d, all, m, rank, d.needed(t)[j]);
        }
    }
    assert(is_free(d, m, p));
}

fn is_marked(all: &Vec<Vec<String>>, good: &Vec<bool>, p: &Vec<String>) -> (r: bool)
    requires
        good@.len() == all@.len(),
    ensures
        r == marked(path_views(all@), good@).contains(views(p@)),
{
    let ghost v = path_views(all@);
    for i in 0..all.len()
        invariant
            v == path_views(all@),
            good@.len() == all@.len(),
            forall|k: int| 0 <= k < i && good@[k] ==> v[k] != views(p@),
    {
        assert(v[i as int] == views(all@[i as int]@));
        if good[i] && same_names(&all[i], p) {
            assert(good@[i as int]);
            return true;
        }
    }
    false
}

impl Docs {
    fn path_is_free(&self, all: &Vec<Vec<String>>, good: &Vec<bool>, p: &Vec<String>) -> (r: bool)
        requires
            good@.len() == all@.len(),
        ensures
            r == is_free(self@, marked(path_views(all@), good@), views(p@)),
    {
        let ghost m = marked(path_views(all@), good@);
        if let Some(t) = self.look_up(p) {
            let mut list: Vec<Vec<String>> = Vec::new();
            self.collect(t, &mut list);
            let ghost v = path_views(list@);
            assert(v =~= self@.needed(t@));
            for i in 0..list.len()
                invariant
                    v == path_views(list@),
                    good@.len() == all@.len(),
                    m == marked(path_views(all@), good@),
                    forall|k: int| 0 <= k < i ==> m.contains(#[trigger] v[k]),
                    v == self@.needed(t@),
                    self@.looked_up(views(p@)) == Some(t@),
            {
                assert(v[i as int] == views(list@[i as int]@));
                if !is_marked(all, good, &list[i]) {
                    assert(!m.contains(self@.needed(t@)[i as int]));
                    return false;
                }
            }
            assert(v.len() == list@.len());
        }
        true
    }

    /// Every path that some file needs; those that the configuration itself needs come first.
    fn all_paths(&self) -> (r: (Vec<Vec<String>>, usize))
        ensures
            r.1 <= r.0@.len(),
            path_views(r.0@).take(r.1 as int) == self@.needed(block(self@.main)),
            holds_all(self@, path_views(r.0@)),
    {
        let mut all: Vec<Vec<String>> = Vec::new();
        self.collect_entries(&self.main, &mut all);
        let m: usize = all.len();
        let ghost own = self@.needed(block(self@.main));
        assert(path_views(all@) =~= own);
        assert(path_views(all@).take(m as int) =~= own);
        for i in 0..self.imports.len()
            invariant
                m <= all@.len(),
                own == self@.needed(block(self@.main)),
                path_views(all@).take(m as int) == own,
                forall|k: int, q: Seq<Seq<char>>|
                    0 <= k < i && #[trigger] self@.needed(block(self@.imports[k].1)).contains(q)
                        ==> path_views(all@).contains(q),
        {
            let ghost before = path_views(all@);
            self.collect_entries(&self.imports[i].1, &mut all);
            let ghost now = path_views(all@);
            assert(self@.imports[i as int].1 == part_views(self.imports@[i as int].1@));
            let ghost more = self@.needed(block(self@.imports[i as int].1));
            assert(now == before + more);
            assert(now.take(m as int) =~= before.take(m as int));
            assert forall|k: int, q: Seq<Seq<char>>|
                0 <= k < i + 1 && #[trigger] self@.needed(
                    block(self@.imports[k].1),
                ).contains(q) implies now.contains(q) by {
                if k == i {
                    let j = choose|j: int| 0 <= j < more.len() && more[j] == q;
                    assert(now[before.len() + j] == q);
                } else {
                    let j = choose|j: int| 0 <= j < before.len() && before[j] == q;
                    assert(now[j] == q);
                }
            }
        }
        proof {
            let v = path_views(all@);
            assert forall|q: Seq<Seq<char>>| #[trigger] own.contains(q) implies v.contains(q) by {
                let j = choose|j: int| 0 <= j < own.len() && own[j] == q;
                assert(v[j] == v.take(m as int)[j]);
            }
        }
        (all, m)
    }

    /// Whether looking up the references comes to an end, whatever the environment and the machine
    /// say. A path is marked once all that it leads to is marked.
    pub fn references_end(&self) -> (r: bool)
        ensures
            r == self@.ends(),
    {
        let (all, own) = self.all_paths();
        let ghost v = path_views(all@);
        let mut good: Vec<bool> = Vec::new();
        for i in 0..all.len()
            invariant
                good@.len() == i,
                forall|k: int| 0 <= k < i ==> !good@[k],
        {
            good.push(false);
        }
        let ghost mut rank: Map<Seq<Seq<char>>, nat> = Map::empty();
        let ghost mut count: nat = 0;
        assert(rank.dom() =~= marked(v, good@));
        let mut changed: bool = true;
        while changed
            invariant
                v == path_views(all@),
                good@.len() == all@.len(),
                rank.dom() == marked(v, good@),
                forall|p: Seq<Seq<char>>| #[trigger]
                    rank.contains_key(p) ==> rank[p] < count && self@.leads_down(rank, p),
                !changed ==> forall|k: int|
                    0 <= k < v.len() && !good@[k] ==> !is_free(
                        self@,
                        marked(v, good@),
                        #[trigger] v[k],
                    ),
            decreases unset(good@) + (if changed {
                1nat
            } else {
                0
            }),
        {
            changed = false;
            let ghost start = good@;
            for i in 0..all.len()
                invariant
                    v == path_views(all@),
                    good@.len() == all@.len(),
                    rank.dom() == marked(v, good@),
                    forall|p: Seq<Seq<char>>| #[trigger]
                        rank.contains_key(p) ==> rank[p] < count && self@.leads_down(rank, p),
                    !changed ==> good@ == start && forall|k: int|
                        0 <= k < i && !good@[k] ==> !is_free(
                            self@,
                            marked(v, good@),
                            #[trigger] v[k],
                        ),
                    changed ==> unset(good@) < unset(start),
            {
                assert(v[i as int] == views(all@[i as int]@));
                if !good[i] && self.path_is_free(&all, &good, &all[i]) {
                    let ghost p = v[i as int];
                    let ghost before = good@;
                    good.set(i, true);
                    changed = true;
                    proof {
                        setting_leaves_fewer(before, i as int);
                        marking_adds(v, before, i as int);
                        if !rank.contains_key(p) {
                            let ranked = rank.insert(p, count);
                            new_rank_leads_down(self@, rank, p, count);
                            rank = ranked;
                            count = count + 1;
                        }
                        assert(rank.dom() =~= marked(v, good@));
                    }
                }
            }
        }
        let mut done = true;
        for i in 0..own
            invariant
                own <= all@.len(),
                good@.len() == all@.len(),
                v == path_views(all@),
                done <==> forall|k: int|
                    0 <= k < i ==> marked(v, good@).contains(#[trigger] v[k]),
        {
            assert(v[i as int] == views(all@[i as int]@));
            if !is_marked(&all, &good, &all[i]) {
                done = false;
            }
        }
        proof {
            let m = marked(v, good@);
            let needs = self@.needed(block(self@.main));
            if done {
                assert forall|j: int| 0 <= j < needs.len() implies rank.contains_key(
                    #[trigger] needs[j],
                ) by {
                    assert(needs[j] == v[j]);
                }
                assert(self@.ranked(rank));
            } else if self@.ends() {
                let k = choose|k: int| 0 <= k < own && !m.contains(#[trigger] v[k]);
                let other = choose|other: Map<Seq<Seq<char>>, nat>| #[trigger] self@.ranked(other);
                assert(needs[k] == v[k]);
                assert forall|q: Seq<Seq<char>>| #[trigger]
                    v.contains(q) && !m.contains(q) implies !is_free(self@, m, q) by {
                    let j = choose|j: int| 0 <= j < v.len() && v[j] == q;
                    assert(!good@[j]);
                }
                ranked_is_marked(self@, v, m, other, v[k]);
            }
        }
        done
    }
}

proof fn marking_adds(all: Seq<Seq<Seq<char>>>, good: Seq<bool>, i: int)
    requires
        0 <= i < good.len(),
    ensures
        marked(all, good.update(i, true)) == marked(all, good).insert(all[i]),
{
    let now = good.update(i, true);
    assert forall|p: Seq<Seq<char>>| #[trigger]
        marked(all, now).contains(p) <==> marked(all, good).insert(all[i]).contains(p) by {
        if marked(all, good).contains(p) {
            let k = choose|k: int| 0 <= k < good.len() && #[trigger] good[k] && all[k] == p;
            assert(now[k]);
        }
        if p == all[i] {
            assert(now[i]);
        }
        if marked(all, now).contains(p) && p != all[i] {
            let k = choose|k: int| 0 <= k < now.len() && #[trigger] now[k] && all[k] == p;
            assert(good[k]);
        }
    }
    assert(marked(all, now) =~= marked(all, good).insert(all[i]));
}

/// A path that leads to ranked ones only gets a rank above them, and the others keep theirs.
proof fn new_rank_leads_down(
    d: DocsModel,
    rank: Map<Seq<Seq<char>>, nat>,
    p: Seq<Seq<char>>,
    count: nat,
)
    requires
        is_free(d, rank.dom(), p),
        !rank.contains_key(p),
        forall|q: Seq<Seq<char>>| #[trigger]
            rank.contains_key(q) ==> rank[q] < count && d.leads_down(rank, q),
    ensures
        forall|q: Seq<Seq<char>>| #[trigger]
            rank.insert(p, count).contains_key(q) ==> rank.insert(p, count)[q] < count + 1
                && d.leads_down(rank.insert(p, count), q),
{
    let now = rank.insert(p, count);
    assert forall|q: Seq<Seq<char>>| #[trigger] now.contains_key(q) implies now[q] < count + 1
        && d.leads_down(now, q) by {
        if let Some(t) = d.looked_up(q) {
            assert forall|j: int| 0 <= j < d.needed(t).len() implies now.contains_key(
                #[trigger] d.needed(t)[j],
            ) && now[d.needed(t)[j]] < now[q] by {
                let x = d.needed(t)[j];
                if q == p {
                    assert(rank.dom().contains(x));
                    assert(rank.contains_key(x));
                } else {
                    assert(rank.contains_key(q));
                    assert(d.leads_down(rank, q));
                    assert(rank.contains_key(x));
                }
            }
        }
    }
}

// ---------------------------------------------------------------------------------------------
// Laws
// ---------------------------------------------------------------------------------------------

/// A condition on a single name, as every one in a file is, is decided by the values alone.
pub proof fn a_single_name_is_decided(
    d: DocsModel,
    t: TestModel,
    parts: Seq<(Seq<char>, TreeModel)>,
)
    requires
        !t.path.contains('.'),
    ensures
        d.asked(t.path) == Asked::Found(d.looked_up(seq![t.path])),
        d.may_answer(t, parts, true) != d.may_answer(t, parts, false),
{
    fields_of_one(t.path, '.');
}

/// A configuration that needs a path which leads back to itself does not end.
pub proof fn a_loop_does_not_end(d: DocsModel, p: Seq<Seq<char>>)
    requires
        d.needed(block(d.main)).contains(p),
        d.looked_up(p) matches Some(t) && d.needed(t).contains(p),
    ensures
        !d.ends(),
{
    if d.ends() {
        let rank = choose|rank: Map<Seq<Seq<char>>, nat>| #[trigger] d.ranked(rank);
        let needs = d.needed(block(d.main));
        let i = choose|i: int| 0 <= i < needs.len() && needs[i] == p;
        assert(rank.contains_key(needs[i]));
        assert(d.leads_down(rank, p));
        let t = d.looked_up(p)->0;
        let j = choose|j: int| 0 <= j < d.needed(t).len() && d.needed(t)[j] == p;
        assert(rank[d.needed(t)[j]] < rank[p]);
    }
}

/// A configuration that needs no path ends.
pub proof fn nothing_needed_ends(d: DocsModel)
    requires
        d.needed(block(d.main)).len() == 0,
    ensures
        d.ends(),
{
    assert(d.ranked(Map::empty()));
}

} // verus!
