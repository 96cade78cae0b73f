//! Reading typed values out of a parsed configuration.
//!
//! The text itself is parsed by `rune_cfg`. What a parsed configuration holds has two names here:
//! [`rune_entries`], by paths in which `_` and `-` stand for each other, and [`rune_nodes`], by
//! paths as they are written. The functions that call `rune_cfg` are trusted; the rest of the
//! library reads a configuration through them alone.

use rune_cfg::{RuneConfig, Value};
use vstd::prelude::*;

use super::references::rune_docs;
use crate::text::strings::{cat, opt_view, views};

verus! {

/// A configuration as `rune_cfg` parsed it.
#[verifier::external_type_specification]
#[verifier::external_body]
pub struct ExRuneConfig(RuneConfig);

/// An element of a list in a configuration.
#[derive(Debug)]
pub enum Item {
    Text(String),
    /// A regular expression, by its source.
    Regex(String),
    /// Anything else, as `Debug` shows it.
    Other(String),
}

/// What stands for an [`Item`] in contracts.
#[verifier::ext_equal]
pub enum ItemModel {
    Text(Seq<char>),
    Regex(Seq<char>),
    Other(Seq<char>),
}

impl View for Item {
    type V = ItemModel;

    open spec fn view(&self) -> ItemModel {
        match self {
            Item::Text(s) => ItemModel::Text(s@),
            Item::Regex(s) => ItemModel::Regex(s@),
            Item::Other(s) => ItemModel::Other(s@),
        }
    }
}

/// What stands for a list of items in contracts.
pub open spec fn item_views(v: Seq<Item>) -> Seq<ItemModel> {
    v.map_values(|i: Item| i@)
}

/// A value that is expected to be a list.
#[derive(Debug)]
pub enum Listed {
    Items(Vec<Item>),
    /// No list, as `Debug` shows it.
    Other(String),
}

/// What stands for a [`Listed`] in contracts.
#[verifier::ext_equal]
pub enum ListedModel {
    Items(Seq<ItemModel>),
    Other(Seq<char>),
}

impl View for Listed {
    type V = ListedModel;

    open spec fn view(&self) -> ListedModel {
        match self {
            Listed::Items(v) => ListedModel::Items(item_views(v@)),
            Listed::Other(s) => ListedModel::Other(s@),
        }
    }
}

/// What each way to read a value gives: the value, or why it cannot be read like that.
#[verifier::ext_equal]
pub struct EntryModel {
    pub text: Result<Seq<char>, Seq<char>>,
    /// As text that may be null.
    pub nullable: Result<Option<Seq<char>>, Seq<char>>,
    pub flag: Result<bool, Seq<char>>,
    pub count: Result<u64, Seq<char>>,
}

/// What a value is made of.
#[verifier::ext_equal]
pub struct NodeModel {
    /// The keys under it, in the order in which they are written, if it can have any.
    pub keys: Option<Seq<Seq<char>>>,
    pub listed: ListedModel,
}

/// The values of a configuration, by their paths. In a part of a path `_` and `-` stand for each
/// other.
pub uninterp spec fn rune_entries(rc: RuneConfig) -> Map<Seq<char>, EntryModel>;

/// The values of a configuration, by their paths as they are written. The empty path is that of
/// the whole configuration.
pub uninterp spec fn rune_nodes(rc: RuneConfig) -> Map<Seq<char>, NodeModel>;

/// What a parsed configuration holds.
#[verifier::ext_equal]
pub struct SourceModel {
    pub entries: Map<Seq<char>, EntryModel>,
    pub nodes: Map<Seq<char>, NodeModel>,
}

pub open spec fn source_of(rc: RuneConfig) -> SourceModel {
    SourceModel { entries: rune_entries(rc), nodes: rune_nodes(rc) }
}

/// The references that the configuration makes have been looked up, and its values are fixed.
pub open spec fn settled(rc: RuneConfig) -> bool {
    rune_nodes(rc).contains_key(""@)
}

/// The values of the configuration can be had: no reference leads back to itself, and none leads
/// nowhere.
pub open spec fn readable(rc: RuneConfig) -> bool {
    rune_docs(rc).ends() && settled(rc)
}

/// What `rune_cfg` says of a path that a configuration does not have.
pub open spec fn missing_text(path: Seq<char>) -> Seq<char> {
    "[RUNE] Syntax Error: Path '"@ + path
        + "' not found in configuration Hint: Check that the path exists in your config file Code: 304"@
}

/// What stands for the outcome of reading text in contracts.
pub open spec fn text_read(r: Result<Option<String>, String>) -> Result<
    Option<Seq<char>>,
    Seq<char>,
> {
    match r {
        Ok(t) => Ok(opt_view(t)),
        Err(e) => Err(e@),
    }
}

/// What stands for the outcome of reading text that may be null in contracts.
pub open spec fn nullable_read(r: Result<Option<Option<String>>, String>) -> Result<
    Option<Option<Seq<char>>>,
    Seq<char>,
> {
    match r {
        Ok(Some(t)) => Ok(Some(opt_view(t))),
        Ok(None) => Ok(None),
        Err(e) => Err(e@),
    }
}

/// What stands for the outcome of reading a plain value in contracts.
pub open spec fn value_read<T>(r: Result<T, String>) -> Result<T, Seq<char>> {
    match r {
        Ok(v) => Ok(v),
        Err(e) => Err(e@),
    }
}

/// What stands for the outcome of listing keys in contracts.
pub open spec fn keys_read(r: Option<Vec<String>>) -> Option<Seq<Seq<char>>> {
    match r {
        Some(v) => Some(views(v@)),
        None => None,
    }
}

/// The keys under a path, if there is a value that can have any.
pub open spec fn raw_keys(nodes: Map<Seq<char>, NodeModel>, path: Seq<char>) -> Option<
    Seq<Seq<char>>,
> {
    if nodes.contains_key(path) {
        nodes[path].keys
    } else {
        None
    }
}

/// The value at a path read as text, if there is one.
pub open spec fn raw_text(entries: Map<Seq<char>, EntryModel>, path: Seq<char>) -> Result<
    Option<Seq<char>>,
    Seq<char>,
> {
    if entries.contains_key(path) {
        match entries[path].text {
            Ok(t) => Ok(Some(t)),
            Err(m) => Err(m),
        }
    } else {
        Ok(None)
    }
}

/// The value at a path read as text that may be null, if there is one.
pub open spec fn raw_nullable(entries: Map<Seq<char>, EntryModel>, path: Seq<char>) -> Result<
    Option<Option<Seq<char>>>,
    Seq<char>,
> {
    if entries.contains_key(path) {
        match entries[path].nullable {
            Ok(t) => Ok(Some(t)),
            Err(m) => Err(m),
        }
    } else {
        Ok(None)
    }
}

/// The value at a path read as a flag, if there is one.
pub open spec fn raw_flag(entries: Map<Seq<char>, EntryModel>, path: Seq<char>) -> Result<
    Option<bool>,
    Seq<char>,
> {
    if entries.contains_key(path) {
        match entries[path].flag {
            Ok(b) => Ok(Some(b)),
            Err(m) => Err(m),
        }
    } else {
        Ok(None)
    }
}

/// The value at a path read as a number, if there is one.
pub open spec fn raw_count(entries: Map<Seq<char>, EntryModel>, path: Seq<char>) -> Result<
    Option<u64>,
    Seq<char>,
> {
    if entries.contains_key(path) {
        match entries[path].count {
            Ok(n) => Ok(Some(n)),
            Err(m) => Err(m),
        }
    } else {
        Ok(None)
    }
}

// ---------------------------------------------------------------------------------------------
// Trusted: the calls of rune_cfg
// ---------------------------------------------------------------------------------------------

/// Calls `RuneConfig::get_value` on the empty path. The first call that succeeds looks up what
/// the configuration refers to (other values, the environment) and keeps the outcome for as long
/// as the configuration lives; a reference that leads nowhere makes it fail. It does not return if
/// a reference leads back to itself, so that none may. The configuration comes back as it went in,
/// now with fixed values. Whether a reference to the environment can be looked up is left unsaid.
#[verifier::external_body]
pub(crate) fn settle(rc: RuneConfig) -> (r: Option<RuneConfig>)
    requires
        rune_docs(rc).ends(),
    ensures
        r is Some <==> settled(rc),
        r matches Some(s) ==> s == rc,
{
    match rc.get_value("") {
        Ok(_) => Some(rc),
        Err(_) => None,
    }
}

/// Calls `RuneConfig::has`: there is a value at the path, in one of its spellings.
#[verifier::external_body]
pub(crate) fn rune_has(rc: &RuneConfig, path: &str) -> (r: bool)
    requires
        settled(*rc),
    ensures
        r == rune_entries(*rc).contains_key(path@),
{
    rc.has(path)
}

/// Calls `RuneConfig::get_keys`: the keys right under a path, in their order. It fails where there
/// is no value, and where the value can have no keys.
#[verifier::external_body]
fn rune_keys(rc: &RuneConfig, path: &str) -> (r: Option<Vec<String>>)
    requires
        settled(*rc),
    ensures
        keys_read(r) == raw_keys(rune_nodes(*rc), path@),
{
    match rc.get_keys(path) {
        Ok(keys) => Some(keys),
        Err(_) => None,
    }
}

/// Calls `RuneConfig::get_optional` for a `String`: nothing where there is no value, else the
/// value read as text, or the message of the conversion that failed.
#[verifier::external_body]
fn rune_text(rc: &RuneConfig, path: &str) -> (r: Result<Option<String>, String>)
    requires
        settled(*rc),
    ensures
        text_read(r) == raw_text(rune_entries(*rc), path@),
{
    match rc.get_optional::<String>(path) {
        Ok(v) => Ok(v),
        Err(e) => Err(e.to_string()),
    }
}

/// Calls `RuneConfig::get_optional` for an `Option<String>`: nothing where there is no value, else
/// the value read as text that may be null, or the message of the conversion that failed.
#[verifier::external_body]
fn rune_nullable(rc: &RuneConfig, path: &str) -> (r: Result<Option<Option<String>>, String>)
    requires
        settled(*rc),
    ensures
        nullable_read(r) == raw_nullable(rune_entries(*rc), path@),
{
    match rc.get_optional::<Option<String>>(path) {
        Ok(v) => Ok(v),
        Err(e) => Err(e.to_string()),
    }
}

/// Calls `RuneConfig::get_optional` for a `bool`: nothing where there is no value, else the value
/// read as a flag, or the message of the conversion that failed.
#[verifier::external_body]
fn rune_flag(rc: &RuneConfig, path: &str) -> (r: Result<Option<bool>, String>)
    requires
        settled(*rc),
    ensures
        value_read(r) == raw_flag(rune_entries(*rc), path@),
{
    match rc.get_optional::<bool>(path) {
        Ok(v) => Ok(v),
        Err(e) => Err(e.to_string()),
    }
}

/// Calls `RuneConfig::get_optional` for a `u64`: nothing where there is no value, else the value
/// read as a number that is not negative, or the message of the conversion that failed.
#[verifier::external_body]
fn rune_count(rc: &RuneConfig, path: &str) -> (r: Result<Option<u64>, String>)
    requires
        settled(*rc),
    ensures
        value_read(r) == raw_count(rune_entries(*rc), path@),
{
    match rc.get_optional::<u64>(path) {
        Ok(v) => Ok(v),
        Err(e) => Err(e.to_string()),
    }
}

/// Calls `RuneConfig::get_value`: the value at a path as it is written, told apart by whether it
/// is a list. A path that is not there fails with a message that says so.
#[verifier::external_body]
fn rune_listed(rc: &RuneConfig, path: &str) -> (r: Result<Listed, String>)
    requires
        settled(*rc),
    ensures
        r is Ok <==> rune_nodes(*rc).contains_key(path@),
        r matches Ok(l) ==> rune_nodes(*rc)[path@].listed == l@,
        r matches Err(m) ==> m@ == missing_text(path@),
{
    match rc.get_value(path) {
        Ok(Value::Array(items)) => Ok(Listed::Items(items.into_iter().map(|v| match v {
            Value::String(s) => Item::Text(s),
            Value::Regex(r) => Item::Regex(r.as_str().to_string()),
            other => Item::Other(format!("{:?}", other)),
        }).collect())),
        Ok(other) => Ok(Listed::Other(format!("{:?}", other))),
        Err(e) => Err(e.to_string()),
    }
}

// ---------------------------------------------------------------------------------------------
// Typed readings
// ---------------------------------------------------------------------------------------------

/// What is said of a value that cannot be used.
pub open spec fn fault(path: Seq<char>, what: Seq<char>) -> Seq<char> {
    "config error at "@ + path + ": "@ + what
}

/// A reading whose failure names the path.
pub open spec fn at_path<T>(path: Seq<char>, r: Result<T, Seq<char>>) -> Result<T, Seq<char>> {
    match r {
        Ok(v) => Ok(v),
        Err(m) => Err(fault(path, m)),
    }
}

impl SourceModel {
    pub open spec fn has(self, path: Seq<char>) -> bool {
        self.entries.contains_key(path)
    }

    /// The keys under a path; none where there is nothing that has keys.
    pub open spec fn keys(self, path: Seq<char>) -> Seq<Seq<char>> {
        match raw_keys(self.nodes, path) {
            Some(k) => k,
            None => Seq::empty(),
        }
    }

    pub open spec fn text(self, path: Seq<char>) -> Result<Option<Seq<char>>, Seq<char>> {
        at_path(path, raw_text(self.entries, path))
    }

    pub open spec fn nullable(self, path: Seq<char>) -> Result<
        Option<Option<Seq<char>>>,
        Seq<char>,
    > {
        at_path(path, raw_nullable(self.entries, path))
    }

    pub open spec fn flag(self, path: Seq<char>) -> Result<Option<bool>, Seq<char>> {
        at_path(path, raw_flag(self.entries, path))
    }

    pub open spec fn count(self, path: Seq<char>) -> Result<Option<u64>, Seq<char>> {
        at_path(path, raw_count(self.entries, path))
    }

    /// The flag at a path; off where there is none.
    pub open spec fn flag_or_off(self, path: Seq<char>) -> bool {
        match self.flag(path) {
            Ok(Some(b)) => b,
            _ => false,
        }
    }

    /// The number at a path; zero where there is none.
    pub open spec fn count_or_zero(self, path: Seq<char>) -> u64 {
        match self.count(path) {
            Ok(Some(n)) => n,
            _ => 0,
        }
    }
}

/// What is said of a value that cannot be used.
pub fn fault_text(path: &str, what: &str) -> (r: String)
    ensures
        r@ == fault(path@, what@),
{
    let mut out = cat("config error at ", path);
    out.append(": ");
    out.append(what);
    out
}

/// The keys under a path, if there is a block with any.
pub fn keys_under(rc: &RuneConfig, path: &str) -> (r: Vec<String>)
    requires
        settled(*rc),
    ensures
        views(r@) == source_of(*rc).keys(path@),
{
    match rune_keys(rc, path) {
        Some(v) => v,
        None => {
            let v: Vec<String> = Vec::new();
            assert(views(v@) =~= Seq::<Seq<char>>::empty());
            v
        },
    }
}

/// The text at a path, if there is a value.
pub fn opt_string(rc: &RuneConfig, path: &str) -> (r: Result<Option<String>, String>)
    requires
        settled(*rc),
    ensures
        text_read(r) == source_of(*rc).text(path@),
{
    match rune_text(rc, path) {
        Ok(v) => Ok(v),
        Err(e) => Err(fault_text(path, e.as_str())),
    }
}

/// The flag at a path, if there is a value.
pub fn opt_bool(rc: &RuneConfig, path: &str) -> (r: Result<Option<bool>, String>)
    requires
        settled(*rc),
    ensures
        value_read(r) == source_of(*rc).flag(path@),
{
    match rune_flag(rc, path) {
        Ok(v) => Ok(v),
        Err(e) => Err(fault_text(path, e.as_str())),
    }
}

/// The number at a path, if there is a value.
pub fn opt_u64(rc: &RuneConfig, path: &str) -> (r: Result<Option<u64>, String>)
    requires
        settled(*rc),
    ensures
        value_read(r) == source_of(*rc).count(path@),
{
    match rune_count(rc, path) {
        Ok(v) => Ok(v),
        Err(e) => Err(fault_text(path, e.as_str())),
    }
}

/// The text at a path, which may be null, if there is a value.
pub fn opt_nullable_string2(rc: &RuneConfig, path: &str) -> (r: Result<
    Option<Option<String>>,
    String,
>)
    requires
        settled(*rc),
    ensures
        nullable_read(r) == source_of(*rc).nullable(path@),
{
    match rune_nullable(rc, path) {
        Ok(v) => Ok(v),
        Err(e) => Err(fault_text(path, e.as_str())),
    }
}

/// The text at a path, if there is a value that is not null.
pub fn opt_nullable_string(rc: &RuneConfig, path: &str) -> (r: Result<Option<String>, String>)
    requires
        settled(*rc),
    ensures
        text_read(r) == (match source_of(*rc).nullable(path@) {
            Ok(Some(t)) => Ok::<Option<Seq<char>>, Seq<char>>(t),
            Ok(None) => Ok(None),
            Err(m) => Err(m),
        }),
{
    match opt_nullable_string2(rc, path) {
        Ok(Some(t)) => Ok(t),
        Ok(None) => Ok(None),
        Err(e) => Err(e),
    }
}

/// The flag at a path; off where there is none that can be read.
pub fn flag_or_off(rc: &RuneConfig, path: &str) -> (r: bool)
    requires
        settled(*rc),
    ensures
        r == source_of(*rc).flag_or_off(path@),
{
    match opt_bool(rc, path) {
        Ok(Some(b)) => b,
        _ => false,
    }
}

/// The number at a path; zero where there is none that can be read.
pub fn count_or_zero(rc: &RuneConfig, path: &str) -> (r: u64)
    requires
        settled(*rc),
    ensures
        r == source_of(*rc).count_or_zero(path@),
{
    match opt_u64(rc, path) {
        Ok(Some(n)) => n,
        _ => 0,
    }
}

/// The value at a path as it is written, told apart by whether it is a list.
pub fn listed_at(rc: &RuneConfig, path: &str) -> (r: Result<Listed, String>)
    requires
        settled(*rc),
    ensures
        r is Ok <==> source_of(*rc).nodes.contains_key(path@),
        r matches Ok(l) ==> source_of(*rc).nodes[path@].listed == l@,
        r matches Err(e) ==> e@ == fault(path@, missing_text(path@)),
{
    match rune_listed(rc, path) {
        Ok(l) => Ok(l),
        Err(e) => Err(fault_text(path, e.as_str())),
    }
}

} // verus!
