//! From a parsed configuration to the configuration file that it describes.

use rune_cfg::RuneConfig;
use vstd::prelude::*;

use super::pattern::{pattern_views, Pattern, PatternModel};
use super::source::{
    count_or_zero, fault, fault_text, item_views, keys_under, listed_at, missing_text, opt_string,
    opt_u64, rune_has, settled, source_of, Item, ItemModel, Listed, ListedModel, SourceModel,
};
use super::types::{
    lid_set, lid_view, plan_view, ActionBlock, BlockModel, KindModel, LidAction, LidModel, PlanStep,
    PlanStepKind, StepModel,
};
use crate::text::strings::{
    cat, lowercase, lowered, replace_char, str_eq, to_ascii_lower, to_lowercase, trim, trimmed,
    views, with_char_replaced,
};

verus! {

// ---------------------------------------------------------------------------------------------
// Patterns
// ---------------------------------------------------------------------------------------------

/// The text that a literal pattern is matched by.
pub open spec fn literal(s: Seq<char>) -> Seq<char> {
    lowercase(trimmed(s))
}

/// The patterns of a list: its texts that are not blank, and its regular expressions.
pub open spec fn patterns_of(path: Seq<char>, items: Seq<ItemModel>) -> Result<
    Seq<PatternModel>,
    Seq<char>,
>
    decreases items.len(),
{
    if items.len() == 0 {
        Ok(Seq::empty())
    } else {
        match patterns_of(path, items.drop_last()) {
            Err(e) => Err(e),
            Ok(done) => match items.last() {
                ItemModel::Text(s) => if literal(s).len() == 0 {
                    Ok(done)
                } else {
                    Ok(done.push(PatternModel::Literal(literal(s))))
                },
                ItemModel::Regex(s) => Ok(done.push(PatternModel::Regex(s))),
                ItemModel::Other(shown) => Err(
                    fault(path, "expected string or regex, got "@ + shown),
                ),
            },
        }
    }
}

impl SourceModel {
    /// The patterns at a path, if there is a value.
    pub open spec fn patterns(self, path: Seq<char>) -> Result<
        Option<Seq<PatternModel>>,
        Seq<char>,
    > {
        if !self.has(path) {
            Ok(None)
        } else if !self.nodes.contains_key(path) {
            Err(fault(path, missing_text(path)))
        } else {
            match self.nodes[path].listed {
                ListedModel::Items(items) => match patterns_of(path, items) {
                    Ok(v) => Ok(Some(v)),
                    Err(e) => Err(e),
                },
                ListedModel::Other(shown) => Err(fault(path, "expected array, got "@ + shown)),
            }
        }
    }
}

/// What stands for the outcome of reading patterns in contracts.
pub open spec fn patterns_read(r: Result<Option<Vec<Pattern>>, String>) -> Result<
    Option<Seq<PatternModel>>,
    Seq<char>,
> {
    match r {
        Ok(Some(v)) => Ok(Some(pattern_views(v@))),
        Ok(None) => Ok(None),
        Err(e) => Err(e@),
    }
}

/// What comes after an item that is no pattern is of no account.
proof fn bad_item_decides(path: Seq<char>, items: Seq<ItemModel>, n: int)
    requires
        0 <= n <= items.len(),
        patterns_of(path, items.take(n)) is Err,
    ensures
        patterns_of(path, items) == patterns_of(path, items.take(n)),
    decreases items.len(),
{
    if n == items.len() {
        assert(items.take(n) =~= items);
    } else {
        assert(items.drop_last().take(n) =~= items.take(n));
        bad_item_decides(path, items.drop_last(), n);
    }
}

/// The patterns of a list.
fn pattern_list(path: &str, items: &Vec<Item>) -> (r: Result<Vec<Pattern>, String>)
    ensures
        match r {
            Ok(v) => patterns_of(path@, item_views(items@)) == Ok::<_, Seq<char>>(
                pattern_views(v@),
            ),
            Err(e) => patterns_of(path@, item_views(items@)) == Err::<Seq<PatternModel>, _>(e@),
        },
{
    let mut out: Vec<Pattern> = Vec::new();
    let ghost all = item_views(items@);
    assert(pattern_views(out@) =~= Seq::empty());
    for i in 0..items.len()
        invariant
            all == item_views(items@),
            patterns_of(path@, all.take(i as int)) == Ok::<_, Seq<char>>(pattern_views(out@)),
    {
        assert(all.take(i + 1).drop_last() =~= all.take(i as int));
        assert(all.take(i + 1).last() == items@[i as int]@);
        let ghost before = out@;
        match &items[i] {
            Item::Text(s) => {
                let t = trim(s.as_str());
                let lit = to_lowercase(t.as_str());
                if lit.unicode_len() > 0 {
                    out.push(Pattern::Literal(lit));
                    assert(pattern_views(out@) =~= pattern_views(before).push(
                        PatternModel::Literal(lit@),
                    ));
                }
            },
            Item::Regex(s) => {
                out.push(Pattern::Regex(s.clone()));
                assert(pattern_views(out@) =~= pattern_views(before).push(
                    PatternModel::Regex(s@),
                ));
            },
            Item::Other(shown) => {
                let what = cat("expected string or regex, got ", shown.as_str());
                proof {
                    bad_item_decides(path@, all, i + 1);
                }
                return Err(fault_text(path, what.as_str()));
            },
        }
    }
    assert(all.take(items@.len() as int) =~= all);
    Ok(out)
}

/// Reads an optional array where each entry may be either `"string"` or `/regex/`.
pub fn opt_vec_pattern(rc: &RuneConfig, path: &str) -> (r: Result<Option<Vec<Pattern>>, String>)
    requires
        settled(*rc),
    ensures
        patterns_read(r) == source_of(*rc).patterns(path@),
{
    if !rune_has(rc, path) {
        return Ok(None);
    }
    match listed_at(rc, path) {
        Err(e) => Err(e),
        Ok(Listed::Other(shown)) => {
            let what = cat("expected array, got ", shown.as_str());
            Err(fault_text(path, what.as_str()))
        },
        Ok(Listed::Items(items)) => match pattern_list(path, &items) {
            Ok(v) => Ok(Some(v)),
            Err(e) => Err(e),
        },
    }
}

// ---------------------------------------------------------------------------------------------
// Lid actions
// ---------------------------------------------------------------------------------------------

/// The action that a text names: a built-in step, or a command; a blank text names none.
pub open spec fn lid_named(raw: Seq<char>) -> Option<LidModel> {
    let s = trimmed(raw);
    let k = lowered(s);
    if s.len() == 0 {
        None
    } else if k == "startup"@ {
        Some(LidModel::Builtin(KindModel::Startup))
    } else if k == "brightness"@ {
        Some(LidModel::Builtin(KindModel::Brightness))
    } else if k == "dpms"@ {
        Some(LidModel::Builtin(KindModel::Dpms))
    } else if k == "suspend"@ {
        Some(LidModel::Builtin(KindModel::Suspend))
    } else {
        Some(LidModel::Command(s))
    }
}

impl SourceModel {
    /// The lid action at a path.
    pub open spec fn lid(self, path: Seq<char>) -> Result<Option<LidModel>, Seq<char>> {
        match self.text(path) {
            Err(e) => Err(e),
            Ok(None) => Ok(None),
            Ok(Some(raw)) => Ok(lid_named(raw)),
        }
    }

    /// The lid action at a path of a profile: unset where there is no value, cleared where the
    /// value is blank.
    pub open spec fn lid_override(self, path: Seq<char>) -> Result<
        Option<Option<LidModel>>,
        Seq<char>,
    > {
        match self.text(path) {
            Err(e) => Err(e),
            Ok(None) => Ok(None),
            Ok(Some(raw)) => Ok(Some(lid_named(raw))),
        }
    }
}

/// What stands for the outcome of reading a lid action in contracts.
pub open spec fn lid_read(r: Result<Option<LidAction>, String>) -> Result<
    Option<LidModel>,
    Seq<char>,
> {
    match r {
        Ok(a) => Ok(lid_view(a)),
        Err(e) => Err(e@),
    }
}

/// What stands for the outcome of reading a profile's lid action in contracts.
pub open spec fn lid_override_read(r: Result<Option<Option<LidAction>>, String>) -> Result<
    Option<Option<LidModel>>,
    Seq<char>,
> {
    match r {
        Ok(a) => Ok(lid_set(a)),
        Err(e) => Err(e@),
    }
}

/// Accepts either one of `startup|brightness|dpms|suspend` in any case, or a command.
pub fn parse_lid_action_from_str(raw: &str) -> (r: Option<LidAction>)
    ensures
        lid_view(r) == lid_named(raw@),
{
    let s = trim(raw);
    if s.unicode_len() == 0 {
        return None;
    }
    let k = to_ascii_lower(s.as_str());
    if str_eq(k.as_str(), "startup") {
        Some(LidAction::Builtin(PlanStepKind::Startup))
    } else if str_eq(k.as_str(), "brightness") {
        Some(LidAction::Builtin(PlanStepKind::Brightness))
    } else if str_eq(k.as_str(), "dpms") {
        Some(LidAction::Builtin(PlanStepKind::Dpms))
    } else if str_eq(k.as_str(), "suspend") {
        Some(LidAction::Builtin(PlanStepKind::Suspend))
    } else {
        Some(LidAction::Command(s))
    }
}

/// The lid action at a path.
pub fn parse_lid_action(rc: &RuneConfig, path: &str) -> (r: Result<Option<LidAction>, String>)
    requires
        settled(*rc),
    ensures
        lid_read(r) == source_of(*rc).lid(path@),
{
    match opt_string(rc, path) {
        Err(e) => Err(e),
        Ok(None) => Ok(None),
        Ok(Some(raw)) => Ok(parse_lid_action_from_str(raw.as_str())),
    }
}

/// For profile overrides:
/// - missing key => None (no override)
/// - present but empty => Some(None) (clear)
/// - present and non-empty => Some(Some(action))
pub fn parse_lid_action_override(rc: &RuneConfig, path: &str) -> (r: Result<
    Option<Option<LidAction>>,
    String,
>)
    requires
        settled(*rc),
    ensures
        lid_override_read(r) == source_of(*rc).lid_override(path@),
{
    match opt_string(rc, path) {
        Err(e) => Err(e),
        Ok(None) => Ok(None),
        Ok(Some(raw)) => Ok(Some(parse_lid_action_from_str(raw.as_str()))),
    }
}

// ---------------------------------------------------------------------------------------------
// Plans
// ---------------------------------------------------------------------------------------------

/// A key without the differences that do not count.
pub open spec fn normal_key(k: Seq<char>) -> Seq<char> {
    lowercase(with_char_replaced(trimmed(k), '-', '_'))
}

/// A key that sets a global knob, or holds the plan of a power source, and names no step.
pub open spec fn is_global_key(k: Seq<char>, containers: bool) -> bool {
    ||| containers && (k == "ac"@ || k == "battery"@)
    ||| k == "mode"@
    ||| k == "enable_loginctl"@
    ||| k == "enable_dbus_inhibit"@
    ||| k == "pre_suspend_command"@
    ||| k == "monitor_media"@
    ||| k == "ignore_remote_media"@
    ||| k == "media_blacklist"@
    ||| k == "debounce_seconds"@
    ||| k == "notify_on_unpause"@
    ||| k == "notify_before_action"@
    ||| k == "inhibit_apps"@
    ||| k == "lid_close_action"@
    ||| k == "lid_open_action"@
}

/// The kind of the step that a normal key names.
pub open spec fn kind_named(k: Seq<char>) -> KindModel {
    if k == "lock_screen"@ {
        KindModel::LockScreen
    } else if k == "startup"@ {
        KindModel::Startup
    } else if k == "brightness"@ {
        KindModel::Brightness
    } else if k == "dpms"@ {
        KindModel::Dpms
    } else if k == "suspend"@ {
        KindModel::Suspend
    } else {
        KindModel::Custom(k)
    }
}

impl SourceModel {
    /// A block that sets anything that a step can have.
    pub open spec fn looks_like_step(self, base: Seq<char>) -> bool {
        ||| self.has(base + ".timeout"@)
        ||| self.has(base + ".command"@)
        ||| self.has(base + ".resume_command"@)
        ||| self.has(base + ".notification"@)
        ||| self.has(base + ".notify_seconds_before"@)
    }

    /// The block at a path, or the first of its fields that cannot be read.
    pub open spec fn block(self, base: Seq<char>) -> Result<BlockModel, Seq<char>> {
        match (
            self.text(base + ".command"@),
            self.text(base + ".resume_command"@),
            self.text(base + ".notification"@),
            self.count(base + ".notify_seconds_before"@),
        ) {
            (Err(e), _, _, _) => Err(e),
            (Ok(_), Err(e), _, _) => Err(e),
            (Ok(_), Ok(_), Err(e), _) => Err(e),
            (Ok(_), Ok(_), Ok(_), Err(e)) => Err(e),
            (
                Ok(command),
                Ok(resume_command),
                Ok(notification),
                Ok(notify_seconds_before),
            ) => Ok(
                BlockModel {
                    timeout_seconds: self.count_or_zero(base + ".timeout"@),
                    command,
                    resume_command,
                    notification,
                    notify_seconds_before,
                },
            ),
        }
    }

    /// The step that a key of a block describes, if it describes one.
    pub open spec fn step(self, block: Seq<char>, containers: bool, key: Seq<char>) -> Result<
        Option<StepModel>,
        Seq<char>,
    > {
        let k = normal_key(key);
        let base = block + "."@ + key;
        if is_global_key(k, containers) || !self.looks_like_step(base) {
            Ok(None)
        } else {
            match self.block(base) {
                Err(e) => Err(e),
                Ok(b) => Ok(Some(b.as_step(kind_named(k)))),
            }
        }
    }

    /// The steps that keys of a block describe, in their order.
    pub open spec fn steps(
        self,
        block: Seq<char>,
        containers: bool,
        keys: Seq<Seq<char>>,
    ) -> Result<Seq<StepModel>, Seq<char>>
        decreases keys.len(),
    {
        if keys.len() == 0 {
            Ok(Seq::empty())
        } else {
            match self.steps(block, containers, keys.drop_last()) {
                Err(e) => Err(e),
                Ok(done) => match self.step(block, containers, keys.last()) {
                    Err(e) => Err(e),
                    Ok(None) => Ok(done),
                    Ok(Some(step)) => Ok(done.push(step)),
                },
            }
        }
    }

    /// The plan that a block describes. Under a block that may hold the plans of the power
    /// sources, those are no steps of its own.
    pub open spec fn plan(self, block: Seq<char>, containers: bool) -> Result<
        Seq<StepModel>,
        Seq<char>,
    > {
        self.steps(block, containers, self.keys(block))
    }

    /// The plan of a power source; empty where none is written.
    pub open spec fn named_plan(self, base: Seq<char>) -> Result<Seq<StepModel>, Seq<char>> {
        if self.has(base) {
            self.plan(base, false)
        } else {
            Ok(Seq::empty())
        }
    }
}

/// What stands for the outcome of reading a block in contracts.
pub open spec fn block_read(r: Result<ActionBlock, String>) -> Result<BlockModel, Seq<char>> {
    match r {
        Ok(b) => Ok(b@),
        Err(e) => Err(e@),
    }
}

/// What stands for the outcome of reading a plan in contracts.
pub open spec fn plan_read(r: Result<Vec<PlanStep>, String>) -> Result<
    Seq<StepModel>,
    Seq<char>,
> {
    match r {
        Ok(v) => Ok(plan_view(v@)),
        Err(e) => Err(e@),
    }
}

/// A key without the differences that do not count.
pub fn norm_key(k: &str) -> (r: String)
    ensures
        r@ == normal_key(k@),
{
    let t = trim(k);
    let u = replace_char(t.as_str(), '-', '_');
    to_lowercase(u.as_str())
}

/// A key that sets a global knob, or holds the plan of a power source, and names no step.
pub fn is_non_step_key(norm: &str, allow_ac_battery_containers: bool) -> (r: bool)
    ensures
        r == is_global_key(norm@, allow_ac_battery_containers),
{
    (allow_ac_battery_containers && (str_eq(norm, "ac") || str_eq(norm, "battery")))
        || str_eq(norm, "mode")
        || str_eq(norm, "enable_loginctl")
        || str_eq(norm, "enable_dbus_inhibit")
        || str_eq(norm, "pre_suspend_command")
        || str_eq(norm, "monitor_media")
        || str_eq(norm, "ignore_remote_media")
        || str_eq(norm, "media_blacklist")
        || str_eq(norm, "debounce_seconds")
        || str_eq(norm, "notify_on_unpause")
        || str_eq(norm, "notify_before_action")
        || str_eq(norm, "inhibit_apps")
        || str_eq(norm, "lid_close_action")
        || str_eq(norm, "lid_open_action")
}

/// The path of a field of a block.
fn under(base: &str, field: &str) -> (r: String)
    ensures
        r@ == base@ + field@,
{
    cat(base, field)
}

/// A block that sets anything that a step can have.
pub fn looks_like_step(rc: &RuneConfig, base: &str) -> (r: bool)
    requires
        settled(*rc),
    ensures
        r == source_of(*rc).looks_like_step(base@),
{
    rune_has(rc, under(base, ".timeout").as_str())
        || rune_has(rc, under(base, ".command").as_str())
        || rune_has(rc, under(base, ".resume_command").as_str())
        || rune_has(rc, under(base, ".notification").as_str())
        || rune_has(rc, under(base, ".notify_seconds_before").as_str())
}

/// The action block at a path.
pub fn parse_action_block(rc: &RuneConfig, base: &str) -> (r: Result<ActionBlock, String>)
    requires
        settled(*rc),
    ensures
        block_read(r) == source_of(*rc).block(base@),
{
    let timeout_seconds: u64 = count_or_zero(rc, under(base, ".timeout").as_str());
    let command = match opt_string(rc, under(base, ".command").as_str()) {
        Ok(v) => v,
        Err(e) => return Err(e),
    };
    let resume_command = match opt_string(rc, under(base, ".resume_command").as_str()) {
        Ok(v) => v,
        Err(e) => return Err(e),
    };
    let notification = match opt_string(rc, under(base, ".notification").as_str()) {
        Ok(v) => v,
        Err(e) => return Err(e),
    };
    let notify_seconds_before: Option<u64> = match opt_u64(
        rc,
        under(base, ".notify_seconds_before").as_str(),
    ) {
        Ok(v) => v,
        Err(e) => return Err(e),
    };
    Ok(ActionBlock { timeout_seconds, command, resume_command, notification, notify_seconds_before })
}

/// The kind of the step that a normal key names.
fn kind_of_key(k: String) -> (r: PlanStepKind)
    ensures
        r@ == kind_named(k@),
{
    if str_eq(k.as_str(), "lock_screen") {
        PlanStepKind::LockScreen
    } else if str_eq(k.as_str(), "startup") {
        PlanStepKind::Startup
    } else if str_eq(k.as_str(), "brightness") {
        PlanStepKind::Brightness
    } else if str_eq(k.as_str(), "dpms") {
        PlanStepKind::Dpms
    } else if str_eq(k.as_str(), "suspend") {
        PlanStepKind::Suspend
    } else {
        PlanStepKind::Custom(k)
    }
}

/// The step of a kind that a block describes.
pub fn step_from_action_block(kind: PlanStepKind, ab: ActionBlock) -> (r: PlanStep)
    ensures
        r@ == ab@.as_step(kind@),
{
    PlanStep {
        kind,
        timeout_seconds: ab.timeout_seconds,
        command: ab.command,
        resume_command: ab.resume_command,
        notification: ab.notification,
        notify_seconds_before: ab.notify_seconds_before,
    }
}

/// The step that a key of a block describes, if it describes one.
fn parse_step(rc: &RuneConfig, block: &str, containers: bool, key: &str) -> (r: Result<
    Option<PlanStep>,
    String,
>)
    requires
        settled(*rc),
    ensures
        match r {
            Ok(Some(step)) => source_of(*rc).step(block@, containers, key@) == Ok::<_, Seq<char>>(
                Some(step@),
            ),
            Ok(None) => source_of(*rc).step(block@, containers, key@) == Ok::<
                Option<StepModel>,
                Seq<char>,
            >(None),
            Err(e) => source_of(*rc).step(block@, containers, key@) == Err::<
                Option<StepModel>,
                _,
            >(e@),
        },
{
    let k = norm_key(key);
    if is_non_step_key(k.as_str(), containers) {
        return Ok(None);
    }
    let mut base = cat(block, ".");
    base.append(key);
    if !looks_like_step(rc, base.as_str()) {
        return Ok(None);
    }
    match parse_action_block(rc, base.as_str()) {
        Err(e) => Err(e),
        Ok(b) => Ok(Some(step_from_action_block(kind_of_key(k), b))),
    }
}

/// What comes after a key that cannot be read is of no account.
proof fn bad_key_decides(
    s: SourceModel,
    block: Seq<char>,
    containers: bool,
    keys: Seq<Seq<char>>,
    n: int,
)
    requires
        0 <= n <= keys.len(),
        s.steps(block, containers, keys.take(n)) is Err,
    ensures
        s.steps(block, containers, keys) == s.steps(block, containers, keys.take(n)),
    decreases keys.len(),
{
    if n == keys.len() {
        assert(keys.take(n) =~= keys);
    } else {
        assert(keys.drop_last().take(n) =~= keys.take(n));
        bad_key_decides(s, block, containers, keys.drop_last(), n);
    }
}

/// Parse plan steps directly under a block (`default` or a profile block), excluding global knob
/// keys. Optionally treats `ac`/`battery` as containers.
pub fn parse_plan_block(
    rc: &RuneConfig,
    block_name: &str,
    allow_ac_battery_containers: bool,
) -> (r: Result<Vec<PlanStep>, String>)
    requires
        settled(*rc),
    ensures
        plan_read(r) == source_of(*rc).plan(block_name@, allow_ac_battery_containers),
{
    let keys = keys_under(rc, block_name);
    let ghost s = source_of(*rc);
    let ghost all = s.keys(block_name@);
    let mut plan: Vec<PlanStep> = Vec::new();
    assert(plan_view(plan@) =~= Seq::empty());
    for i in 0..keys.len()
        invariant
            settled(*rc),
            s == source_of(*rc),
            all == s.keys(block_name@),
            all == views(keys@),
            s.steps(block_name@, allow_ac_battery_containers, all.take(i as int)) == Ok::<
                _,
                Seq<char>,
            >(plan_view(plan@)),
    {
        assert(all.take(i + 1).drop_last() =~= all.take(i as int));
        assert(all.take(i + 1).last() == keys@[i as int]@);
        let ghost before = plan@;
        match parse_step(rc, block_name, allow_ac_battery_containers, keys[i].as_str()) {
            Err(e) => {
                proof {
                    bad_key_decides(s, block_name@, allow_ac_battery_containers, all, i + 1);
                }
                return Err(e);
            },
            Ok(None) => {},
            Ok(Some(step)) => {
                plan.push(step);
                assert(plan_view(plan@) =~= plan_view(before).push(step@));
            },
        }
    }
    assert(all.take(keys@.len() as int) =~= all);
    Ok(plan)
}

/// Parse a named plan container like `default.ac` or `profile_name.battery`.
pub fn parse_named_plan(rc: &RuneConfig, base: &str) -> (r: Result<Vec<PlanStep>, String>)
    requires
        settled(*rc),
    ensures
        plan_read(r) == source_of(*rc).named_plan(base@),
{
    if !rune_has(rc, base) {
        let none: Vec<PlanStep> = Vec::new();
        assert(plan_view(none@) =~= Seq::empty());
        return Ok(none);
    }
    parse_plan_block(rc, base, false)
}

} // verus!
