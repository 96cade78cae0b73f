//! Laws on how a configuration is read: what is written is what is set.

use vstd::prelude::*;

use super::parse::{is_global_key, kind_named, lid_named, literal, normal_key, patterns_of};
use super::pattern::PatternModel;
use super::source::{ItemModel, ListedModel, SourceModel};
use super::types::{
    BlockModel, ConfigModel, FileModel, KindModel, LidModel, ProfileMode, ProfileModel, StepModel,
};
use crate::text::chars::lower;
use crate::text::strings::{has_part, lowercase, lowered, occurs_at, trimmed};

verus! {

// ---------------------------------------------------------------------------------------------
// Values
// ---------------------------------------------------------------------------------------------

/// A flag is written at the path.
pub open spec fn flagged(s: SourceModel, path: Seq<char>, b: bool) -> bool {
    s.entries.contains_key(path) && s.entries[path].flag == Ok::<bool, Seq<char>>(b)
}

/// A number is written at the path.
pub open spec fn counted(s: SourceModel, path: Seq<char>, n: u64) -> bool {
    s.entries.contains_key(path) && s.entries[path].count == Ok::<u64, Seq<char>>(n)
}

/// A text is written at the path.
pub open spec fn written(s: SourceModel, path: Seq<char>, t: Seq<char>) -> bool {
    s.entries.contains_key(path) && s.entries[path].text == Ok::<Seq<char>, Seq<char>>(t)
}

/// A text or nothing is written at the path.
pub open spec fn given(s: SourceModel, path: Seq<char>, t: Option<Seq<char>>) -> bool {
    s.entries.contains_key(path) && s.entries[path].nullable == Ok::<Option<Seq<char>>, Seq<char>>(
        t,
    )
}

/// A list is written at the path.
pub open spec fn listed(s: SourceModel, path: Seq<char>, items: Seq<ItemModel>) -> bool {
    s.entries.contains_key(path) && s.nodes.contains_key(path) && s.nodes[path].listed
        == ListedModel::Items(items)
}

/// Nothing is written at the path.
pub open spec fn silent(s: SourceModel, path: Seq<char>) -> bool {
    !s.entries.contains_key(path)
}

// ---------------------------------------------------------------------------------------------
// The default block
// ---------------------------------------------------------------------------------------------

/// The settings of the default block are those that are written in it. A flag that is not written
/// is off, a number is zero, and a command is none.
pub proof fn default_settings_are_as_written(s: SourceModel, f: FileModel, b: bool, n: u64)
    requires
        s.file() == Ok::<FileModel, Seq<char>>(f),
    ensures
        flagged(s, "default.enable_loginctl"@, b) ==> f.default.enable_loginctl == b,
        silent(s, "default.enable_loginctl"@) ==> !f.default.enable_loginctl,
        flagged(s, "default.enable_dbus_inhibit"@, b) ==> f.default.enable_dbus_inhibit == b,
        silent(s, "default.enable_dbus_inhibit"@) ==> !f.default.enable_dbus_inhibit,
        flagged(s, "default.monitor_media"@, b) ==> f.default.monitor_media == b,
        silent(s, "default.monitor_media"@) ==> !f.default.monitor_media,
        flagged(s, "default.ignore_remote_media"@, b) ==> f.default.ignore_remote_media == b,
        silent(s, "default.ignore_remote_media"@) ==> !f.default.ignore_remote_media,
        flagged(s, "default.notify_on_unpause"@, b) ==> f.default.notify_on_unpause == b,
        silent(s, "default.notify_on_unpause"@) ==> !f.default.notify_on_unpause,
        flagged(s, "default.notify_before_action"@, b) ==> f.default.notify_before_action == b,
        silent(s, "default.notify_before_action"@) ==> !f.default.notify_before_action,
        counted(s, "default.debounce_seconds"@, n) ==> f.default.debounce_seconds == n,
        silent(s, "default.debounce_seconds"@) ==> f.default.debounce_seconds == 0,
        silent(s, "default.pre_suspend_command"@) ==> f.default.pre_suspend_command is None,
        silent(s, "default.inhibit_apps"@) ==> f.default.inhibit_apps.len() == 0,
        silent(s, "default.media_blacklist"@) ==> f.default.media_blacklist.len() == 0,
        silent(s, "default.lid_close_action"@) ==> f.default.lid_close_action is None,
        silent(s, "default.lid_open_action"@) ==> f.default.lid_open_action is None,
{
    let p = s.plan("default"@, true)->Ok_0;
    blocks_keep_the_settings(bare_default(s), p);
}

/// The lists, the commands and the lid actions of the default block are those written in it, each
/// under its own name.
pub proof fn default_lists_are_as_written(
    s: SourceModel,
    f: FileModel,
    items: Seq<ItemModel>,
    t: Option<Seq<char>>,
    raw: Seq<char>,
)
    requires
        s.file() == Ok::<FileModel, Seq<char>>(f),
    ensures
        listed(s, "default.inhibit_apps"@, items) ==> patterns_of("default.inhibit_apps"@, items)
            == Ok::<Seq<PatternModel>, Seq<char>>(f.default.inhibit_apps),
        listed(s, "default.media_blacklist"@, items) ==> patterns_of(
            "default.media_blacklist"@,
            items,
        ) == Ok::<Seq<PatternModel>, Seq<char>>(f.default.media_blacklist),
        given(s, "default.pre_suspend_command"@, t) ==> f.default.pre_suspend_command == t,
        written(s, "default.lid_close_action"@, raw) ==> f.default.lid_close_action == lid_named(
            raw,
        ),
        written(s, "default.lid_open_action"@, raw) ==> f.default.lid_open_action == lid_named(raw),
{
    let p = s.plan("default"@, true)->Ok_0;
    blocks_keep_the_settings(bare_default(s), p);
}

/// The settings of the default block, without its steps.
spec fn bare_default(s: SourceModel) -> ConfigModel {
    ConfigModel {
        enable_loginctl: s.flag_or_off("default.enable_loginctl"@),
        enable_dbus_inhibit: s.flag_or_off("default.enable_dbus_inhibit"@),
        pre_suspend_command: match s.nullable("default.pre_suspend_command"@)->Ok_0 {
            Some(t) => t,
            None => None,
        },
        monitor_media: s.flag_or_off("default.monitor_media"@),
        ignore_remote_media: s.flag_or_off("default.ignore_remote_media"@),
        media_blacklist: super::document::patterns_or_none(
            s.patterns("default.media_blacklist"@)->Ok_0,
        ),
        debounce_seconds: s.count_or_zero("default.debounce_seconds"@),
        notify_on_unpause: s.flag_or_off("default.notify_on_unpause"@),
        notify_before_action: s.flag_or_off("default.notify_before_action"@),
        inhibit_apps: super::document::patterns_or_none(
            s.patterns("default.inhibit_apps"@)->Ok_0,
        ),
        lid_close_action: s.lid("default.lid_close_action"@)->Ok_0,
        lid_open_action: s.lid("default.lid_open_action"@)->Ok_0,
        ..ConfigModel::disabled()
    }
}

proof fn blocks_keep_the_settings(c: ConfigModel, plan: Seq<StepModel>)
    ensures
        ({
            let d = c.with_blocks_of(plan);
            &&& d.enable_loginctl == c.enable_loginctl
            &&& d.enable_dbus_inhibit == c.enable_dbus_inhibit
            &&& d.pre_suspend_command == c.pre_suspend_command
            &&& d.monitor_media == c.monitor_media
            &&& d.ignore_remote_media == c.ignore_remote_media
            &&& d.media_blacklist == c.media_blacklist
            &&& d.debounce_seconds == c.debounce_seconds
            &&& d.notify_on_unpause == c.notify_on_unpause
            &&& d.notify_before_action == c.notify_before_action
            &&& d.inhibit_apps == c.inhibit_apps
            &&& d.lid_close_action == c.lid_close_action
            &&& d.lid_open_action == c.lid_open_action
        }),
    decreases plan.len(),
{
    if plan.len() > 0 {
        blocks_keep_the_settings(c, plan.drop_last());
    }
}

/// The plan of the default block is made of the steps that are written in it, the plan for mains of
/// those under `ac`, and the one for the battery of those under `battery`.
pub proof fn default_plans_are_as_written(s: SourceModel, f: FileModel)
    requires
        s.file() == Ok::<FileModel, Seq<char>>(f),
    ensures
        s.entries.contains_key("default.ac"@) ==> s.steps(
            "default.ac"@,
            false,
            s.keys("default.ac"@),
        ) == Ok::<Seq<StepModel>, Seq<char>>(f.default.plan_ac),
        silent(s, "default.ac"@) ==> f.default.plan_ac.len() == 0,
        s.entries.contains_key("default.battery"@) ==> s.steps(
            "default.battery"@,
            false,
            s.keys("default.battery"@),
        ) == Ok::<Seq<StepModel>, Seq<char>>(f.default.plan_battery),
        silent(s, "default.battery"@) ==> f.default.plan_battery.len() == 0,
        s.steps("default"@, true, s.keys("default"@)) matches Ok(p) && (p.len() > 0
            ==> f.default.plan_desktop == p),
{
}

proof fn blocks_are_the_last_of_their_kind(c: ConfigModel, plan: Seq<StepModel>, j: int)
    requires
        0 <= j < plan.len(),
        forall|k: int| j < k < plan.len() ==> (#[trigger] plan[k]).kind != plan[j].kind,
    ensures
        ({
            let d = c.with_blocks_of(plan);
            let b = BlockModel {
                timeout_seconds: plan[j].timeout_seconds,
                command: plan[j].command,
                resume_command: plan[j].resume_command,
                notification: plan[j].notification,
                notify_seconds_before: plan[j].notify_seconds_before,
            };
            &&& plan[j].kind == KindModel::Startup ==> d.startup == b
            &&& plan[j].kind == KindModel::Brightness ==> d.brightness == b
            &&& plan[j].kind == KindModel::LockScreen ==> d.lock_screen == b
            &&& plan[j].kind == KindModel::Dpms ==> d.dpms == b
            &&& plan[j].kind == KindModel::Suspend ==> d.suspend == b
        }),
    decreases plan.len(),
{
    if j < plan.len() - 1 {
        let rest = plan.drop_last();
        assert(rest[j] == plan[j]);
        assert forall|k: int| j < k < rest.len() implies (#[trigger] rest[k]).kind
            != rest[j].kind by {
            assert(rest[k] == plan[k]);
        }
        blocks_are_the_last_of_their_kind(c, rest, j);
        assert(plan[plan.len() - 1].kind != plan[j].kind);
    }
}

/// The named blocks of the default configuration are the steps of their kinds in its plan, the last
/// one of each kind.
pub proof fn named_blocks_are_as_written(s: SourceModel, f: FileModel, p: Seq<StepModel>, j: int)
    requires
        s.file() == Ok::<FileModel, Seq<char>>(f),
        s.steps("default"@, true, s.keys("default"@)) == Ok::<Seq<StepModel>, Seq<char>>(p),
        0 <= j < p.len(),
        forall|k: int| j < k < p.len() ==> (#[trigger] p[k]).kind != p[j].kind,
    ensures
        ({
            let b = BlockModel {
                timeout_seconds: p[j].timeout_seconds,
                command: p[j].command,
                resume_command: p[j].resume_command,
                notification: p[j].notification,
                notify_seconds_before: p[j].notify_seconds_before,
            };
            &&& p[j].kind == KindModel::Startup ==> f.default.startup == b
            &&& p[j].kind == KindModel::Brightness ==> f.default.brightness == b
            &&& p[j].kind == KindModel::LockScreen ==> f.default.lock_screen == b
            &&& p[j].kind == KindModel::Dpms ==> f.default.dpms == b
            &&& p[j].kind == KindModel::Suspend ==> f.default.suspend == b
        }),
{
    blocks_are_the_last_of_their_kind(bare_default(s), p, j);
}

// ---------------------------------------------------------------------------------------------
// Steps
// ---------------------------------------------------------------------------------------------

/// The step is what is written under `base`, and of the kind that the key names.
pub open spec fn as_written(
    s: SourceModel,
    base: Seq<char>,
    k: Seq<char>,
    step: StepModel,
) -> bool {
    &&& k == "startup"@ ==> step.kind == KindModel::Startup
    &&& k == "brightness"@ ==> step.kind == KindModel::Brightness
    &&& k == "lock_screen"@ ==> step.kind == KindModel::LockScreen
    &&& k == "dpms"@ ==> step.kind == KindModel::Dpms
    &&& k == "suspend"@ ==> step.kind == KindModel::Suspend
    &&& k != "startup"@ && k != "brightness"@ && k != "lock_screen"@ && k != "dpms"@ && k
        != "suspend"@ ==> step.kind == KindModel::Custom(k)
    &&& forall|n: u64| #[trigger]
        counted(s, base + ".timeout"@, n) ==> step.timeout_seconds == n
    &&& silent(s, base + ".timeout"@) ==> step.timeout_seconds == 0
    &&& forall|t: Seq<char>| #[trigger]
        written(s, base + ".command"@, t) ==> step.command == Some(t)
    &&& silent(s, base + ".command"@) ==> step.command is None
    &&& forall|t: Seq<char>| #[trigger]
        written(s, base + ".resume_command"@, t) ==> step.resume_command == Some(t)
    &&& silent(s, base + ".resume_command"@) ==> step.resume_command is None
    &&& forall|t: Seq<char>| #[trigger]
        written(s, base + ".notification"@, t) ==> step.notification == Some(t)
    &&& silent(s, base + ".notification"@) ==> step.notification is None
    &&& forall|n: u64| #[trigger]
        counted(s, base + ".notify_seconds_before"@, n) ==> step.notify_seconds_before == Some(n)
    &&& silent(s, base + ".notify_seconds_before"@) ==> step.notify_seconds_before is None
}

/// The key describes a step: it is none of the settings, and something that a step can have is
/// written under it.
pub open spec fn describes_a_step(
    s: SourceModel,
    block: Seq<char>,
    containers: bool,
    key: Seq<char>,
) -> bool {
    let base = block + "."@ + key;
    !is_global_key(normal_key(key), containers) && !(silent(s, base + ".timeout"@) && silent(
        s,
        base + ".command"@,
    ) && silent(s, base + ".resume_command"@) && silent(s, base + ".notification"@) && silent(
        s,
        base + ".notify_seconds_before"@,
    ))
}

proof fn kinds_are_named(k: Seq<char>)
    ensures
        k == "startup"@ ==> kind_named(k) == KindModel::Startup,
        k == "brightness"@ ==> kind_named(k) == KindModel::Brightness,
        k == "lock_screen"@ ==> kind_named(k) == KindModel::LockScreen,
        k == "dpms"@ ==> kind_named(k) == KindModel::Dpms,
        k == "suspend"@ ==> kind_named(k) == KindModel::Suspend,
{
    reveal_strlit("startup");
    reveal_strlit("brightness");
    reveal_strlit("lock_screen");
    reveal_strlit("dpms");
    reveal_strlit("suspend");
    assert("startup"@.len() == 7 && "brightness"@.len() == 10 && "lock_screen"@.len() == 11
        && "dpms"@.len() == 4 && "suspend"@.len() == 7);
    assert("startup"@[1] == 't' && "suspend"@[1] == 'u');
}

proof fn step_is_as_written(s: SourceModel, block: Seq<char>, containers: bool, key: Seq<char>)
    ensures
        s.step(block, containers, key) matches Ok(o) ==> {
            &&& o is Some <==> describes_a_step(s, block, containers, key)
            &&& o matches Some(step) ==> as_written(s, block + "."@ + key, normal_key(key), step)
        },
{
    kinds_are_named(normal_key(key));
}

/// Every key of a block that describes a step has that step in the plan.
pub proof fn written_step_is_in_the_plan(
    s: SourceModel,
    block: Seq<char>,
    containers: bool,
    keys: Seq<Seq<char>>,
    p: Seq<StepModel>,
    i: int,
)
    requires
        s.steps(block, containers, keys) == Ok::<Seq<StepModel>, Seq<char>>(p),
        0 <= i < keys.len(),
        describes_a_step(s, block, containers, keys[i]),
    ensures
        exists|j: int|
            0 <= j < p.len() && as_written(
                s,
                block + "."@ + keys[i],
                normal_key(keys[i]),
                #[trigger] p[j],
            ),
    decreases keys.len(),
{
    let rest = keys.drop_last();
    let done = s.steps(block, containers, rest)->Ok_0;
    step_is_as_written(s, block, containers, keys.last());
    if i == keys.len() - 1 {
        assert(p.last() == p[p.len() - 1]);
    } else {
        assert(rest[i] == keys[i]);
        written_step_is_in_the_plan(s, block, containers, rest, done, i);
        let j = choose|j: int|
            0 <= j < done.len() && as_written(
                s,
                block + "."@ + keys[i],
                normal_key(keys[i]),
                #[trigger] done[j],
            );
        assert(p[j] == done[j]);
    }
}

/// Every step of a plan is written under a key of its block.
pub proof fn planned_step_is_written(
    s: SourceModel,
    block: Seq<char>,
    containers: bool,
    keys: Seq<Seq<char>>,
    p: Seq<StepModel>,
    j: int,
)
    requires
        s.steps(block, containers, keys) == Ok::<Seq<StepModel>, Seq<char>>(p),
        0 <= j < p.len(),
    ensures
        exists|i: int|
            0 <= i < keys.len() && describes_a_step(s, block, containers, #[trigger] keys[i])
                && as_written(s, block + "."@ + keys[i], normal_key(keys[i]), p[j]),
    decreases keys.len(),
{
    if keys.len() > 0 {
        let rest = keys.drop_last();
        let done = s.steps(block, containers, rest)->Ok_0;
        step_is_as_written(s, block, containers, keys.last());
        if j < done.len() {
            planned_step_is_written(s, block, containers, rest, done, j);
            let i = choose|i: int|
                0 <= i < rest.len() && describes_a_step(s, block, containers, #[trigger] rest[i])
                    && as_written(s, block + "."@ + rest[i], normal_key(rest[i]), done[j]);
            assert(keys[i] == rest[i]);
        } else {
            assert(keys[keys.len() - 1] == keys.last());
        }
    }
}

/// The steps come in the order in which they are written: the first keys make the first steps.
pub proof fn steps_keep_their_order(
    s: SourceModel,
    block: Seq<char>,
    containers: bool,
    keys: Seq<Seq<char>>,
    n: int,
)
    requires
        s.steps(block, containers, keys) is Ok,
        0 <= n <= keys.len(),
    ensures
        s.steps(block, containers, keys.take(n)) matches Ok(first) && first.is_prefix_of(
            s.steps(block, containers, keys)->Ok_0,
        ),
    decreases keys.len(),
{
    if n == keys.len() {
        assert(keys.take(n) =~= keys);
    } else {
        let rest = keys.drop_last();
        assert(rest.take(n) =~= keys.take(n));
        steps_keep_their_order(s, block, containers, rest, n);
    }
}

// ---------------------------------------------------------------------------------------------
// Profiles
// ---------------------------------------------------------------------------------------------

/// A profile sets what is written in its block, and nothing that is not.
pub proof fn profile_sets_what_is_written(
    s: SourceModel,
    name: Seq<char>,
    p: ProfileModel,
    b: bool,
    n: u64,
)
    requires
        s.profile(name) == Ok::<Option<ProfileModel>, Seq<char>>(Some(p)),
    ensures
        p.name == name,
        flagged(s, name + ".enable_loginctl"@, b) ==> p.config.enable_loginctl == Some(b),
        silent(s, name + ".enable_loginctl"@) ==> p.config.enable_loginctl is None,
        flagged(s, name + ".enable_dbus_inhibit"@, b) ==> p.config.enable_dbus_inhibit == Some(b),
        silent(s, name + ".enable_dbus_inhibit"@) ==> p.config.enable_dbus_inhibit is None,
        flagged(s, name + ".monitor_media"@, b) ==> p.config.monitor_media == Some(b),
        silent(s, name + ".monitor_media"@) ==> p.config.monitor_media is None,
        flagged(s, name + ".ignore_remote_media"@, b) ==> p.config.ignore_remote_media == Some(b),
        silent(s, name + ".ignore_remote_media"@) ==> p.config.ignore_remote_media is None,
        flagged(s, name + ".notify_on_unpause"@, b) ==> p.config.notify_on_unpause == Some(b),
        silent(s, name + ".notify_on_unpause"@) ==> p.config.notify_on_unpause is None,
        flagged(s, name + ".notify_before_action"@, b) ==> p.config.notify_before_action == Some(b),
        silent(s, name + ".notify_before_action"@) ==> p.config.notify_before_action is None,
        counted(s, name + ".debounce_seconds"@, n) ==> p.config.debounce_seconds == Some(n),
        silent(s, name + ".debounce_seconds"@) ==> p.config.debounce_seconds is None,
        silent(s, name + ".pre_suspend_command"@) ==> p.config.pre_suspend_command is None,
        silent(s, name + ".inhibit_apps"@) ==> p.config.inhibit_apps is None,
        silent(s, name + ".media_blacklist"@) ==> p.config.media_blacklist is None,
        silent(s, name + ".lid_close_action"@) ==> p.config.lid_close_action is None,
        silent(s, name + ".lid_open_action"@) ==> p.config.lid_open_action is None,
        s.steps(name, true, s.keys(name)) matches Ok(q) && p.config.plan_desktop == if q.len()
            == 0 {
            None
        } else {
            Some(q)
        },
        s.entries.contains_key(name + ".ac"@) ==> (s.steps(
            name + ".ac"@,
            false,
            s.keys(name + ".ac"@),
        ) matches Ok(q) && (q.len() > 0 ==> p.config.plan_ac == Some(q))),
        silent(s, name + ".ac"@) ==> p.config.plan_ac is None,
        s.entries.contains_key(name + ".battery"@) ==> (s.steps(
            name + ".battery"@,
            false,
            s.keys(name + ".battery"@),
        ) matches Ok(q) && (q.len() > 0 ==> p.config.plan_battery == Some(q))),
        silent(s, name + ".battery"@) ==> p.config.plan_battery is None,
{
}

/// The lists, the commands and the lid actions of a profile are those written in its block, each
/// under its own name.
pub proof fn profile_lists_are_as_written(
    s: SourceModel,
    name: Seq<char>,
    p: ProfileModel,
    items: Seq<ItemModel>,
    t: Option<Seq<char>>,
    raw: Seq<char>,
)
    requires
        s.profile(name) == Ok::<Option<ProfileModel>, Seq<char>>(Some(p)),
    ensures
        listed(s, name + ".inhibit_apps"@, items) ==> (p.config.inhibit_apps matches Some(v)
            && patterns_of(name + ".inhibit_apps"@, items) == Ok::<Seq<PatternModel>, Seq<char>>(v)),
        listed(s, name + ".media_blacklist"@, items) ==> (p.config.media_blacklist matches Some(v)
            && patterns_of(name + ".media_blacklist"@, items) == Ok::<
            Seq<PatternModel>,
            Seq<char>,
        >(v)),
        given(s, name + ".pre_suspend_command"@, t) ==> p.config.pre_suspend_command == Some(t),
        written(s, name + ".lid_close_action"@, raw) ==> p.config.lid_close_action == Some(
            lid_named(raw),
        ),
        written(s, name + ".lid_open_action"@, raw) ==> p.config.lid_open_action == Some(
            lid_named(raw),
        ),
{
}

/// A profile is fresh where that is written, and an overlay where that is; another mode is refused.
pub proof fn profile_has_the_written_mode(s: SourceModel, name: Seq<char>, raw: Seq<char>)
    requires
        written(s, name + ".mode"@, raw),
    ensures
        s.profile(name) matches Ok(Some(p)) ==> {
            let m = lowercase(trimmed(raw));
            &&& m == "fresh"@ || m == "overlay"@
            &&& p.mode == ProfileMode::Fresh <==> m == "fresh"@
        },
{
    reveal_strlit("fresh");
    reveal_strlit("overlay");
    assert("fresh"@.len() != "overlay"@.len());
}

/// A profile without a mode is an overlay.
pub proof fn profile_is_an_overlay_unless_said(s: SourceModel, name: Seq<char>)
    requires
        silent(s, name + ".mode"@),
    ensures
        s.profile(name) matches Ok(Some(p)) ==> (lowercase("overlay"@) == "overlay"@ ==> p.mode
            == ProfileMode::Overlay),
{
    reveal_strlit("overlay");
    reveal_strlit("fresh");
    assert("fresh"@.len() != "overlay"@.len());
    let o = "overlay"@;
    assert(o[0] == 'o' && o.last() == 'y');
    assert(trimmed(o) == o);
}

/// The default block, metadata and what is no block are no profiles.
pub proof fn other_keys_are_no_profiles(s: SourceModel, name: Seq<char>)
    requires
        name == "default"@ || name.len() == 0 || name[0] == '@' || silent(s, name) || s.keys(
            name,
        ).len() == 0,
    ensures
        s.profile(name) == Ok::<Option<ProfileModel>, Seq<char>>(None),
{
}

/// Every top-level block but the default one and the metadata is a profile of the file.
pub proof fn every_block_is_a_profile(
    s: SourceModel,
    names: Seq<Seq<char>>,
    all: Seq<ProfileModel>,
    i: int,
)
    requires
        s.profiles_of(names) == Ok::<Seq<ProfileModel>, Seq<char>>(all),
        0 <= i < names.len(),
        names[i].len() > 0,
        names[i] != "default"@,
        names[i][0] != '@',
        s.entries.contains_key(names[i]),
        s.keys(names[i]).len() > 0,
    ensures
        exists|j: int|
            0 <= j < all.len() && s.profile(names[i]) == Ok::<Option<ProfileModel>, Seq<char>>(
                Some(#[trigger] all[j]),
            ),
    decreases names.len(),
{
    let rest = names.drop_last();
    let done = s.profiles_of(rest)->Ok_0;
    if i == names.len() - 1 {
        assert(all[all.len() - 1] == all.last());
    } else {
        assert(rest[i] == names[i]);
        every_block_is_a_profile(s, rest, done, i);
        let j = choose|j: int|
            0 <= j < done.len() && s.profile(names[i]) == Ok::<Option<ProfileModel>, Seq<char>>(
                Some(#[trigger] done[j]),
            );
        assert(all[j] == done[j]);
    }
}

// ---------------------------------------------------------------------------------------------
// Lid actions and patterns
// ---------------------------------------------------------------------------------------------

/// `a` is the word `w`, in capitals or not.
pub open spec fn is_word_of(a: Seq<char>, w: Seq<char>) -> bool {
    a.len() == w.len() && forall|i: int|
        0 <= i < a.len() ==> (#[trigger] a[i] == w[i] || a[i] as int == w[i] as int - 32)
}

proof fn word_is_lowered(a: Seq<char>, w: Seq<char>)
    requires
        is_word_of(a, w),
        forall|i: int| 0 <= i < w.len() ==> 'a' <= #[trigger] w[i] <= 'z',
    ensures
        lowered(a) == w,
{
    assert forall|i: int| 0 <= i < a.len() implies #[trigger] lowered(a)[i] == w[i] by {
        assert('a' <= w[i] <= 'z');
        assert(lowered(a)[i] == lower(a[i]));
        assert(a[i] == w[i] || a[i] as int == w[i] as int - 32);
    }
    assert(lowered(a) =~= w);
}

/// The lid does what its setting names: one of the steps, or the command that is written.
pub proof fn lid_does_what_is_named(raw: Seq<char>)
    ensures
        is_word_of(trimmed(raw), "startup"@) ==> lid_named(raw) == Some(
            LidModel::Builtin(KindModel::Startup),
        ),
        is_word_of(trimmed(raw), "brightness"@) ==> lid_named(raw) == Some(
            LidModel::Builtin(KindModel::Brightness),
        ),
        is_word_of(trimmed(raw), "dpms"@) ==> lid_named(raw) == Some(
            LidModel::Builtin(KindModel::Dpms),
        ),
        is_word_of(trimmed(raw), "suspend"@) ==> lid_named(raw) == Some(
            LidModel::Builtin(KindModel::Suspend),
        ),
        trimmed(raw).len() == 0 ==> lid_named(raw) is None,
        trimmed(raw).len() > 0 && lowered(trimmed(raw)) != "startup"@ && lowered(trimmed(raw))
            != "brightness"@ && lowered(trimmed(raw)) != "dpms"@ && lowered(trimmed(raw))
            != "suspend"@ ==> lid_named(raw) == Some(LidModel::Command(trimmed(raw))),
{
    kinds_are_named(lowered(trimmed(raw)));
    reveal_strlit("startup");
    reveal_strlit("brightness");
    reveal_strlit("dpms");
    reveal_strlit("suspend");
    let t = trimmed(raw);
    if is_word_of(t, "startup"@) {
        word_is_lowered(t, "startup"@);
    }
    if is_word_of(t, "brightness"@) {
        word_is_lowered(t, "brightness"@);
    }
    if is_word_of(t, "dpms"@) {
        word_is_lowered(t, "dpms"@);
    }
    if is_word_of(t, "suspend"@) {
        word_is_lowered(t, "suspend"@);
    }
    assert("startup"@.len() == 7 && "brightness"@.len() == 10 && "dpms"@.len() == 4
        && "suspend"@.len() == 7 && "startup"@[1] == 't' && "suspend"@[1] == 'u');
}

/// Every item of a list is a pattern of it: a regular expression as it is written, a text in lower
/// case and without the white space around it. What is neither is refused.
pub proof fn items_are_patterns(
    path: Seq<char>,
    items: Seq<ItemModel>,
    v: Seq<PatternModel>,
    i: int,
)
    requires
        patterns_of(path, items) == Ok::<Seq<PatternModel>, Seq<char>>(v),
        0 <= i < items.len(),
    ensures
        !(items[i] is Other),
        items[i] matches ItemModel::Regex(src) ==> v.contains(PatternModel::Regex(src)),
        items[i] matches ItemModel::Text(t) ==> (lowercase(trimmed(t)).len() > 0 ==> v.contains(
            PatternModel::Literal(lowercase(trimmed(t))),
        )),
    decreases items.len(),
{
    let rest = items.drop_last();
    let done = patterns_of(path, rest)->Ok_0;
    if i == items.len() - 1 {
        if v.len() > done.len() {
            assert(v[v.len() - 1] == v.last());
        }
        assert(literal(items[i]->Text_0) == lowercase(trimmed(items[i]->Text_0)));
    } else {
        assert(rest[i] == items[i]);
        items_are_patterns(path, rest, done, i);
        assert forall|x: PatternModel| done.contains(x) implies v.contains(x) by {
            let k = choose|k: int| 0 <= k < done.len() && done[k] == x;
            assert(v[k] == x);
        }
    }
}

/// A literal pattern matches every text that it stands in, and no other; an empty one matches
/// nothing.
pub proof fn literal_matches_what_it_stands_in(
    s: Seq<char>,
    before: Seq<char>,
    behind: Seq<char>,
    hay: Seq<char>,
)
    ensures
        s.len() > 0 ==> PatternModel::Literal(s).matches(before + s + behind),
        s.len() == 0 ==> !PatternModel::Literal(s).matches(hay),
        s.len() > hay.len() ==> !PatternModel::Literal(s).matches(hay),
        PatternModel::Literal(s).matches(hay) ==> exists|i: int|
            0 <= i && i + s.len() <= hay.len() && #[trigger] hay.subrange(i, i + s.len()) == s,
{
    let all = before + s + behind;
    let i = before.len() as int;
    assert(all.subrange(i, i + s.len()) =~= s);
    assert(occurs_at(all, s, i));
    if has_part(hay, s) {
        let k = choose|k: int| occurs_at(hay, s, k);
        assert(hay.subrange(k, k + s.len()) == s);
    }
}

} // verus!
