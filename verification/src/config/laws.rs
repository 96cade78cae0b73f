//! Laws on what a configuration file comes to under a profile and a power source.

use vstd::prelude::*;

use super::select::{
    first_named, first_named_is_first, first_of_kind, first_of_kind_is_first, merged,
    merging_keeps_other_steps, merging_sets_each_kind,
};
use super::types::{
    BlockModel, FileModel, KindModel, PlanSource, ProfileMode, StepModel,
};

verus! {

/// The profile at `i` is the one that the name means: the first of that name.
pub open spec fn is_meant(file: FileModel, name: Seq<char>, i: int) -> bool {
    &&& name != "default"@
    &&& 0 <= i < file.profiles.len()
    &&& file.profiles[i].name == name
    &&& forall|k: int| 0 <= k < i ==> (#[trigger] file.profiles[k]).name != name
}

proof fn meant_is_first(file: FileModel, name: Seq<char>, i: int)
    requires
        is_meant(file, name, i),
    ensures
        first_named(file.profiles, name) == i,
{
    first_named_is_first(file.profiles, name);
}

/// What a profile sets is in effect under it, whatever its mode. What it leaves open is as in the
/// default configuration under an overlay, and off, empty or none under a fresh profile.
pub proof fn profile_settings_take_effect(
    file: FileModel,
    name: Seq<char>,
    i: int,
    src: PlanSource,
)
    requires
        is_meant(file, name, i),
    ensures
        file.effective(Some(name), src) matches Some(c) && {
            let p = file.profiles[i].config;
            let d = file.default;
            if file.profiles[i].mode == ProfileMode::Overlay {
                &&& c.enable_loginctl == (match p.enable_loginctl {
                    Some(v) => v,
                    None => d.enable_loginctl,
                })
                &&& c.enable_dbus_inhibit == (match p.enable_dbus_inhibit {
                    Some(v) => v,
                    None => d.enable_dbus_inhibit,
                })
                &&& c.monitor_media == (match p.monitor_media {
                    Some(v) => v,
                    None => d.monitor_media,
                })
                &&& c.ignore_remote_media == (match p.ignore_remote_media {
                    Some(v) => v,
                    None => d.ignore_remote_media,
                })
                &&& c.notify_on_unpause == (match p.notify_on_unpause {
                    Some(v) => v,
                    None => d.notify_on_unpause,
                })
                &&& c.notify_before_action == (match p.notify_before_action {
                    Some(v) => v,
                    None => d.notify_before_action,
                })
                &&& c.debounce_seconds == (match p.debounce_seconds {
                    Some(v) => v,
                    None => d.debounce_seconds,
                })
                &&& c.pre_suspend_command == (match p.pre_suspend_command {
                    Some(v) => v,
                    None => d.pre_suspend_command,
                })
                &&& c.lid_close_action == (match p.lid_close_action {
                    Some(v) => v,
                    None => d.lid_close_action,
                })
                &&& c.lid_open_action == (match p.lid_open_action {
                    Some(v) => v,
                    None => d.lid_open_action,
                })
                &&& c.media_blacklist == (match p.media_blacklist {
                    Some(v) => v,
                    None => d.media_blacklist,
                })
                &&& c.inhibit_apps == (match p.inhibit_apps {
                    Some(v) => v,
                    None => d.inhibit_apps,
                })
                &&& c.startup == (match p.startup {
                    Some(v) => v,
                    None => d.startup,
                })
                &&& c.brightness == (match p.brightness {
                    Some(v) => v,
                    None => d.brightness,
                })
                &&& c.lock_screen == (match p.lock_screen {
                    Some(v) => v,
                    None => d.lock_screen,
                })
                &&& c.dpms == (match p.dpms {
                    Some(v) => v,
                    None => d.dpms,
                })
                &&& c.suspend == (match p.suspend {
                    Some(v) => v,
                    None => d.suspend,
                })
            } else {
                &&& c.enable_loginctl == (match p.enable_loginctl {
                    Some(v) => v,
                    None => false,
                })
                &&& c.enable_dbus_inhibit == (match p.enable_dbus_inhibit {
                    Some(v) => v,
                    None => false,
                })
                &&& c.monitor_media == (match p.monitor_media {
                    Some(v) => v,
                    None => false,
                })
                &&& c.ignore_remote_media == (match p.ignore_remote_media {
                    Some(v) => v,
                    None => false,
                })
                &&& c.notify_on_unpause == (match p.notify_on_unpause {
                    Some(v) => v,
                    None => false,
                })
                &&& c.notify_before_action == (match p.notify_before_action {
                    Some(v) => v,
                    None => false,
                })
                &&& c.debounce_seconds == (match p.debounce_seconds {
                    Some(v) => v,
                    None => 0,
                })
                &&& c.pre_suspend_command == (match p.pre_suspend_command {
                    Some(v) => v,
                    None => None,
                })
                &&& c.lid_close_action == (match p.lid_close_action {
                    Some(v) => v,
                    None => None,
                })
                &&& c.lid_open_action == (match p.lid_open_action {
                    Some(v) => v,
                    None => None,
                })
                &&& c.media_blacklist == (match p.media_blacklist {
                    Some(v) => v,
                    None => Seq::empty(),
                })
                &&& c.inhibit_apps == (match p.inhibit_apps {
                    Some(v) => v,
                    None => Seq::empty(),
                })
                &&& c.startup == (match p.startup {
                    Some(v) => v,
                    None => BlockModel {
                        timeout_seconds: 0,
                        command: None,
                        resume_command: None,
                        notification: None,
                        notify_seconds_before: None,
                    },
                })
                &&& c.brightness == (match p.brightness {
                    Some(v) => v,
                    None => BlockModel {
                        timeout_seconds: 0,
                        command: None,
                        resume_command: None,
                        notification: None,
                        notify_seconds_before: None,
                    },
                })
                &&& c.lock_screen == (match p.lock_screen {
                    Some(v) => v,
                    None => BlockModel {
                        timeout_seconds: 0,
                        command: None,
                        resume_command: None,
                        notification: None,
                        notify_seconds_before: None,
                    },
                })
                &&& c.dpms == (match p.dpms {
                    Some(v) => v,
                    None => BlockModel {
                        timeout_seconds: 0,
                        command: None,
                        resume_command: None,
                        notification: None,
                        notify_seconds_before: None,
                    },
                })
                &&& c.suspend == (match p.suspend {
                    Some(v) => v,
                    None => BlockModel {
                        timeout_seconds: 0,
                        command: None,
                        resume_command: None,
                        notification: None,
                        notify_seconds_before: None,
                    },
                })
            }
        },
{
    meant_is_first(file, name, i);
    reveal(FileModel::effective);
}

/// Without a profile, or under the one that is called `default`, the settings are those of the
/// default configuration.
pub proof fn default_settings_are_in_effect(file: FileModel, src: PlanSource)
    ensures
        file.effective(Some("default"@), src) == file.effective(None, src),
        file.effective(None, src) matches Some(c) && {
            let d = file.default;
            &&& c.enable_loginctl == d.enable_loginctl
            &&& c.enable_dbus_inhibit == d.enable_dbus_inhibit
            &&& c.monitor_media == d.monitor_media
            &&& c.ignore_remote_media == d.ignore_remote_media
            &&& c.notify_on_unpause == d.notify_on_unpause
            &&& c.notify_before_action == d.notify_before_action
            &&& c.debounce_seconds == d.debounce_seconds
            &&& c.pre_suspend_command == d.pre_suspend_command
            &&& c.lid_close_action == d.lid_close_action
            &&& c.lid_open_action == d.lid_open_action
            &&& c.media_blacklist == d.media_blacklist
            &&& c.inhibit_apps == d.inhibit_apps
            &&& c.startup == d.startup
            &&& c.brightness == d.brightness
            &&& c.lock_screen == d.lock_screen
            &&& c.dpms == d.dpms
            &&& c.suspend == d.suspend
        },
{
    reveal(FileModel::effective);
}

/// Without a profile, each power source has its own plan: that of the battery on battery, that of
/// the mains on mains. A source without a plan has the desktop plan.
pub proof fn default_plans_follow_the_source(file: FileModel)
    ensures
        file.effective(None, PlanSource::Desktop) matches Some(c) && (
        file.default.plan_desktop.len() > 0 ==> c.plan == file.default.plan_desktop),
        file.effective(None, PlanSource::Ac) matches Some(c) && (file.default.plan_ac.len() > 0
            ==> c.plan == file.default.plan_ac),
        file.effective(None, PlanSource::Battery) matches Some(c) && (
        file.default.plan_battery.len() > 0 ==> c.plan == file.default.plan_battery),
        file.default.plan_ac.len() == 0 ==> (file.effective(None, PlanSource::Ac)->0).plan == (
        file.effective(None, PlanSource::Desktop)->0).plan,
        file.default.plan_battery.len() == 0 ==> (file.effective(None, PlanSource::Battery)->0).plan
            == (file.effective(None, PlanSource::Desktop)->0).plan,
{
    reveal(FileModel::effective);
}

/// In a file without a desktop plan the named blocks make it: startup, brightness, lock, screen and
/// suspend, in this order, each as it is written.
pub proof fn named_blocks_make_the_plan(file: FileModel)
    requires
        file.default.plan_desktop.len() == 0,
    ensures
        file.effective(None, PlanSource::Desktop) matches Some(c) && {
            let d = file.default;
            let blocks = seq![d.startup, d.brightness, d.lock_screen, d.dpms, d.suspend];
            let kinds = seq![
                KindModel::Startup,
                KindModel::Brightness,
                KindModel::LockScreen,
                KindModel::Dpms,
                KindModel::Suspend,
            ];
            &&& c.plan.len() == 5
            &&& forall|i: int|
                0 <= i < 5 ==> {
                    &&& (#[trigger] c.plan[i]).kind == kinds[i]
                    &&& c.plan[i].timeout_seconds == blocks[i].timeout_seconds
                    &&& c.plan[i].command == blocks[i].command
                    &&& c.plan[i].resume_command == blocks[i].resume_command
                    &&& c.plan[i].notification == blocks[i].notification
                    &&& c.plan[i].notify_seconds_before == blocks[i].notify_seconds_before
                }
        },
{
    reveal(FileModel::effective);
}

/// A fresh profile has its own plans alone: for each power source the one that it sets, and its
/// desktop plan for a source for which it sets none.
pub proof fn fresh_plans_follow_the_source(file: FileModel, name: Seq<char>, i: int)
    requires
        is_meant(file, name, i),
        file.profiles[i].mode == ProfileMode::Fresh,
    ensures
        file.profiles[i].config.plan_desktop matches Some(v) ==> v.len() > 0 ==> (file.effective(
            Some(name),
            PlanSource::Desktop,
        ) matches Some(c) && c.plan == v),
        file.profiles[i].config.plan_ac matches Some(v) ==> v.len() > 0 ==> (file.effective(
            Some(name),
            PlanSource::Ac,
        ) matches Some(c) && c.plan == v),
        file.profiles[i].config.plan_battery matches Some(v) ==> v.len() > 0 ==> (file.effective(
            Some(name),
            PlanSource::Battery,
        ) matches Some(c) && c.plan == v),
        file.profiles[i].config.plan_ac is None ==> (file.effective(
            Some(name),
            PlanSource::Ac,
        )->0).plan == (file.effective(Some(name), PlanSource::Desktop)->0).plan,
        file.profiles[i].config.plan_battery is None ==> (file.effective(
            Some(name),
            PlanSource::Battery,
        )->0).plan == (file.effective(Some(name), PlanSource::Desktop)->0).plan,
{
    meant_is_first(file, name, i);
    reveal(FileModel::effective);
}

/// The plan of `base` with the steps of `over` merged in: the steps of `base` stand where they
/// stood, as they were if `over` has none of their kind; and the first step of each kind that
/// `over` has is the last one of that kind in `over`.
pub open spec fn overlaid(
    plan: Seq<StepModel>,
    base: Seq<StepModel>,
    over: Seq<StepModel>,
) -> bool {
    &&& plan.len() >= base.len()
    &&& forall|k: int| 0 <= k < base.len() ==> (#[trigger] plan[k]).kind == base[k].kind
    &&& forall|k: int|
        0 <= k < base.len() && (forall|j: int|
            0 <= j < over.len() ==> (#[trigger] over[j]).kind != base[k].kind)
            ==> #[trigger] plan[k] == base[k]
    &&& forall|j: int|
        0 <= j < over.len() && (forall|n: int|
            j < n < over.len() ==> (#[trigger] over[n]).kind != over[j].kind)
            ==> leads(plan, #[trigger] over[j])
}

/// The step is in the plan, and no other of its kind stands before it.
pub open spec fn leads(plan: Seq<StepModel>, step: StepModel) -> bool {
    exists|k: int|
        0 <= k < plan.len() && #[trigger] plan[k] == step && forall|n: int|
            0 <= n < k ==> (#[trigger] plan[n]).kind != step.kind
}

proof fn merged_is_overlaid(base: Seq<StepModel>, over: Seq<StepModel>)
    ensures
        overlaid(merged(base, over), base, over),
        over.len() > 0 ==> merged(base, over).len() > 0,
{
    let all = merged(base, over);
    merging_keeps_other_steps(base, over);
    assert forall|j: int|
        0 <= j < over.len() && (forall|n: int|
            j < n < over.len() ==> (#[trigger] over[n]).kind != over[j].kind) implies leads(
        all,
        #[trigger] over[j],
    ) by {
        merging_sets_each_kind(base, over, j);
        first_of_kind_is_first(all, over[j].kind);
        let k = first_of_kind(all, over[j].kind) as int;
        assert(all[k] == over[j]);
    }
    if over.len() > 0 {
        let j = over.len() - 1;
        merging_sets_each_kind(base, over, j);
    }
}

/// An overlay has the plans of the default configuration with its own steps merged in, for each
/// power source the steps that it sets for that source. Where it sets none, the plan is that of the
/// default configuration.
pub proof fn overlay_plans_follow_the_source(file: FileModel, name: Seq<char>, i: int)
    requires
        is_meant(file, name, i),
        file.profiles[i].mode == ProfileMode::Overlay,
    ensures
        file.profiles[i].config.plan_desktop matches Some(v) ==> v.len() > 0 ==> (file.effective(
            Some(name),
            PlanSource::Desktop,
        ) matches Some(c) && overlaid(c.plan, file.default.plan_desktop, v)),
        file.profiles[i].config.plan_desktop is None && file.default.plan_desktop.len() > 0 ==> (
        file.effective(
            Some(name),
            PlanSource::Desktop,
        ) matches Some(c) && c.plan == file.default.plan_desktop),
        file.profiles[i].config.plan_ac matches Some(v) ==> v.len() > 0 ==> (file.effective(
            Some(name),
            PlanSource::Ac,
        ) matches Some(c) && overlaid(c.plan, file.default.plan_ac, v)),
        file.profiles[i].config.plan_ac is None && file.default.plan_ac.len() > 0 ==> (
        file.effective(
            Some(name),
            PlanSource::Ac,
        ) matches Some(c) && c.plan == file.default.plan_ac),
        file.profiles[i].config.plan_battery matches Some(v) ==> v.len() > 0 ==> (file.effective(
            Some(name),
            PlanSource::Battery,
        ) matches Some(c) && overlaid(c.plan, file.default.plan_battery, v)),
        file.profiles[i].config.plan_battery is None && file.default.plan_battery.len() > 0 ==> (
        file.effective(
            Some(name),
            PlanSource::Battery,
        ) matches Some(c) && c.plan == file.default.plan_battery),
        file.profiles[i].config.plan_ac is None && file.default.plan_ac.len() == 0 ==> (
        file.effective(
            Some(name),
            PlanSource::Ac,
        )->0).plan == (file.effective(Some(name), PlanSource::Desktop)->0).plan,
        file.profiles[i].config.plan_battery is None && file.default.plan_battery.len() == 0 ==> (
        file.effective(
            Some(name),
            PlanSource::Battery,
        )->0).plan == (file.effective(Some(name), PlanSource::Desktop)->0).plan,
{
    meant_is_first(file, name, i);
    reveal(FileModel::effective);
    let p = file.profiles[i].config;
    if let Some(v) = p.plan_desktop {
        merged_is_overlaid(file.default.plan_desktop, v);
    }
    if let Some(v) = p.plan_ac {
        merged_is_overlaid(file.default.plan_ac, v);
    }
    if let Some(v) = p.plan_battery {
        merged_is_overlaid(file.default.plan_battery, v);
    }
}

} // verus!
