//! Lists of what is configured.

use vstd::prelude::*;

use super::engine::normalize_trigger_name;
use super::machine::normalized;
use super::Manager;
use crate::config::types::{
    plan_view, profile_views, ConfigModel, KindModel, PlanStep, PlanStepKind, ProfileModel,
    StepModel,
};
use crate::state::State;
use crate::text::numbers::{
    decimal, padded_left, padded_right, push_padded_left, push_padded_right, u64_to_string,
};
use crate::text::order::{sort_once, sorted_once};
use crate::text::strings::{cat, views};

verus! {

impl KindModel {
    /// The name by which a step of the kind is triggered.
    pub open spec fn trigger_name(self) -> Seq<char> {
        match self {
            KindModel::Startup => "startup"@,
            KindModel::Dpms => "dpms"@,
            KindModel::Brightness => "brightness"@,
            KindModel::LockScreen => "lock-screen"@,
            KindModel::Suspend => "suspend"@,
            KindModel::Custom(k) => "custom:"@ + normalized(k),
        }
    }
}

/// One line of the list of actions.
pub open spec fn action_line(i: int, step: StepModel) -> Seq<char> {
    let head = "  "@ + padded_left(decimal(i as nat), 2) + ". "@ + padded_right(
        step.kind.trigger_name(),
        18,
    ) + " timeout="@ + decimal(step.timeout_seconds as nat) + (if step.is_instant() {
        "s (instant) cmd="@
    } else {
        "s cmd="@
    }) + (match step.command {
        Some(c) => c,
        None => "<none>"@,
    });
    (match (step.notification, step.notify_seconds_before) {
        (Some(msg), Some(sec)) => head + " notify="@ + decimal(sec as nat) + "s \""@ + msg + "\""@,
        (Some(msg), None) => head + " notify \""@ + msg + "\""@,
        _ => head,
    }) + "\n"@
}

/// The lines of the enabled steps before `i`.
pub open spec fn action_lines(plan: Seq<StepModel>, i: int) -> Seq<char>
    decreases i,
{
    if i <= 0 {
        "Effective action plan:\n"@
    } else if plan[i - 1].enabled() {
        action_lines(plan, i - 1) + action_line(i - 1, plan[i - 1])
    } else {
        action_lines(plan, i - 1)
    }
}

/// The list of the actions in effect.
pub open spec fn action_list(cfg: Option<ConfigModel>) -> Seq<char> {
    match cfg {
        Some(c) => action_lines(c.plan, c.plan.len() as int),
        None => "ERROR: profile not found"@,
    }
}

pub open spec fn names_of(profiles: Seq<ProfileModel>) -> Seq<Seq<char>> {
    profiles.map_values(|p: ProfileModel| p.name)
}

/// One line for each of the first `i` names.
pub open spec fn name_lines(names: Seq<Seq<char>>, i: int) -> Seq<char>
    decreases i,
{
    if i <= 0 {
        "Profiles:\n"@
    } else {
        name_lines(names, i - 1) + "  "@ + names[i - 1] + "\n"@
    }
}

/// The list of the profiles, in order and each once.
pub open spec fn profile_list(profiles: Seq<ProfileModel>) -> Seq<char> {
    let names = sorted_once(names_of(profiles));
    if names.len() == 0 {
        "No profiles configured"@
    } else {
        name_lines(names, names.len() as int)
    }
}

fn trigger_name(kind: &PlanStepKind) -> (r: String)
    ensures
        r@ == kind@.trigger_name(),
{
    match kind {
        PlanStepKind::Startup => String::from_str("startup"),
        PlanStepKind::Dpms => String::from_str("dpms"),
        PlanStepKind::Brightness => String::from_str("brightness"),
        PlanStepKind::LockScreen => String::from_str("lock-screen"),
        PlanStepKind::Suspend => String::from_str("suspend"),
        PlanStepKind::Custom(k) => cat("custom:", normalize_trigger_name(k.as_str()).as_str()),
    }
}

fn render_action(i: usize, step: &PlanStep) -> (r: String)
    ensures
        r@ == action_line(i as int, step@),
{
    let mut out = String::from_str("  ");
    push_padded_left(&mut out, u64_to_string(i as u64).as_str(), 2);
    out.append(". ");
    push_padded_right(&mut out, trigger_name(&step.kind).as_str(), 18);
    out.append(" timeout=");
    out.append(u64_to_string(step.timeout_seconds).as_str());
    if step.is_instant() {
        out.append("s (instant) cmd=");
    } else {
        out.append("s cmd=");
    }
    match &step.command {
        Some(c) => {
            out.append(c.as_str());
        },
        None => {
            out.append("<none>");
        },
    }
    if let Some(msg) = &step.notification {
        match step.notify_seconds_before {
            Some(sec) => {
                out.append(" notify=");
                out.append(u64_to_string(sec).as_str());
                out.append("s \"");
            },
            None => {
                out.append(" notify \"");
            },
        }
        out.append(msg.as_str());
        out.append("\"");
    }
    out.append("\n");
    out
}

impl Manager {
    /// The list of the actions in effect.
    pub fn list_actions(&self, state: &State) -> (r: String)
        ensures
            r@ == action_list(self@.effective(state@)),
    {
        match self.cfg_file.effective_for(state.active_profile(), state.plan_source()) {
            None => String::from_str("ERROR: profile not found"),
            Some(cfg) => {
                let ghost plan = plan_view(cfg.plan@);
                let mut out = String::from_str("Effective action plan:\n");
                for i in 0..cfg.plan.len()
                    invariant
                        plan == plan_view(cfg.plan@),
                        out@ == action_lines(plan, i as int),
                {
                    assert(plan[i as int] == cfg.plan@[i as int]@);
                    if cfg.plan[i].enabled() {
                        let line = render_action(i, &cfg.plan[i]);
                        out.append(line.as_str());
                    }
                }
                out
            },
        }
    }

    /// The list of the profiles.
    pub fn list_profiles(&self) -> (r: String)
        ensures
            r@ == profile_list(self@.file.profiles),
    {
        let ghost profiles = profile_views(self.cfg_file.profiles@);
        let ghost all = names_of(profiles);
        let mut given: Vec<String> = Vec::new();
        for i in 0..self.cfg_file.profiles.len()
            invariant
                profiles == profile_views(self.cfg_file.profiles@),
                all == names_of(profiles),
                views(given@) == all.take(i as int),
        {
            let n = self.cfg_file.profiles[i].name.clone();
            let ghost before = views(given@);
            given.push(n);
            assert(views(given@) =~= before.push(n@));
            assert(all[i as int] == self.cfg_file.profiles@[i as int]@.name);
            assert(all.take(i + 1) =~= all.take(i as int).push(all[i as int]));
        }
        assert(all.take(all.len() as int) =~= all);
        let names = sort_once(&given);
        let ghost sorted = views(names@);
        if names.len() == 0 {
            return String::from_str("No profiles configured");
        }
        let mut out = String::from_str("Profiles:\n");
        for i in 0..names.len()
            invariant
                sorted == views(names@),
                out@ == name_lines(sorted, i as int),
        {
            out.append("  ");
            out.append(names[i].as_str());
            out.append("\n");
            assert(sorted[i as int] == names@[i as int]@);
        }
        out
    }
}

} // verus!
