//! The state and the configuration in words.

use vstd::prelude::*;

use super::engine::skip_disabled;
use super::machine::{next_enabled, notifies, runs_at};
use crate::config::pattern::{pattern_views, Pattern, PatternModel};
use crate::config::types::{
    plan_view, Config, ConfigModel, KindModel, PlanSource, PlanStepKind, StepModel,
};
use crate::state::{State, StateModel};
use crate::text::numbers::{
    byte_len, byte_len_of, decimal, padded_left, padded_right, push_padded_left, push_padded_right,
    u64_to_string,
};
use crate::text::strings::{cat, join, joined, trim_end, trimmed_end, views};
use crate::time::{add_ms, in_ms, later, seconds_to_ms, since, since_ms};

verus! {

// ---------------------------------------------------------------------------------------------
// What is shown
// ---------------------------------------------------------------------------------------------

pub open spec fn yes_or_no(v: bool) -> Seq<char> {
    if v {
        "yes"@
    } else {
        "no"@
    }
}

pub open spec fn source_name(src: PlanSource) -> Seq<char> {
    match src {
        PlanSource::Desktop => "Desktop"@,
        PlanSource::Ac => "Ac"@,
        PlanSource::Battery => "Battery"@,
    }
}

impl StateModel {
    /// The state in one word.
    pub open spec fn word(self) -> Seq<char> {
        if self.is_locked {
            "locked"@
        } else if self.manually_paused {
            "manual"@
        } else if self.system_paused || self.inhibitors_active() {
            "inhibited"@
        } else if self.debounce_pending {
            "waiting"@
        } else {
            "active"@
        }
    }

    pub open spec fn profile_label(self) -> Seq<char> {
        match self.active_profile {
            Some(n) => n,
            None => "none"@,
        }
    }

    /// The lines about the state itself.
    pub open spec fn lines(self) -> Seq<char> {
        "Profile: "@ + self.profile_label() + "\nPlan Source: "@ + source_name(self.plan_source)
            + "\nState: "@ + self.word() + "\nManual Pause: "@ + yes_or_no(self.manually_paused)
            + "\nPaused: "@ + yes_or_no(self.paused) + "\nApps Inhibiting: "@ + decimal(
            self.app_inhibitor_count as nat,
        ) + "\nMedia Players Playing: "@ + decimal(self.media_inhibitor_count as nat) + "\n"@
    }
}

impl KindModel {
    /// The kind as it is shown before its time.
    pub open spec fn shown(self) -> Seq<char> {
        match self {
            KindModel::Custom(s) => "Custom("@ + s + ")"@,
            _ => self.name(),
        }
    }

    /// The kind as it is shown in the table of the plan.
    pub open spec fn row_name(self) -> Seq<char> {
        match self {
            KindModel::Startup => "startup"@,
            KindModel::Brightness => "brightness"@,
            KindModel::LockScreen => "lockscreen"@,
            KindModel::Dpms => "dpms"@,
            KindModel::Suspend => "suspend"@,
            KindModel::Custom(s) => "custom:"@ + s,
        }
    }
}

/// When the step is shown to be due.
pub open spec fn shown_due_at(s: StateModel, cfg: ConfigModel, step: StepModel) -> u64 {
    later(later(s.step_base_ms, in_ms(cfg.debounce_seconds)), in_ms(step.timeout_seconds))
}

/// Whole seconds from `now` until `t`.
pub open spec fn seconds_until(t: u64, now: u64) -> Seq<char> {
    decimal((since(t, now) / 1000) as nat)
}

/// What comes next.
pub open spec fn next_line(cfg: ConfigModel, s: StateModel, now: u64) -> Seq<char> {
    let i = next_enabled(cfg.plan, s.step_index as int);
    if s.paused {
        match s.pause_started_ms {
            Some(start) => "Next: paused for "@ + decimal((since(now, start) / 1000) as nat) + "s"@,
            None => "Next: paused"@,
        }
    } else if s.debounce_pending {
        "Next: waiting for idle"@
    } else if i >= cfg.plan.len() {
        "Next: (end of plan)"@
    } else {
        let step = cfg.plan[i];
        let name = "Next: "@ + step.kind.shown();
        if notifies(cfg, step) {
            if !s.sent_pre_action_notify {
                if now >= shown_due_at(s, cfg, step) {
                    name + " (notify due now)"@
                } else {
                    name + " (notify in "@ + seconds_until(shown_due_at(s, cfg, step), now) + "s)"@
                }
            } else if now >= runs_at(s, step) {
                name + " (due now)"@
            } else {
                name + " (runs in "@ + seconds_until(runs_at(s, step), now) + "s)"@
            }
        } else if now >= shown_due_at(s, cfg, step) {
            name + " (due now)"@
        } else {
            name + " in "@ + seconds_until(shown_due_at(s, cfg, step), now) + "s"@
        }
    }
}

/// What comes next, if a configuration is in effect.
pub open spec fn next_or_failure(cfg: Option<ConfigModel>, s: StateModel, now: u64) -> Seq<char> {
    match cfg {
        Some(c) => next_line(c, s, now),
        None => "Next: (config selection failed)"@,
    }
}

pub open spec fn pattern_list(v: Seq<PatternModel>) -> Seq<char> {
    if v.len() == 0 {
        "none"@
    } else {
        joined(v.map_values(|p: PatternModel| p.shown()), ", "@)
    }
}

/// The widest name in bytes among the enabled steps before `i`, at least 8.
pub open spec fn name_width(plan: Seq<StepModel>, i: int) -> nat
    decreases i,
{
    if i <= 0 {
        8
    } else {
        let w = name_width(plan, i - 1);
        let own = byte_len(plan[i - 1].kind.row_name());
        if plan[i - 1].enabled() && own > w {
            own
        } else {
            w
        }
    }
}

/// The widest timeout among the enabled steps before `i`, at least 1.
pub open spec fn timeout_width(plan: Seq<StepModel>, i: int) -> nat
    decreases i,
{
    if i <= 0 {
        1
    } else {
        let w = timeout_width(plan, i - 1);
        let own = decimal(plan[i - 1].timeout_seconds as nat).len();
        if plan[i - 1].enabled() && own > w {
            own
        } else {
            w
        }
    }
}

/// One row of the table of the plan.
pub open spec fn plan_row(
    cfg: ConfigModel,
    i: int,
    current: bool,
    name_w: nat,
    secs_w: nat,
) -> Seq<char> {
    let step = cfg.plan[i];
    let head = (if current {
        "  \u{2192} "@
    } else {
        "    "@
    }) + padded_left(decimal((i + 1) as nat), 2) + ". "@ + padded_right(
        step.kind.row_name(),
        name_w,
    ) + "  "@ + padded_left(decimal(step.timeout_seconds as nat), secs_w) + "s"@;
    let notice = if notifies(cfg, step) {
        head + "  notify+"@ + decimal(
            match step.notify_seconds_before {
                Some(n) => n as nat,
                None => 0,
            },
        ) + "s"@
    } else {
        head
    };
    notice + "  cmd\n"@
}

/// The rows of the enabled steps before `i`.
pub open spec fn plan_rows(
    cfg: ConfigModel,
    i: int,
    current: int,
    name_w: nat,
    secs_w: nat,
) -> Seq<char>
    decreases i,
{
    if i <= 0 {
        Seq::empty()
    } else {
        let before = plan_rows(cfg, i - 1, current, name_w, secs_w);
        if cfg.plan[i - 1].enabled() {
            before + plan_row(cfg, i - 1, i - 1 == current, name_w, secs_w)
        } else {
            before
        }
    }
}

/// The table of the plan: its enabled steps, with a mark at the one that is next.
pub open spec fn plan_table(cfg: ConfigModel, s: StateModel) -> Seq<char> {
    let n = cfg.plan.len() as int;
    if next_enabled(cfg.plan, 0) >= n {
        "  (no enabled steps)\n"@
    } else {
        plan_rows(
            cfg,
            n,
            next_enabled(cfg.plan, s.step_index as int),
            name_width(cfg.plan, n),
            timeout_width(cfg.plan, n),
        )
    }
}

/// The lines about the configuration.
pub open spec fn config_lines(cfg: ConfigModel, s: StateModel) -> Seq<char> {
    "Debounce: "@ + decimal(cfg.debounce_seconds as nat) + "s\nNotifyBeforeAction: "@ + yes_or_no(
        cfg.notify_before_action,
    ) + "\nNotifyOnUnpause: "@ + yes_or_no(cfg.notify_on_unpause) + "\nMonitorMedia: "@ + yes_or_no(
        cfg.monitor_media,
    ) + "\nIgnoreRemoteMedia: "@ + yes_or_no(cfg.ignore_remote_media) + "\nListenDbusInhibit: "@
        + yes_or_no(cfg.enable_dbus_inhibit) + "\nInhibitApps: "@ + pattern_list(cfg.inhibit_apps)
        + "\nMediaBlacklist: "@ + pattern_list(cfg.media_blacklist) + "\nPreSuspendCommand: "@ + (
    match cfg.pre_suspend_command {
        Some(c) => c,
        None => "none"@,
    }) + "\n\nPlan:\n"@ + plan_table(cfg, s)
}

/// The whole text for the terminal.
pub open spec fn pretty_text(cfg: Option<ConfigModel>, s: StateModel, now: u64) -> Seq<char> {
    trimmed_end(
        "\u{25c6} STATUS\n"@ + s.lines() + next_or_failure(cfg, s, now)
            + "\n\n\u{25c6} CONFIGURATION\n"@ + (match cfg {
            Some(c) => config_lines(c, s),
            None => "Config: (selection failed)\n"@,
        }),
    )
}

/// The text of the tooltip.
pub open spec fn tooltip_text(cfg: Option<ConfigModel>, s: StateModel, now: u64) -> Seq<char> {
    trimmed_end(s.lines() + next_or_failure(cfg, s, now))
}

// ---------------------------------------------------------------------------------------------
// Showing it
// ---------------------------------------------------------------------------------------------

/// The state and the configuration in words.
#[derive(Debug)]
pub struct RenderedInfo {
    pub pretty: String,
    pub tooltip: String,
}

/// What stands for an optional configuration in contracts.
pub open spec fn cfg_view(o: Option<&Config>) -> Option<ConfigModel> {
    match o {
        Some(c) => Some(c@),
        None => None,
    }
}

/// The state and the configuration in words.
pub fn render_info(cfg_opt: Option<&Config>, state: &State, now_ms: u64) -> (r: RenderedInfo)
    ensures
        r.pretty@ == pretty_text(cfg_view(cfg_opt), state@, now_ms),
        r.tooltip@ == tooltip_text(cfg_view(cfg_opt), state@, now_ms),
{
    let lines = render_lines(state);
    let next = match cfg_opt {
        Some(cfg) => next_step_line(cfg, state, now_ms),
        None => String::from_str("Next: (config selection failed)"),
    };
    let config = match cfg_opt {
        Some(cfg) => render_config(cfg, state),
        None => String::from_str("Config: (selection failed)\n"),
    };
    let mut pretty = String::from_str("\u{25c6} STATUS\n");
    pretty.append(lines.as_str());
    pretty.append(next.as_str());
    pretty.append("\n\n\u{25c6} CONFIGURATION\n");
    pretty.append(config.as_str());
    let tooltip = cat(lines.as_str(), next.as_str());
    RenderedInfo { pretty: trim_end(pretty.as_str()), tooltip: trim_end(tooltip.as_str()) }
}

fn yesno(v: bool) -> (r: &'static str)
    ensures
        r@ == yes_or_no(v),
{
    if v {
        "yes"
    } else {
        "no"
    }
}

fn plan_source_name(src: PlanSource) -> (r: &'static str)
    ensures
        r@ == source_name(src),
{
    match src {
        PlanSource::Desktop => "Desktop",
        PlanSource::Ac => "Ac",
        PlanSource::Battery => "Battery",
    }
}

/// The state in one word.
pub fn state_word(state: &State) -> (r: &'static str)
    ensures
        r@ == state@.word(),
{
    if state.is_locked() {
        "locked"
    } else if state.manually_paused() {
        "manual"
    } else if state.system_paused() || state.inhibitors_active() {
        "inhibited"
    } else if state.debounce_pending() {
        "waiting"
    } else {
        "active"
    }
}

fn render_lines(state: &State) -> (r: String)
    ensures
        r@ == state@.lines(),
{
    let mut out = String::from_str("Profile: ");
    match state.active_profile() {
        Some(n) => {
            out.append(n);
        },
        None => {
            out.append("none");
        },
    }
    out.append("\nPlan Source: ");
    out.append(plan_source_name(state.plan_source()));
    out.append("\nState: ");
    out.append(state_word(state));
    out.append("\nManual Pause: ");
    out.append(yesno(state.manually_paused()));
    out.append("\nPaused: ");
    out.append(yesno(state.paused()));
    out.append("\nApps Inhibiting: ");
    out.append(u64_to_string(state.app_inhibitor_count()).as_str());
    out.append("\nMedia Players Playing: ");
    out.append(u64_to_string(state.media_inhibitor_count()).as_str());
    out.append("\n");
    out
}

fn shown_kind(kind: &PlanStepKind) -> (r: String)
    ensures
        r@ == kind@.shown(),
{
    match kind {
        PlanStepKind::Custom(s) => {
            let mut out = String::from_str("Custom(");
            out.append(s.as_str());
            out.append(")");
            out
        },
        _ => kind.name(),
    }
}

fn with_seconds(head: &str, words: &str, ms: u64, end: &str) -> (r: String)
    ensures
        r@ == head@ + words@ + decimal((ms / 1000) as nat) + end@,
{
    let mut out = String::from_str(head);
    out.append(words);
    out.append(u64_to_string(ms / 1000).as_str());
    out.append(end);
    out
}

fn next_step_line(cfg: &Config, state: &State, now_ms: u64) -> (r: String)
    ensures
        r@ == next_line(cfg@, state@, now_ms),
{
    if state.paused() {
        return match state.pause_started_ms() {
            Some(start) => {
                let mut out = String::from_str("Next: paused for ");
                out.append(u64_to_string(since_ms(now_ms, start) / 1000).as_str());
                out.append("s");
                out
            },
            None => String::from_str("Next: paused"),
        };
    }
    if state.debounce_pending() {
        return String::from_str("Next: waiting for idle");
    }
    let idx = skip_disabled(&cfg.plan, state.step_index());
    if idx >= cfg.plan.len() {
        return String::from_str("Next: (end of plan)");
    }
    let step = &cfg.plan[idx];
    assert(cfg@.plan[idx as int] == step@);
    let kind = shown_kind(&step.kind);
    let name = cat("Next: ", kind.as_str());
    let base_due_ms = add_ms(
        add_ms(state.step_base_ms(), seconds_to_ms(cfg.debounce_seconds)),
        seconds_to_ms(step.timeout_seconds),
    );
    if cfg.notify_before_action && step.notification.is_some() {
        if !state.pre_action_notify_sent() {
            if now_ms >= base_due_ms {
                return cat(name.as_str(), " (notify due now)");
            }
            return with_seconds(name.as_str(), " (notify in ", base_due_ms - now_ms, "s)");
        }
        let wait_ms = match step.notify_seconds_before {
            Some(n) => seconds_to_ms(n),
            None => 0,
        };
        let run_ms = add_ms(state.pre_action_notify_ms(), wait_ms);
        if now_ms >= run_ms {
            return cat(name.as_str(), " (due now)");
        }
        return with_seconds(name.as_str(), " (runs in ", run_ms - now_ms, "s)");
    }
    if now_ms >= base_due_ms {
        return cat(name.as_str(), " (due now)");
    }
    with_seconds(name.as_str(), " in ", base_due_ms - now_ms, "s")
}

fn join_patterns(v: &Vec<Pattern>) -> (r: String)
    ensures
        r@ == pattern_list(pattern_views(v@)),
{
    if v.len() == 0 {
        return String::from_str("none");
    }
    let ghost shown = pattern_views(v@).map_values(|p: PatternModel| p.shown());
    let mut parts: Vec<String> = Vec::new();
    for i in 0..v.len()
        invariant
            shown == pattern_views(v@).map_values(|p: PatternModel| p.shown()),
            views(parts@) == shown.take(i as int),
    {
        let t = v[i].render();
        let ghost before = views(parts@);
        parts.push(t);
        assert(views(parts@) =~= before.push(t@));
        assert(shown[i as int] == v@[i as int]@.shown());
        assert(shown.take(i + 1) =~= shown.take(i as int).push(shown[i as int]));
    }
    assert(shown.take(v@.len() as int) =~= shown);
    assert(pattern_views(v@).len() == v@.len());
    join(&parts, ", ")
}

fn render_config(cfg: &Config, state: &State) -> (r: String)
    ensures
        r@ == config_lines(cfg@, state@),
{
    let mut out = String::from_str("Debounce: ");
    out.append(u64_to_string(cfg.debounce_seconds).as_str());
    out.append("s\nNotifyBeforeAction: ");
    out.append(yesno(cfg.notify_before_action));
    out.append("\nNotifyOnUnpause: ");
    out.append(yesno(cfg.notify_on_unpause));
    out.append("\nMonitorMedia: ");
    out.append(yesno(cfg.monitor_media));
    out.append("\nIgnoreRemoteMedia: ");
    out.append(yesno(cfg.ignore_remote_media));
    out.append("\nListenDbusInhibit: ");
    out.append(yesno(cfg.enable_dbus_inhibit));
    out.append("\nInhibitApps: ");
    out.append(join_patterns(&cfg.inhibit_apps).as_str());
    out.append("\nMediaBlacklist: ");
    out.append(join_patterns(&cfg.media_blacklist).as_str());
    out.append("\nPreSuspendCommand: ");
    match &cfg.pre_suspend_command {
        Some(c) => {
            out.append(c.as_str());
        },
        None => {
            out.append("none");
        },
    }
    out.append("\n\nPlan:\n");
    out.append(render_plan(cfg, state).as_str());
    out
}

fn row_name(kind: &PlanStepKind) -> (r: String)
    ensures
        r@ == kind@.row_name(),
{
    match kind {
        PlanStepKind::Startup => String::from_str("startup"),
        PlanStepKind::Brightness => String::from_str("brightness"),
        PlanStepKind::LockScreen => String::from_str("lockscreen"),
        PlanStepKind::Dpms => String::from_str("dpms"),
        PlanStepKind::Suspend => String::from_str("suspend"),
        PlanStepKind::Custom(s) => cat("custom:", s.as_str()),
    }
}

fn render_row(cfg: &Config, i: usize, current: bool, name_w: usize, secs_w: usize) -> (r: String)
    requires
        i < cfg.plan.len(),
    ensures
        r@ == plan_row(cfg@, i as int, current, name_w as nat, secs_w as nat),
{
    let step = &cfg.plan[i];
    assert(cfg@.plan[i as int] == step@);
    let mut out = if current {
        String::from_str("  \u{2192} ")
    } else {
        String::from_str("    ")
    };
    push_padded_left(&mut out, u64_to_string((i + 1) as u64).as_str(), 2);
    out.append(". ");
    push_padded_right(&mut out, row_name(&step.kind).as_str(), name_w);
    out.append("  ");
    push_padded_left(&mut out, u64_to_string(step.timeout_seconds).as_str(), secs_w);
    out.append("s");
    if cfg.notify_before_action && step.notification.is_some() {
        let n = match step.notify_seconds_before {
            Some(n) => n,
            None => 0,
        };
        out.append("  notify+");
        out.append(u64_to_string(n).as_str());
        out.append("s");
    }
    out.append("  cmd\n");
    out
}

fn render_plan(cfg: &Config, state: &State) -> (r: String)
    ensures
        r@ == plan_table(cfg@, state@),
{
    let ghost plan = plan_view(cfg.plan@);
    let n = cfg.plan.len();
    if skip_disabled(&cfg.plan, 0) >= n {
        return String::from_str("  (no enabled steps)\n");
    }
    let mut name_w: usize = 8;
    let mut secs_w: usize = 1;
    for i in 0..n
        invariant
            n == cfg.plan.len(),
            plan == plan_view(cfg.plan@),
            name_w == name_width(plan, i as int),
            secs_w == timeout_width(plan, i as int),
    {
        let step = &cfg.plan[i];
        assert(plan[i as int] == step@);
        if step.enabled() {
            let own = byte_len_of(row_name(&step.kind).as_str());
            if own > name_w {
                name_w = own;
            }
            let digits = u64_to_string(step.timeout_seconds).as_str().unicode_len();
            if digits > secs_w {
                secs_w = digits;
            }
        }
    }
    let cur = skip_disabled(&cfg.plan, state.step_index());
    let mut out = String::new();
    for i in 0..n
        invariant
            n == cfg.plan.len(),
            plan == plan_view(cfg.plan@),
            cfg@.plan == plan,
            out@ == plan_rows(cfg@, i as int, cur as int, name_w as nat, secs_w as nat),
    {
        assert(plan[i as int] == cfg.plan@[i as int]@);
        if cfg.plan[i].enabled() {
            let row = render_row(cfg, i, i == cur, name_w, secs_w);
            out.append(row.as_str());
        }
    }
    out
}

} // verus!
