//! Laws on triggers: which step a name means, and what the trigger does.

use vstd::prelude::*;

use super::laws::{settled, settled_needs_nothing};
use super::machine::{find_trigger, normalized, triggered};
use super::ManagerModel;
use crate::action::ActionModel;
use crate::config::types::{ConfigModel, KindModel, StepModel};
use crate::error::Error;
use crate::events::Event;
use crate::state::StateModel;
use crate::text::chars::{is_white, lower};
use crate::text::strings::{
    lowered, trimmed, trimmed_end, trimmed_start, with_char_replaced, without_blanks,
};

verus! {

// ---------------------------------------------------------------------------------------------
// Spelling
// ---------------------------------------------------------------------------------------------

/// A character of a name as it is compared: no white space, no capital and no underscore.
pub open spec fn plain_char(c: char) -> bool {
    !is_white(c) && !('A' <= c <= 'Z') && c != '_'
}

/// A name as it is compared.
pub open spec fn plain(w: Seq<char>) -> bool {
    forall|i: int| 0 <= i < w.len() ==> plain_char(#[trigger] w[i])
}

/// `a` spells the plain name `w`: letter by letter, in capitals or not, with underscores for
/// dashes or not.
pub open spec fn spells(a: Seq<char>, w: Seq<char>) -> bool {
    &&& a.len() == w.len()
    &&& forall|i: int|
        0 <= i < a.len() ==> {
            ||| #[trigger] a[i] == w[i]
            ||| 'a' <= w[i] <= 'z' && a[i] as int == w[i] as int - 32
            ||| w[i] == '-' && a[i] == '_'
        }
}

proof fn nothing_to_trim(s: Seq<char>)
    requires
        forall|i: int| 0 <= i < s.len() ==> !is_white(#[trigger] s[i]),
    ensures
        trimmed(s) == s,
{
    if s.len() > 0 {
        assert(!is_white(s[0]));
        assert(!is_white(s[s.len() - 1]));
    }
}

proof fn no_blanks(s: Seq<char>)
    requires
        forall|i: int| 0 <= i < s.len() ==> #[trigger] s[i] != ' ' && s[i] != '\t',
    ensures
        without_blanks(s) == s,
    decreases s.len(),
{
    reveal(Seq::filter);
    if s.len() > 0 {
        let rest = s.drop_last();
        assert forall|i: int| 0 <= i < rest.len() implies #[trigger] rest[i] != ' ' && rest[i]
            != '\t' by {
            assert(rest[i] == s[i]);
        }
        no_blanks(rest);
        assert(s[s.len() - 1] != ' ' && s[s.len() - 1] != '\t');
        assert(without_blanks(s) =~= s);
    } else {
        assert(without_blanks(s) =~= s);
    }
}

/// However a plain name is spelled, it is compared as that name.
pub proof fn spelled_is_normal(a: Seq<char>, w: Seq<char>)
    requires
        plain(w),
        spells(a, w),
    ensures
        normalized(a) == w,
{
    assert forall|i: int| 0 <= i < a.len() implies !is_white(#[trigger] a[i]) by {
        assert(plain_char(w[i]));
    }
    nothing_to_trim(a);
    let l = lowered(a);
    assert forall|i: int| 0 <= i < l.len() implies #[trigger] l[i] != ' ' && l[i] != '\t' && (l[i]
        == w[i] || w[i] == '-' && l[i] == '_') by {
        assert(plain_char(w[i]));
        assert(l[i] == lower(a[i]));
    }
    no_blanks(l);
    assert(with_char_replaced(l, '_', '-') =~= w) by {
        assert forall|i: int| 0 <= i < w.len() implies #[trigger] with_char_replaced(
            l,
            '_',
            '-',
        )[i] == w[i] by {
            assert(plain_char(w[i]));
            assert(l[i] == w[i] || w[i] == '-' && l[i] == '_');
        }
    }
}

/// White space around a name does not count.
pub proof fn white_around_a_name_does_not_count(
    before: Seq<char>,
    name: Seq<char>,
    behind: Seq<char>,
)
    requires
        forall|i: int| 0 <= i < before.len() ==> is_white(#[trigger] before[i]),
        forall|i: int| 0 <= i < behind.len() ==> is_white(#[trigger] behind[i]),
        name.len() > 0,
        !is_white(name[0]),
        !is_white(name.last()),
    ensures
        normalized(before + name + behind) == normalized(name),
{
    trims_start(before, name + behind);
    assert(before + name + behind =~= before + (name + behind));
    trims_end(name, behind);
}

/// Spaces and tabs in a name do not count either.
pub proof fn blanks_in_a_name_do_not_count(a: Seq<char>, blank: char, b: Seq<char>)
    requires
        blank == ' ' || blank == '\t',
        a.len() > 0,
        !is_white(a[0]),
        b.len() > 0,
        !is_white(b.last()),
    ensures
        normalized(a + seq![blank] + b) == normalized(a + b),
{
    let keep = |c: char| !(c == ' ' || c == '\t');
    let x = a + seq![blank] + b;
    let y = a + b;
    assert(x[0] == a[0] && x.last() == b.last());
    assert(y[0] == a[0] && y.last() == b.last());
    assert(trimmed(x) == x);
    assert(trimmed(y) == y);
    let la = lowered(a);
    let lb = lowered(b);
    let gap = seq![blank];
    assert(lowered(x) =~= la + gap + lb);
    assert(lowered(y) =~= la + lb);
    Seq::filter_distributes_over_add(la + gap, lb, keep);
    Seq::filter_distributes_over_add(la, gap, keep);
    Seq::filter_distributes_over_add(la, lb, keep);
    assert(gap.filter(keep) =~= Seq::<char>::empty()) by {
        reveal(Seq::filter);
        let rest = gap.drop_last();
        assert(rest.len() == 0);
        assert(rest.filter(keep).len() == 0);
        assert(!keep(gap.last()));
    }
    assert(la.filter(keep) + gap.filter(keep) =~= la.filter(keep));
    assert(without_blanks(lowered(x)) == without_blanks(lowered(y)));
}

proof fn trims_start(before: Seq<char>, rest: Seq<char>)
    requires
        forall|i: int| 0 <= i < before.len() ==> is_white(#[trigger] before[i]),
        rest.len() > 0,
        !is_white(rest[0]),
    ensures
        trimmed_start(before + rest) == rest,
    decreases before.len(),
{
    let all = before + rest;
    if before.len() == 0 {
        assert(all =~= rest);
    } else {
        assert(all[0] == before[0]);
        let less = before.skip(1);
        assert forall|i: int| 0 <= i < less.len() implies is_white(#[trigger] less[i]) by {
            assert(less[i] == before[i + 1]);
        }
        trims_start(less, rest);
        assert(all.skip(1) =~= less + rest);
    }
}

proof fn trims_end(rest: Seq<char>, behind: Seq<char>)
    requires
        forall|i: int| 0 <= i < behind.len() ==> is_white(#[trigger] behind[i]),
        rest.len() > 0,
        !is_white(rest.last()),
    ensures
        trimmed_end(rest + behind) == rest,
        trimmed_end(rest) == rest,
    decreases behind.len(),
{
    let all = rest + behind;
    if behind.len() == 0 {
        assert(all =~= rest);
    } else {
        assert(all.last() == behind.last());
        assert(is_white(behind[behind.len() - 1]));
        let less = behind.drop_last();
        assert forall|i: int| 0 <= i < less.len() implies is_white(#[trigger] less[i]) by {
            assert(less[i] == behind[i]);
        }
        trims_end(rest, less);
        assert(all.drop_last() =~= rest + less);
    }
}

// ---------------------------------------------------------------------------------------------
// Names of steps
// ---------------------------------------------------------------------------------------------

proof fn the_labels_are_plain()
    ensures
        plain("startup"@) && plain("brightness"@) && plain("dpms"@) && plain("suspend"@),
        plain("lock-screen"@) && plain("lockscreen"@) && plain("lock"@) && plain("all"@),
        "startup"@.len() == 7 && "brightness"@.len() == 10 && "dpms"@.len() == 4,
        "suspend"@.len() == 7 && "lock-screen"@.len() == 11 && "lockscreen"@.len() == 10,
        "lock"@.len() == 4 && "all"@.len() == 3,
        "startup"@[1] == 't' && "suspend"@[1] == 'u',
        "dpms"@[0] == 'd' && "lock"@[0] == 'l' && "brightness"@[0] == 'b',
        "lockscreen"@[0] == 'l',
{
    reveal_strlit("startup");
    reveal_strlit("brightness");
    reveal_strlit("dpms");
    reveal_strlit("suspend");
    reveal_strlit("lock-screen");
    reveal_strlit("lockscreen");
    reveal_strlit("lock");
    reveal_strlit("all");
}

/// The label of a kind of step means the steps of that kind, and no step of another kind of its
/// own: `startup`, `brightness`, `dpms`, `suspend`, and for the lock step `lock_screen`,
/// `lockscreen` and `lock`.
pub proof fn label_means_its_kind(step: StepModel, name: Seq<char>)
    requires
        !(step.kind is Custom),
    ensures
        spells(name, "startup"@) ==> (step.triggered_by(name) <==> step.kind == KindModel::Startup),
        spells(name, "brightness"@) ==> (step.triggered_by(name) <==> step.kind
            == KindModel::Brightness),
        spells(name, "dpms"@) ==> (step.triggered_by(name) <==> step.kind == KindModel::Dpms),
        spells(name, "suspend"@) ==> (step.triggered_by(name) <==> step.kind == KindModel::Suspend),
        spells(name, "lock-screen"@) || spells(name, "lockscreen"@) || spells(name, "lock"@) ==> (
        step.triggered_by(name) <==> step.kind == KindModel::LockScreen),
{
    the_labels_are_plain();
    if spells(name, "startup"@) {
        spelled_is_normal(name, "startup"@);
    }
    if spells(name, "brightness"@) {
        spelled_is_normal(name, "brightness"@);
    }
    if spells(name, "dpms"@) {
        spelled_is_normal(name, "dpms"@);
    }
    if spells(name, "suspend"@) {
        spelled_is_normal(name, "suspend"@);
    }
    if spells(name, "lock-screen"@) {
        spelled_is_normal(name, "lock-screen"@);
    }
    if spells(name, "lockscreen"@) {
        spelled_is_normal(name, "lockscreen"@);
    }
    if spells(name, "lock"@) {
        spelled_is_normal(name, "lock"@);
    }
}

/// A plain name that is no label means no step of a kind of its own.
pub proof fn other_names_mean_no_kind(step: StepModel, name: Seq<char>)
    requires
        !(step.kind is Custom),
        plain(name),
        name != "startup"@,
        name != "brightness"@,
        name != "dpms"@,
        name != "suspend"@,
        name != "lock-screen"@,
        name != "lockscreen"@,
        name != "lock"@,
    ensures
        !step.triggered_by(name),
{
    spelled_is_normal(name, name);
}

/// A step of the user's own goes by its own name, however that is spelled, alone or behind
/// `custom:` or `custom-`. A name that is none of these does not mean it.
pub proof fn own_name_means_the_step(
    step: StepModel,
    own: Seq<char>,
    written: Seq<char>,
    name: Seq<char>,
)
    requires
        step.kind == KindModel::Custom(written),
        plain(own),
        spells(written, own),
        plain(name),
        name != "lock"@,
        name != "lockscreen"@,
    ensures
        step.triggered_by(name) <==> name == own || name == "custom:"@ + own || name == "custom-"@
            + own,
{
    spelled_is_normal(written, own);
    spelled_is_normal(name, name);
}

// ---------------------------------------------------------------------------------------------
// What a trigger does
// ---------------------------------------------------------------------------------------------

/// The step at `i` is the first one with a command that the name means.
pub open spec fn is_asked(plan: Seq<StepModel>, name: Seq<char>, i: int) -> bool {
    &&& 0 <= i < plan.len()
    &&& plan[i].command is Some
    &&& plan[i].triggered_by(name)
    &&& forall|k: int|
        0 <= k < i ==> !((#[trigger] plan[k]).command is Some && plan[k].triggered_by(name))
}

proof fn finds_the_asked(plan: Seq<StepModel>, name: Seq<char>, i: int, from: int)
    requires
        is_asked(plan, name, i),
        0 <= from <= i,
    ensures
        find_trigger(plan, name, from) == i,
    decreases i - from,
{
    if from < i {
        assert(!(plan[from].command is Some && plan[from].triggered_by(name)));
        finds_the_asked(plan, name, i, from + 1);
    }
}

proof fn finds_none(plan: Seq<StepModel>, name: Seq<char>, from: int)
    requires
        0 <= from <= plan.len(),
        forall|k: int|
            0 <= k < plan.len() ==> !((#[trigger] plan[k]).command is Some && plan[k].triggered_by(
                name,
            )),
    ensures
        find_trigger(plan, name, from) == plan.len(),
    decreases plan.len() - from,
{
    if from < plan.len() {
        assert(!(plan[from].command is Some && plan[from].triggered_by(name)));
        finds_none(plan, name, from + 1);
    }
}

/// A trigger runs the first step with a command that its name means, at once and whatever holds
/// the plan: a locker, unless the session is locked; what is to come before a suspend and the
/// suspend's command; the command of any other step. The plan then goes on behind that step,
/// counted from now.
pub proof fn trigger_runs_the_step(
    m: ManagerModel,
    s: StateModel,
    cfg: ConfigModel,
    name: String,
    now_ms: u64,
    i: int,
)
    requires
        m.effective(s) == Some(cfg),
        settled(s, cfg),
        cfg.plan.len() <= usize::MAX,
        normalized(name@) != "all"@,
        is_asked(cfg.plan, name@, i),
    ensures
        ({
            let h = m.handled(s, Event::ManualTrigger { name, now_ms });
            let c = cfg.plan[i].command->0;
            if cfg.plan[i].kind == KindModel::LockScreen && s.is_locked {
                h.result == Ok::<Seq<ActionModel>, Error>(Seq::empty()) && h.state == s
            } else {
                &&& h.result == Ok::<Seq<ActionModel>, Error>(
                    match (cfg.plan[i].kind, cfg.pre_suspend_command) {
                        (KindModel::LockScreen, _) => seq![
                            ActionModel::RunLockScreen { command: c },
                        ],
                        (KindModel::Suspend, Some(p)) => seq![
                            ActionModel::RunCommand { command: p },
                            ActionModel::RunCommand { command: c },
                        ],
                        _ => seq![ActionModel::RunCommand { command: c }],
                    },
                )
                &&& h.state.step_index == i + 1
                &&& h.state.step_base_ms == now_ms
                &&& h.state.last_action_ms == now_ms
                &&& !h.state.debounce_pending
                &&& !h.state.sent_pre_action_notify
                &&& h.state.fired_steps == s.fired_steps.update(i, true)
                &&& h.state.last_fired_idx == Some(i as usize)
                &&& cfg.plan[i].kind == KindModel::Dpms ==> h.state.last_dpms_fired_idx == Some(
                    i as usize,
                )
                &&& cfg.plan[i].kind == KindModel::Brightness
                    ==> h.state.last_brightness_fired_idx == Some(i as usize)
                &&& cfg.plan[i].kind == KindModel::LockScreen ==> h.state.last_lock_fired_idx
                    == Some(i as usize)
                &&& cfg.plan[i].resume_command is Some ==> h.state.resume_epoch != s.resume_epoch
            }
        }),
{
    settled_needs_nothing(s, cfg, now_ms);
    reveal(ManagerModel::reacted);
    reveal(triggered);
    finds_the_asked(cfg.plan, name@, i, 0);
    let r = triggered(s, cfg, name@, now_ms);
    assert(Seq::<ActionModel>::empty() + r.actions =~= r.actions);
    let h = m.handled(s, Event::ManualTrigger { name, now_ms });
    assert(h.result->Ok_0 =~= match (cfg.plan[i].kind, cfg.pre_suspend_command) {
        (KindModel::LockScreen, _) => if s.is_locked {
            Seq::empty()
        } else {
            seq![ActionModel::RunLockScreen { command: cfg.plan[i].command->0 }]
        },
        (KindModel::Suspend, Some(p)) => seq![
            ActionModel::RunCommand { command: p },
            ActionModel::RunCommand { command: cfg.plan[i].command->0 },
        ],
        _ => seq![ActionModel::RunCommand { command: cfg.plan[i].command->0 }],
    });
}

/// A trigger by a name that means no step with a command does nothing.
pub proof fn unknown_trigger_does_nothing(
    m: ManagerModel,
    s: StateModel,
    cfg: ConfigModel,
    name: String,
    now_ms: u64,
)
    requires
        m.effective(s) == Some(cfg),
        settled(s, cfg),
        normalized(name@) != "all"@,
        forall|k: int|
            0 <= k < cfg.plan.len() ==> !((#[trigger] cfg.plan[k]).command is Some
                && cfg.plan[k].triggered_by(name@)),
    ensures
        m.handled(s, Event::ManualTrigger { name, now_ms }).result == Ok::<
            Seq<ActionModel>,
            Error,
        >(Seq::empty()),
        m.handled(s, Event::ManualTrigger { name, now_ms }).state == s,
{
    settled_needs_nothing(s, cfg, now_ms);
    reveal(ManagerModel::reacted);
    reveal(triggered);
    finds_none(cfg.plan, name@, 0);
    let r = triggered(s, cfg, name@, now_ms);
    assert(Seq::<ActionModel>::empty() + r.actions =~= r.actions);
}

/// A trigger by the label of a kind runs the first step of that kind that has a command, in a plan
/// without steps of the user's own. Asked for the screen, it turns off the screen; asked to suspend,
/// it suspends.
pub proof fn label_runs_its_step(
    m: ManagerModel,
    s: StateModel,
    cfg: ConfigModel,
    name: String,
    now_ms: u64,
    i: int,
)
    requires
        m.effective(s) == Some(cfg),
        settled(s, cfg),
        cfg.plan.len() <= usize::MAX,
        0 <= i < cfg.plan.len(),
        cfg.plan[i].command is Some,
        forall|k: int| 0 <= k < cfg.plan.len() ==> !((#[trigger] cfg.plan[k]).kind is Custom),
        forall|k: int|
            0 <= k < i ==> (#[trigger] cfg.plan[k]).command is None || cfg.plan[k].kind
                != cfg.plan[i].kind,
        match cfg.plan[i].kind {
            KindModel::Startup => spells(name@, "startup"@),
            KindModel::Brightness => spells(name@, "brightness"@),
            KindModel::Dpms => spells(name@, "dpms"@),
            KindModel::Suspend => spells(name@, "suspend"@),
            _ => spells(name@, "lock-screen"@),
        },
    ensures
        ({
            let h = m.handled(s, Event::ManualTrigger { name, now_ms });
            let c = cfg.plan[i].command->0;
            h.result matches Ok(actions) && if cfg.plan[i].kind == KindModel::LockScreen {
                actions == if s.is_locked {
                    Seq::empty()
                } else {
                    seq![ActionModel::RunLockScreen { command: c }]
                }
            } else {
                actions.len() > 0 && actions.last() == (ActionModel::RunCommand { command: c })
            }
        }),
{
    the_labels_are_plain();
    assert forall|k: int| 0 <= k < i implies !((#[trigger] cfg.plan[k]).command is Some
        && cfg.plan[k].triggered_by(name@)) by {
        label_means_its_kind(cfg.plan[k], name@);
    }
    label_means_its_kind(cfg.plan[i], name@);
    match cfg.plan[i].kind {
        KindModel::Startup => spelled_is_normal(name@, "startup"@),
        KindModel::Brightness => spelled_is_normal(name@, "brightness"@),
        KindModel::Dpms => spelled_is_normal(name@, "dpms"@),
        KindModel::Suspend => spelled_is_normal(name@, "suspend"@),
        _ => spelled_is_normal(name@, "lock-screen"@),
    }
    assert(normalized(name@) != "all"@);
    trigger_runs_the_step(m, s, cfg, name, now_ms, i);
}

} // verus!
