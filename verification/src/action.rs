//! What the manager asks the daemon to do.

use vstd::prelude::*;

verus! {

#[derive(Debug, PartialEq, Eq)]
pub enum Action {
    /// Run a command (shell string); detached or blocking is runtime policy.
    RunCommand { command: String },
    /// Run a resume command (e.g., dpms on) when activity returns.
    RunResumeCommand { command: String },
    /// Notify the user (runtime decides how: notify-send, dbus notification, etc.)
    Notify { message: String },
    /// Request lock via loginctl/login1 (optional integration).
    LockSession,
    /// Lock-screen action: run the locker command and (optionally) also lock-session.
    ///
    /// The daemon should run `command` BLOCKING and only consider the lock "ended"
    /// once the process exits.
    RunLockScreen { command: String },
    /// Request system suspend (runtime decides command/system call).
    Suspend,
}

/// What stands for an [`Action`] in contracts.
pub enum ActionModel {
    RunCommand { command: Seq<char> },
    RunResumeCommand { command: Seq<char> },
    Notify { message: Seq<char> },
    LockSession,
    RunLockScreen { command: Seq<char> },
    Suspend,
}

impl View for Action {
    type V = ActionModel;

    open spec fn view(&self) -> ActionModel {
        match self {
            Action::RunCommand { command } => ActionModel::RunCommand { command: command@ },
            Action::RunResumeCommand { command } => ActionModel::RunResumeCommand {
                command: command@,
            },
            Action::Notify { message } => ActionModel::Notify { message: message@ },
            Action::LockSession => ActionModel::LockSession,
            Action::RunLockScreen { command } => ActionModel::RunLockScreen { command: command@ },
            Action::Suspend => ActionModel::Suspend,
        }
    }
}

impl Clone for Action {
    fn clone(&self) -> (r: Self)
        ensures
            r@ == self@,
    {
        match self {
            Action::RunCommand { command } => Action::RunCommand { command: command.clone() },
            Action::RunResumeCommand { command } => Action::RunResumeCommand {
                command: command.clone(),
            },
            Action::Notify { message } => Action::Notify { message: message.clone() },
            Action::LockSession => Action::LockSession,
            Action::RunLockScreen { command } => Action::RunLockScreen { command: command.clone() },
            Action::Suspend => Action::Suspend,
        }
    }
}

/// What stands for a list of actions in contracts.
pub open spec fn action_views(v: Seq<Action>) -> Seq<ActionModel> {
    v.map_values(|a: Action| a@)
}

/// Puts one action at the end of the list.
pub fn push_action(out: &mut Vec<Action>, a: Action)
    ensures
        action_views(final(out)@) == action_views(old(out)@).push(a@),
{
    out.push(a);
    assert(action_views(out@) =~= action_views(old(out)@).push(a@));
}

/// Moves the actions of `more` to the end of `out`.
pub fn append_actions(out: &mut Vec<Action>, more: &mut Vec<Action>)
    ensures
        action_views(final(out)@) == action_views(old(out)@) + action_views(old(more)@),
{
    out.append(more);
    assert(action_views(out@) =~= action_views(old(out)@) + action_views(old(more)@));
}

} // verus!
