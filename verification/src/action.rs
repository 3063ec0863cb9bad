//! The executable payload attached to a task.
//!
//! A task's behaviour is swappable between the built-in command runner and
//! arbitrary caller logic.  The built-in variant carries the shell command
//! string to spawn; the caller-supplied variant carries an opaque handle
//! under which the embedding application registers its own executable
//! payload.  Running either is the embedding application's business: this
//! crate only decides which payload each task gets.

use vstd::prelude::*;

verus! {

/// The executable payload of a task.
pub enum Action {
    /// Run the given string as a shell command.
    Command(String),
    /// Run the caller-registered payload with this handle.
    Custom(u64),
}

/// The mathematical value of an [`Action`].
#[verifier::ext_equal]
pub enum ActionView {
    Command(Seq<char>),
    Custom(u64),
}

impl View for Action {
    type V = ActionView;

    open spec fn view(&self) -> ActionView {
        match self {
            Action::Command(s) => ActionView::Command(s@),
            Action::Custom(h) => ActionView::Custom(*h),
        }
    }
}

impl Action {
    /// The command variant, from the command's text.
    pub fn command(cmd: &str) -> (a: Action)
        ensures
            a@ == ActionView::Command(cmd@),
    {
        Action::Command(cmd.to_owned())
    }

    /// An exact copy of this action.
    pub fn duplicate(&self) -> (a: Action)
        ensures
            a@ == self@,
    {
        match self {
            Action::Command(s) => Action::Command(s.clone()),
            Action::Custom(h) => Action::Custom(*h),
        }
    }
}

} // verus!
