//! The states, inputs and directives of the interactive controller.

use vstd::prelude::*;

verus! {

/// Which panel of the main view has keyboard focus.
#[derive(Clone, Copy, PartialEq, Eq, Structural, Debug)]
pub enum Focus {
    Priority,
    BootTarget,
}

/// An abstract key press, as the event loop hands it to the controller.
#[derive(Clone, Copy, PartialEq, Eq, Structural, Debug)]
pub enum Key {
    Up,
    Down,
    Left,
    Right,
    Tab,
    Enter,
    Esc,
    Backspace,
    Char(char),
    Other,
}

/// The privileged operation that a confirmed password will execute.
#[derive(Debug)]
pub enum Action {
    /// Nothing is pending.
    Idle,
    /// Store the given identifiers as the new default boot order.
    SetOrder(Vec<u16>),
    /// Boot the entry with the given identifier on exactly the next boot.
    BootOnce(u16),
}

/// Spec-level value of an [`Action`].
pub enum ActionV {
    Idle,
    SetOrder(Seq<u16>),
    BootOnce(u16),
}

impl View for Action {
    type V = ActionV;

    open spec fn view(&self) -> ActionV {
        match self {
            Action::Idle => ActionV::Idle,
            Action::SetOrder(ids) => ActionV::SetOrder(ids@),
            Action::BootOnce(id) => ActionV::BootOnce(*id),
        }
    }
}

/// The state of the interactive controller, one variant per screen.
#[derive(Debug)]
pub enum UIState {
    /// The two-panel main view.
    Main,
    /// The password prompt for a pending privileged action.
    AskPassword,
    /// The credential was rejected; any key returns to the prompt.
    PasswordError,
    /// The order was stored; the operator chooses whether to reboot now.
    ConfirmReboot,
    /// A cancellable countdown of the given seconds before rebooting.
    CountdownReboot(u8),
    /// The entry order changed; the operator confirms quitting without it.
    QuitConfirm,
    /// The key-binding summary; any key returns to the main view.
    Help,
    /// A privileged command failed; the diagnostic is shown verbatim.
    ErrorMessage(Vec<char>),
}

/// Spec-level value of a [`UIState`].
pub enum StateV {
    Main,
    AskPassword,
    PasswordError,
    ConfirmReboot,
    CountdownReboot(u8),
    QuitConfirm,
    Help,
    ErrorMessage(Seq<char>),
}

impl View for UIState {
    type V = StateV;

    open spec fn view(&self) -> StateV {
        match self {
            UIState::Main => StateV::Main,
            UIState::AskPassword => StateV::AskPassword,
            UIState::PasswordError => StateV::PasswordError,
            UIState::ConfirmReboot => StateV::ConfirmReboot,
            UIState::CountdownReboot(n) => StateV::CountdownReboot(*n),
            UIState::QuitConfirm => StateV::QuitConfirm,
            UIState::Help => StateV::Help,
            UIState::ErrorMessage(msg) => StateV::ErrorMessage(msg@),
        }
    }
}

/// The argument of a privileged inventory-tool invocation.
#[derive(Debug)]
pub enum Invocation {
    /// Store the comma-joined identifier list as the default boot order.
    SetOrder(Vec<char>),
    /// Mark the entry with the given rendered identifier for the next boot.
    BootOnce(Vec<char>),
}

/// Spec-level value of an [`Invocation`].
pub enum InvocationV {
    SetOrder(Seq<char>),
    BootOnce(Seq<char>),
}

impl View for Invocation {
    type V = InvocationV;

    open spec fn view(&self) -> InvocationV {
        match self {
            Invocation::SetOrder(arg) => InvocationV::SetOrder(arg@),
            Invocation::BootOnce(arg) => InvocationV::BootOnce(arg@),
        }
    }
}

/// What the event loop must do after one controller step.
#[derive(Debug)]
pub enum Step {
    /// Render the new state and keep looping.
    Continue,
    /// Leave the loop; the program is done.
    Exit,
    /// Run the privileged command described by the invocation, feeding it
    /// the secret buffer, then report the outcome back through
    /// `Machine::apply_outcome`.
    Invoke(Invocation),
    /// Issue the reboot command, then leave the loop whatever it returns.
    Reboot,
}

/// Spec-level value of a [`Step`].
pub enum StepV {
    Continue,
    Exit,
    Invoke(InvocationV),
    Reboot,
}

impl View for Step {
    type V = StepV;

    open spec fn view(&self) -> StepV {
        match self {
            Step::Continue => StepV::Continue,
            Step::Exit => StepV::Exit,
            Step::Invoke(inv) => StepV::Invoke(inv@),
            Step::Reboot => StepV::Reboot,
        }
    }
}

} // verus!
