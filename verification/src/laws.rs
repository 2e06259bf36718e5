//! Proved laws of the controller, stated over the spec-level transition
//! functions that the executable controller is proved equal to.

use vstd::prelude::*;

use crate::entry::ids_of;
use crate::executor::{classify_spec, is_auth_rejection};
use crate::machine::{
    spec_apply_outcome, spec_step_key, spec_step_tick, MachineV,
};
use crate::state::{ActionV, Focus, Key, StateV, StepV};

verus! {

/// Pressing the cancel key returns to the main view without touching the
/// reorder model — entries, cursors and focus are unchanged — and from the
/// password prompt it also clears the secret buffer and discards the
/// pending action.  This covers every state whose documented reaction to
/// cancel is a return to the main view; the password-error and diagnostic
/// screens react to every key alike by re-opening the password prompt, and
/// in the main view itself cancel changes nothing.
pub proof fn lemma_cancel_returns_to_main(m: MachineV)
    requires
        m.inv(),
        !(m.state is PasswordError),
        !(m.state is ErrorMessage),
    ensures
        ({
            let (m2, d) = spec_step_key(m, Key::Esc);
            &&& (m.state is Main ==> m2 == m)
            &&& (!(m.state is Main) ==> m2.state is Main)
            &&& m2.entries == m.entries
            &&& m2.priority_cursor == m.priority_cursor
            &&& m2.boot_target_cursor == m.boot_target_cursor
            &&& m2.focus == m.focus
            &&& (m.state is AskPassword ==> m2.password == Seq::<char>::empty() && m2.pending
                == ActionV::Idle)
            &&& d == StepV::Continue
        }),
{
}

/// Moving an entry down and then up from the resulting cursor restores
/// the original entry sequence and the original cursor: the two swaps are
/// inverse to each other.
pub proof fn lemma_move_down_then_up(m: MachineV)
    requires
        m.inv(),
        m.state is Main,
        m.focus == Focus::Priority,
        m.priority_cursor + 1 < m.entries.len(),
    ensures
        spec_step_key(spec_step_key(m, Key::Char('d')).0, Key::Char('u')).0 == m,
{
    let m1 = spec_step_key(m, Key::Char('d')).0;
    let m2 = spec_step_key(m1, Key::Char('u')).0;
    assert(m2.entries =~= m.entries);
    assert(m2 =~= m);
}

/// Moving an entry up and then down from the resulting cursor restores
/// the original entry sequence and the original cursor.
pub proof fn lemma_move_up_then_down(m: MachineV)
    requires
        m.inv(),
        m.state is Main,
        m.focus == Focus::Priority,
        0 < m.priority_cursor < m.entries.len(),
    ensures
        spec_step_key(spec_step_key(m, Key::Char('u')).0, Key::Char('d')).0 == m,
{
    let m1 = spec_step_key(m, Key::Char('u')).0;
    let m2 = spec_step_key(m1, Key::Char('d')).0;
    assert(m2.entries =~= m.entries);
    assert(m2 =~= m);
}

/// Every key press keeps the controller well formed; in particular both
/// cursors stay inside `[0, len(entries))` while entries exist.
pub proof fn lemma_step_key_preserves_inv(m: MachineV, k: Key)
    requires
        m.inv(),
    ensures
        spec_step_key(m, k).0.inv(),
{
}

/// Every tick keeps the controller well formed.
pub proof fn lemma_step_tick_preserves_inv(m: MachineV)
    requires
        m.inv(),
    ensures
        spec_step_tick(m).0.inv(),
{
}

/// Folding any command outcome into the controller keeps it well formed.
pub proof fn lemma_apply_outcome_preserves_inv(m: MachineV, oc: crate::executor::OutcomeV)
    requires
        m.inv(),
    ensures
        spec_apply_outcome(m, oc).inv(),
{
}

/// A cursor press against the top edge is a no-op: moving up with the
/// focused cursor already at zero changes nothing at all.
pub proof fn lemma_move_up_at_top_is_noop(m: MachineV)
    requires
        m.inv(),
        m.state is Main,
        m.focus == Focus::Priority ==> m.priority_cursor == 0,
        m.focus == Focus::BootTarget ==> m.boot_target_cursor == 0,
    ensures
        spec_step_key(m, Key::Up).0 == m,
{
}

/// A cursor press against the bottom edge is a no-op: moving down with
/// the focused cursor on the last entry changes nothing at all.
pub proof fn lemma_move_down_at_bottom_is_noop(m: MachineV)
    requires
        m.inv(),
        m.state is Main,
        m.focus == Focus::Priority ==> m.priority_cursor + 1 >= m.entries.len(),
        m.focus == Focus::BootTarget ==> m.boot_target_cursor + 1 >= m.entries.len(),
    ensures
        spec_step_key(m, Key::Down).0 == m,
{
}

/// Quitting from the main view ends the loop at once when the entry order
/// is unchanged, and always routes through the quit confirmation — with
/// "no" preselected and the reorder model untouched — when it differs
/// from the order captured at startup.
pub proof fn lemma_quit_from_main(m: MachineV)
    requires
        m.inv(),
        m.state is Main,
    ensures
        ids_of(m.entries) == m.original_order ==> spec_step_key(m, Key::Char('q')) == (
            m,
            StepV::Exit,
        ),
        ids_of(m.entries) != m.original_order ==> ({
            let (m2, d) = spec_step_key(m, Key::Char('q'));
            &&& m2.state is QuitConfirm
            &&& !m2.quit_yes
            &&& m2.entries == m.entries
            &&& m2.priority_cursor == m.priority_cursor
            &&& m2.boot_target_cursor == m.boot_target_cursor
            &&& m2.focus == m.focus
            &&& d == StepV::Continue
        }),
{
}

/// An invocation whose captured error stream carries a rejection phrase
/// always lands on the password-error screen, whatever the exit status
/// and exit code were.
pub proof fn lemma_rejection_gives_password_error(
    m: MachineV,
    exit_ok: bool,
    exit_code: Option<i32>,
    stderr: Seq<char>,
)
    requires
        m.inv(),
        m.pending is SetOrder || m.pending is BootOnce,
        is_auth_rejection(stderr),
    ensures
        spec_apply_outcome(m, classify_spec(exit_ok, exit_code, stderr)).state is PasswordError,
{
}

/// An invocation with exit status zero and no rejection phrase on its
/// error stream succeeds: a pending set-order action lands on the reboot
/// confirmation, a pending boot-once action starts the five-second
/// countdown.
pub proof fn lemma_success_outcome(m: MachineV, exit_code: Option<i32>, stderr: Seq<char>)
    requires
        m.inv(),
        !is_auth_rejection(stderr),
    ensures
        m.pending is SetOrder ==> spec_apply_outcome(
            m,
            classify_spec(true, exit_code, stderr),
        ).state == StateV::ConfirmReboot,
        m.pending is BootOnce ==> spec_apply_outcome(
            m,
            classify_spec(true, exit_code, stderr),
        ).state == StateV::CountdownReboot(5),
{
}

/// A running countdown, left alone, loses exactly one second per tick and
/// demands the reboot at the tick that would pass zero: at more than one
/// remaining second the tick continues with one second less, at exactly
/// one it keeps the state and directs the caller to reboot.
pub proof fn lemma_countdown_tick(m: MachineV, n: u8)
    requires
        m.inv(),
        m.state == StateV::CountdownReboot(n),
    ensures
        n > 1 ==> spec_step_tick(m) == (
            MachineV { state: StateV::CountdownReboot((n - 1) as u8), ..m },
            StepV::Continue,
        ),
        n == 1 ==> spec_step_tick(m) == (m, StepV::Reboot),
{
}

} // verus!
