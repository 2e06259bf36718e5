//! Classification of one privileged command invocation.
//!
//! The process itself is spawned outside the library; what comes back —
//! exit status and captured error stream — is classified here, and the
//! resulting outcome is folded into the next controller state.

use vstd::prelude::*;

use crate::state::{StateV, UIState};
use crate::text::{
    chars_eq, contains_chars, contains_seq, dec_int, dec_of_i32, trim_chars, trim_spec,
};

verus! {

/// One rejection phrase of the elevation tool: printed when the credential
/// is refused outright.
pub open spec fn phrase_sorry() -> Seq<char> {
    seq!['S', 'o', 'r', 'r', 'y']
}

/// The other rejection phrase of the elevation tool: printed when it asks
/// for the credential again.
pub open spec fn phrase_try_again() -> Seq<char> {
    seq!['t', 'r', 'y', ' ', 'a', 'g', 'a', 'i', 'n']
}

/// The fixed message reported for a refused credential.
pub open spec fn msg_incorrect_password() -> Seq<char> {
    seq!['I', 'n', 'c', 'o', 'r', 'r', 'e', 'c', 't', ' ', 'p', 'a', 's', 's', 'w', 'o', 'r', 'd']
}

/// Prefix of the fallback message used when the command fails and its
/// error stream is empty after trimming.
pub open spec fn msg_exit_code_prefix() -> Seq<char> {
    seq![
        'C', 'o', 'm', 'm', 'a', 'n', 'd', ' ', 'f', 'a', 'i', 'l', 'e', 'd', ' ', 'w', 'i', 't',
        'h', ' ', 'e', 'x', 'i', 't', ' ', 'c', 'o', 'd', 'e', ':', ' ',
    ]
}

fn phrase_sorry_chars() -> (v: Vec<char>)
    ensures
        v@ == phrase_sorry(),
{
    let v: Vec<char> = vec!['S', 'o', 'r', 'r', 'y'];
    assert(v@ =~= phrase_sorry());
    v
}

fn phrase_try_again_chars() -> (v: Vec<char>)
    ensures
        v@ == phrase_try_again(),
{
    let v: Vec<char> = vec!['t', 'r', 'y', ' ', 'a', 'g', 'a', 'i', 'n'];
    assert(v@ =~= phrase_try_again());
    v
}

/// The credential-rejection message as an owned value.
pub fn msg_incorrect_password_chars() -> (v: Vec<char>)
    ensures
        v@ == msg_incorrect_password(),
{
    let v: Vec<char> = vec![
        'I', 'n', 'c', 'o', 'r', 'r', 'e', 'c', 't', ' ', 'p', 'a', 's', 's', 'w', 'o', 'r', 'd',
    ];
    assert(v@ =~= msg_incorrect_password());
    v
}

fn msg_exit_code_prefix_chars() -> (v: Vec<char>)
    ensures
        v@ == msg_exit_code_prefix(),
{
    let v: Vec<char> = vec![
        'C', 'o', 'm', 'm', 'a', 'n', 'd', ' ', 'f', 'a', 'i', 'l', 'e', 'd', ' ', 'w', 'i', 't',
        'h', ' ', 'e', 'x', 'i', 't', ' ', 'c', 'o', 'd', 'e', ':', ' ',
    ];
    assert(v@ =~= msg_exit_code_prefix());
    v
}

/// The result of one privileged command invocation.
#[derive(Debug)]
pub struct CommandOutcome {
    /// The command ran under elevation and exited with status zero, and
    /// the error stream held no rejection phrase.
    pub succeeded: bool,
    /// Empty on success; the fixed credential-rejection message on an
    /// authentication failure; a diagnostic string otherwise.
    pub message: Vec<char>,
}

/// Spec-level value of a [`CommandOutcome`].
#[verifier::ext_equal]
pub struct OutcomeV {
    pub succeeded: bool,
    pub message: Seq<char>,
}

impl View for CommandOutcome {
    type V = OutcomeV;

    open spec fn view(&self) -> OutcomeV {
        OutcomeV { succeeded: self.succeeded, message: self.message@ }
    }
}

/// Whether a captured error stream carries an authentication-rejection
/// phrase (a case-sensitive substring match).
pub open spec fn is_auth_rejection(stderr: Seq<char>) -> bool {
    contains_seq(stderr, phrase_sorry()) || contains_seq(stderr, phrase_try_again())
}

/// The numeric exit code to report: the real one, or -1 when the process
/// was ended by a signal and has none.
pub open spec fn code_or_default(exit_code: Option<i32>) -> int {
    match exit_code {
        Some(v) => v as int,
        None => -1,
    }
}

/// The classification policy for one invocation: a rejection phrase on the
/// error stream means an authentication failure whatever the exit status;
/// otherwise a non-zero status is a generic failure carrying the trimmed
/// error text, or a fallback message naming the exit code when that text
/// is empty; otherwise the invocation succeeded.
pub open spec fn classify_spec(exit_ok: bool, exit_code: Option<i32>, stderr: Seq<char>) -> OutcomeV {
    if is_auth_rejection(stderr) {
        OutcomeV { succeeded: false, message: msg_incorrect_password() }
    } else if !exit_ok {
        OutcomeV {
            succeeded: false,
            message: if trim_spec(stderr).len() > 0 {
                trim_spec(stderr)
            } else {
                msg_exit_code_prefix() + dec_int(code_or_default(exit_code))
            },
        }
    } else {
        OutcomeV { succeeded: true, message: Seq::empty() }
    }
}

/// Classify what one privileged invocation produced: its exit status, its
/// exit code if it has one, and its captured error stream.
pub fn classify_outcome(exit_ok: bool, exit_code: Option<i32>, stderr: &Vec<char>) -> (r:
    CommandOutcome)
    ensures
        r@ == classify_spec(exit_ok, exit_code, stderr@),
{
    let sorry = phrase_sorry_chars();
    let try_again = phrase_try_again_chars();
    if contains_chars(stderr, &sorry) || contains_chars(stderr, &try_again) {
        let r = CommandOutcome { succeeded: false, message: msg_incorrect_password_chars() };
        assert(r@ =~= classify_spec(exit_ok, exit_code, stderr@));
        r
    } else if !exit_ok {
        let trimmed = trim_chars(stderr);
        if trimmed.len() > 0 {
            let r = CommandOutcome { succeeded: false, message: trimmed };
            assert(r@ =~= classify_spec(exit_ok, exit_code, stderr@));
            r
        } else {
            let code: i32 = match exit_code {
                Some(v) => v,
                None => -1,
            };
            let mut message = msg_exit_code_prefix_chars();
            let mut digits = dec_of_i32(code);
            message.append(&mut digits);
            let r = CommandOutcome { succeeded: false, message };
            assert(r@ =~= classify_spec(exit_ok, exit_code, stderr@));
            r
        }
    } else {
        let r = CommandOutcome { succeeded: true, message: Vec::new() };
        assert(r@ =~= classify_spec(exit_ok, exit_code, stderr@));
        r
    }
}

/// The controller state that follows a set-order invocation's outcome.
pub open spec fn set_order_next(oc: OutcomeV) -> StateV {
    if oc.succeeded {
        StateV::ConfirmReboot
    } else if oc.message == msg_incorrect_password() {
        StateV::PasswordError
    } else {
        StateV::ErrorMessage(oc.message)
    }
}

/// The controller state that follows a boot-once invocation's outcome.
pub open spec fn boot_once_next(oc: OutcomeV) -> StateV {
    if oc.succeeded {
        StateV::CountdownReboot(5)
    } else if oc.message == msg_incorrect_password() {
        StateV::PasswordError
    } else {
        StateV::ErrorMessage(oc.message)
    }
}

/// Fold the outcome of the order-setting invocation into the next
/// controller state: confirmation of a reboot on success, the password
/// error screen on a rejected credential, the diagnostic screen otherwise.
pub fn execute_set_boot_order(outcome: CommandOutcome) -> (s: UIState)
    ensures
        s@ == set_order_next(outcome@),
{
    if outcome.succeeded {
        UIState::ConfirmReboot
    } else {
        let expected = msg_incorrect_password_chars();
        if chars_eq(&outcome.message, &expected) {
            UIState::PasswordError
        } else {
            UIState::ErrorMessage(outcome.message)
        }
    }
}

/// Fold the outcome of the boot-once invocation into the next controller
/// state: a five-second reboot countdown on success, the password error
/// screen on a rejected credential, the diagnostic screen otherwise.
pub fn execute_boot_once(outcome: CommandOutcome) -> (s: UIState)
    ensures
        s@ == boot_once_next(outcome@),
{
    if outcome.succeeded {
        UIState::CountdownReboot(5)
    } else {
        let expected = msg_incorrect_password_chars();
        if chars_eq(&outcome.message, &expected) {
            UIState::PasswordError
        } else {
            UIState::ErrorMessage(outcome.message)
        }
    }
}

} // verus!
