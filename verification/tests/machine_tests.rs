//! Scenario tests for the interactive controller.

use boot_switcher::entry::BootEntry;
use boot_switcher::executor::{classify_outcome, CommandOutcome};
use boot_switcher::machine::Machine;
use boot_switcher::state::{Action, Focus, Invocation, Key, Step, UIState};

fn chars(s: &str) -> Vec<char> {
    s.chars().collect()
}

fn entry(id: u16, name: &str) -> BootEntry {
    BootEntry { id, name: chars(name) }
}

/// Two entries as fetched, with the fetched order reversing them.
fn sample_machine() -> Machine {
    let entries = vec![entry(0x0001, "Linux"), entry(0x0002, "Windows")];
    let order = vec![0x0002, 0x0001];
    Machine::new(entries, order)
}

#[test]
fn initial_arrangement_follows_fetched_order() {
    let m = sample_machine();
    assert_eq!(m.entries.len(), 2);
    assert_eq!(m.entries[0].id, 0x0002);
    assert_eq!(m.entries[0].name, chars("Windows"));
    assert_eq!(m.entries[1].id, 0x0001);
    assert_eq!(m.entries[1].name, chars("Linux"));
    assert_eq!(m.current_boot, Some(0x0002));
    assert_eq!(m.original_order, vec![0x0002, 0x0001]);
    assert_eq!(m.priority_cursor, 0);
    assert_eq!(m.boot_target_cursor, 0);
    assert!(matches!(m.focus, Focus::Priority));
    assert!(matches!(m.state, UIState::Main));
}

#[test]
fn entries_absent_from_order_sort_last_stably() {
    let entries = vec![
        entry(0x0004, "D"),
        entry(0x0001, "A"),
        entry(0x0003, "C"),
        entry(0x0002, "B"),
    ];
    let order = vec![0x0002, 0x0001];
    let m = Machine::new(entries, order);
    let ids: Vec<u16> = m.entries.iter().map(|e| e.id).collect();
    assert_eq!(ids, vec![0x0002, 0x0001, 0x0004, 0x0003]);
}

#[test]
fn typing_and_deleting_in_password_prompt() {
    let mut m = sample_machine();
    assert!(matches!(m.handle_key(Key::Enter), Step::Continue));
    assert!(matches!(m.state, UIState::AskPassword));
    m.handle_key(Key::Char('a'));
    m.handle_key(Key::Char('b'));
    m.handle_key(Key::Char('c'));
    assert_eq!(m.password, chars("abc"));
    m.handle_key(Key::Backspace);
    m.handle_key(Key::Backspace);
    assert_eq!(m.password, chars("a"));
    m.handle_key(Key::Backspace);
    m.handle_key(Key::Backspace);
    assert_eq!(m.password, chars(""));
}

#[test]
fn cancel_from_password_prompt_clears_secret_and_pending() {
    let mut m = sample_machine();
    m.handle_key(Key::Enter);
    m.handle_key(Key::Char('s'));
    let step = m.handle_key(Key::Esc);
    assert!(matches!(step, Step::Continue));
    assert!(matches!(m.state, UIState::Main));
    assert!(m.password.is_empty());
    assert!(matches!(m.pending, Action::Idle));
    assert_eq!(m.entries[0].id, 0x0002);
    assert_eq!(m.entries[1].id, 0x0001);
}

#[test]
fn visibility_toggle_keeps_buffer() {
    let mut m = sample_machine();
    m.handle_key(Key::Enter);
    m.handle_key(Key::Char('x'));
    assert!(!m.show_password);
    m.handle_key(Key::Tab);
    assert!(m.show_password);
    assert_eq!(m.password, chars("x"));
    m.handle_key(Key::Tab);
    assert!(!m.show_password);
}

#[test]
fn move_down_then_up_restores_order_and_cursor() {
    let mut m = sample_machine();
    m.handle_key(Key::Char('d'));
    assert_eq!(m.entries[0].id, 0x0001);
    assert_eq!(m.entries[1].id, 0x0002);
    assert_eq!(m.priority_cursor, 1);
    m.handle_key(Key::Char('u'));
    assert_eq!(m.entries[0].id, 0x0002);
    assert_eq!(m.entries[1].id, 0x0001);
    assert_eq!(m.priority_cursor, 0);
}

#[test]
fn cursor_stops_at_both_edges() {
    let mut m = sample_machine();
    m.handle_key(Key::Up);
    assert_eq!(m.priority_cursor, 0);
    m.handle_key(Key::Char('k'));
    assert_eq!(m.priority_cursor, 0);
    m.handle_key(Key::Down);
    assert_eq!(m.priority_cursor, 1);
    m.handle_key(Key::Down);
    assert_eq!(m.priority_cursor, 1);
    m.handle_key(Key::Char('j'));
    assert_eq!(m.priority_cursor, 1);
    m.handle_key(Key::Char('k'));
    assert_eq!(m.priority_cursor, 0);
}

#[test]
fn reorder_keys_are_noops_at_edges() {
    let mut m = sample_machine();
    m.handle_key(Key::Char('u'));
    assert_eq!(m.entries[0].id, 0x0002);
    assert_eq!(m.priority_cursor, 0);
    m.handle_key(Key::Down);
    m.handle_key(Key::Char('d'));
    assert_eq!(m.entries[1].id, 0x0001);
    assert_eq!(m.priority_cursor, 1);
}

#[test]
fn focus_toggles_between_panels() {
    let mut m = sample_machine();
    assert!(matches!(m.focus, Focus::Priority));
    m.handle_key(Key::Tab);
    assert!(matches!(m.focus, Focus::BootTarget));
    m.handle_key(Key::Tab);
    assert!(matches!(m.focus, Focus::Priority));
}

#[test]
fn boot_target_cursor_moves_independently() {
    let mut m = sample_machine();
    m.handle_key(Key::Tab);
    m.handle_key(Key::Down);
    assert_eq!(m.boot_target_cursor, 1);
    assert_eq!(m.priority_cursor, 0);
}

#[test]
fn reorder_keys_do_nothing_in_boot_target_panel() {
    let mut m = sample_machine();
    m.handle_key(Key::Tab);
    m.handle_key(Key::Char('d'));
    assert_eq!(m.entries[0].id, 0x0002);
    assert_eq!(m.priority_cursor, 0);
}

#[test]
fn quit_with_unchanged_order_exits_at_once() {
    let mut m = sample_machine();
    let step = m.handle_key(Key::Char('q'));
    assert!(matches!(step, Step::Exit));
    assert!(matches!(m.state, UIState::Main));
}

#[test]
fn quit_with_changed_order_asks_first() {
    let mut m = sample_machine();
    m.handle_key(Key::Char('d'));
    let step = m.handle_key(Key::Char('q'));
    assert!(matches!(step, Step::Continue));
    assert!(matches!(m.state, UIState::QuitConfirm));
    assert!(!m.quit_yes);
    // cancel goes back without quitting
    m.handle_key(Key::Esc);
    assert!(matches!(m.state, UIState::Main));
    // confirming "no" also goes back
    m.handle_key(Key::Char('q'));
    let step = m.handle_key(Key::Enter);
    assert!(matches!(step, Step::Continue));
    assert!(matches!(m.state, UIState::Main));
    // toggling to "yes" and confirming exits
    m.handle_key(Key::Char('q'));
    m.handle_key(Key::Left);
    assert!(m.quit_yes);
    let step = m.handle_key(Key::Enter);
    assert!(matches!(step, Step::Exit));
}

#[test]
fn confirm_in_priority_panel_requests_set_order() {
    let mut m = sample_machine();
    m.handle_key(Key::Enter);
    match &m.pending {
        Action::SetOrder(ids) => assert_eq!(ids, &vec![0x0002, 0x0001]),
        other => panic!("unexpected pending action: {:?}", other),
    }
    assert!(m.password.is_empty());
    m.handle_key(Key::Char('p'));
    let step = m.handle_key(Key::Enter);
    match step {
        Step::Invoke(Invocation::SetOrder(arg)) => assert_eq!(arg, chars("0002,0001")),
        other => panic!("unexpected step: {:?}", other),
    }
    // the controller still waits on the prompt until the outcome arrives
    assert!(matches!(m.state, UIState::AskPassword));
}

#[test]
fn confirm_in_boot_target_panel_requests_boot_once() {
    let mut m = sample_machine();
    m.handle_key(Key::Tab);
    m.handle_key(Key::Down);
    m.handle_key(Key::Enter);
    match &m.pending {
        Action::BootOnce(id) => assert_eq!(*id, 0x0001),
        other => panic!("unexpected pending action: {:?}", other),
    }
    let step = m.handle_key(Key::Enter);
    match step {
        Step::Invoke(Invocation::BootOnce(arg)) => assert_eq!(arg, chars("0001")),
        other => panic!("unexpected step: {:?}", other),
    }
}

#[test]
fn set_order_success_opens_reboot_confirmation() {
    let mut m = sample_machine();
    m.handle_key(Key::Enter);
    m.handle_key(Key::Char('p'));
    m.handle_key(Key::Enter);
    m.apply_outcome(CommandOutcome { succeeded: true, message: vec![] });
    assert!(matches!(m.state, UIState::ConfirmReboot));
    assert!(m.reboot_yes);
    assert!(m.password.is_empty());
}

#[test]
fn boot_once_success_starts_countdown() {
    let mut m = sample_machine();
    m.handle_key(Key::Tab);
    m.handle_key(Key::Enter);
    m.handle_key(Key::Char('p'));
    m.handle_key(Key::Enter);
    m.apply_outcome(CommandOutcome { succeeded: true, message: vec![] });
    assert!(matches!(m.state, UIState::CountdownReboot(5)));
    assert!(m.password.is_empty());
}

#[test]
fn rejected_credential_shows_password_error_whatever_the_exit_code() {
    let mut m = sample_machine();
    m.handle_key(Key::Enter);
    m.handle_key(Key::Char('p'));
    m.handle_key(Key::Enter);
    // a rejection phrase wins even over a zero exit status
    let outcome = classify_outcome(true, Some(0), &chars("Sorry, try again.\n"));
    assert!(!outcome.succeeded);
    assert_eq!(outcome.message, chars("Incorrect password"));
    m.apply_outcome(outcome);
    assert!(matches!(m.state, UIState::PasswordError));
    assert!(m.password.is_empty());
    // any key re-opens the prompt with an empty buffer
    m.handle_key(Key::Char('z'));
    assert!(matches!(m.state, UIState::AskPassword));
    assert!(m.password.is_empty());
}

#[test]
fn command_failure_shows_diagnostic_and_returns_to_prompt() {
    let mut m = sample_machine();
    m.handle_key(Key::Enter);
    m.handle_key(Key::Char('p'));
    m.handle_key(Key::Enter);
    let outcome = classify_outcome(false, Some(2), &chars("  invalid BootOrder order\n"));
    m.apply_outcome(outcome);
    match &m.state {
        UIState::ErrorMessage(msg) => assert_eq!(msg, &chars("invalid BootOrder order")),
        other => panic!("unexpected state: {:?}", other),
    }
    assert!(m.password.is_empty());
    // the pending action survives, so the operator may retry
    let step = m.handle_key(Key::Other);
    assert!(matches!(step, Step::Continue));
    assert!(matches!(m.state, UIState::AskPassword));
    match &m.pending {
        Action::SetOrder(ids) => assert_eq!(ids, &vec![0x0002, 0x0001]),
        other => panic!("unexpected pending action: {:?}", other),
    }
}

#[test]
fn countdown_runs_to_reboot() {
    let mut m = sample_machine();
    m.handle_key(Key::Tab);
    m.handle_key(Key::Enter);
    m.handle_key(Key::Enter);
    m.apply_outcome(CommandOutcome { succeeded: true, message: vec![] });
    assert!(matches!(m.state, UIState::CountdownReboot(5)));
    for expected in [4u8, 3, 2, 1] {
        let step = m.tick();
        assert!(matches!(step, Step::Continue));
        match m.state {
            UIState::CountdownReboot(n) => assert_eq!(n, expected),
            _ => panic!("countdown left early"),
        }
    }
    let step = m.tick();
    assert!(matches!(step, Step::Reboot));
}

#[test]
fn countdown_can_be_cancelled() {
    let mut m = sample_machine();
    m.handle_key(Key::Tab);
    m.handle_key(Key::Enter);
    m.handle_key(Key::Enter);
    m.apply_outcome(CommandOutcome { succeeded: true, message: vec![] });
    let step = m.tick();
    assert!(matches!(step, Step::Continue));
    let step = m.handle_key(Key::Esc);
    assert!(matches!(step, Step::Continue));
    assert!(matches!(m.state, UIState::Main));
}

#[test]
fn reboot_confirmation_toggles_and_cancels() {
    let mut m = sample_machine();
    m.handle_key(Key::Enter);
    m.handle_key(Key::Enter);
    m.apply_outcome(CommandOutcome { succeeded: true, message: vec![] });
    assert!(matches!(m.state, UIState::ConfirmReboot));
    assert!(m.reboot_yes);
    m.handle_key(Key::Left);
    assert!(!m.reboot_yes);
    let step = m.handle_key(Key::Enter);
    assert!(matches!(step, Step::Continue));
    assert!(matches!(m.state, UIState::Main));
    // confirming "yes" starts the countdown
    m.handle_key(Key::Enter);
    m.handle_key(Key::Enter);
    m.apply_outcome(CommandOutcome { succeeded: true, message: vec![] });
    m.handle_key(Key::Tab);
    assert!(!m.reboot_yes);
    m.handle_key(Key::Right);
    assert!(m.reboot_yes);
    let step = m.handle_key(Key::Enter);
    assert!(matches!(step, Step::Continue));
    assert!(matches!(m.state, UIState::CountdownReboot(5)));
}

#[test]
fn reboot_confirmation_cancel_returns_to_main() {
    let mut m = sample_machine();
    m.handle_key(Key::Enter);
    m.handle_key(Key::Enter);
    m.apply_outcome(CommandOutcome { succeeded: true, message: vec![] });
    let step = m.handle_key(Key::Esc);
    assert!(matches!(step, Step::Continue));
    assert!(matches!(m.state, UIState::Main));
}

#[test]
fn help_opens_and_any_key_closes() {
    let mut m = sample_machine();
    m.handle_key(Key::Char('?'));
    assert!(matches!(m.state, UIState::Help));
    m.handle_key(Key::Char('x'));
    assert!(matches!(m.state, UIState::Main));
    m.handle_key(Key::Char('h'));
    assert!(matches!(m.state, UIState::Help));
    m.handle_key(Key::Esc);
    assert!(matches!(m.state, UIState::Main));
}

#[test]
fn empty_entry_list_accepts_keys_without_acting() {
    let mut m = Machine::new(vec![], vec![]);
    assert!(m.entries.is_empty());
    m.handle_key(Key::Down);
    m.handle_key(Key::Up);
    assert_eq!(m.priority_cursor, 0);
    let step = m.handle_key(Key::Enter);
    assert!(matches!(step, Step::Continue));
    assert!(matches!(m.state, UIState::Main));
    assert!(matches!(m.pending, Action::Idle));
    let step = m.handle_key(Key::Char('q'));
    assert!(matches!(step, Step::Exit));
}
