//! Tests for the inventory-output parser and the outcome classifier.

use boot_switcher::entry::{parse_boot_entries, parse_boot_order, parse_line_entry};
use boot_switcher::executor::{classify_outcome, execute_boot_once, execute_set_boot_order};
use boot_switcher::state::UIState;
use boot_switcher::text::{contains_chars, dec_of_i32, hex4_chars, parse_hex_token, trim_chars};

fn chars(s: &str) -> Vec<char> {
    s.chars().collect()
}

const SAMPLE: &str = "BootCurrent: 0003\n\
Timeout: 1 seconds\n\
BootOrder: 0003,0001,2001\n\
Boot0000* Windows Boot Manager\tHD(1,GPT,12ab)/File(\\EFI\\bootmgfw.efi)\n\
Boot0001* Fedora\tHD(1,GPT,34cd)/File(\\EFI\\fedora\\shimx64.efi)\n\
Boot0003* Arch Linux\tHD(1,GPT,56ef)\n\
Boot2001* EFI USB Device (UEFI Part)\n\
Boot2002  EFI DVD/CDROM\n";

#[test]
fn parses_all_entry_lines_of_sample_output() {
    let entries = parse_boot_entries(&chars(SAMPLE));
    let ids: Vec<u16> = entries.iter().map(|e| e.id).collect();
    assert_eq!(ids, vec![0x0000, 0x0001, 0x0003, 0x2001, 0x2002]);
    assert_eq!(entries[0].name, chars("Windows Boot Manager"));
    assert_eq!(entries[1].name, chars("Fedora"));
    assert_eq!(entries[2].name, chars("Arch Linux"));
    assert_eq!(entries[3].name, chars("EFI USB Device"));
    assert_eq!(entries[4].name, chars("EFI DVD/CDROM"));
}

#[test]
fn parses_boot_order_of_sample_output() {
    let order = parse_boot_order(&chars(SAMPLE));
    assert_eq!(order, vec![0x0003, 0x0001, 0x2001]);
}

#[test]
fn entry_line_without_star_still_matches() {
    let e = parse_line_entry(&chars("Boot2002  EFI DVD/CDROM")).unwrap();
    assert_eq!(e.id, 0x2002);
    assert_eq!(e.name, chars("EFI DVD/CDROM"));
}

#[test]
fn header_lines_yield_no_entries() {
    assert!(parse_line_entry(&chars("BootCurrent: 0003")).is_none());
    assert!(parse_line_entry(&chars("BootOrder: 0003,0001")).is_none());
    assert!(parse_line_entry(&chars("Timeout: 1 seconds")).is_none());
    assert!(parse_line_entry(&chars("")).is_none());
    assert!(parse_line_entry(&chars("Boot12")).is_none());
    assert!(parse_line_entry(&chars("Boot0001*")).is_none());
}

#[test]
fn entry_match_may_start_mid_line() {
    let e = parse_line_entry(&chars("x Boot00aB* lower hex\trest")).unwrap();
    assert_eq!(e.id, 0x00ab);
    assert_eq!(e.name, chars("lower hex"));
}

#[test]
fn missing_order_line_gives_empty_order() {
    let order = parse_boot_order(&chars("BootCurrent: 0001\nBoot0001* Linux\n"));
    assert!(order.is_empty());
}

#[test]
fn order_tokens_are_trimmed_and_checked() {
    let order = parse_boot_order(&chars("BootOrder: 0001, 2001 ,zz,,3\n"));
    assert_eq!(order, vec![0x0001, 0x2001, 0x0003]);
}

#[test]
fn order_line_with_carriage_return_still_parses() {
    let order = parse_boot_order(&chars("BootOrder: 0002,0001\r\nBoot0001* A\r\n"));
    assert_eq!(order, vec![0x0002, 0x0001]);
}

#[test]
fn hex_token_parsing_accepts_one_to_four_digits() {
    assert_eq!(parse_hex_token(&chars("0001")), Some(0x0001));
    assert_eq!(parse_hex_token(&chars("1a")), Some(0x001a));
    assert_eq!(parse_hex_token(&chars("FFFF")), Some(0xffff));
    assert_eq!(parse_hex_token(&chars("3")), Some(0x0003));
    assert_eq!(parse_hex_token(&chars("")), None);
    assert_eq!(parse_hex_token(&chars("12345")), None);
    assert_eq!(parse_hex_token(&chars("12g4")), None);
}

#[test]
fn identifiers_render_as_four_upper_case_digits() {
    assert_eq!(hex4_chars(0x0001), chars("0001"));
    assert_eq!(hex4_chars(0x2001), chars("2001"));
    assert_eq!(hex4_chars(0xbeef), chars("BEEF"));
    assert_eq!(hex4_chars(0x0000), chars("0000"));
}

#[test]
fn decimal_rendering_handles_signs() {
    assert_eq!(dec_of_i32(0), chars("0"));
    assert_eq!(dec_of_i32(42), chars("42"));
    assert_eq!(dec_of_i32(-1), chars("-1"));
    assert_eq!(dec_of_i32(-130), chars("-130"));
}

#[test]
fn trimming_strips_surrounding_whitespace_only() {
    assert_eq!(trim_chars(&chars("  a b \t\n")), chars("a b"));
    assert_eq!(trim_chars(&chars("\t \r\n")), chars(""));
    assert_eq!(trim_chars(&chars("plain")), chars("plain"));
}

#[test]
fn substring_search_is_case_sensitive() {
    assert!(contains_chars(&chars("Sorry, try again."), &chars("Sorry")));
    assert!(!contains_chars(&chars("sorry, TRY AGAIN"), &chars("Sorry")));
    assert!(contains_chars(&chars("please try again now"), &chars("try again")));
    assert!(!contains_chars(&chars("short"), &chars("much longer needle")));
}

#[test]
fn zero_exit_without_rejection_phrase_succeeds() {
    let outcome = classify_outcome(true, Some(0), &chars(""));
    assert!(outcome.succeeded);
    assert!(outcome.message.is_empty());
}

#[test]
fn rejection_phrase_beats_exit_status() {
    let outcome = classify_outcome(true, Some(0), &chars("sudo: Sorry, try again.\n"));
    assert!(!outcome.succeeded);
    assert_eq!(outcome.message, chars("Incorrect password"));
    let outcome = classify_outcome(false, Some(1), &chars("please try again\n"));
    assert!(!outcome.succeeded);
    assert_eq!(outcome.message, chars("Incorrect password"));
}

#[test]
fn failure_reports_trimmed_error_stream() {
    let outcome = classify_outcome(false, Some(2), &chars("  efibootmgr: invalid flag\n"));
    assert!(!outcome.succeeded);
    assert_eq!(outcome.message, chars("efibootmgr: invalid flag"));
}

#[test]
fn failure_with_empty_error_stream_names_the_exit_code() {
    let outcome = classify_outcome(false, Some(4), &chars(" \n"));
    assert_eq!(outcome.message, chars("Command failed with exit code: 4"));
    let outcome = classify_outcome(false, None, &chars(""));
    assert_eq!(outcome.message, chars("Command failed with exit code: -1"));
}

#[test]
fn set_order_outcomes_map_to_states() {
    let s = execute_set_boot_order(classify_outcome(true, Some(0), &chars("")));
    assert!(matches!(s, UIState::ConfirmReboot));
    let s = execute_set_boot_order(classify_outcome(false, Some(1), &chars("Sorry")));
    assert!(matches!(s, UIState::PasswordError));
    let s = execute_set_boot_order(classify_outcome(false, Some(1), &chars("boom\n")));
    match s {
        UIState::ErrorMessage(msg) => assert_eq!(msg, chars("boom")),
        other => panic!("unexpected state: {:?}", other),
    }
}

#[test]
fn boot_once_outcomes_map_to_states() {
    let s = execute_boot_once(classify_outcome(true, Some(0), &chars("")));
    assert!(matches!(s, UIState::CountdownReboot(5)));
    let s = execute_boot_once(classify_outcome(false, Some(1), &chars("try again")));
    assert!(matches!(s, UIState::PasswordError));
    let s = execute_boot_once(classify_outcome(false, Some(1), &chars("no such entry")));
    match s {
        UIState::ErrorMessage(msg) => assert_eq!(msg, chars("no such entry")),
        other => panic!("unexpected state: {:?}", other),
    }
}
