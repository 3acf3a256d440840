use feedsync::ledger::{second_token_of, Ledger};

#[test]
fn loading_a_repeated_record_keeps_one_identifier() {
    let l = Ledger::from_text("youtube abc123\nyoutube abc123\n");
    assert_eq!(l.len(), 1);
    assert!(l.contains("abc123"));
}

#[test]
fn missing_record_gives_empty_ledger() {
    let l = Ledger::load(None);
    assert_eq!(l.len(), 0);
    assert!(!l.contains("abc123"));
}

#[test]
fn single_token_line_is_ignored() {
    let l = Ledger::from_text("malformed\nyoutube good1\n");
    assert_eq!(l.len(), 1);
    assert!(l.contains("good1"));
    assert!(!l.contains("malformed"));
}

#[test]
fn extra_tokens_blank_lines_and_crlf() {
    let l = Ledger::load(Some("  youtube  a1  trailing words\r\n\n   \nyoutube b2\r\nyoutube c3"));
    assert_eq!(l.len(), 3);
    assert!(l.contains("a1"));
    assert!(l.contains("b2"));
    assert!(l.contains("c3"));
    assert!(!l.contains("youtube"));
}

#[test]
fn empty_record_gives_empty_ledger() {
    assert_eq!(Ledger::from_text("").len(), 0);
}

#[test]
fn record_adds_once() {
    let mut l = Ledger::new();
    l.record("x".to_string());
    l.record("x".to_string());
    assert_eq!(l.len(), 1);
    assert!(l.contains("x"));
}

#[test]
fn second_token_of_a_line() {
    let line: Vec<char> = "\tyoutube  id9 more".chars().collect();
    assert_eq!(second_token_of(&line), Some("id9".to_string()));
    let one: Vec<char> = " only ".chars().collect();
    assert_eq!(second_token_of(&one), None);
}
