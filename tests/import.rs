use cursor_switcher::import::{
    account_from_record, kept_after_delete, parse_i32, position_of_email, CsvManager, ImportError,
};
use cursor_switcher::types::default_source;
use std::path::PathBuf;

fn create_test_manager() -> CsvManager {
    CsvManager::new(PathBuf::from("test.csv"))
}

#[test]
fn test_parse_import_text() {
    let manager = create_test_manager();

    let import_text = "user1@example.com,token1,session1\nuser2@example.com,token2,session2";

    let accounts = manager.parse_import_text(import_text).unwrap();
    assert_eq!(accounts.len(), 2);
    assert_eq!(accounts[0].email, "user1@example.com");
    assert_eq!(accounts[0].access_token, "token1");
    assert_eq!(accounts[0].cookie, "session1");
    assert_eq!(accounts[1].email, "user2@example.com");
    assert_eq!(accounts[1].access_token, "token2");
    assert_eq!(accounts[1].cookie, "session2");
}

#[test]
fn test_parse_account_line_with_session_token() {
    let manager = create_test_manager();

    let line = "test@example.com,mytoken,mysession";
    let account = manager.parse_account_line(line).unwrap();

    assert_eq!(account.email, "test@example.com");
    assert_eq!(account.access_token, "mytoken");
    assert_eq!(account.refresh_token, "mytoken");
    assert_eq!(account.cookie, "mysession");
}

#[test]
fn test_parse_account_line_without_session_token() {
    let manager = create_test_manager();

    let line = "test@example.com,mytoken";
    let account = manager.parse_account_line(line).unwrap();

    assert_eq!(account.email, "test@example.com");
    assert_eq!(account.access_token, "mytoken");
    assert_eq!(account.cookie, "");
}

#[test]
fn test_parse_account_line_invalid_format() {
    let manager = create_test_manager();

    let line = "test@example.com";
    let result = manager.parse_account_line(line);

    assert!(result.is_err());
}

#[test]
fn parsed_line_has_defaults_and_trimmed_fields() {
    let manager = create_test_manager();
    let a = manager.parse_account_line(" a@b.c , tok ,  sess , extra").unwrap();
    assert_eq!(a.email, "a@b.c");
    assert_eq!(a.access_token, "tok");
    assert_eq!(a.cookie, "sess");
    assert_eq!(a.index, 0);
    assert_eq!(a.days_remaining, "0");
    assert_eq!(a.status, "unknown");
    assert_eq!(a.source, "imported");
    assert_eq!(a.source, default_source());
}

#[test]
fn blank_and_crlf_lines_are_handled() {
    let manager = create_test_manager();
    let accounts = manager.parse_import_text("\n  \r\na@x,t1\r\n\nb@x,t2,s2\n").unwrap();
    assert_eq!(accounts.len(), 2);
    assert_eq!(accounts[0].access_token, "t1");
    assert_eq!(accounts[0].cookie, "");
    assert_eq!(accounts[1].cookie, "s2");
    assert!(manager.parse_import_text("").unwrap().is_empty());
}

#[test]
fn one_bad_line_fails_the_import() {
    let manager = create_test_manager();
    assert_eq!(manager.parse_import_text("a@x,t1\nbroken\nb@x,t2").unwrap_err(), ImportError::InvalidFormat);
}

#[test]
fn manager_keeps_its_path() {
    let manager = create_test_manager();
    assert_eq!(manager.file_path(), &PathBuf::from("test.csv"));
}

#[test]
fn integers_read_as_std_reads_them() {
    for s in ["0", "42", "-7", "+15", "-0", "2147483647", "-2147483648", "2147483648", "-2147483649",
              "", "-", "+", "1a", " 1", "99999999999999999999", "007", "١"] {
        assert_eq!(parse_i32(s), s.parse::<i32>().ok(), "{:?}", s);
    }
}

#[test]
fn stored_row_becomes_an_account() {
    let row = |fields: &[&str]| fields.iter().map(|f| f.to_string()).collect::<Vec<String>>();
    let a = account_from_record(&row(&["3", "e@x", "at", "rt", "ck", "30", "premium", "2024-01-01", "web_login", "1.5"])).unwrap();
    assert_eq!(a.index, 3);
    assert_eq!(a.email, "e@x");
    assert_eq!(a.access_token, "at");
    assert_eq!(a.refresh_token, "rt");
    assert_eq!(a.cookie, "ck");
    assert_eq!(a.days_remaining, "30");
    assert_eq!(a.status, "premium");
    assert_eq!(a.record_time, "2024-01-01");
    assert_eq!(a.source, "web_login");
    let b = account_from_record(&row(&["x", "e", "", "", "", "", "", ""])).unwrap();
    assert_eq!(b.index, 0);
    assert_eq!(b.source, "imported");
    assert!(account_from_record(&row(&["1", "e", "a", "r", "c", "d", "s"])).is_none());
}

#[test]
fn accounts_are_matched_by_email() {
    let emails = vec!["a@x".to_string(), "b@x".to_string(), "a@x".to_string()];
    assert_eq!(position_of_email(&emails, "a@x"), Some(0));
    assert_eq!(position_of_email(&emails, "b@x"), Some(1));
    assert_eq!(position_of_email(&emails, "c@x"), None);
    assert_eq!(kept_after_delete(&emails, "a@x"), vec![false, true, false]);
    assert_eq!(kept_after_delete(&emails, "c@x"), vec![true, true, true]);
    assert!(kept_after_delete(&vec![], "a@x").is_empty());
}
