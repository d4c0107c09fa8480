use phpmailer_rs::phpmailer::MailErrorKind;
use phpmailer_rs::pop3::{Pop3Dialog, Pop3Stage};
use phpmailer_rs::Pop3;

#[test]
fn pop3_defaults() {
    let pop3 = Pop3::new("pop.example.com".to_string(), 110);
    assert_eq!(pop3.host, "pop.example.com");
    assert_eq!(pop3.port, 110);
    assert_eq!(pop3.timeout_seconds, 30);
    assert!(!pop3.connected);
}

#[test]
fn pop3_authorisation_sends_user_pass_quit() {
    let mut pop3 = Pop3::new("pop.example.com".to_string(), 110);
    let mut dialog = Pop3Dialog::new("alice".to_string(), "secret".to_string());
    assert_eq!(dialog.on_reply("+OK POP3 ready").unwrap(), "USER alice");
    assert_eq!(dialog.on_reply("+OK").unwrap(), "PASS secret");
    assert_eq!(dialog.on_reply("+OK logged in").unwrap(), "QUIT");
    assert_eq!(dialog.stage, Pop3Stage::Quit);
    pop3.complete_authorisation(&dialog);
    assert!(pop3.connected);
}

#[test]
fn pop3_negative_replies_are_reported() {
    let mut dialog = Pop3Dialog::new("alice".to_string(), "secret".to_string());
    let error = dialog.on_reply("-ERR busy").unwrap_err();
    assert_eq!(error.kind, MailErrorKind::Protocol);
    assert_eq!(error.message, "Invalid POP3 greeting: -ERR busy");
    assert_eq!(dialog.stage, Pop3Stage::Greeting);
    dialog.on_reply("+OK").unwrap();
    let error = dialog.on_reply("-ERR no such user").unwrap_err();
    assert_eq!(error.kind, MailErrorKind::Authentication);
    assert_eq!(error.message, "POP3 USER failed for alice: -ERR no such user");
    dialog.on_reply("+OK").unwrap();
    let error = dialog.on_reply("-ERR wrong").unwrap_err();
    assert_eq!(error.kind, MailErrorKind::Authentication);
    assert_eq!(error.message, "POP3 PASS failed for alice: -ERR wrong");
}
