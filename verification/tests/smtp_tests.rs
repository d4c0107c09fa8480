use phpmailer_rs::oauth::SimpleOAuthTokenProvider;
use phpmailer_rs::phpmailer::MailErrorKind;
use phpmailer_rs::smtp::{
    command_line, dot_stuff, finish_reply, is_last_reply_line, SmtpDialog, SmtpStage,
};
use phpmailer_rs::{PHPMailer, SmtpConnection, SmtpSecurity};

fn mailer() -> PHPMailer {
    let mut mailer = PHPMailer::new();
    mailer.is_smtp();
    mailer.set_from("sender@example.com".to_string(), "Sender".to_string());
    mailer.add_address("to@example.com".to_string());
    mailer.add_cc("cc@example.com".to_string());
    mailer.add_bcc("bcc@example.com".to_string());
    mailer.helo = "client.example.com".to_string();
    mailer
}

/// Runs a dialog in which the server answers every command with the first
/// reply it accepts, and returns the commands sent.
fn run_accepting(mailer: &PHPMailer, message: &str) -> Vec<String> {
    let mut dialog = SmtpDialog::new(mailer, message);
    let mut commands = Vec::new();
    while !dialog.is_finished() {
        let command = dialog.command(mailer);
        commands.push(command);
        let reply = match dialog.stage {
            SmtpStage::Data => "354 go ahead",
            SmtpStage::AuthXoauth2 | SmtpStage::AuthLogin | SmtpStage::AuthUser => "334 ",
            SmtpStage::OAuthToken | SmtpStage::AuthPass => "235 ok",
            _ => "250 ok",
        };
        dialog.on_reply(mailer, reply).expect("accepted");
    }
    commands
}

#[test]
fn connection_defaults() {
    let conn = SmtpConnection::new("smtp.example.com".to_string(), 25);
    assert_eq!(conn.host, "smtp.example.com");
    assert_eq!(conn.port, 25);
    assert_eq!(conn.timeout_seconds, 300);
    assert_eq!(conn.security, SmtpSecurity::Unsecured);
    assert_eq!(conn.server_hello, "");
    let copy = conn.clone();
    assert_eq!(copy.host, conn.host);
}

#[test]
fn greeting_must_carry_220() {
    let mut conn = SmtpConnection::new("h".to_string(), 25);
    assert!(conn.accept_greeting("220 ready".to_string()).is_ok());
    assert_eq!(conn.server_hello, "220 ready");
    let error = conn.accept_greeting("554 go away".to_string()).unwrap_err();
    assert_eq!(error.kind, MailErrorKind::Protocol);
    assert_eq!(error.message, "Unexpected SMTP greeting: 554 go away");
    assert_eq!(conn.server_hello, "554 go away");
}

#[test]
fn reply_lines_and_commands() {
    assert_eq!(command_line("EHLO x"), "EHLO x\r\n");
    assert!(is_last_reply_line("250 OK\r\n"));
    assert!(!is_last_reply_line("250-PIPELINING\r\n"));
    assert!(!is_last_reply_line("250"));
    assert_eq!(finish_reply("250-a\r\n250 b \r\n\t"), "250-a\r\n250 b");
    assert_eq!(finish_reply("   "), "");
}

#[test]
fn dot_stuffing_doubles_periods_after_line_feeds() {
    assert_eq!(dot_stuff("a\n.b"), "a\n..b");
    assert_eq!(dot_stuff(".start"), ".start");
    assert_eq!(dot_stuff("x\r\n.\r\n"), "x\r\n..\r\n");
    assert_eq!(dot_stuff("\n.."), "\n...");
    assert_eq!(dot_stuff("no dots\n here"), "no dots\n here");
}

#[test]
fn dot_stuffing_is_transparent() {
    let samples = ["a\n.b", "x\n..\n.", ".\n.\n.", "plain"];
    for sample in samples {
        let stuffed = dot_stuff(sample);
        assert_eq!(stuffed.replace("\n..", "\n."), sample);
    }
}

#[test]
fn unauthenticated_session_sends_envelope_in_order() {
    let mailer = mailer();
    let commands = run_accepting(&mailer, "Hi\n.\nBye");
    assert_eq!(
        commands,
        vec![
            "EHLO client.example.com".to_string(),
            "MAIL FROM:<sender@example.com>".to_string(),
            "RCPT TO:<to@example.com>".to_string(),
            "RCPT TO:<cc@example.com>".to_string(),
            "RCPT TO:<bcc@example.com>".to_string(),
            "DATA".to_string(),
            "Hi\n..\nBye\r\n.\r\n".to_string(),
        ]
    );
}

#[test]
fn login_session_sends_base64_credentials() {
    let mut mailer = mailer();
    mailer.smtp_auth = true;
    mailer.smtp_username = "alice".to_string();
    mailer.smtp_password = "secret".to_string();
    let commands = run_accepting(&mailer, "m");
    assert_eq!(commands[0], "EHLO client.example.com");
    assert_eq!(commands[1], "AUTH LOGIN");
    assert_eq!(commands[2], "YWxpY2U=");
    assert_eq!(commands[3], "c2VjcmV0");
    assert_eq!(commands[4], "MAIL FROM:<sender@example.com>");
    assert_eq!(commands.len(), 10);
}

#[test]
fn oauth_session_sends_provider_token() {
    let mut mailer = mailer();
    mailer.smtp_auth = true;
    mailer.set_oauth_provider(Box::new(SimpleOAuthTokenProvider::new(
        "alice@example.com".to_string(),
        "ya29.token".to_string(),
    )));
    let commands = run_accepting(&mailer, "m");
    assert_eq!(commands[1], "AUTH XOAUTH2");
    assert_eq!(
        commands[2],
        "dXNlcj1hbGljZUBleGFtcGxlLmNvbQFhdXRoPUJlYXJlciB5YTI5LnRva2VuAQE="
    );
    assert_eq!(commands[3], "MAIL FROM:<sender@example.com>");
    assert_eq!(commands.len(), 9);
}

#[test]
fn recipient_reply_251_is_accepted() {
    let mailer = mailer();
    let mut dialog = SmtpDialog::new(&mailer, "m");
    dialog.on_reply(&mailer, "250 hi").unwrap();
    dialog.on_reply(&mailer, "250 ok").unwrap();
    assert_eq!(dialog.stage, SmtpStage::Recipient(0));
    dialog.on_reply(&mailer, "251 forwarded").unwrap();
    assert_eq!(dialog.stage, SmtpStage::Recipient(1));
}

#[test]
fn refused_replies_report_the_failed_step() {
    let mailer = mailer();
    let mut dialog = SmtpDialog::new(&mailer, "m");
    let error = dialog.on_reply(&mailer, "500 what").unwrap_err();
    assert_eq!(error.kind, MailErrorKind::Protocol);
    assert_eq!(error.message, "EHLO failed: 500 what");
    assert_eq!(dialog.stage, SmtpStage::Ehlo);

    dialog.on_reply(&mailer, "250 hi").unwrap();
    let error = dialog.on_reply(&mailer, "550 no").unwrap_err();
    assert_eq!(error.message, "MAIL FROM failed: 550 no");
    dialog.on_reply(&mailer, "250 ok").unwrap();
    let error = dialog.on_reply(&mailer, "550 unknown").unwrap_err();
    assert_eq!(error.kind, MailErrorKind::Protocol);
    assert_eq!(error.message, "RCPT TO failed for to@example.com: 550 unknown");
    dialog.on_reply(&mailer, "250 ok").unwrap();
    dialog.on_reply(&mailer, "250 ok").unwrap();
    dialog.on_reply(&mailer, "250 ok").unwrap();
    assert_eq!(dialog.stage, SmtpStage::Data);
    let error = dialog.on_reply(&mailer, "250 ok").unwrap_err();
    assert_eq!(error.message, "DATA command rejected: 250 ok");
    dialog.on_reply(&mailer, "354 go").unwrap();
    let error = dialog.on_reply(&mailer, "552 too big").unwrap_err();
    assert_eq!(error.message, "Message not accepted: 552 too big");
    dialog.on_reply(&mailer, "250 queued").unwrap();
    assert!(dialog.is_finished());
}

#[test]
fn refused_authentication_reports_authentication_errors() {
    let mut mailer = mailer();
    mailer.smtp_auth = true;
    let mut dialog = SmtpDialog::new(&mailer, "m");
    dialog.on_reply(&mailer, "250 hi").unwrap();
    assert_eq!(dialog.stage, SmtpStage::AuthLogin);
    let error = dialog.on_reply(&mailer, "502 no").unwrap_err();
    assert_eq!(error.kind, MailErrorKind::Authentication);
    assert_eq!(error.message, "AUTH LOGIN failed to start: 502 no");
    dialog.on_reply(&mailer, "334 VXNlcm5hbWU6").unwrap();
    let error = dialog.on_reply(&mailer, "535 bad").unwrap_err();
    assert_eq!(error.message, "SMTP username rejected: 535 bad");
    dialog.on_reply(&mailer, "334 UGFzc3dvcmQ6").unwrap();
    let error = dialog.on_reply(&mailer, "535 bad").unwrap_err();
    assert_eq!(error.kind, MailErrorKind::Authentication);
    assert_eq!(error.message, "SMTP password rejected: 535 bad");

    mailer.set_oauth_provider(Box::new(SimpleOAuthTokenProvider::new("u".to_string(), "t".to_string())));
    let mut dialog = SmtpDialog::new(&mailer, "m");
    dialog.on_reply(&mailer, "250 hi").unwrap();
    let error = dialog.on_reply(&mailer, "504 no").unwrap_err();
    assert_eq!(error.message, "AUTH XOAUTH2 not accepted: 504 no");
    dialog.on_reply(&mailer, "334 ").unwrap();
    let error = dialog.on_reply(&mailer, "535 expired").unwrap_err();
    assert_eq!(error.kind, MailErrorKind::Authentication);
    assert_eq!(error.message, "OAuth token rejected: 535 expired");
}

#[test]
fn stuffed_data_has_no_lone_period_line() {
    for sample in ["a\n.\nb", "\n.", ".\n.x\n..", "x\r\n.\r\n"] {
        let stuffed: Vec<char> = dot_stuff(sample).chars().collect();
        for i in 1..stuffed.len() {
            if stuffed[i - 1] == '\n' && stuffed[i] == '.' {
                assert!(i + 1 < stuffed.len() && stuffed[i + 1] == '.');
            }
        }
    }
}
