use phpmailer_rs::phpmailer::MailErrorKind;
use phpmailer_rs::{Attachment, MailError, MessageDate, PHPMailer, SmtpSecurity};

#[test]
fn pre_send_requires_sender_and_recipient() {
    let mailer = PHPMailer::new();
    let result = mailer.pre_send();

    assert!(result.is_err());
}

#[test]
fn pre_send_builds_plain_message() {
    let mut mailer = PHPMailer::new();
    mailer.set_from("sender@example.com".to_string(), "Sender".to_string());
    mailer.add_address("receiver@example.com".to_string());
    mailer.subject = "Hello".to_string();
    mailer.body = "Body text".to_string();

    let payload = mailer.pre_send().expect("pre_send should build payload");

    assert!(payload.contains("From: Sender <sender@example.com>"));
    assert!(payload.contains("To: receiver@example.com"));
    assert!(payload.contains("Subject: Hello"));
    assert!(payload.contains("Body text"));
}

#[test]
fn pre_send_builds_multipart_with_attachment() {
    let mut mailer = PHPMailer::new();
    mailer.set_from("sender@example.com".to_string(), "Sender".to_string());
    mailer.add_address("receiver@example.com".to_string());
    mailer.subject = "Attachment".to_string();
    mailer.body = "Please check attachment".to_string();
    mailer.add_attachment(Attachment {
        file_name: "example.txt".to_string(),
        media_type: "text/plain".to_string(),
        data: b"demo".to_vec(),
    });

    let payload = mailer.pre_send().expect("pre_send should build multipart payload");

    assert!(payload.contains("multipart/mixed"));
    assert!(payload.contains("example.txt"));
    assert!(payload.contains("ZGVtbw=="));
}

fn ready_mailer() -> PHPMailer {
    let mut mailer = PHPMailer::new();
    mailer.set_from("sender@example.com".to_string(), "Sender".to_string());
    mailer.add_address("receiver@example.com".to_string());
    mailer.subject = "Hello".to_string();
    mailer.body = "Body text".to_string();
    mailer
}

#[test]
fn new_mailer_has_documented_defaults() {
    let mailer = PHPMailer::new();
    assert_eq!(mailer.from, "");
    assert_eq!(mailer.from_name, "");
    assert!(mailer.to.is_empty() && mailer.cc.is_empty() && mailer.bcc.is_empty());
    assert!(mailer.reply_to.is_empty() && mailer.attachments.is_empty());
    assert_eq!(mailer.mailer, "mail");
    assert_eq!(mailer.host, "localhost");
    assert_eq!(mailer.port, 25);
    assert!(!mailer.smtp_auth);
    assert!(!mailer.smtp_keep_alive);
    assert!(mailer.smtp_auto_tls);
    assert_eq!(mailer.smtp_debug, 0);
    assert_eq!(mailer.helo, "localhost");
    assert!(mailer.oauth_provider.is_none());
    assert!(mailer.smtp.is_none());
    let defaulted = PHPMailer::default();
    assert_eq!(defaulted.mailer, "mail");
    assert_eq!(defaulted.port, 25);
}

#[test]
fn is_smtp_selects_smtp_transport() {
    let mut mailer = PHPMailer::new();
    assert!(!mailer.uses_smtp());
    mailer.is_smtp();
    assert_eq!(mailer.mailer, "smtp");
    assert!(mailer.uses_smtp());
}

#[test]
fn address_lists_keep_order() {
    let mut mailer = PHPMailer::new();
    mailer.add_address("a@x".to_string());
    mailer.add_address("b@x".to_string());
    mailer.add_cc("c@x".to_string());
    mailer.add_bcc("d@x".to_string());
    mailer.add_reply_to("e@x".to_string());
    assert_eq!(mailer.to, vec!["a@x".to_string(), "b@x".to_string()]);
    assert_eq!(mailer.cc, vec!["c@x".to_string()]);
    assert_eq!(mailer.bcc, vec!["d@x".to_string()]);
    assert_eq!(mailer.reply_to, vec!["e@x".to_string()]);
}

#[test]
fn pre_send_without_sender_reports_input_error() {
    let mut mailer = PHPMailer::new();
    mailer.add_address("receiver@example.com".to_string());
    let error = mailer.pre_send().unwrap_err();
    assert_eq!(error.kind, MailErrorKind::Input);
    assert_eq!(error.message, "From address is required");
}

#[test]
fn pre_send_without_recipient_reports_input_error() {
    let mut mailer = PHPMailer::new();
    mailer.set_from("sender@example.com".to_string(), "Sender".to_string());
    let error = mailer.pre_send_at(7).unwrap_err();
    assert_eq!(error.kind, MailErrorKind::Input);
    assert_eq!(error.message, "At least one recipient is required");
}

#[test]
fn pre_send_accepts_bcc_only_recipient() {
    let mut mailer = PHPMailer::new();
    mailer.set_from("sender@example.com".to_string(), "Sender".to_string());
    mailer.add_bcc("hidden@example.com".to_string());
    let message = mailer.pre_send_at(1).unwrap();
    assert!(message.starts_with("From: Sender <sender@example.com>\r\nTo: \r\n"));
    assert!(!message.contains("hidden@example.com"));
}

#[test]
fn pre_send_at_plain_message_is_exact() {
    let mut mailer = ready_mailer();
    mailer.add_address("second@example.com".to_string());
    mailer.add_cc("cc@example.com".to_string());
    mailer.add_reply_to("reply@example.com".to_string());
    let message = mailer.pre_send_at(1234).unwrap();
    assert_eq!(
        message,
        "From: Sender <sender@example.com>\r\n\
         To: receiver@example.com, second@example.com\r\n\
         Cc: cc@example.com\r\n\
         Reply-To: reply@example.com\r\n\
         Subject: Hello\r\n\
         MIME-Version: 1.0\r\n\
         Content-Type: text/plain; charset=UTF-8\r\n\
         \r\n\
         Body text\r\n"
    );
}

#[test]
fn plain_message_does_not_depend_on_time() {
    let mailer = ready_mailer();
    assert_eq!(mailer.pre_send_at(1).unwrap(), mailer.pre_send_at(99999).unwrap());
    assert_eq!(mailer.pre_send().unwrap(), mailer.pre_send_at(5).unwrap());
}

#[test]
fn pre_send_at_multipart_message_is_exact() {
    let mut mailer = ready_mailer();
    mailer.add_attachment(Attachment {
        file_name: "a.txt".to_string(),
        media_type: "text/plain".to_string(),
        data: b"demo".to_vec(),
    });
    mailer.add_attachment(Attachment {
        file_name: "b.bin".to_string(),
        media_type: "application/octet-stream".to_string(),
        data: vec![0, 255, 16, 128],
    });
    let message = mailer.pre_send_at(1700000000).unwrap();
    assert_eq!(
        message,
        "From: Sender <sender@example.com>\r\n\
         To: receiver@example.com\r\n\
         Subject: Hello\r\n\
         MIME-Version: 1.0\r\n\
         Content-Type: multipart/mixed; boundary=\"b1_1700000000\"\r\n\
         \r\n\
         --b1_1700000000\r\n\
         Content-Type: text/plain; charset=UTF-8\r\n\
         \r\n\
         Body text\r\n\
         --b1_1700000000\r\n\
         Content-Type: text/plain; name=\"a.txt\"\r\n\
         Content-Transfer-Encoding: base64\r\n\
         Content-Disposition: attachment; filename=\"a.txt\"\r\n\
         \r\n\
         ZGVtbw==\r\n\
         --b1_1700000000\r\n\
         Content-Type: application/octet-stream; name=\"b.bin\"\r\n\
         Content-Transfer-Encoding: base64\r\n\
         Content-Disposition: attachment; filename=\"b.bin\"\r\n\
         \r\n\
         AP8QgA==\r\n\
         --b1_1700000000--\r\n"
    );
}

#[test]
fn multipart_boundary_at_time_zero() {
    let mut mailer = ready_mailer();
    mailer.add_attachment(Attachment {
        file_name: "e".to_string(),
        media_type: "text/plain".to_string(),
        data: Vec::new(),
    });
    let message = mailer.pre_send_at(0).unwrap();
    assert!(message.contains("boundary=\"b1_0\""));
    assert!(message.ends_with("--b1_0--\r\n"));
}

#[test]
fn message_carries_every_part() {
    let mut mailer = ready_mailer();
    mailer.add_attachment(Attachment {
        file_name: "x.bin".to_string(),
        media_type: "application/octet-stream".to_string(),
        data: b"hello world".to_vec(),
    });
    let message = mailer.pre_send_at(42).unwrap();
    assert!(message.contains("From: Sender <sender@example.com>"));
    assert!(message.contains("Subject: Hello"));
    assert!(message.contains("MIME-Version: 1.0"));
    assert!(message.contains("Body text"));
    assert!(message.contains("aGVsbG8gd29ybGQ="));
}

#[test]
fn mail_error_constructors_set_kind_and_message() {
    let t = MailError::transport("t".to_string());
    assert_eq!(t.kind, MailErrorKind::Transport);
    assert_eq!(t.message, "t");
    let p = MailError::protocol("p".to_string());
    assert_eq!(p.kind, MailErrorKind::Protocol);
    assert_eq!(p.message, "p");
    let a = MailError::authentication("a".to_string());
    assert_eq!(a.kind, MailErrorKind::Authentication);
    assert_eq!(a.message, "a");
    let i = MailError::input("i".to_string());
    assert_eq!(i.kind, MailErrorKind::Input);
    assert_eq!(i.message, "i");
    assert_eq!(i.display_text(), "i");
}

#[test]
fn message_date_now_is_after_2020() {
    let date = MessageDate::now();
    assert!(date.unix_timestamp > 1_577_836_800);
}

#[test]
fn session_connection_defaults_and_keep_alive() {
    let mut mailer = ready_mailer();
    mailer.host = "mail.example.com".to_string();
    mailer.port = 587;
    let conn = mailer.session_connection();
    assert_eq!(conn.host, "mail.example.com");
    assert_eq!(conn.port, 587);
    assert_eq!(conn.timeout_seconds, 300);
    assert_eq!(conn.security, SmtpSecurity::Unsecured);
    assert_eq!(conn.server_hello, "");

    mailer.smtp_keep_alive = true;
    let quit = mailer.end_smtp_session(conn);
    assert!(!quit);
    let kept = mailer.smtp.as_ref().expect("connection kept");
    assert_eq!(kept.host, "mail.example.com");
    let again = mailer.session_connection();
    assert_eq!(again.port, 587);

    mailer.smtp_keep_alive = false;
    let quit = mailer.end_smtp_session(again);
    assert!(quit);
    assert!(mailer.smtp.is_none());
}

#[test]
fn clock_reading_before_epoch_reads_as_zero() {
    assert_eq!(MessageDate::from_clock_reading(Some(1234)).unix_timestamp, 1234);
    assert_eq!(MessageDate::from_clock_reading(None).unix_timestamp, 0);
}
