//! The mailer: addresses, attachments, and assembly of the MIME message.
use std::time::{SystemTime, SystemTimeError, UNIX_EPOCH};
use core::time::Duration;
use vstd::prelude::*;
use vstd::slice::slice_to_vec;

use crate::encoding::{base64, encode_base64};
use crate::oauth::OAuthTokenProvider;
use crate::smtp::{SmtpConnection, SmtpSecurity};
use crate::text::{
    append_decimal, contains_text, decimal, join_strings, joined, lemma_contains_middle,
    lemma_contains_trans, lemma_joined_contains, lemma_joined_contains_inner, same_text, texts,
};

verus! {

#[verifier::external_type_specification]
#[verifier::external_body]
pub struct ExSystemTime(SystemTime);

#[verifier::external_type_specification]
#[verifier::external_body]
pub struct ExSystemTimeError(SystemTimeError);

/// std's `SystemTime::now`: the current reading of the system clock. Nothing is
/// claimed of the value.
#[verifier::external_body]
fn system_time_now() -> SystemTime {
    SystemTime::now()
}

/// std's `SystemTime::duration_since` against `UNIX_EPOCH`: the time elapsed
/// since the epoch, or an error when the clock reads earlier. Nothing is
/// claimed of either outcome.
#[verifier::external_body]
fn elapsed_since_unix_epoch(time: &SystemTime) -> Result<Duration, SystemTimeError> {
    time.duration_since(UNIX_EPOCH)
}

/// std's `Duration::as_secs`: the whole seconds of a duration. Nothing is
/// claimed of the value.
#[verifier::external_body]
fn duration_whole_seconds(duration: &Duration) -> u64 {
    duration.as_secs()
}

/// A point in time, in seconds since the Unix epoch.
#[derive(Debug, Clone, Copy)]
pub struct MessageDate {
    pub unix_timestamp: u64,
}

impl MessageDate {
    /// The current time; a clock set before the epoch reads as 0.
    pub fn now() -> Self {
        let time = system_time_now();
        let reading = match elapsed_since_unix_epoch(&time) {
            Ok(duration) => Some(duration_whole_seconds(&duration)),
            Err(_) => None,
        };
        Self::from_clock_reading(reading)
    }

    /// The date for a clock reading: the whole seconds elapsed since the
    /// epoch, or `None` for a clock set before the epoch, which reads as 0.
    pub fn from_clock_reading(seconds: Option<u64>) -> (date: Self)
        ensures
            date.unix_timestamp == match seconds {
                Some(s) => s,
                None => 0,
            },
    {
        match seconds {
            Some(s) => MessageDate { unix_timestamp: s },
            None => MessageDate { unix_timestamp: 0 },
        }
    }
}

/// A file attached to a message.
#[derive(Debug, Clone)]
pub struct Attachment {
    pub file_name: String,
    pub media_type: String,
    pub data: Vec<u8>,
}

/// The contents of an attachment.
pub struct AttachmentView {
    pub file_name: Seq<char>,
    pub media_type: Seq<char>,
    pub data: Seq<u8>,
}

impl View for Attachment {
    type V = AttachmentView;

    open spec fn view(&self) -> AttachmentView {
        AttachmentView { file_name: self.file_name@, media_type: self.media_type@, data: self.data@ }
    }
}

/// The contents of a sequence of attachments.
pub open spec fn attachment_views(v: Seq<Attachment>) -> Seq<AttachmentView> {
    v.map_values(|a: Attachment| a@)
}

/// What went wrong when composing or submitting a message.
#[derive(Debug, Clone, Copy, PartialEq, Eq, Structural)]
pub enum MailErrorKind {
    Transport,
    Protocol,
    Authentication,
    Input,
}

/// An error with its kind and a human-readable message.
#[derive(Debug, Clone)]
pub struct MailError {
    pub kind: MailErrorKind,
    pub message: String,
}

impl MailError {
    pub fn transport(message: String) -> (error: Self)
        ensures
            error.kind == MailErrorKind::Transport,
            error.message@ == message@,
    {
        MailError { kind: MailErrorKind::Transport, message: message.clone() }
    }

    pub fn protocol(message: String) -> (error: Self)
        ensures
            error.kind == MailErrorKind::Protocol,
            error.message@ == message@,
    {
        MailError { kind: MailErrorKind::Protocol, message: message.clone() }
    }

    pub fn authentication(message: String) -> (error: Self)
        ensures
            error.kind == MailErrorKind::Authentication,
            error.message@ == message@,
    {
        MailError { kind: MailErrorKind::Authentication, message: message.clone() }
    }

    pub fn input(message: String) -> (error: Self)
        ensures
            error.kind == MailErrorKind::Input,
            error.message@ == message@,
    {
        MailError { kind: MailErrorKind::Input, message: message.clone() }
    }

    /// The text shown for this error: its message.
    pub fn display_text(&self) -> (text: String)
        ensures
            text@ == self.message@,
    {
        self.message.clone()
    }
}

/// The settings and contents of a mailer, as plain values.
#[verifier::ext_equal]
pub struct MailerView {
    pub from: Seq<char>,
    pub from_name: Seq<char>,
    pub to: Seq<Seq<char>>,
    pub cc: Seq<Seq<char>>,
    pub bcc: Seq<Seq<char>>,
    pub reply_to: Seq<Seq<char>>,
    pub subject: Seq<char>,
    pub body: Seq<char>,
    pub alt_body: Seq<char>,
    pub attachments: Seq<AttachmentView>,
    pub mailer: Seq<char>,
    pub host: Seq<char>,
    pub port: u16,
    pub smtp_auth: bool,
    pub smtp_username: Seq<char>,
    pub smtp_password: Seq<char>,
    pub smtp_keep_alive: bool,
    pub smtp_auto_tls: bool,
    pub smtp_debug: u8,
    pub helo: Seq<char>,
}

/// A message to compose and send, with the settings of its transport.
pub struct PHPMailer {
    pub from: String,
    pub from_name: String,
    pub to: Vec<String>,
    pub cc: Vec<String>,
    pub bcc: Vec<String>,
    pub reply_to: Vec<String>,
    pub subject: String,
    pub body: String,
    pub alt_body: String,
    pub attachments: Vec<Attachment>,
    pub mailer: String,
    pub host: String,
    pub port: u16,
    pub smtp_auth: bool,
    pub smtp_username: String,
    pub smtp_password: String,
    pub smtp_keep_alive: bool,
    pub smtp_auto_tls: bool,
    pub smtp_debug: u8,
    pub helo: String,
    pub oauth_provider: Option<Box<dyn OAuthTokenProvider>>,
    pub smtp: Option<SmtpConnection>,
}

impl View for PHPMailer {
    type V = MailerView;

    open spec fn view(&self) -> MailerView {
        MailerView {
            from: self.from@,
            from_name: self.from_name@,
            to: texts(self.to@),
            cc: texts(self.cc@),
            bcc: texts(self.bcc@),
            reply_to: texts(self.reply_to@),
            subject: self.subject@,
            body: self.body@,
            alt_body: self.alt_body@,
            attachments: attachment_views(self.attachments@),
            mailer: self.mailer@,
            host: self.host@,
            port: self.port,
            smtp_auth: self.smtp_auth,
            smtp_username: self.smtp_username@,
            smtp_password: self.smtp_password@,
            smtp_keep_alive: self.smtp_keep_alive,
            smtp_auto_tls: self.smtp_auto_tls,
            smtp_debug: self.smtp_debug,
            helo: self.helo@,
        }
    }
}

/// A fresh mailer: no sender, recipients, content or attachments; the `mail`
/// transport; SMTP to localhost port 25 without authentication or keep-alive,
/// with automatic TLS, no debug output and `localhost` as HELO name.
pub open spec fn default_mailer() -> MailerView {
    MailerView {
        from: Seq::empty(),
        from_name: Seq::empty(),
        to: Seq::empty(),
        cc: Seq::empty(),
        bcc: Seq::empty(),
        reply_to: Seq::empty(),
        subject: Seq::empty(),
        body: Seq::empty(),
        alt_body: Seq::empty(),
        attachments: Seq::empty(),
        mailer: "mail"@,
        host: "localhost"@,
        port: 25,
        smtp_auth: false,
        smtp_username: Seq::empty(),
        smtp_password: Seq::empty(),
        smtp_keep_alive: false,
        smtp_auto_tls: true,
        smtp_debug: 0,
        helo: "localhost"@,
    }
}

/// A message can be composed: it has a sender and at least one recipient.
pub open spec fn ready_to_compose(m: MailerView) -> bool {
    m.from.len() > 0 && (m.to.len() > 0 || m.cc.len() > 0 || m.bcc.len() > 0)
}

/// Why a message cannot be composed (meaningful when it cannot).
pub open spec fn missing_input_message(m: MailerView) -> Seq<char> {
    if m.from.len() == 0 {
        "From address is required"@
    } else {
        "At least one recipient is required"@
    }
}

/// The header lines shared by plain and multipart messages.
pub open spec fn common_headers(m: MailerView) -> Seq<Seq<char>> {
    seq!["From: "@ + m.from_name + " <"@ + m.from + ">"@, "To: "@ + joined(m.to, ", "@)] + (if m.cc.len()
        > 0 {
        seq!["Cc: "@ + joined(m.cc, ", "@)]
    } else {
        Seq::empty()
    }) + (if m.reply_to.len() > 0 {
        seq!["Reply-To: "@ + joined(m.reply_to, ", "@)]
    } else {
        Seq::empty()
    }) + seq!["Subject: "@ + m.subject, "MIME-Version: 1.0"@]
}

/// The MIME boundary used for a message composed at `timestamp`.
pub open spec fn mime_boundary(timestamp: u64) -> Seq<char> {
    "b1_"@ + decimal(timestamp as nat)
}

/// The `Content-Type` header of a message composed at `timestamp`.
pub open spec fn content_type_line(m: MailerView, timestamp: u64) -> Seq<char> {
    if m.attachments.len() == 0 {
        "Content-Type: text/plain; charset=UTF-8"@
    } else {
        "Content-Type: multipart/mixed; boundary=\""@ + mime_boundary(timestamp) + "\""@
    }
}

/// All header lines of a message composed at `timestamp`.
pub open spec fn header_lines(m: MailerView, timestamp: u64) -> Seq<Seq<char>> {
    common_headers(m).push(content_type_line(m, timestamp))
}

/// The header block: header lines joined by CRLF, then an empty line.
pub open spec fn header_block(m: MailerView, timestamp: u64) -> Seq<char> {
    joined(header_lines(m, timestamp), "\r\n"@) + "\r\n\r\n"@
}

/// The MIME part of one attachment, Base64-encoded.
pub open spec fn attachment_part(boundary: Seq<char>, a: AttachmentView) -> Seq<char> {
    "--"@ + boundary + "\r\n"@ + "Content-Type: "@ + a.media_type + "; name=\""@ + a.file_name
        + "\"\r\n"@ + "Content-Transfer-Encoding: base64\r\n"@
        + "Content-Disposition: attachment; filename=\""@ + a.file_name + "\"\r\n\r\n"@ + base64(
        a.data,
    ) + "\r\n"@
}

/// The MIME parts of all attachments, in order.
pub open spec fn attachment_parts(boundary: Seq<char>, atts: Seq<AttachmentView>) -> Seq<char>
    decreases atts.len(),
{
    if atts.len() == 0 {
        Seq::empty()
    } else {
        attachment_parts(boundary, atts.drop_last()) + attachment_part(boundary, atts.last())
    }
}

/// The complete message composed at `timestamp`: a plain text message when
/// there are no attachments, else a `multipart/mixed` message whose first part
/// is the body and whose further parts are the attachments.
pub open spec fn composed_message(m: MailerView, timestamp: u64) -> Seq<char> {
    if m.attachments.len() == 0 {
        header_block(m, timestamp) + m.body + "\r\n"@
    } else {
        let b = mime_boundary(timestamp);
        header_block(m, timestamp) + "--"@ + b
            + "\r\n"@ + "Content-Type: text/plain; charset=UTF-8\r\n\r\n"@ + m.body + "\r\n"@
            + attachment_parts(b, m.attachments) + "--"@ + b + "--\r\n"@
    }
}

impl PHPMailer {
    pub fn new() -> (mailer: Self)
        ensures
            mailer@ == default_mailer(),
            mailer.oauth_provider.is_none(),
            mailer.smtp.is_none(),
    {
        let mailer = PHPMailer {
            from: String::new(),
            from_name: String::new(),
            to: Vec::new(),
            cc: Vec::new(),
            bcc: Vec::new(),
            reply_to: Vec::new(),
            subject: String::new(),
            body: String::new(),
            alt_body: String::new(),
            attachments: Vec::new(),
            mailer: String::from_str("mail"),
            host: String::from_str("localhost"),
            port: 25,
            smtp_auth: false,
            smtp_username: String::new(),
            smtp_password: String::new(),
            smtp_keep_alive: false,
            smtp_auto_tls: true,
            smtp_debug: 0,
            helo: String::from_str("localhost"),
            oauth_provider: None,
            smtp: None,
        };
        assert(mailer@ =~= default_mailer());
        mailer
    }

    /// Selects SMTP as the transport.
    pub fn is_smtp(&mut self)
        ensures
            final(self)@ == (MailerView { mailer: "smtp"@, ..old(self)@ }),
            final(self).oauth_provider == old(self).oauth_provider,
            final(self).smtp == old(self).smtp,
    {
        self.mailer = String::from_str("smtp");
        assert(self@ =~= (MailerView { mailer: "smtp"@, ..old(self)@ }));
    }

    /// Whether SMTP is the selected transport.
    pub fn uses_smtp(&self) -> (b: bool)
        ensures
            b == (self@.mailer == "smtp"@),
    {
        same_text(self.mailer.as_str(), "smtp")
    }

    pub fn set_from(&mut self, address: String, name: String)
        ensures
            final(self)@ == (MailerView { from: address@, from_name: name@, ..old(self)@ }),
            final(self).oauth_provider == old(self).oauth_provider,
            final(self).smtp == old(self).smtp,
    {
        self.from = address.clone();
        self.from_name = name.clone();
        assert(self@ =~= (MailerView { from: address@, from_name: name@, ..old(self)@ }));
    }

    pub fn add_address(&mut self, address: String)
        ensures
            final(self)@ == (MailerView { to: old(self)@.to.push(address@), ..old(self)@ }),
            final(self).oauth_provider == old(self).oauth_provider,
            final(self).smtp == old(self).smtp,
    {
        self.to.push(address.clone());
        assert(texts(self.to@) =~= texts(old(self).to@).push(address@));
        assert(self@ =~= (MailerView { to: old(self)@.to.push(address@), ..old(self)@ }));
    }

    pub fn add_cc(&mut self, address: String)
        ensures
            final(self)@ == (MailerView { cc: old(self)@.cc.push(address@), ..old(self)@ }),
            final(self).oauth_provider == old(self).oauth_provider,
            final(self).smtp == old(self).smtp,
    {
        self.cc.push(address.clone());
        assert(texts(self.cc@) =~= texts(old(self).cc@).push(address@));
        assert(self@ =~= (MailerView { cc: old(self)@.cc.push(address@), ..old(self)@ }));
    }

    pub fn add_bcc(&mut self, address: String)
        ensures
            final(self)@ == (MailerView { bcc: old(self)@.bcc.push(address@), ..old(self)@ }),
            final(self).oauth_provider == old(self).oauth_provider,
            final(self).smtp == old(self).smtp,
    {
        self.bcc.push(address.clone());
        assert(texts(self.bcc@) =~= texts(old(self).bcc@).push(address@));
        assert(self@ =~= (MailerView { bcc: old(self)@.bcc.push(address@), ..old(self)@ }));
    }

    pub fn add_reply_to(&mut self, address: String)
        ensures
            final(self)@ == (MailerView { reply_to: old(self)@.reply_to.push(address@), ..old(self)@ }),
            final(self).oauth_provider == old(self).oauth_provider,
            final(self).smtp == old(self).smtp,
    {
        self.reply_to.push(address.clone());
        assert(texts(self.reply_to@) =~= texts(old(self).reply_to@).push(address@));
        assert(self@ =~= (MailerView { reply_to: old(self)@.reply_to.push(address@), ..old(self)@ }));
    }

    pub fn add_attachment(&mut self, attachment: Attachment)
        ensures
            final(self)@ == (MailerView {
                attachments: old(self)@.attachments.push(attachment@),
                ..old(self)@
            }),
            final(self).oauth_provider == old(self).oauth_provider,
            final(self).smtp == old(self).smtp,
    {
        let ghost added = attachment@;
        self.attachments.push(attachment);
        assert(attachment_views(self.attachments@) =~= attachment_views(old(self).attachments@).push(
            added,
        ));
        assert(self@ =~= (MailerView {
            attachments: old(self)@.attachments.push(added),
            ..old(self)@
        }));
    }

    pub fn set_oauth_provider(&mut self, provider: Box<dyn OAuthTokenProvider>)
        ensures
            final(self)@ == old(self)@,
            final(self).oauth_provider == Some(provider),
            final(self).smtp == old(self).smtp,
    {
        let ghost given = provider;
        let installed = Some(provider);
        assert(installed == Some(given));
        self.oauth_provider = installed;
    }
}

proof fn lemma_texts_push(v: Seq<String>, s: String)
    ensures
        texts(v.push(s)) == texts(v).push(s@),
{
    assert(texts(v.push(s)) =~= texts(v).push(s@));
}

/// `prefix` followed by the characters of `value`.
pub fn prefixed(prefix: &str, value: &str) -> (line: String)
    ensures
        line@ == prefix@ + value@,
{
    let mut line = String::from_str(prefix);
    line.append(value);
    line
}

impl PHPMailer {
    fn header_block_text(&self, content_type: String) -> (block: String)
        ensures
            block@ == joined(common_headers(self@).push(content_type@), "\r\n"@) + "\r\n\r\n"@,
    {
        let mut headers: Vec<String> = Vec::new();
        let ghost mut expected: Seq<Seq<char>> = Seq::empty();
        assert(texts(headers@) =~= expected);

        let mut from_line = prefixed("From: ", self.from_name.as_str());
        from_line.append(" <");
        from_line.append(self.from.as_str());
        from_line.append(">");
        proof {
            lemma_texts_push(headers@, from_line);
            expected = expected.push(from_line@);
        }
        headers.push(from_line);

        let to_joined = join_strings(&self.to, ", ");
        let to_line = prefixed("To: ", to_joined.as_str());
        proof {
            lemma_texts_push(headers@, to_line);
            expected = expected.push(to_line@);
        }
        headers.push(to_line);

        if !self.cc.is_empty() {
            let cc_joined = join_strings(&self.cc, ", ");
            let cc_line = prefixed("Cc: ", cc_joined.as_str());
            proof {
                lemma_texts_push(headers@, cc_line);
                expected = expected.push(cc_line@);
            }
            headers.push(cc_line);
        }
        if !self.reply_to.is_empty() {
            let reply_joined = join_strings(&self.reply_to, ", ");
            let reply_line = prefixed("Reply-To: ", reply_joined.as_str());
            proof {
                lemma_texts_push(headers@, reply_line);
                expected = expected.push(reply_line@);
            }
            headers.push(reply_line);
        }
        let subject_line = prefixed("Subject: ", self.subject.as_str());
        proof {
            lemma_texts_push(headers@, subject_line);
            expected = expected.push(subject_line@);
        }
        headers.push(subject_line);
        let mime_line = String::from_str("MIME-Version: 1.0");
        proof {
            lemma_texts_push(headers@, mime_line);
            expected = expected.push(mime_line@);
        }
        headers.push(mime_line);
        proof {
            lemma_texts_push(headers@, content_type);
            expected = expected.push(content_type@);
        }
        headers.push(content_type);
        assert(expected =~= common_headers(self@).push(content_type@));
        let mut block = join_strings(&headers, "\r\n");
        block.append("\r\n\r\n");
        block
    }

    fn compose(&self, timestamp: u64) -> (message: String)
        ensures
            message@ == composed_message(self@, timestamp),
    {
        if self.attachments.is_empty() {
            let mut message = self.header_block_text(
                String::from_str("Content-Type: text/plain; charset=UTF-8"),
            );
            message.append(self.body.as_str());
            message.append("\r\n");
            return message;
        }
        let mut boundary = String::from_str("b1_");
        append_decimal(&mut boundary, timestamp);
        let mut content_type = prefixed(
            "Content-Type: multipart/mixed; boundary=\"",
            boundary.as_str(),
        );
        content_type.append("\"");
        let mut message = self.header_block_text(content_type);
        message.append("--");
        message.append(boundary.as_str());
        message.append("\r\n");
        message.append("Content-Type: text/plain; charset=UTF-8\r\n\r\n");
        message.append(self.body.as_str());
        message.append("\r\n");

        let ghost b = boundary@;
        let ghost head = message@;
        let ghost views = attachment_views(self.attachments@);
        let count = self.attachments.len();
        let mut i: usize = 0;
        assert(views.take(0) =~= Seq::<AttachmentView>::empty());
        while i < count
            invariant
                count == self.attachments@.len(),
                views == attachment_views(self.attachments@),
                b == boundary@,
                i <= count,
                message@ == head + attachment_parts(b, views.take(i as int)),
            decreases count - i,
        {
            let attachment = &self.attachments[i];
            let encoded = encode_base64(slice_to_vec(attachment.data.as_slice()));
            let mut part = prefixed("--", boundary.as_str());
            part.append("\r\n");
            part.append("Content-Type: ");
            part.append(attachment.media_type.as_str());
            part.append("; name=\"");
            part.append(attachment.file_name.as_str());
            part.append("\"\r\n");
            part.append("Content-Transfer-Encoding: base64\r\n");
            part.append("Content-Disposition: attachment; filename=\"");
            part.append(attachment.file_name.as_str());
            part.append("\"\r\n\r\n");
            part.append(encoded.as_str());
            part.append("\r\n");
            proof {
                assert(views[i as int] == attachment@);
                assert(views.take(i + 1).drop_last() =~= views.take(i as int));
                assert(part@ == attachment_part(b, views[i as int]));
            }
            message.append(part.as_str());
            i = i + 1;
        }
        assert(views.take(count as int) =~= views);
        message.append("--");
        message.append(boundary.as_str());
        message.append("--\r\n");
        message
    }

    /// Composes the message as of `timestamp`, which names the MIME boundary
    /// of a multipart message. Fails without a sender or without any
    /// recipient.
    pub fn pre_send_at(&self, timestamp: u64) -> (result: Result<String, MailError>)
        ensures
            match result {
                Ok(message) => ready_to_compose(self@) && message@ == composed_message(self@, timestamp),
                Err(error) => !ready_to_compose(self@) && error.kind == MailErrorKind::Input
                    && error.message@ == missing_input_message(self@),
            },
            result matches Ok(message) ==> (self@.cc.len() > 0 ==> contains_text(
                message@,
                "\r\n"@ + ("Cc: "@ + joined(self@.cc, ", "@)) + "\r\n"@,
            )),
    {
        proof {
            if self@.cc.len() > 0 {
                lemma_cc_header_line(self@, timestamp);
            }
        }
        if self.from.as_str().is_empty() {
            return Err(MailError::input(String::from_str("From address is required")));
        }
        if self.to.is_empty() && self.cc.is_empty() && self.bcc.is_empty() {
            return Err(MailError::input(String::from_str("At least one recipient is required")));
        }
        Ok(self.compose(timestamp))
    }

    /// Composes the message as of the current time. Fails without a sender or
    /// without any recipient.
    pub fn pre_send(&self) -> (result: Result<String, MailError>)
        ensures
            match result {
                Ok(message) => ready_to_compose(self@) && exists|timestamp: u64|
                    message@ == composed_message(self@, timestamp),
                Err(error) => !ready_to_compose(self@) && error.kind == MailErrorKind::Input
                    && error.message@ == missing_input_message(self@),
            },
    {
        let date = MessageDate::now();
        self.pre_send_at(date.unix_timestamp)
    }
}

impl PHPMailer {
    /// The connection settings for the next SMTP session: those kept from a
    /// previous session, else a new connection to the mailer's host and port.
    pub fn session_connection(&self) -> (connection: SmtpConnection)
        ensures
            match self.smtp {
                Some(kept) => connection == kept,
                None => connection.host@ == self.host@ && connection.port == self.port
                    && connection.timeout_seconds == 300 && connection.security
                    == SmtpSecurity::Unsecured && connection.server_hello@ == Seq::<char>::empty(),
            },
    {
        match &self.smtp {
            Some(kept) => kept.clone(),
            None => SmtpConnection::new(self.host.clone(), self.port),
        }
    }

    /// Ends a successful SMTP session: with keep-alive the connection settings
    /// are kept for the next session, else they are dropped and the session
    /// must be closed with `QUIT` (the result says whether).
    pub fn end_smtp_session(&mut self, connection: SmtpConnection) -> (quit: bool)
        ensures
            quit == !old(self).smtp_keep_alive,
            final(self).smtp == (if old(self).smtp_keep_alive {
                Some(connection)
            } else {
                None
            }),
            final(self)@ == old(self)@,
            final(self).oauth_provider == old(self).oauth_provider,
    {
        if self.smtp_keep_alive {
            self.smtp = Some(connection);
            false
        } else {
            self.smtp = None;
            true
        }
    }
}

impl Default for PHPMailer {
    fn default() -> (mailer: Self)
        ensures
            mailer@ == default_mailer(),
            mailer.oauth_provider.is_none(),
            mailer.smtp.is_none(),
    {
        PHPMailer::new()
    }
}

/// A plain message (one without attachments) does not depend on the time at
/// which it is composed.
pub proof fn lemma_plain_message_timeless(m: MailerView, t1: u64, t2: u64)
    requires
        m.attachments.len() == 0,
    ensures
        composed_message(m, t1) == composed_message(m, t2),
{
}

proof fn lemma_parts_contain(boundary: Seq<char>, atts: Seq<AttachmentView>, i: int)
    requires
        0 <= i < atts.len(),
    ensures
        contains_text(attachment_parts(boundary, atts), base64(atts[i].data)),
    decreases atts.len(),
{
    let front = attachment_parts(boundary, atts.drop_last());
    let last = attachment_part(boundary, atts.last());
    if i == atts.len() - 1 {
        let a = atts.last();
        let before = "--"@ + boundary + "\r\n"@ + "Content-Type: "@ + a.media_type + "; name=\""@
            + a.file_name + "\"\r\n"@ + "Content-Transfer-Encoding: base64\r\n"@
            + "Content-Disposition: attachment; filename=\""@ + a.file_name + "\"\r\n\r\n"@;
        lemma_contains_middle(front + before, base64(a.data), "\r\n"@);
        assert(front + before + base64(a.data) + "\r\n"@ =~= attachment_parts(boundary, atts));
    } else {
        lemma_parts_contain(boundary, atts.drop_last(), i);
        lemma_contains_middle(Seq::empty(), front, last);
        assert(Seq::<char>::empty() + front + last =~= attachment_parts(boundary, atts));
        lemma_contains_trans(attachment_parts(boundary, atts), front, base64(atts[i].data));
    }
}

/// A composed message carries every one of its header lines, the body, and
/// the Base64 encoding of every attachment.
pub proof fn lemma_message_carries_parts(m: MailerView, timestamp: u64)
    ensures
        forall|i: int|
            0 <= i < header_lines(m, timestamp).len() ==> contains_text(
                composed_message(m, timestamp),
                #[trigger] header_lines(m, timestamp)[i],
            ),
        contains_text(composed_message(m, timestamp), m.body),
        forall|i: int|
            0 <= i < m.attachments.len() ==> contains_text(
                composed_message(m, timestamp),
                base64(#[trigger] m.attachments[i].data),
            ),
{
    let msg = composed_message(m, timestamp);
    let lines = header_lines(m, timestamp);
    let joined_lines = joined(lines, "\r\n"@);
    let block = header_block(m, timestamp);
    let b = mime_boundary(timestamp);
    let parts = attachment_parts(b, m.attachments);
    let opening = "--"@ + b + "\r\n"@ + "Content-Type: text/plain; charset=UTF-8\r\n\r\n"@;
    let closing = "--"@ + b + "--\r\n"@;
    let after_block = msg.subrange(block.len() as int, msg.len() as int);
    assert(msg =~= Seq::<char>::empty() + joined_lines + ("\r\n\r\n"@ + after_block));
    lemma_contains_middle(Seq::empty(), joined_lines, "\r\n\r\n"@ + after_block);
    assert forall|i: int| 0 <= i < lines.len() implies contains_text(msg, #[trigger] lines[i]) by {
        lemma_joined_contains(lines, "\r\n"@, i);
        lemma_contains_trans(msg, joined_lines, lines[i]);
    }
    if m.attachments.len() == 0 {
        lemma_contains_middle(block, m.body, "\r\n"@);
    } else {
        assert(msg =~= (block + opening) + m.body + ("\r\n"@ + parts + closing));
        lemma_contains_middle(block + opening, m.body, "\r\n"@ + parts + closing);
        assert(msg =~= (block + opening + m.body + "\r\n"@) + parts + closing);
        lemma_contains_middle(block + opening + m.body + "\r\n"@, parts, closing);
        assert forall|i: int| 0 <= i < m.attachments.len() implies contains_text(
            msg,
            base64(#[trigger] m.attachments[i].data),
        ) by {
            lemma_parts_contain(b, m.attachments, i);
            lemma_contains_trans(msg, parts, base64(m.attachments[i].data));
        }
    }
}

/// A message with Cc addresses carries, as one header line of its own, "Cc: "
/// followed by all Cc addresses in order joined with ", "; every Cc address
/// occurs in that line.
pub proof fn lemma_cc_header_line(m: MailerView, timestamp: u64)
    requires
        m.cc.len() > 0,
    ensures
        contains_text(
            composed_message(m, timestamp),
            "\r\n"@ + ("Cc: "@ + joined(m.cc, ", "@)) + "\r\n"@,
        ),
        forall|i: int|
            0 <= i < m.cc.len() ==> contains_text("Cc: "@ + joined(m.cc, ", "@), #[trigger] m.cc[i]),
{
    let msg = composed_message(m, timestamp);
    let lines = header_lines(m, timestamp);
    let cc_line = "Cc: "@ + joined(m.cc, ", "@);
    let joined_lines = joined(lines, "\r\n"@);
    let block = header_block(m, timestamp);
    let after_block = msg.subrange(block.len() as int, msg.len() as int);
    let reply = if m.reply_to.len() > 0 {
        seq!["Reply-To: "@ + joined(m.reply_to, ", "@)]
    } else {
        Seq::<Seq<char>>::empty()
    };
    let first = seq!["From: "@ + m.from_name + " <"@ + m.from + ">"@, "To: "@ + joined(m.to, ", "@)];
    assert(common_headers(m) == first + seq![cc_line] + reply + seq![
        "Subject: "@ + m.subject,
        "MIME-Version: 1.0"@,
    ]);
    assert(lines[2] == cc_line);
    assert(lines.len() >= 5);
    lemma_joined_contains_inner(lines, "\r\n"@, 2);
    assert(msg =~= Seq::<char>::empty() + joined_lines + ("\r\n\r\n"@ + after_block));
    lemma_contains_middle(Seq::empty(), joined_lines, "\r\n\r\n"@ + after_block);
    lemma_contains_trans(msg, joined_lines, "\r\n"@ + cc_line + "\r\n"@);
    assert forall|i: int| 0 <= i < m.cc.len() implies contains_text(cc_line, #[trigger] m.cc[i]) by {
        lemma_joined_contains(m.cc, ", "@, i);
        lemma_contains_middle("Cc: "@, joined(m.cc, ", "@), Seq::empty());
        assert("Cc: "@ + joined(m.cc, ", "@) + Seq::<char>::empty() =~= cc_line);
        lemma_contains_trans(cc_line, joined(m.cc, ", "@), m.cc[i]);
    }
}

} // verus!
