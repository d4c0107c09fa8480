//! SMTP: connection settings, reply handling, and the decision logic of a
//! mail submission dialog. The socket work itself is done by the caller.
use vstd::prelude::*;

use vstd::slice::slice_to_vec;
use vstd::utf8::encode_utf8;

use crate::encoding::{base64, encode_base64};
use crate::phpmailer::{prefixed, MailError, MailErrorKind, MailerView, PHPMailer};
use crate::text::{push_char, starts_with, texts, trim_end, trimmed_end};

verus! {

/// How the connection to the SMTP server is secured.
#[derive(Debug, Clone, Copy, PartialEq, Eq, Structural)]
pub enum SmtpSecurity {
    Unsecured,
    StartTls,
    Ssl,
}

/// Settings and greeting of one SMTP connection. The socket that carries it
/// belongs to the transport that drives the dialog.
#[derive(Debug)]
pub struct SmtpConnection {
    pub host: String,
    pub port: u16,
    pub timeout_seconds: u64,
    pub security: SmtpSecurity,
    pub server_hello: String,
}

impl Clone for SmtpConnection {
    fn clone(&self) -> (copy: Self)
        ensures
            copy == *self,
    {
        SmtpConnection {
            host: self.host.clone(),
            port: self.port,
            timeout_seconds: self.timeout_seconds,
            security: self.security,
            server_hello: self.server_hello.clone(),
        }
    }
}

impl SmtpConnection {
    /// A connection to `host:port` with a 300 second timeout, no transport
    /// security, and no greeting received yet.
    pub fn new(host: String, port: u16) -> (conn: Self)
        ensures
            conn.host@ == host@,
            conn.port == port,
            conn.timeout_seconds == 300,
            conn.security == SmtpSecurity::Unsecured,
            conn.server_hello@ == Seq::<char>::empty(),
    {
        SmtpConnection {
            host: host.clone(),
            port,
            timeout_seconds: 300,
            security: SmtpSecurity::Unsecured,
            server_hello: String::new(),
        }
    }
}

/// `text` with every "\n." turned into "\n.." (std's
/// `str::replace("\n.", "\n..")`): each period that follows a line feed is
/// doubled, so no line of the data can be taken for the end-of-data marker.
pub open spec fn dot_stuffed(text: Seq<char>) -> Seq<char>
    decreases text.len(),
{
    if text.len() == 0 {
        Seq::empty()
    } else {
        let before = dot_stuffed(text.drop_last());
        if text.last() == '.' && text.len() >= 2 && text[text.len() - 2] == '\n' {
            before.push('.').push('.')
        } else {
            before.push(text.last())
        }
    }
}

/// The message with every period that follows a line feed doubled.
pub fn dot_stuff(message: &str) -> (stuffed: String)
    ensures
        stuffed@ == dot_stuffed(message@),
{
    broadcast use vstd::string::group_string_axioms;

    let mut out = String::new();
    let mut after_newline = false;
    let ghost text = message@;
    for c in it: message.chars()
        invariant
            text == message@,
            it.seq() == text,
            it.index() <= text.len(),
            out@ == dot_stuffed(text.take(it.index() as int)),
            after_newline == (it.index() > 0 && text[it.index() - 1] == '\n'),
    {
        assert(c == text[it.index() as int]);
        assert(text.take(it.index() + 1).drop_last() =~= text.take(it.index() as int));
        push_char(&mut out, c);
        if after_newline && c == '.' {
            push_char(&mut out, '.');
        }
        after_newline = c == '\n';
    }
    assert(text.take(text.len() as int) =~= text);
    out
}

/// One SMTP command line as written to the socket: the command and CRLF.
pub fn command_line(command: &str) -> (line: String)
    ensures
        line@ == command@ + "\r\n"@,
{
    let mut line = String::from_str(command);
    line.append("\r\n");
    line
}

/// A reply line ends a (possibly multi-line) SMTP reply when its fourth byte is
/// a space, as in "250 OK"; continuation lines read "250-...".
pub open spec fn ends_reply(line: Seq<char>) -> bool {
    let bytes = encode_utf8(line);
    bytes.len() >= 4 && bytes[3] == 32
}

/// Whether `line` is the last line of an SMTP reply.
pub fn is_last_reply_line(line: &str) -> (last: bool)
    ensures
        last == ends_reply(line@),
        last <==> (encode_utf8(line@).len() >= 4 && encode_utf8(line@)[3] == 32),
        encode_utf8(line@).len() >= 4 && encode_utf8(line@)[3] == 45 ==> !last,
{
    let bytes = line.as_bytes();
    bytes.len() >= 4 && bytes[3] == 32u8
}

/// The reply as handed on: the received lines without trailing whitespace.
pub fn finish_reply(received: &str) -> (reply: String)
    ensures
        reply@ == trim_end(received@),
{
    trimmed_end(received)
}

/// Whether `reply` begins with the three-digit `code`.
pub open spec fn has_code(reply: Seq<char>, code: Seq<char>) -> bool {
    code.is_prefix_of(reply)
}

impl SmtpConnection {
    /// Records the server's greeting; it must carry code 220.
    pub fn accept_greeting(&mut self, hello: String) -> (result: Result<(), MailError>)
        ensures
            final(self).server_hello@ == hello@,
            final(self).host == old(self).host,
            final(self).port == old(self).port,
            final(self).timeout_seconds == old(self).timeout_seconds,
            final(self).security == old(self).security,
            match result {
                Ok(()) => has_code(hello@, "220"@),
                Err(error) => !has_code(hello@, "220"@) && error.kind == MailErrorKind::Protocol
                    && error.message@ == "Unexpected SMTP greeting: "@ + hello@,
            },
    {
        self.server_hello = hello;
        if !starts_with(self.server_hello.as_str(), "220") {
            let mut message = String::from_str("Unexpected SMTP greeting: ");
            message.append(self.server_hello.as_str());
            return Err(MailError::protocol(message));
        }
        Ok(())
    }
}

/// The reply an SMTP dialog is waiting for.
#[derive(Debug, Clone, Copy, PartialEq, Eq, Structural)]
pub enum SmtpStage {
    /// The reply to `EHLO`.
    Ehlo,
    /// The reply to `AUTH XOAUTH2`.
    AuthXoauth2,
    /// The reply to the OAuth token.
    OAuthToken,
    /// The reply to `AUTH LOGIN`.
    AuthLogin,
    /// The reply to the Base64 user name.
    AuthUser,
    /// The reply to the Base64 password.
    AuthPass,
    /// The reply to `MAIL FROM`.
    MailFrom,
    /// The reply to `RCPT TO` for the recipient at this index.
    Recipient(usize),
    /// The reply to `DATA`.
    Data,
    /// The reply to the message itself.
    Message,
    /// Every reply has been accepted.
    Finished,
}

/// The stage after `EHLO`: the authentication exchange when the mailer
/// authenticates (XOAUTH2 when it has an OAuth provider, else LOGIN), else the
/// envelope.
pub open spec fn stage_after_ehlo(m: MailerView, has_oauth: bool) -> SmtpStage {
    if !m.smtp_auth {
        SmtpStage::MailFrom
    } else if has_oauth {
        SmtpStage::AuthXoauth2
    } else {
        SmtpStage::AuthLogin
    }
}

/// The stage that follows `stage` once its reply is accepted, for a message
/// to `count` recipients.
pub open spec fn next_stage(stage: SmtpStage, m: MailerView, has_oauth: bool, count: nat) -> SmtpStage {
    match stage {
        SmtpStage::Ehlo => stage_after_ehlo(m, has_oauth),
        SmtpStage::AuthXoauth2 => SmtpStage::OAuthToken,
        SmtpStage::OAuthToken => SmtpStage::MailFrom,
        SmtpStage::AuthLogin => SmtpStage::AuthUser,
        SmtpStage::AuthUser => SmtpStage::AuthPass,
        SmtpStage::AuthPass => SmtpStage::MailFrom,
        SmtpStage::MailFrom => if count > 0 {
            SmtpStage::Recipient(0)
        } else {
            SmtpStage::Data
        },
        SmtpStage::Recipient(i) => if i + 1 < count {
            SmtpStage::Recipient((i + 1) as usize)
        } else {
            SmtpStage::Data
        },
        SmtpStage::Data => SmtpStage::Message,
        SmtpStage::Message => SmtpStage::Finished,
        SmtpStage::Finished => SmtpStage::Finished,
    }
}

/// Whether the server accepted the command of `stage` with `reply`.
pub open spec fn reply_accepted(stage: SmtpStage, reply: Seq<char>) -> bool {
    match stage {
        SmtpStage::Ehlo | SmtpStage::MailFrom | SmtpStage::Message => has_code(reply, "250"@),
        SmtpStage::AuthXoauth2 | SmtpStage::AuthLogin | SmtpStage::AuthUser => has_code(reply, "334"@),
        SmtpStage::OAuthToken | SmtpStage::AuthPass => has_code(reply, "235"@),
        SmtpStage::Recipient(_) => has_code(reply, "250"@) || has_code(reply, "251"@),
        SmtpStage::Data => has_code(reply, "354"@),
        SmtpStage::Finished => false,
    }
}

/// The kind of error reported when the command of `stage` is refused.
pub open spec fn refusal_kind(stage: SmtpStage) -> MailErrorKind {
    match stage {
        SmtpStage::AuthXoauth2 | SmtpStage::OAuthToken | SmtpStage::AuthLogin | SmtpStage::AuthUser
        | SmtpStage::AuthPass => MailErrorKind::Authentication,
        _ => MailErrorKind::Protocol,
    }
}

/// The message of the error reported when the command of `stage` is refused
/// with `reply`.
pub open spec fn refusal_message(stage: SmtpStage, recipients: Seq<Seq<char>>, reply: Seq<char>) -> Seq<char> {
    match stage {
        SmtpStage::Ehlo => "EHLO failed: "@ + reply,
        SmtpStage::AuthXoauth2 => "AUTH XOAUTH2 not accepted: "@ + reply,
        SmtpStage::OAuthToken => "OAuth token rejected: "@ + reply,
        SmtpStage::AuthLogin => "AUTH LOGIN failed to start: "@ + reply,
        SmtpStage::AuthUser => "SMTP username rejected: "@ + reply,
        SmtpStage::AuthPass => "SMTP password rejected: "@ + reply,
        SmtpStage::MailFrom => "MAIL FROM failed: "@ + reply,
        SmtpStage::Recipient(i) => "RCPT TO failed for "@ + recipients[i as int] + ": "@ + reply,
        SmtpStage::Data => "DATA command rejected: "@ + reply,
        SmtpStage::Message => "Message not accepted: "@ + reply,
        SmtpStage::Finished => Seq::empty(),
    }
}

/// The command sent at `stage` (all but the OAuth token, which comes from the
/// mailer's token provider).
pub open spec fn stage_command(
    stage: SmtpStage,
    m: MailerView,
    recipients: Seq<Seq<char>>,
    payload: Seq<char>,
) -> Seq<char> {
    match stage {
        SmtpStage::Ehlo => "EHLO "@ + m.helo,
        SmtpStage::AuthXoauth2 => "AUTH XOAUTH2"@,
        SmtpStage::AuthLogin => "AUTH LOGIN"@,
        SmtpStage::AuthUser => base64(encode_utf8(m.smtp_username)),
        SmtpStage::AuthPass => base64(encode_utf8(m.smtp_password)),
        SmtpStage::MailFrom => "MAIL FROM:<"@ + m.from + ">"@,
        SmtpStage::Recipient(i) => "RCPT TO:<"@ + recipients[i as int] + ">"@,
        SmtpStage::Data => "DATA"@,
        SmtpStage::Message => payload,
        _ => Seq::empty(),
    }
}

/// The data sent after `DATA`: the dot-stuffed message and the end-of-data
/// marker.
pub open spec fn data_payload(message: Seq<char>) -> Seq<char> {
    dot_stuffed(message) + "\r\n.\r\n"@
}

/// The decision logic of one SMTP submission after the greeting: which
/// command comes next, which replies are accepted, and what a refusal
/// reports. The caller carries the commands and replies.
pub struct SmtpDialog {
    pub stage: SmtpStage,
    /// The envelope recipients: the To, then Cc, then Bcc addresses.
    pub recipients: Vec<String>,
    /// The data to send after `DATA`.
    pub payload: String,
}

impl SmtpDialog {
    /// A recipient stage names a recipient of the dialog.
    pub open spec fn well_formed(&self) -> bool {
        match self.stage {
            SmtpStage::Recipient(i) => i < self.recipients@.len(),
            _ => true,
        }
    }

    /// A dialog for sending `message` with the settings of `mailer`; it
    /// starts by waiting for the reply to `EHLO`.
    pub fn new(mailer: &PHPMailer, message: &str) -> (dialog: Self)
        ensures
            dialog.stage == SmtpStage::Ehlo,
            texts(dialog.recipients@) == mailer@.to + mailer@.cc + mailer@.bcc,
            dialog.payload@ == data_payload(message@),
            dialog.well_formed(),
    {
        let mut recipients: Vec<String> = Vec::new();
        append_clones(&mut recipients, &mailer.to);
        append_clones(&mut recipients, &mailer.cc);
        append_clones(&mut recipients, &mailer.bcc);
        let mut payload = dot_stuff(message);
        payload.append("\r\n.\r\n");
        SmtpDialog { stage: SmtpStage::Ehlo, recipients, payload }
    }

    /// Whether every reply has been accepted.
    pub fn is_finished(&self) -> (done: bool)
        ensures
            done == (self.stage == SmtpStage::Finished),
    {
        self.stage == SmtpStage::Finished
    }

    /// The command to send at the current stage.
    pub fn command(&self, mailer: &PHPMailer) -> (command: String)
        requires
            self.well_formed(),
            self.stage != SmtpStage::Finished,
            self.stage == SmtpStage::OAuthToken ==> mailer.oauth_provider.is_some(),
        ensures
            self.stage != SmtpStage::OAuthToken ==> command@ == stage_command(
                self.stage,
                mailer@,
                texts(self.recipients@),
                self.payload@,
            ),
    {
        match self.stage {
            SmtpStage::Ehlo => prefixed("EHLO ", mailer.helo.as_str()),
            SmtpStage::AuthXoauth2 => String::from_str("AUTH XOAUTH2"),
            SmtpStage::OAuthToken => match &mailer.oauth_provider {
                Some(provider) => provider.get_oauth64(),
                None => vstd::pervasive::unreached(),
            },
            SmtpStage::AuthLogin => String::from_str("AUTH LOGIN"),
            SmtpStage::AuthUser => encode_base64(slice_to_vec(mailer.smtp_username.as_str().as_bytes())),
            SmtpStage::AuthPass => encode_base64(slice_to_vec(mailer.smtp_password.as_str().as_bytes())),
            SmtpStage::MailFrom => {
                let mut command = prefixed("MAIL FROM:<", mailer.from.as_str());
                command.append(">");
                command
            },
            SmtpStage::Recipient(i) => {
                let mut command = prefixed("RCPT TO:<", self.recipients[i].as_str());
                command.append(">");
                command
            },
            SmtpStage::Data => String::from_str("DATA"),
            SmtpStage::Message => self.payload.clone(),
            SmtpStage::Finished => vstd::pervasive::unreached(),
        }
    }

    /// Takes the server's reply to the current command: an accepted reply
    /// moves the dialog on, a refused one ends it with an error and leaves
    /// the dialog as it was.
    pub fn on_reply(&mut self, mailer: &PHPMailer, reply: &str) -> (result: Result<(), MailError>)
        requires
            old(self).well_formed(),
            old(self).stage != SmtpStage::Finished,
        ensures
            final(self).well_formed(),
            final(self).recipients == old(self).recipients,
            final(self).payload == old(self).payload,
            match result {
                Ok(()) => reply_accepted(old(self).stage, reply@) && final(self).stage == next_stage(
                    old(self).stage,
                    mailer@,
                    mailer.oauth_provider.is_some(),
                    old(self).recipients@.len(),
                ),
                Err(error) => !reply_accepted(old(self).stage, reply@) && final(self).stage == old(
                    self,
                ).stage && error.kind == refusal_kind(old(self).stage) && error.message@
                    == refusal_message(old(self).stage, texts(old(self).recipients@), reply@),
            },
            old(self).stage == SmtpStage::Message ==> (result is Ok <==> "250"@.is_prefix_of(reply@)),
            result is Ok ==> reply@.len() >= 3 && (reply@[0] == '2' || reply@[0] == '3'),
    {
        proof {
            lemma_reply_codes(old(self).stage, reply@);
        }
        let count = self.recipients.len();
        match self.stage {
            SmtpStage::Ehlo => {
                if !starts_with(reply, "250") {
                    return Err(MailError::protocol(prefixed("EHLO failed: ", reply)));
                }
                self.stage = if !mailer.smtp_auth {
                    SmtpStage::MailFrom
                } else if mailer.oauth_provider.is_some() {
                    SmtpStage::AuthXoauth2
                } else {
                    SmtpStage::AuthLogin
                };
            },
            SmtpStage::AuthXoauth2 => {
                if !starts_with(reply, "334") {
                    return Err(MailError::authentication(prefixed("AUTH XOAUTH2 not accepted: ", reply)));
                }
                self.stage = SmtpStage::OAuthToken;
            },
            SmtpStage::OAuthToken => {
                if !starts_with(reply, "235") {
                    return Err(MailError::authentication(prefixed("OAuth token rejected: ", reply)));
                }
                self.stage = SmtpStage::MailFrom;
            },
            SmtpStage::AuthLogin => {
                if !starts_with(reply, "334") {
                    return Err(MailError::authentication(prefixed("AUTH LOGIN failed to start: ", reply)));
                }
                self.stage = SmtpStage::AuthUser;
            },
            SmtpStage::AuthUser => {
                if !starts_with(reply, "334") {
                    return Err(MailError::authentication(prefixed("SMTP username rejected: ", reply)));
                }
                self.stage = SmtpStage::AuthPass;
            },
            SmtpStage::AuthPass => {
                if !starts_with(reply, "235") {
                    return Err(MailError::authentication(prefixed("SMTP password rejected: ", reply)));
                }
                self.stage = SmtpStage::MailFrom;
            },
            SmtpStage::MailFrom => {
                if !starts_with(reply, "250") {
                    return Err(MailError::protocol(prefixed("MAIL FROM failed: ", reply)));
                }
                self.stage = if count > 0 {
                    SmtpStage::Recipient(0)
                } else {
                    SmtpStage::Data
                };
            },
            SmtpStage::Recipient(i) => {
                if !starts_with(reply, "250") && !starts_with(reply, "251") {
                    let mut message = prefixed("RCPT TO failed for ", self.recipients[i].as_str());
                    message.append(": ");
                    message.append(reply);
                    proof {
                        assert(texts(self.recipients@)[i as int] == self.recipients@[i as int]@);
                    }
                    return Err(MailError::protocol(message));
                }
                self.stage = if i + 1 < count {
                    SmtpStage::Recipient(i + 1)
                } else {
                    SmtpStage::Data
                };
            },
            SmtpStage::Data => {
                if !starts_with(reply, "354") {
                    return Err(MailError::protocol(prefixed("DATA command rejected: ", reply)));
                }
                self.stage = SmtpStage::Message;
            },
            SmtpStage::Message => {
                if !starts_with(reply, "250") {
                    return Err(MailError::protocol(prefixed("Message not accepted: ", reply)));
                }
                self.stage = SmtpStage::Finished;
            },
            SmtpStage::Finished => {},
        }
        Ok(())
    }
}

/// Appends a copy of every string of `items` to `out`, in order.
fn append_clones(out: &mut Vec<String>, items: &Vec<String>)
    ensures
        texts(final(out)@) == texts(old(out)@) + texts(items@),
{
    let n = items.len();
    let ghost start = texts(out@);
    let mut i: usize = 0;
    while i < n
        invariant
            n == items@.len(),
            i <= n,
            texts(out@) == start + texts(items@).take(i as int),
        decreases n - i,
    {
        let copy = items[i].clone();
        let ghost before = out@;
        out.push(copy);
        proof {
            assert(texts(out@) =~= texts(before).push(items@[i as int]@));
            assert(texts(items@).take(i + 1) =~= texts(items@).take(i as int).push(items@[i as int]@));
        }
        i = i + 1;
    }
    assert(texts(items@).take(n as int) =~= texts(items@));
}

/// The data as a receiver reads it back: every "\n.." taken as "\n.".
pub open spec fn dot_unstuffed(data: Seq<char>) -> Seq<char>
    decreases data.len(),
{
    if data.len() == 0 {
        Seq::empty()
    } else if data.len() >= 3 && data.last() == '.' && data[data.len() - 2] == '.' && data[data.len()
        - 3] == '\n' {
        dot_unstuffed(data.drop_last().drop_last()).push('.')
    } else {
        dot_unstuffed(data.drop_last()).push(data.last())
    }
}

proof fn lemma_stuffed_last(text: Seq<char>)
    requires
        text.len() > 0,
    ensures
        dot_stuffed(text).len() >= text.len(),
        dot_stuffed(text).last() == text.last(),
    decreases text.len(),
{
    if text.len() > 1 {
        lemma_stuffed_last(text.drop_last());
    }
}

proof fn lemma_stuffed_len(text: Seq<char>)
    ensures
        dot_stuffed(text).len() >= text.len(),
{
    if text.len() > 0 {
        lemma_stuffed_last(text);
    }
}

/// Stuffed text ends in "\n.." exactly when the text ends in "\n.".
proof fn lemma_stuffed_ending(text: Seq<char>)
    ensures
        ({
            let t = dot_stuffed(text);
            (t.len() >= 3 && t.last() == '.' && t[t.len() - 2] == '.' && t[t.len() - 3] == '\n')
                <==> (text.len() >= 2 && text.last() == '.' && text[text.len() - 2] == '\n')
        }),
{
    let t = dot_stuffed(text);
    if text.len() > 0 {
        let rest = text.drop_last();
        lemma_stuffed_len(rest);
        if rest.len() > 0 {
            lemma_stuffed_last(rest);
            assert(rest.last() == text[text.len() - 2]);
            if !(text.last() == '.' && rest.last() == '\n') && text.last() == '.' && rest.last()
                == '.' {
                let rest2 = rest.drop_last();
                let u = dot_stuffed(rest);
                assert(t == u.push('.'));
                if rest2.len() > 0 {
                    lemma_stuffed_last(rest2);
                    assert(rest2.last() == rest[rest.len() - 2]);
                    let v = dot_stuffed(rest2);
                    if rest2.last() == '\n' {
                        assert(u == v.push('.').push('.'));
                    } else {
                        assert(u == v.push('.'));
                        assert(u[u.len() - 2] == v.last());
                    }
                    assert(u[u.len() - 2] != '\n');
                } else {
                    assert(dot_stuffed(rest2).len() == 0);
                    assert(u.len() == 1);
                }
            }
        }
    }
}

/// Dot-stuffing is transparent: reading the stuffed data back as a receiver
/// does gives the text back.
pub proof fn lemma_dot_stuffing_transparent(text: Seq<char>)
    ensures
        dot_unstuffed(dot_stuffed(text)) == text,
    decreases text.len(),
{
    if text.len() > 0 {
        let rest = text.drop_last();
        lemma_dot_stuffing_transparent(rest);
        lemma_stuffed_ending(text);
        let t = dot_stuffed(text);
        if text.len() >= 2 && text.last() == '.' && text[text.len() - 2] == '\n' {
            assert(t.drop_last().drop_last() =~= dot_stuffed(rest));
        } else {
            assert(t.drop_last() =~= dot_stuffed(rest));
        }
        assert(dot_unstuffed(t) =~= text);
    }
}

/// In dot-stuffed data every period that follows a line feed is followed by
/// a second period, so no line of the data can read as the lone period that
/// ends the data.
pub proof fn lemma_stuffed_periods_doubled(text: Seq<char>)
    ensures
        forall|i: int|
            0 < i < dot_stuffed(text).len() && dot_stuffed(text)[i - 1] == '\n' && #[trigger] dot_stuffed(
                text,
            )[i] == '.' ==> i + 1 < dot_stuffed(text).len() && dot_stuffed(text)[i + 1] == '.',
    decreases text.len(),
{
    let t = dot_stuffed(text);
    if text.len() > 0 {
        let rest = text.drop_last();
        let u = dot_stuffed(rest);
        lemma_stuffed_periods_doubled(rest);
        lemma_stuffed_len(rest);
        if rest.len() > 0 {
            lemma_stuffed_last(rest);
            assert(rest.last() == text[text.len() - 2]);
        }
        if text.last() == '.' && text.len() >= 2 && text[text.len() - 2] == '\n' {
            assert(t == u.push('.').push('.'));
            assert forall|i: int|
                0 < i < t.len() && t[i - 1] == '\n' && #[trigger] t[i] == '.' implies i + 1 < t.len()
                && t[i + 1] == '.' by {
                if i < u.len() {
                    assert(u[i - 1] == '\n' && u[i] == '.');
                }
            }
        } else {
            assert(t == u.push(text.last()));
            assert forall|i: int|
                0 < i < t.len() && t[i - 1] == '\n' && #[trigger] t[i] == '.' implies i + 1 < t.len()
                && t[i + 1] == '.' by {
                if i < u.len() {
                    assert(u[i - 1] == '\n' && u[i] == '.');
                } else {
                    assert(u.len() > 0);
                    assert(t[i - 1] == u.last());
                }
            }
        }
    }
}

/// The authentication stages of a session.
pub open spec fn auth_stages(m: MailerView, has_oauth: bool) -> Seq<SmtpStage> {
    if !m.smtp_auth {
        Seq::empty()
    } else if has_oauth {
        seq![SmtpStage::AuthXoauth2, SmtpStage::OAuthToken]
    } else {
        seq![SmtpStage::AuthLogin, SmtpStage::AuthUser, SmtpStage::AuthPass]
    }
}

/// One `RCPT TO` stage per recipient, in order.
pub open spec fn recipient_stages(count: nat) -> Seq<SmtpStage> {
    Seq::new(count, |i: int| SmtpStage::Recipient(i as usize))
}

/// The stages of a session in which every reply is accepted: `EHLO`, the
/// authentication exchange, `MAIL FROM`, one `RCPT TO` per recipient,
/// `DATA`, and the message.
pub open spec fn session_stages(m: MailerView, has_oauth: bool, count: nat) -> Seq<SmtpStage> {
    seq![SmtpStage::Ehlo] + auth_stages(m, has_oauth) + seq![SmtpStage::MailFrom] + recipient_stages(
        count,
    ) + seq![SmtpStage::Data, SmtpStage::Message]
}

/// A dialog whose replies are all accepted goes through exactly the session
/// stages, in order, and then finishes.
#[verifier::rlimit(40)]
pub proof fn lemma_session_order(m: MailerView, has_oauth: bool, count: nat)
    requires
        count <= usize::MAX,
    ensures
        ({
            let stages = session_stages(m, has_oauth, count);
            &&& stages[0] == SmtpStage::Ehlo
            &&& forall|k: int|
                0 <= k < stages.len() - 1 ==> next_stage(#[trigger] stages[k], m, has_oauth, count)
                    == stages[k + 1]
            &&& next_stage(stages.last(), m, has_oauth, count) == SmtpStage::Finished
            &&& forall|k: int| 0 <= k < stages.len() ==> #[trigger] stages[k] != SmtpStage::Finished
        }),
{
    let stages = session_stages(m, has_oauth, count);
    let a = auth_stages(m, has_oauth);
    let r = recipient_stages(count);
    let base = 1 + a.len();
    assert forall|k: int| 0 <= k < stages.len() - 1 implies next_stage(
        #[trigger] stages[k],
        m,
        has_oauth,
        count,
    ) == stages[k + 1] by {
        if k == 0 {
            if a.len() > 0 {
                assert(stages[1] == a[0]);
            } else {
                assert(stages[1] == SmtpStage::MailFrom);
            }
        } else if k < base {
            assert(stages[k] == a[k - 1]);
            if k + 1 < base {
                assert(stages[k + 1] == a[k]);
            } else {
                assert(stages[k + 1] == SmtpStage::MailFrom);
            }
        } else if k == base {
            assert(stages[k] == SmtpStage::MailFrom);
            if count > 0 {
                assert(stages[k + 1] == r[0]);
            } else {
                assert(stages[k + 1] == SmtpStage::Data);
            }
        } else if k < base + 1 + count {
            assert(stages[k] == r[k - base - 1]);
            if k + 1 < base + 1 + count {
                assert(stages[k + 1] == r[k - base]);
            } else {
                assert(stages[k + 1] == SmtpStage::Data);
            }
        } else {
            assert(stages[k] == SmtpStage::Data);
            assert(stages[k + 1] == SmtpStage::Message);
        }
    }
    assert forall|k: int| 0 <= k < stages.len() implies #[trigger] stages[k] != SmtpStage::Finished by {
        if 0 < k < base {
            assert(stages[k] == a[k - 1]);
        } else if base < k < base + 1 + count {
            assert(stages[k] == r[k - base - 1]);
        }
    }
}

/// Which replies each stage accepts: the code that SMTP gives a positive
/// answer to its command, and nothing else. In particular a transient (4xx)
/// or permanent (5xx) failure is never accepted, at any stage.
pub proof fn lemma_reply_codes(stage: SmtpStage, reply: Seq<char>)
    ensures
        reply_accepted(stage, reply) ==> reply.len() >= 3 && (reply[0] == '2' || reply[0] == '3'),
        reply.len() > 0 && (reply[0] == '4' || reply[0] == '5') ==> !reply_accepted(stage, reply),
        stage == SmtpStage::Message ==> (reply_accepted(stage, reply) <==> "250"@.is_prefix_of(reply)),
        stage == SmtpStage::Ehlo ==> (reply_accepted(stage, reply) <==> "250"@.is_prefix_of(reply)),
        stage == SmtpStage::MailFrom ==> (reply_accepted(stage, reply) <==> "250"@.is_prefix_of(reply)),
        stage is Recipient ==> (reply_accepted(stage, reply) <==> ("250"@.is_prefix_of(reply)
            || "251"@.is_prefix_of(reply))),
        stage == SmtpStage::Data ==> (reply_accepted(stage, reply) <==> "354"@.is_prefix_of(reply)),
        stage == SmtpStage::AuthXoauth2 || stage == SmtpStage::AuthLogin || stage
            == SmtpStage::AuthUser ==> (reply_accepted(stage, reply) <==> "334"@.is_prefix_of(reply)),
        stage == SmtpStage::OAuthToken || stage == SmtpStage::AuthPass ==> (reply_accepted(stage, reply)
            <==> "235"@.is_prefix_of(reply)),
        !reply_accepted(SmtpStage::Finished, reply),
{
    reveal_strlit("250");
    reveal_strlit("251");
    reveal_strlit("354");
    reveal_strlit("334");
    reveal_strlit("235");
    if reply_accepted(stage, reply) {
        assert(reply.len() >= 3);
        assert("250"@[0] == '2' && "251"@[0] == '2' && "354"@[0] == '3' && "334"@[0] == '3'
            && "235"@[0] == '2');
        assert(reply[0] == "250"@[0] || reply[0] == "251"@[0] || reply[0] == "354"@[0] || reply[0]
            == "334"@[0] || reply[0] == "235"@[0]);
    }
}

/// Whether a line ends a reply depends on its fourth byte alone: a space ends
/// the reply, anything else (such as the '-' of a continuation line) does
/// not, and a line shorter than four bytes never ends it.
pub proof fn lemma_reply_line_end(line: Seq<char>, other: Seq<char>)
    ensures
        encode_utf8(line).len() < 4 ==> !ends_reply(line),
        encode_utf8(line).len() >= 4 && encode_utf8(line)[3] == 32 ==> ends_reply(line),
        encode_utf8(line).len() >= 4 && encode_utf8(line)[3] == 45 ==> !ends_reply(line),
        encode_utf8(line).len() >= 4 && encode_utf8(other).len() >= 4 && encode_utf8(line)[3]
            == encode_utf8(other)[3] ==> ends_reply(line) == ends_reply(other),
{
}

} // verus!
