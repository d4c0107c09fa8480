//! POP3 authorisation (POP-before-SMTP): the decision logic of the dialog.
//! The socket work itself is done by the caller.
use vstd::prelude::*;

use crate::phpmailer::{prefixed, MailError, MailErrorKind};
use crate::text::starts_with;

verus! {

/// A POP3 server and whether authorisation with it succeeded.
#[derive(Debug, Clone)]
pub struct Pop3 {
    pub host: String,
    pub port: u16,
    pub timeout_seconds: u64,
    pub connected: bool,
}

impl Pop3 {
    /// A POP3 server at `host:port` with a 30 second timeout, not yet
    /// authorised.
    pub fn new(host: String, port: u16) -> (pop3: Self)
        ensures
            pop3.host@ == host@,
            pop3.port == port,
            pop3.timeout_seconds == 30,
            !pop3.connected,
    {
        Pop3 { host: host.clone(), port, timeout_seconds: 30, connected: false }
    }

    /// Records a completed authorisation, once the dialog has sent `QUIT`.
    pub fn complete_authorisation(&mut self, dialog: &Pop3Dialog)
        requires
            dialog.stage == Pop3Stage::Quit,
        ensures
            final(self).connected,
            final(self).host == old(self).host,
            final(self).port == old(self).port,
            final(self).timeout_seconds == old(self).timeout_seconds,
    {
        self.connected = true;
    }
}

/// The reply a POP3 authorisation dialog is waiting for.
#[derive(Debug, Clone, Copy, PartialEq, Eq, Structural)]
pub enum Pop3Stage {
    /// The server greeting.
    Greeting,
    /// The reply to `USER`.
    User,
    /// The reply to `PASS`.
    Pass,
    /// Authorised; `QUIT` is the last command and has no awaited reply.
    Quit,
}

/// A positive POP3 reply.
pub open spec fn is_ok_reply(reply: Seq<char>) -> bool {
    "+OK"@.is_prefix_of(reply)
}

/// The stage that follows an accepted reply at `stage`.
pub open spec fn next_pop3_stage(stage: Pop3Stage) -> Pop3Stage {
    match stage {
        Pop3Stage::Greeting => Pop3Stage::User,
        Pop3Stage::User => Pop3Stage::Pass,
        _ => Pop3Stage::Quit,
    }
}

/// The command sent once the reply at `stage` is accepted.
pub open spec fn pop3_command_after(stage: Pop3Stage, user: Seq<char>, password: Seq<char>) -> Seq<char> {
    match stage {
        Pop3Stage::Greeting => "USER "@ + user,
        Pop3Stage::User => "PASS "@ + password,
        _ => "QUIT"@,
    }
}

/// The kind of error reported when the reply at `stage` is negative.
pub open spec fn pop3_refusal_kind(stage: Pop3Stage) -> MailErrorKind {
    match stage {
        Pop3Stage::Greeting => MailErrorKind::Protocol,
        _ => MailErrorKind::Authentication,
    }
}

/// The message of the error reported when the reply at `stage` is negative.
pub open spec fn pop3_refusal_message(stage: Pop3Stage, user: Seq<char>, reply: Seq<char>) -> Seq<char> {
    match stage {
        Pop3Stage::Greeting => "Invalid POP3 greeting: "@ + reply,
        Pop3Stage::User => "POP3 USER failed for "@ + user + ": "@ + reply,
        _ => "POP3 PASS failed for "@ + user + ": "@ + reply,
    }
}

/// The decision logic of one POP3 authorisation: greeting, `USER`, `PASS`,
/// then `QUIT`. The caller carries the commands and replies.
pub struct Pop3Dialog {
    pub stage: Pop3Stage,
    pub user_name: String,
    pub password: String,
}

impl Pop3Dialog {
    /// A dialog for `user_name` and `password`, waiting for the greeting.
    pub fn new(user_name: String, password: String) -> (dialog: Self)
        ensures
            dialog.stage == Pop3Stage::Greeting,
            dialog.user_name@ == user_name@,
            dialog.password@ == password@,
    {
        Pop3Dialog { stage: Pop3Stage::Greeting, user_name, password }
    }

    /// Takes the server's reply at the current stage and gives the next
    /// command; a negative reply ends the dialog with an error and leaves it
    /// as it was.
    pub fn on_reply(&mut self, reply: &str) -> (result: Result<String, MailError>)
        requires
            old(self).stage != Pop3Stage::Quit,
        ensures
            final(self).user_name == old(self).user_name,
            final(self).password == old(self).password,
            match result {
                Ok(command) => is_ok_reply(reply@) && final(self).stage == next_pop3_stage(
                    old(self).stage,
                ) && command@ == pop3_command_after(
                    old(self).stage,
                    old(self).user_name@,
                    old(self).password@,
                ),
                Err(error) => !is_ok_reply(reply@) && final(self).stage == old(self).stage
                    && error.kind == pop3_refusal_kind(old(self).stage) && error.message@
                    == pop3_refusal_message(old(self).stage, old(self).user_name@, reply@),
            },
            result matches Ok(command) ==> {
                &&& old(self).stage == Pop3Stage::Greeting ==> command@ == "USER "@ + old(
                    self,
                ).user_name@
                &&& old(self).stage == Pop3Stage::User ==> command@ == "PASS "@ + old(self).password@
                &&& old(self).stage == Pop3Stage::Pass ==> command@ == "QUIT"@
            },
    {
        let accepted = starts_with(reply, "+OK");
        match self.stage {
            Pop3Stage::Greeting => {
                if !accepted {
                    return Err(MailError::protocol(prefixed("Invalid POP3 greeting: ", reply)));
                }
                self.stage = Pop3Stage::User;
                Ok(prefixed("USER ", self.user_name.as_str()))
            },
            Pop3Stage::User => {
                if !accepted {
                    let mut message = prefixed("POP3 USER failed for ", self.user_name.as_str());
                    message.append(": ");
                    message.append(reply);
                    return Err(MailError::authentication(message));
                }
                self.stage = Pop3Stage::Pass;
                Ok(prefixed("PASS ", self.password.as_str()))
            },
            _ => {
                if !accepted {
                    let mut message = prefixed("POP3 PASS failed for ", self.user_name.as_str());
                    message.append(": ");
                    message.append(reply);
                    return Err(MailError::authentication(message));
                }
                self.stage = Pop3Stage::Quit;
                Ok(String::from_str("QUIT"))
            },
        }
    }
}

/// Authorisation takes exactly three positive replies: from the greeting, the
/// dialog reaches `QUIT` after the third accepted reply and not before.
pub proof fn lemma_pop3_authorisation_order()
    ensures
        next_pop3_stage(Pop3Stage::Greeting) == Pop3Stage::User,
        next_pop3_stage(Pop3Stage::User) == Pop3Stage::Pass,
        next_pop3_stage(Pop3Stage::Pass) == Pop3Stage::Quit,
{
}

/// The commands of an authorisation carry the credentials in full: after the
/// greeting "USER " and the whole user name, after the user is accepted
/// "PASS " and the whole password, and after the password is accepted "QUIT".
pub proof fn lemma_pop3_commands(user: Seq<char>, password: Seq<char>)
    ensures
        pop3_command_after(Pop3Stage::Greeting, user, password) == "USER "@ + user,
        pop3_command_after(Pop3Stage::User, user, password) == "PASS "@ + password,
        pop3_command_after(Pop3Stage::Pass, user, password) == "QUIT"@,
        pop3_command_after(Pop3Stage::User, user, password).len() == 5 + password.len(),
        pop3_command_after(Pop3Stage::User, user, password).subrange(5, (5 + password.len()) as int) == password,
{
    reveal_strlit("PASS ");
    assert(("PASS "@ + password).subrange(5, (5 + password.len()) as int) =~= password);
}

} // verus!
