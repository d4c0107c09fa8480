//! A mail composition and submission library: message assembly, Base64
//! encoding, and the decision logic of SMTP and POP3 sessions.
pub mod encoding;
pub mod oauth;
pub mod phpmailer;
pub mod pop3;
pub mod smtp;
pub mod text;

pub use oauth::OAuthTokenProvider;
pub use phpmailer::{Attachment, MailError, MessageDate, PHPMailer};
pub use pop3::Pop3;
pub use smtp::{SmtpConnection, SmtpSecurity};
