# phpmailer_rs

A mail library: it composes MIME messages (plain or `multipart/mixed` with
Base64 attachments) and holds the decision logic of SMTP submission and POP3
authorisation, verified with Verus.

Layout:

- `src/encoding.rs` — Base64 encoding, with its length, alphabet, piecewise and
  round-trip properties.
- `src/text.rs` — string helpers (join, decimal notation, prefix test, trailing
  whitespace removal) and facts about occurrence of text.
- `src/oauth.rs` — XOAUTH2 token providers.
- `src/phpmailer.rs` — the mailer, its errors, and message composition.
- `src/smtp.rs` — SMTP reply handling, dot-stuffing, and the submission dialog.
- `src/pop3.rs` — the POP3 authorisation dialog.
- `app/lib.rs` — the TCP transport that drives the dialogs over sockets.
