//! Outgoing mail: what each message says and where it goes.
use vstd::prelude::*;
use crate::config::EmailConfig;
use crate::csrf::is_uuid_v4_text;
use crate::error::{AppError, AppResult};
use crate::text::push_str;

verus! {

/// A message to render from the templates `<stem>.html` and `<stem>.txt`,
/// with a link for its recipient.
pub struct MailTemplate {
    pub subject: String,
    pub stem: String,
    pub url: String,
}

/// The link that verifies an email address.
pub open spec fn verify_url(base_url: Seq<char>, token: Seq<char>) -> Seq<char> {
    base_url + "/auth/email/verify/"@ + token
}

/// The link that opens the password reset form.
pub open spec fn reset_url(base_url: Seq<char>, token: Seq<char>) -> Seq<char> {
    base_url + "/auth/password/reset/"@ + token
}

/// The message that asks a new user to verify their address.
pub fn verify_mail(base_url: &str, token: &str) -> (m: MailTemplate)
    ensures
        m.subject@ == "Verify your email"@,
        m.stem@ == "emails/verify_email"@,
        m.url@ == verify_url(base_url@, token@),
{
    let mut url = base_url.to_owned();
    push_str(&mut url, "/auth/email/verify/");
    push_str(&mut url, token);
    MailTemplate {
        subject: "Verify your email".to_owned(),
        stem: "emails/verify_email".to_owned(),
        url,
    }
}

/// The message that carries a password reset link.
pub fn reset_mail(base_url: &str, token: &str) -> (m: MailTemplate)
    ensures
        m.subject@ == "Reset your password"@,
        m.stem@ == "emails/reset_password"@,
        m.url@ == reset_url(base_url@, token@),
{
    let mut url = base_url.to_owned();
    push_str(&mut url, "/auth/password/reset/");
    push_str(&mut url, token);
    MailTemplate {
        subject: "Reset your password".to_owned(),
        stem: "emails/reset_password".to_owned(),
        url,
    }
}

/// The HTML template of a message.
pub fn html_template(stem: &str) -> (r: String)
    ensures
        r@ == stem@ + ".html"@,
{
    let mut r = stem.to_owned();
    push_str(&mut r, ".html");
    r
}

/// The plain-text template of a message.
pub fn text_template(stem: &str) -> (r: String)
    ensures
        r@ == stem@ + ".txt"@,
{
    let mut r = stem.to_owned();
    push_str(&mut r, ".txt");
    r
}

/// The file that a message becomes when mail delivery is off: headers, the
/// text part, then the HTML part.
pub open spec fn outbox_text(to: Seq<char>, subject: Seq<char>, text: Seq<char>, html: Seq<char>) -> Seq<char> {
    "To: "@ + to + "\nSubject: "@ + subject + "\n\n"@ + text + "\n\n--- html ---\n"@ + html
}

/// The file that a message becomes when mail delivery is off.
pub fn outbox_message(to: &str, subject: &str, text: &str, html: &str) -> (r: String)
    ensures
        r@ == outbox_text(to@, subject@, text@, html@),
{
    let mut r = "To: ".to_owned();
    push_str(&mut r, to);
    push_str(&mut r, "\nSubject: ");
    push_str(&mut r, subject);
    push_str(&mut r, "\n\n");
    push_str(&mut r, text);
    push_str(&mut r, "\n\n--- html ---\n");
    push_str(&mut r, html);
    r
}

/// A fresh name for a file in the outbox: a random UUID with `.eml`.
pub fn outbox_file_name() -> (r: String)
    ensures
        exists|id: Seq<char>| is_uuid_v4_text(id) && r@ == id + ".eml"@,
{
    let id = crate::csrf::new_uuid_v4();
    let mut r = id.as_str().to_owned();
    push_str(&mut r, ".eml");
    proof {
        assert(is_uuid_v4_text(id@) && r@ == id@ + ".eml"@);
    }
    r
}

/// Where a rendered message goes.
pub enum Delivery {
    /// Delivery is off: the message is written to the outbox directory.
    Outbox,
    /// The message is built and sent through this SMTP relay.
    Smtp { host: String, port: u16 },
    /// The message is built, but no relay is configured to send it.
    Unsent,
}

/// Where messages go under this configuration.
pub fn delivery(config: &EmailConfig) -> (d: Delivery)
    ensures
        !config.enabled ==> d is Outbox,
        config.enabled ==> match config.smtp_host {
            Some(h) => d matches Delivery::Smtp { host, port } && host@ == h@ && port
                == config.smtp_port,
            None => d is Unsent,
        },
{
    if !config.enabled {
        return Delivery::Outbox;
    }
    match &config.smtp_host {
        Some(h) => Delivery::Smtp { host: h.clone(), port: config.smtp_port },
        None => Delivery::Unsent,
    }
}

// ---------------------------------------------------------------------------
// Addresses
// ---------------------------------------------------------------------------
/// The message of the error that lettre's `Mailbox` parser gives for `s`,
/// or `None` where `s` is a mailbox (`user@domain` or
/// `Name <user@domain>`).
pub uninterp spec fn mailbox_parse_error(s: Seq<char>) -> Option<Seq<char>>;

/// `str::parse::<lettre::message::Mailbox>`: the message of its error, where
/// `s` is not a mailbox.
#[verifier::external_body]
fn mailbox_error(s: &str) -> (r: Option<String>)
    ensures
        r matches Some(m) ==> mailbox_parse_error(s@) == Some(m@),
        r is None ==> mailbox_parse_error(s@) is None,
{
    match s.parse::<lettre::message::Mailbox>() {
        Ok(_) => None,
        Err(e) => Some(e.to_string()),
    }
}

/// Why a message from `from` to `to` cannot be built, given what the
/// mailbox parser said of each: the sender is read first.
pub open spec fn address_problem(from_error: Option<Seq<char>>, to_error: Option<Seq<char>>) -> Option<
    Seq<char>,
> {
    match from_error {
        Some(e) => Some("bad from: "@ + e),
        None => match to_error {
            Some(e) => Some("bad to: "@ + e),
            None => None,
        },
    }
}

/// The answer to the addresses of a message, from what the mailbox parser
/// said of the sender and of the recipient: a bad request naming the first
/// bad one, or `Ok`.
pub fn address_outcome(from_error: Option<String>, to_error: Option<String>) -> (r: AppResult<()>)
    ensures
        match address_problem(
            match from_error { Some(e) => Some(e@), None => None },
            match to_error { Some(e) => Some(e@), None => None },
        ) {
            Some(m) => r matches Err(AppError::BadRequest(x)) && x@ == m,
            None => r is Ok,
        },
{
    match from_error {
        Some(e) => {
            let mut m = "bad from: ".to_owned();
            push_str(&mut m, e.as_str());
            Err(AppError::BadRequest(m))
        },
        None => match to_error {
            Some(e) => {
                let mut m = "bad to: ".to_owned();
                push_str(&mut m, e.as_str());
                Err(AppError::BadRequest(m))
            },
            None => Ok(()),
        },
    }
}

/// Checks the sender and the recipient of a message before it is built.
pub fn check_addresses(from: &str, to: &str) -> (r: AppResult<()>)
    ensures
        match address_problem(mailbox_parse_error(from@), mailbox_parse_error(to@)) {
            Some(m) => r matches Err(AppError::BadRequest(x)) && x@ == m,
            None => r is Ok,
        },
{
    let from_error = mailbox_error(from);
    let to_error = mailbox_error(to);
    address_outcome(from_error, to_error)
}

} // verus!
