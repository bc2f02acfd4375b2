//! The e-mail that lets a user set a password, and what the mail worker does on each
//! wake-up.
use vstd::prelude::*;
use crate::text::{owned, signed_decimal, signed_decimal_string};
use crate::cfg::Settings;

verus! {

/// An e-mail to be sent to a user, with the number that lets them set a password.
pub struct EmailToSend {
    pub to_username: String,
    pub to_id: i32,
    pub to_fullname: String,
    pub unique_id: i32,
}

/// The parts of an e-mail ready to be handed to the mailer.
pub struct ComposedEmail {
    pub from: String,
    pub to: String,
    pub subject: String,
    pub body: String,
}

/// The sender: `Knot NoReply <from_username>`.
pub open spec fn sender(from_username: Seq<char>) -> Seq<char> {
    "Knot NoReply <"@ + from_username + ">"@
}

/// The recipient: `full name <username@domain>`.
pub open spec fn recipient(email: EmailToSend, username_domain: Seq<char>) -> Seq<char> {
    email.to_fullname@ + " <"@ + email.to_username@ + "@"@ + username_domain + ">"@
}

/// The text of the e-mail: it greets the user, says they have no password yet, and
/// gives the link `project_domain/add_password/{id}?code={number}`.
pub open spec fn email_body(email: EmailToSend, project_name: Seq<char>, project_domain: Seq<char>) -> Seq<char> {
    "Dear "@ + email.to_fullname@ + ",\n\nYou've just tried to login to "@ + project_name
        + ", but you don't have a password set yet.\n\nTo set one, go to "@ + project_domain
        + "/add_password/"@ + signed_decimal(email.to_id as int) + "?code="@
        + signed_decimal(email.unique_id as int) + ".\n\nHave a nice day!"@
}

/// Writes the e-mail for `email`.
pub fn compose_email(
    email: &EmailToSend,
    from_username: &str,
    username_domain: &str,
    project_name: &str,
    project_domain: &str,
) -> (m: ComposedEmail)
    ensures
        m.from@ == sender(from_username@),
        m.to@ == recipient(*email, username_domain@),
        m.subject@ == "Knot - Add Password"@,
        m.body@ == email_body(*email, project_name@, project_domain@),
{
    let mut from = owned("Knot NoReply <");
    from.append(from_username);
    from.append(">");

    let mut to = owned(email.to_fullname.as_str());
    to.append(" <");
    to.append(email.to_username.as_str());
    to.append("@");
    to.append(username_domain);
    to.append(">");

    let id = signed_decimal_string(email.to_id);
    let code = signed_decimal_string(email.unique_id);
    let mut body = owned("Dear ");
    body.append(email.to_fullname.as_str());
    body.append(",\n\nYou've just tried to login to ");
    body.append(project_name);
    body.append(", but you don't have a password set yet.\n\nTo set one, go to ");
    body.append(project_domain);
    body.append("/add_password/");
    body.append(id.as_str());
    body.append("?code=");
    body.append(code.as_str());
    body.append(".\n\nHave a nice day!");

    ComposedEmail { from, to, subject: owned("Knot - Add Password"), body }
}

/// What wakes the mail worker.
pub enum MailEvent {
    /// The site is shutting down.
    Stop,
    /// Every sender of e-mails has gone.
    ChannelClosed,
    /// An e-mail is asked for.
    Message(EmailToSend),
}

/// What the mail worker does next.
pub enum MailAction {
    /// It stops.
    Finish,
    /// It sends this e-mail and waits again; a failure to send is logged, not fatal.
    Send(ComposedEmail),
}

/// An e-mail as sent: sender, recipient, subject and body.
pub open spec fn sent_model(m: ComposedEmail) -> (Seq<char>, Seq<char>, Seq<char>, Seq<char>) {
    (m.from@, m.to@, m.subject@, m.body@)
}

/// What an action comes to: the e-mail it sends, or `None` where the worker stops.
pub open spec fn action_model(action: MailAction) -> Option<(Seq<char>, Seq<char>, Seq<char>, Seq<char>)> {
    match action {
        MailAction::Send(m) => Some(sent_model(m)),
        MailAction::Finish => None,
    }
}

/// The mail worker's decision on an event: for an e-mail asked for, the one it sends;
/// where the site stops or every sender has gone, `None`, and it stops.
pub open spec fn mail_decision(event: MailEvent, settings: Settings) -> Option<(Seq<char>, Seq<char>, Seq<char>, Seq<char>)> {
    match event {
        MailEvent::Message(email) => Some((
            sender(settings.mail.username@),
            recipient(email, settings.mail.password@),
            "Knot - Add Password"@,
            email_body(email, settings.mail.smtp@, settings.brand.domain@),
        )),
        _ => None,
    }
}

/// What the worker does over a run of events: the decision on each in turn, up to and
/// including the first on which it stops. Whether a sending failed takes no part in
/// any decision.
pub open spec fn mail_run(events: Seq<MailEvent>, settings: Settings) -> Seq<Option<(Seq<char>, Seq<char>, Seq<char>, Seq<char>)>>
    decreases events.len(),
{
    if events.len() == 0 {
        Seq::empty()
    } else if events[0] is Message {
        seq![mail_decision(events[0], settings)] + mail_run(events.drop_first(), settings)
    } else {
        seq![None]
    }
}

proof fn lemma_mail_run_prefix(events: Seq<MailEvent>, settings: Settings, k: int)
    requires
        0 <= k <= events.len(),
        forall|j: int| 0 <= j < k ==> (#[trigger] events[j]) is Message,
    ensures
        mail_run(events, settings).len() >= k,
        forall|j: int| 0 <= j < k ==> mail_run(events, settings)[j] == mail_decision(#[trigger] events[j], settings),
        k == events.len() ==> mail_run(events, settings).len() == k,
        k < events.len() && !(events[k] is Message) ==> mail_run(events, settings)[k] is None && mail_run(events, settings).len() == k + 1,
    decreases k,
{
    if k > 0 {
        let rest = events.drop_first();
        assert forall|j: int| 0 <= j < k - 1 implies (#[trigger] rest[j]) is Message by {
            assert(rest[j] == events[j + 1]);
        }
        lemma_mail_run_prefix(rest, settings, k - 1);
        assert(events[0] is Message);
        assert forall|j: int| 0 <= j < k implies mail_run(events, settings)[j] == mail_decision(#[trigger] events[j], settings) by {
            if j > 0 {
                assert(events[j] == rest[j - 1]);
            }
        }
        if k < events.len() {
            assert(events[k] == rest[k - 1]);
        }
    }
}

/// Over a run that stops at event `k` (the first on which the site stops or every
/// sender has gone), the worker sends exactly one e-mail for each e-mail asked for
/// before it, in order, each composed from the settings, then stops and sends nothing
/// more.
pub proof fn lemma_mail_run_stopped(events: Seq<MailEvent>, settings: Settings, k: int)
    requires
        0 <= k < events.len(),
        !(events[k] is Message),
        forall|j: int| 0 <= j < k ==> (#[trigger] events[j]) is Message,
    ensures
        mail_run(events, settings).len() == k + 1,
        forall|j: int| 0 <= j < k ==> mail_run(events, settings)[j] == mail_decision(#[trigger] events[j], settings),
        forall|j: int| 0 <= j < k ==> mail_run(events, settings)[j] is Some,
        mail_run(events, settings)[k] is None,
{
    lemma_mail_run_prefix(events, settings, k);
    assert forall|j: int| 0 <= j < k implies mail_run(events, settings)[j] is Some by {
        assert(events[j] is Message);
    }
}

/// Over a run in which e-mails are only asked for, the worker sends exactly one e-mail
/// for each, in order, and never stops.
pub proof fn lemma_mail_run_unstopped(events: Seq<MailEvent>, settings: Settings)
    requires
        forall|j: int| 0 <= j < events.len() ==> (#[trigger] events[j]) is Message,
    ensures
        mail_run(events, settings).len() == events.len(),
        forall|j: int| 0 <= j < events.len() ==> mail_run(events, settings)[j] == mail_decision(#[trigger] events[j], settings),
        forall|j: int| 0 <= j < events.len() ==> mail_run(events, settings)[j] is Some,
{
    lemma_mail_run_prefix(events, settings, events.len() as int);
    assert forall|j: int| 0 <= j < events.len() implies mail_run(events, settings)[j] is Some by {
        assert(events[j] is Message);
    }
}

/// The mail worker's decision on one event. The worker hands the mailer, in order, the
/// account's username, its password, its SMTP server and the site's domain as the
/// sender, the users' e-mail domain, the project's name and its domain.
pub fn mail_step(event: MailEvent, settings: &Settings) -> (action: MailAction)
    ensures
        match event {
            MailEvent::Message(email) => action matches MailAction::Send(m)
                && m.from@ == sender(settings.mail.username@)
                && m.to@ == recipient(email, settings.mail.password@)
                && m.subject@ == "Knot - Add Password"@
                && m.body@ == email_body(email, settings.mail.smtp@, settings.brand.domain@),
            _ => action is Finish,
        },
        action_model(action) == mail_decision(event, *settings),
{
    match event {
        MailEvent::Message(email) => MailAction::Send(compose_email(
            &email,
            settings.mail.username.as_str(),
            settings.mail.password.as_str(),
            settings.mail.smtp.as_str(),
            settings.brand.domain.as_str(),
        )),
        _ => MailAction::Finish,
    }
}

} // verus!
