//! The email-sending collaborator, seen from the library's side.
//!
//! The library decides *what* to send: each delivery is described by an
//! [`EmailRequest`] holding the complete message. Carrying a request to the
//! outside world (an HTTP call to a mail provider, with its retries and
//! auth) is the transport's business and happens outside this crate; one
//! request stands for exactly one best-effort delivery attempt.

use vstd::prelude::*;
use crate::domain::SubscriberEmail;

verus! {

/// One fully assembled delivery attempt.
pub struct EmailRequest {
    pub from: String,
    pub to: String,
    pub subject: String,
    pub html_body: String,
    pub text_body: String,
}

/// Mathematical value of a delivery attempt.
#[verifier::ext_equal]
pub ghost struct EmailRequestView {
    pub from: Seq<char>,
    pub to: Seq<char>,
    pub subject: Seq<char>,
    pub html_body: Seq<char>,
    pub text_body: Seq<char>,
}

impl View for EmailRequest {
    type V = EmailRequestView;

    open spec fn view(&self) -> EmailRequestView {
        EmailRequestView {
            from: self.from@,
            to: self.to@,
            subject: self.subject@,
            html_body: self.html_body@,
            text_body: self.text_body@,
        }
    }
}

/// The delivery attempt `send_email` assembles.
pub open spec fn email_request(
    sender: Seq<char>,
    to: Seq<char>,
    subject: Seq<char>,
    html_body: Seq<char>,
    text_body: Seq<char>,
) -> EmailRequestView {
    EmailRequestView { from: sender, to, subject, html_body, text_body }
}

/// Assembles newsletter and confirmation messages on behalf of a fixed
/// sender address.
pub struct EmailClient {
    sender: SubscriberEmail,
}

impl EmailClient {
    /// A client that sends from the given address.
    pub fn new(sender: SubscriberEmail) -> (c: EmailClient)
        ensures
            c.sender() == sender@,
    {
        EmailClient { sender }
    }

    /// The address every message is sent from.
    pub closed spec fn sender(&self) -> Seq<char> {
        self.sender@
    }

    /// Assembles the single delivery attempt for one recipient: the message
    /// is sent from this client's sender address and carries the given
    /// subject and bodies unchanged.
    pub fn send_email(
        &self,
        recipient: &SubscriberEmail,
        subject: &str,
        html_content: &str,
        text_content: &str,
    ) -> (r: EmailRequest)
        ensures
            r@ == email_request(self.sender(), recipient@, subject@, html_content@, text_content@),
    {
        EmailRequest {
            from: self.sender.as_ref().to_owned(),
            to: recipient.as_ref().to_owned(),
            subject: subject.to_owned(),
            html_body: html_content.to_owned(),
            text_body: text_content.to_owned(),
        }
    }
}

} // verus!
