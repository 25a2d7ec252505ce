//! Registering a new subscriber.
//!
//! `subscribe` validates the submitted form, then — inside one atomic
//! transaction — persists a pending subscriber together with a fresh
//! single-use confirmation token, and finally assembles the one
//! confirmation email carrying the link that embeds the token. The email
//! is assembled only after the transaction committed: a delivery failure
//! afterwards leaves the pending row durably in place.

use vstd::prelude::*;
use vstd::string::StringExecFns;
use rand::Rng;
use crate::domain::{is_valid_email, is_valid_name, NewSubscriber, SubscriberEmail, SubscriberName};
use crate::email_client::{email_request, EmailClient, EmailRequest, EmailRequestView};
use crate::error::SubscribeError;
use crate::store::{
    has_subscriber, has_token, wf_store, committed, lemma_commit_preserves_wf, Store, StoreView,
    SubscriberStatus, Subscription, SubscriptionToken, SubscriptionView, TokenView, Transaction,
};

verus! {

/// The raw, not yet validated sign-up form.
pub struct FormData {
    pub email: String,
    pub name: String,
}

impl NewSubscriber {
    /// Validates both form fields; the email is checked first, and either
    /// field failing rejects the whole form.
    pub fn try_from(value: FormData) -> (r: Result<NewSubscriber, String>)
        ensures
            r is Ok <==> is_valid_email(value.email@) && is_valid_name(value.name@),
            r matches Ok(ns) ==> ns.email@ == value.email@ && ns.name@ == value.name@,
            r matches Err(m) ==> m@ == (if !is_valid_email(value.email@) {
                "not a valid subscriber email"@
            } else {
                "not a valid subscriber name"@
            }),
    {
        let email = match SubscriberEmail::try_from(value.email) {
            Ok(e) => e,
            Err(m) => {
                return Err(m);
            },
        };
        let name = match SubscriberName::try_from(value.name) {
            Ok(n) => n,
            Err(m) => {
                return Err(m);
            },
        };
        Ok(NewSubscriber { name, email })
    }
}

/// A byte of the token alphabet: an ASCII digit or letter.
pub open spec fn is_alphanumeric_byte(b: u8) -> bool {
    ||| 48 <= b <= 57
    ||| 65 <= b <= 90
    ||| 97 <= b <= 122
}

/// A character of the token alphabet: an ASCII digit or letter.
pub open spec fn is_alphanumeric_char(c: char) -> bool {
    ||| 48 <= (c as u32) <= 57
    ||| 65 <= (c as u32) <= 90
    ||| 97 <= (c as u32) <= 122
}

/// A well-shaped confirmation token: 20 alphanumeric characters.
pub open spec fn is_token_shaped(t: Seq<char>) -> bool {
    t.len() == 20 && forall|i: int| 0 <= i < t.len() ==> is_alphanumeric_char(#[trigger] t[i])
}

/// Relies on `rand`'s `Alphanumeric` distribution: sampling it yields one
/// byte drawn from the 62-symbol alphabet `A-Z a-z 0-9`.
#[verifier::external_body]
fn sample_alphanumeric_byte() -> (b: u8)
    ensures
        is_alphanumeric_byte(b),
{
    rand::thread_rng().sample(rand::distributions::Alphanumeric)
}

/// Relies on `uuid::Uuid::new_v4` for a randomly drawn subscriber id.
/// Nothing is promised of the value: it is random.
#[verifier::external_body]
fn new_subscriber_id() -> u128 {
    uuid::Uuid::new_v4().as_u128()
}

/// Relies on `String::from_utf8`: ASCII bytes decode to exactly one
/// character each, with the same code points in the same order.
#[verifier::external_body]
fn ascii_bytes_to_string(bytes: Vec<u8>) -> (r: String)
    requires
        forall|i: int| 0 <= i < bytes@.len() ==> #[trigger] bytes@[i] < 128,
    ensures
        r@.len() == bytes@.len(),
        forall|i: int| 0 <= i < bytes@.len() ==> (#[trigger] r@[i]) as u32 == bytes@[i] as u32,
{
    String::from_utf8(bytes).unwrap_or_default()
}

/// Draws a fresh confirmation token: 20 characters of high-entropy
/// alphanumeric randomness.
pub fn generate_subscription_token() -> (t: String)
    ensures
        is_token_shaped(t@),
{
    let mut bytes: Vec<u8> = Vec::new();
    let mut i: usize = 0;
    while i < 20
        invariant
            0 <= i <= 20,
            bytes@.len() == i,
            forall|k: int| 0 <= k < i ==> is_alphanumeric_byte(#[trigger] bytes@[k]),
        decreases 20 - i,
    {
        bytes.push(sample_alphanumeric_byte());
        i = i + 1;
    }
    ascii_bytes_to_string(bytes)
}

/// The pending row `register` creates for a validated sign-up.
pub open spec fn pending_subscription(
    id: u128,
    email: Seq<char>,
    name: Seq<char>,
    subscribed_at: u64,
) -> SubscriptionView {
    SubscriptionView {
        id,
        email,
        name,
        status: SubscriberStatus::PendingConfirmation,
        subscribed_at,
    }
}

/// Stages the new pending subscriber row on the open transaction and
/// reports the id it was assigned.
pub fn insert_subscriber(
    transaction: &mut Transaction,
    new_subscriber: &NewSubscriber,
    subscribed_at: u64,
) -> (id: u128)
    ensures
        final (transaction)@.subscriptions == old(transaction)@.subscriptions.push(
            pending_subscription(id, new_subscriber.email@, new_subscriber.name@, subscribed_at),
        ),
        final (transaction)@.tokens == old(transaction)@.tokens,
{
    let id = new_subscriber_id();
    let row = Subscription {
        id,
        email: new_subscriber.email.as_ref().to_owned(),
        name: new_subscriber.name.as_ref().to_owned(),
        status: SubscriberStatus::PendingConfirmation,
        subscribed_at,
    };
    transaction.new_subscriptions.push(row);
    proof {
        assert(transaction@.subscriptions =~= old(transaction)@.subscriptions.push(
            pending_subscription(id, new_subscriber.email@, new_subscriber.name@, subscribed_at),
        ));
        assert(transaction@.tokens =~= old(transaction)@.tokens);
    }
    id
}

/// Stages the confirmation-token row binding `subscription_token` to the
/// staged subscriber.
pub fn store_token(
    transaction: &mut Transaction,
    subscriber_id: u128,
    subscription_token: &str,
)
    ensures
        final (transaction)@.tokens == old(transaction)@.tokens.push(
            (TokenView { subscription_token: subscription_token@, subscriber_id }),
        ),
        final (transaction)@.subscriptions == old(transaction)@.subscriptions,
{
    let row = SubscriptionToken {
        subscription_token: subscription_token.to_owned(),
        subscriber_id,
    };
    transaction.new_tokens.push(row);
    proof {
        assert(transaction@.tokens =~= old(transaction)@.tokens.push(
            (TokenView { subscription_token: subscription_token@, subscriber_id }),
        ));
        assert(transaction@.subscriptions =~= old(transaction)@.subscriptions);
    }
}

/// The confirmation link embeds the raw token — never the subscriber id,
/// which must stay unguessable from the outside.
pub open spec fn confirmation_link(base_url: Seq<char>, token: Seq<char>) -> Seq<char> {
    base_url + "/subscriptions/confirm?subscription_token="@ + token
}

/// The HTML body of the confirmation email.
pub open spec fn confirmation_html_body(link: Seq<char>) -> Seq<char> {
    "Welcome to our newsletter!<br />Click <a href=\""@ + link
        + "\">here</a> to confirm your subscription."@
}

/// The plain-text body of the confirmation email.
pub open spec fn confirmation_text_body(link: Seq<char>) -> Seq<char> {
    "Welcome to our newsletter!\nVisit "@ + link + " to confirm your subscription."@
}

/// The one confirmation email `subscribe` hands to the transport.
pub open spec fn confirmation_email(
    sender: Seq<char>,
    to: Seq<char>,
    base_url: Seq<char>,
    token: Seq<char>,
) -> EmailRequestView {
    email_request(
        sender,
        to,
        "Welcome!"@,
        confirmation_html_body(confirmation_link(base_url, token)),
        confirmation_text_body(confirmation_link(base_url, token)),
    )
}

/// Assembles the confirmation email for a freshly registered subscriber:
/// a welcome message whose link carries the raw token.
pub fn send_confirmation_email(
    email_client: &EmailClient,
    new_subscriber: &NewSubscriber,
    base_url: &str,
    subscription_token: &str,
) -> (r: EmailRequest)
    ensures
        r@ == confirmation_email(
            email_client.sender(),
            new_subscriber.email@,
            base_url@,
            subscription_token@,
        ),
{
    let mut link = base_url.to_owned();
    link.append("/subscriptions/confirm?subscription_token=");
    link.append(subscription_token);
    let mut plain_body = "Welcome to our newsletter!\nVisit ".to_owned();
    plain_body.append(link.as_str());
    plain_body.append(" to confirm your subscription.");
    let mut html_body = "Welcome to our newsletter!<br />Click <a href=\"".to_owned();
    html_body.append(link.as_str());
    html_body.append("\">here</a> to confirm your subscription.");
    email_client.send_email(
        &new_subscriber.email,
        "Welcome!",
        html_body.as_str(),
        plain_body.as_str(),
    )
}

/// What a successful `subscribe` did to the store and hands back: exactly
/// one new pending subscriber row, exactly one new token row bound to it,
/// both fresh, and exactly one confirmation email for the new address
/// whose link embeds that token.
pub open spec fn subscribe_registered(
    s0: StoreView,
    s1: StoreView,
    email: Seq<char>,
    name: Seq<char>,
    subscribed_at: u64,
    sender: Seq<char>,
    base_url: Seq<char>,
    req: EmailRequestView,
) -> bool {
    let row = s1.subscriptions.last();
    let tok = s1.tokens.last();
    &&& s1.subscriptions == s0.subscriptions.push(row)
    &&& s1.tokens == s0.tokens.push(tok)
    &&& row == pending_subscription(row.id, email, name, subscribed_at)
    &&& tok.subscriber_id == row.id
    &&& !has_subscriber(s0, row.id)
    &&& !has_token(s0, tok.subscription_token)
    &&& is_token_shaped(tok.subscription_token)
    &&& req == confirmation_email(sender, email, base_url, tok.subscription_token)
}

/// Registers a new subscriber.
///
/// Invalid input is rejected before anything touches storage. For valid
/// input the pending row and its token become durable atomically, or — if
/// the store refuses the transaction — not at all; only then is the
/// confirmation email assembled and returned for the transport to carry.
pub fn subscribe(
    store: &mut Store,
    email_client: &EmailClient,
    base_url: &str,
    form: FormData,
    now: u64,
) -> (r: Result<EmailRequest, SubscribeError>)
    ensures
        r matches Ok(req) ==> subscribe_registered(
            old(store)@,
            final (store)@,
            form.email@,
            form.name@,
            now,
            email_client.sender(),
            base_url@,
            req@,
        ),
        r is Err ==> final (store)@ == old(store)@,
        (r matches Err(SubscribeError::ValidationError(_))) <==> !(is_valid_email(form.email@)
            && is_valid_name(form.name@)),
        r matches Err(SubscribeError::StorageError(m)) ==> is_valid_email(form.email@)
            && is_valid_name(form.name@) && m@ == "failed to commit the subscription transaction"@,
        r matches Err(SubscribeError::StorageError(_)) ==> old(store)@.subscriptions.len()
            + old(store)@.tokens.len() > 0,
        !(r matches Err(SubscribeError::EmailDeliveryError(_))),
        wf_store(old(store)@) ==> wf_store(final (store)@),
    {
        let new_subscriber = match NewSubscriber::try_from(form) {
            Ok(ns) => ns,
            Err(m) => {
                return Err(SubscribeError::ValidationError(m));
            },
        };
        let mut transaction = store.begin();
        let subscriber_id = insert_subscriber(&mut transaction, &new_subscriber, now);
        let subscription_token = generate_subscription_token();
        store_token(&mut transaction, subscriber_id, subscription_token.as_str());
        let ghost pre = store@;
        let ghost staged = transaction@;
        match transaction.commit(store) {
            Ok(()) => {},
            Err(_) => {
                proof {
                    // On an empty store no draw can conflict: the commit
                    // must have succeeded, so this branch is unreachable
                    // there.
                    if pre.subscriptions.len() == 0 && pre.tokens.len() == 0 {
                        assert(!has_subscriber(pre, staged.subscriptions[0].id));
                        assert(!has_token(pre, staged.tokens[0].subscription_token));
                        assert(!crate::store::has_token_for(pre, staged.tokens[0].subscriber_id));
                        assert(committed(pre, staged).subscriptions[0].id == staged.tokens[0]
                            .subscriber_id);
                        assert(has_subscriber(
                            committed(pre, staged),
                            staged.tokens[0].subscriber_id,
                        ));
                        assert(crate::store::commit_ok(pre, staged));
                        assert(false);
                    }
                }
                return Err(
                    SubscribeError::StorageError(
                        "failed to commit the subscription transaction".to_owned(),
                    ),
                );
            },
        }
        let request = send_confirmation_email(
            email_client,
            &new_subscriber,
            base_url,
            subscription_token.as_str(),
        );
        proof {
            assert(store@.subscriptions =~= pre.subscriptions.push(staged.subscriptions[0]));
            assert(store@.tokens =~= pre.tokens.push(staged.tokens[0]));
            assert(!has_subscriber(pre, staged.subscriptions[0].id));
            assert(!has_token(pre, staged.tokens[0].subscription_token));
            if wf_store(pre) {
                lemma_commit_preserves_wf(pre, staged);
                assert(wf_store(committed(pre, staged)));
                assert(store@ =~= committed(pre, staged));
            }
        }
        Ok(request)
    }

} // verus!

