use zero2prod::domain::SubscriberEmail;
use zero2prod::email_client::EmailClient;
use zero2prod::newsletters::{
    get_confirmed_subscribers, publish_newsletter, BodyData, Content,
};
use zero2prod::store::{Store, SubscriberStatus, Subscription};

fn test_client() -> EmailClient {
    let sender = SubscriberEmail::try_from("newsletter@example.com".to_string()).unwrap();
    EmailClient::new(sender)
}

fn row(id: u128, email: &str, status: SubscriberStatus) -> Subscription {
    Subscription {
        id,
        email: email.to_string(),
        name: "reader".to_string(),
        status,
        subscribed_at: 0,
    }
}

fn issue() -> BodyData {
    BodyData {
        title: "Issue No. 1".to_string(),
        content: Content {
            html: "<p>News</p>".to_string(),
            text: "News".to_string(),
        },
    }
}

#[test]
fn publish_attempts_every_valid_confirmed_subscriber() {
    let mut store = Store::new();
    store.subscriptions.push(row(1, "one@example.com", SubscriberStatus::Confirmed));
    store.subscriptions.push(row(2, "two@example.com", SubscriberStatus::Confirmed));
    store.subscriptions.push(row(3, "pending@example.com", SubscriberStatus::PendingConfirmation));

    let dispatch = publish_newsletter(&store, &test_client(), &issue());

    assert_eq!(dispatch.requests.len(), 2);
    assert_eq!(dispatch.requests[0].to, "one@example.com");
    assert_eq!(dispatch.requests[1].to, "two@example.com");
    assert_eq!(dispatch.requests[0].from, "newsletter@example.com");
    assert_eq!(dispatch.requests[0].subject, "Issue No. 1");
    assert_eq!(dispatch.requests[0].html_body, "<p>News</p>");
    assert_eq!(dispatch.requests[0].text_body, "News");
    assert_eq!(dispatch.skipped.len(), 0);
    assert_eq!(dispatch.attempted, 0);
    assert_eq!(dispatch.failures.len(), 0);
}

#[test]
fn publish_skips_and_records_corrupted_stored_emails() {
    // Five confirmed subscribers, two of them with intentionally corrupted
    // stored addresses: exactly three delivery attempts, exactly two skips.
    let mut store = Store::new();
    store.subscriptions.push(row(1, "one@example.com", SubscriberStatus::Confirmed));
    store.subscriptions.push(row(2, "corrupted-address", SubscriberStatus::Confirmed));
    store.subscriptions.push(row(3, "two@example.com", SubscriberStatus::Confirmed));
    store.subscriptions.push(row(4, "also bad@x", SubscriberStatus::Confirmed));
    store.subscriptions.push(row(5, "three@example.com", SubscriberStatus::Confirmed));

    let mut dispatch = publish_newsletter(&store, &test_client(), &issue());

    assert_eq!(dispatch.requests.len(), 3);
    assert_eq!(dispatch.skipped.len(), 2);
    assert_eq!(dispatch.skipped[0], "corrupted-address");
    assert_eq!(dispatch.skipped[1], "also bad@x");

    while let Some(_req) = dispatch.next_delivery() {
        dispatch.record_delivery(Ok(()));
    }
    assert_eq!(dispatch.attempted, 3);
    assert_eq!(dispatch.publish_status(), 200);
}

#[test]
fn publish_keeps_attempting_after_a_delivery_failure() {
    let mut store = Store::new();
    store.subscriptions.push(row(1, "one@example.com", SubscriberStatus::Confirmed));
    store.subscriptions.push(row(2, "two@example.com", SubscriberStatus::Confirmed));
    store.subscriptions.push(row(3, "three@example.com", SubscriberStatus::Confirmed));

    let mut dispatch = publish_newsletter(&store, &test_client(), &issue());
    let mut attempted_recipients = Vec::new();

    let mut fail_first = true;
    while let Some(req) = dispatch.next_delivery() {
        attempted_recipients.push(req.to.clone());
        let outcome = if fail_first {
            fail_first = false;
            Err("connection reset".to_string())
        } else {
            Ok(())
        };
        dispatch.record_delivery(outcome);
    }

    // The failure for the first recipient did not cancel the others.
    assert_eq!(
        attempted_recipients,
        vec!["one@example.com", "two@example.com", "three@example.com"]
    );
    assert_eq!(dispatch.failures.len(), 1);
    assert_eq!(dispatch.failures[0].email, "one@example.com");
    assert_eq!(dispatch.failures[0].reason, "connection reset");
    assert_eq!(dispatch.publish_status(), 200);
}

#[test]
fn publish_on_an_empty_store_attempts_nothing() {
    let store = Store::new();
    let dispatch = publish_newsletter(&store, &test_client(), &issue());
    assert_eq!(dispatch.requests.len(), 0);
    assert_eq!(dispatch.skipped.len(), 0);
    assert_eq!(dispatch.publish_status(), 200);
}

#[test]
fn fetch_returns_confirmed_rows_in_order_with_validation_outcome() {
    let mut store = Store::new();
    store.subscriptions.push(row(1, "pending@example.com", SubscriberStatus::PendingConfirmation));
    store.subscriptions.push(row(2, "kept@example.com", SubscriberStatus::Confirmed));
    store.subscriptions.push(row(3, "broken", SubscriberStatus::Confirmed));

    let rows = get_confirmed_subscribers(&store);

    assert_eq!(rows.len(), 2);
    match &rows[0] {
        Ok(cs) => assert_eq!(cs.email.as_ref(), "kept@example.com"),
        Err(raw) => panic!("valid row came back as a skip: {}", raw),
    }
    match &rows[1] {
        Ok(_) => panic!("corrupted row came back as deliverable"),
        Err(raw) => assert_eq!(raw, "broken"),
    }
}

#[test]
fn newsletter_issues_are_not_persisted() {
    let mut store = Store::new();
    store.subscriptions.push(row(1, "one@example.com", SubscriberStatus::Confirmed));
    let before = store.subscriptions.len();

    let _dispatch = publish_newsletter(&store, &test_client(), &issue());

    assert_eq!(store.subscriptions.len(), before);
    assert_eq!(store.subscription_tokens.len(), 0);
}
