use zero2prod::domain::{NewSubscriber, SubscriberEmail, SubscriberName};
use zero2prod::email_client::EmailClient;
use zero2prod::error::{error_chain_fmt, PublishError, SubscribeError};
use zero2prod::store::{Store, StoreError, SubscriberStatus, Subscription, SubscriptionToken};
use zero2prod::subscription::{generate_subscription_token, subscribe, FormData};

fn test_client() -> EmailClient {
    let sender = SubscriberEmail::try_from("newsletter@example.com".to_string()).unwrap();
    EmailClient::new(sender)
}

#[test]
fn subscribe_returns_a_200_for_valid_form_data() {
    let mut store = Store::new();
    let client = test_client();
    let form = FormData {
        email: "ursula_le_guin@gmail.com".to_string(),
        name: "le guin".to_string(),
    };

    let outcome = subscribe(&mut store, &client, "https://lists.example.com", form, 7);

    assert!(outcome.is_ok());
    assert!(store.subscriptions.len() == 1);
    let saved = store.subscriptions.first().unwrap();
    assert_eq!(saved.name, "le guin");
    assert_eq!(saved.email, "ursula_le_guin@gmail.com");
    assert_eq!(saved.status, SubscriberStatus::PendingConfirmation);
    assert_eq!(saved.subscribed_at, 7);
}

#[test]
fn subscribe_issues_one_token_bound_to_the_new_subscriber() {
    let mut store = Store::new();
    let client = test_client();
    let form = FormData {
        email: "ursula_le_guin@gmail.com".to_string(),
        name: "le guin".to_string(),
    };

    subscribe(&mut store, &client, "https://lists.example.com", form, 7).unwrap();

    assert_eq!(store.subscription_tokens.len(), 1);
    let token_row = store.subscription_tokens.first().unwrap();
    let subscriber = store.subscriptions.first().unwrap();
    assert_eq!(token_row.subscriber_id, subscriber.id);
    assert_eq!(token_row.subscription_token.len(), 20);
}

#[test]
fn subscribe_queues_one_confirmation_email_with_the_token_link() {
    let mut store = Store::new();
    let client = test_client();
    let form = FormData {
        email: "ursula_le_guin@gmail.com".to_string(),
        name: "le guin".to_string(),
    };

    let request = subscribe(&mut store, &client, "https://lists.example.com", form, 7).unwrap();

    let token = store
        .subscription_tokens
        .first()
        .unwrap()
        .subscription_token
        .clone();
    let link = format!(
        "https://lists.example.com/subscriptions/confirm?subscription_token={}",
        token
    );
    assert_eq!(request.from, "newsletter@example.com");
    assert_eq!(request.to, "ursula_le_guin@gmail.com");
    assert_eq!(request.subject, "Welcome!");
    assert!(request.html_body.contains(&link));
    assert!(request.text_body.contains(&link));
    assert_eq!(
        request.text_body,
        format!(
            "Welcome to our newsletter!\nVisit {} to confirm your subscription.",
            link
        )
    );
}

#[test]
fn subscribe_returns_a_400_when_data_is_missing() {
    let cases = vec![
        (
            FormData { email: String::new(), name: "le guin".to_string() },
            "missing the email",
        ),
        (
            FormData { email: "ursula_le_guin@gmail.com".to_string(), name: String::new() },
            "missing the name",
        ),
        (
            FormData { email: String::new(), name: String::new() },
            "missing both name and email",
        ),
    ];

    for (form, description) in cases {
        let mut store = Store::new();
        let client = test_client();

        let outcome = subscribe(&mut store, &client, "https://lists.example.com", form, 7);

        let err = match outcome {
            Err(e) => e,
            Ok(_) => panic!("subscribe accepted a payload {}", description),
        };
        assert_eq!(err.status_code(), 400);
        assert!(matches!(err, SubscribeError::ValidationError(_)));
        assert_eq!(store.subscriptions.len(), 0);
        assert_eq!(store.subscription_tokens.len(), 0);
    }
}

#[test]
fn subscribe_rejects_invalid_names_without_writing() {
    let bad_names = vec![
        "   ".to_string(),
        "le/guin".to_string(),
        "le(guin".to_string(),
        "le)guin".to_string(),
        "le\"guin".to_string(),
        "le<guin".to_string(),
        "le>guin".to_string(),
        "le\\guin".to_string(),
        "le{guin".to_string(),
        "le}guin".to_string(),
        "le\nguin".to_string(),
        "a".repeat(257),
    ];
    for name in bad_names {
        let mut store = Store::new();
        let client = test_client();
        let form = FormData { email: "ursula_le_guin@gmail.com".to_string(), name };

        let outcome = subscribe(&mut store, &client, "https://lists.example.com", form, 7);

        assert!(matches!(outcome, Err(SubscribeError::ValidationError(_))));
        assert_eq!(store.subscriptions.len(), 0);
        assert_eq!(store.subscription_tokens.len(), 0);
    }
}

#[test]
fn validate_name_accepts_reasonable_names() {
    for name in ["le guin", "Ursula", "a", &"a".repeat(256)] {
        assert!(SubscriberName::try_from(name.to_string()).is_ok());
    }
}

#[test]
fn validate_email_rejects_malformed_addresses() {
    let bad = [
        "",
        "ursulagmail.com",
        "@gmail.com",
        "ursula@",
        "ursula@gmailcom",
        "ursula@@gmail.com",
        "ursula @gmail.com",
        "ursula@gmail.com ",
        " ursula@gmail.com",
        "ur\tsula@gmail.com",
    ];
    for email in bad {
        assert!(
            SubscriberEmail::try_from(email.to_string()).is_err(),
            "accepted {:?}",
            email
        );
    }
}

#[test]
fn validate_email_accepts_standard_addresses() {
    for email in ["ursula_le_guin@gmail.com", "a@b.co", "x.y@z.example.org"] {
        assert!(
            SubscriberEmail::try_from(email.to_string()).is_ok(),
            "rejected {:?}",
            email
        );
    }
}

#[test]
fn new_subscriber_try_from_checks_both_fields() {
    let good = FormData {
        email: "ursula_le_guin@gmail.com".to_string(),
        name: "le guin".to_string(),
    };
    assert!(NewSubscriber::try_from(good).is_ok());

    let bad_email = FormData { email: "nope".to_string(), name: "le guin".to_string() };
    assert!(NewSubscriber::try_from(bad_email).is_err());

    let bad_name = FormData {
        email: "ursula_le_guin@gmail.com".to_string(),
        name: "{}".to_string(),
    };
    assert!(NewSubscriber::try_from(bad_name).is_err());
}

#[test]
fn new_subscriber_try_from_reports_the_first_failing_rule() {
    fn message(form: FormData) -> String {
        match NewSubscriber::try_from(form) {
            Err(m) => m,
            Ok(_) => panic!("an invalid form was accepted"),
        }
    }

    let bad_email = FormData { email: "nope".to_string(), name: "le guin".to_string() };
    assert_eq!(message(bad_email), "not a valid subscriber email");

    let bad_name = FormData {
        email: "ursula_le_guin@gmail.com".to_string(),
        name: "{}".to_string(),
    };
    assert_eq!(message(bad_name), "not a valid subscriber name");

    // With both fields invalid the email is checked first.
    let both_bad = FormData { email: "nope".to_string(), name: "{}".to_string() };
    assert_eq!(message(both_bad), "not a valid subscriber email");
}

#[test]
fn subscribe_on_an_empty_store_always_succeeds_for_valid_input() {
    // No pre-existing row can conflict with the fresh draws, so the
    // registrar owes success here.
    let mut store = Store::new();
    let client = test_client();
    let form = FormData {
        email: "ursula_le_guin@gmail.com".to_string(),
        name: "le guin".to_string(),
    };
    let outcome = subscribe(&mut store, &client, "https://lists.example.com", form, 7);
    assert!(outcome.is_ok());
}

#[test]
fn generated_tokens_are_twenty_alphanumeric_characters() {
    for _ in 0..8 {
        let token = generate_subscription_token();
        assert_eq!(token.len(), 20);
        assert!(token.chars().all(|c| c.is_ascii_alphanumeric()));
    }
}

#[test]
fn commit_refuses_a_duplicate_subscriber_id() {
    let mut store = Store::new();
    let tx = store.begin();
    let mut tx = tx;
    tx.new_subscriptions.push(Subscription {
        id: 1,
        email: "a@b.com".to_string(),
        name: "a".to_string(),
        status: SubscriberStatus::PendingConfirmation,
        subscribed_at: 0,
    });
    tx.commit(&mut store).unwrap();

    let mut tx = store.begin();
    tx.new_subscriptions.push(Subscription {
        id: 1,
        email: "c@d.com".to_string(),
        name: "c".to_string(),
        status: SubscriberStatus::PendingConfirmation,
        subscribed_at: 0,
    });
    let outcome = tx.commit(&mut store);
    assert!(matches!(outcome, Err(StoreError::SubscriberIdInUse)));
    assert_eq!(store.subscriptions.len(), 1);
}

#[test]
fn commit_refuses_a_duplicate_token_and_rolls_everything_back() {
    let mut store = Store::new();
    let mut tx = store.begin();
    tx.new_subscriptions.push(Subscription {
        id: 1,
        email: "a@b.com".to_string(),
        name: "a".to_string(),
        status: SubscriberStatus::PendingConfirmation,
        subscribed_at: 0,
    });
    tx.new_tokens.push(SubscriptionToken {
        subscription_token: "tok".to_string(),
        subscriber_id: 1,
    });
    tx.commit(&mut store).unwrap();

    let mut tx = store.begin();
    tx.new_subscriptions.push(Subscription {
        id: 2,
        email: "c@d.com".to_string(),
        name: "c".to_string(),
        status: SubscriberStatus::PendingConfirmation,
        subscribed_at: 0,
    });
    tx.new_tokens.push(SubscriptionToken {
        subscription_token: "tok".to_string(),
        subscriber_id: 2,
    });
    let outcome = tx.commit(&mut store);
    assert!(matches!(outcome, Err(StoreError::TokenInUse)));
    // Nothing of the refused transaction is visible: no orphaned subscriber.
    assert_eq!(store.subscriptions.len(), 1);
    assert_eq!(store.subscription_tokens.len(), 1);
}

#[test]
fn commit_refuses_a_token_bound_to_no_subscriber() {
    let mut store = Store::new();
    let mut tx = store.begin();
    tx.new_tokens.push(SubscriptionToken {
        subscription_token: "dangling".to_string(),
        subscriber_id: 42,
    });
    let outcome = tx.commit(&mut store);
    assert!(matches!(outcome, Err(StoreError::TokenWithoutSubscriber)));
    assert_eq!(store.subscription_tokens.len(), 0);
}

#[test]
fn error_chain_fmt_renders_the_cause_chain() {
    let rendered = error_chain_fmt(
        &"delivery failed".to_string(),
        &vec!["connection reset".to_string(), "socket closed".to_string()],
    );
    assert_eq!(
        rendered,
        "delivery failed\n\nCaused by:\n\tconnection reset\nCaused by:\n\tsocket closed\n"
    );
}

#[test]
fn error_chain_fmt_without_causes_is_just_the_message() {
    let rendered = error_chain_fmt(&"boom".to_string(), &Vec::new());
    assert_eq!(rendered, "boom\n\n");
}

#[test]
fn subscribe_error_status_codes_follow_the_taxonomy() {
    assert_eq!(
        SubscribeError::ValidationError("bad".to_string()).status_code(),
        400
    );
    assert_eq!(
        SubscribeError::StorageError("down".to_string()).status_code(),
        500
    );
    assert_eq!(
        SubscribeError::EmailDeliveryError("lost".to_string()).status_code(),
        500
    );
    assert_eq!(
        PublishError::UnexpectedError("down".to_string()).status_code(),
        500
    );
}
