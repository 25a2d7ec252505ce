use zero2prod::domain::{NewSubscriber, SubscriberEmail, SubscriberName};
use zero2prod::email_client::EmailClient;
use zero2prod::subscription::send_confirmation_email;

#[test]
fn send_email_carries_sender_recipient_and_content_unchanged() {
    let sender = SubscriberEmail::try_from("newsletter@example.com".to_string()).unwrap();
    let client = EmailClient::new(sender);
    let recipient = SubscriberEmail::try_from("reader@example.com".to_string()).unwrap();

    let request = client.send_email(&recipient, "Hello", "<b>hi</b>", "hi");

    assert_eq!(request.from, "newsletter@example.com");
    assert_eq!(request.to, "reader@example.com");
    assert_eq!(request.subject, "Hello");
    assert_eq!(request.html_body, "<b>hi</b>");
    assert_eq!(request.text_body, "hi");
}

#[test]
fn confirmation_email_embeds_the_raw_token_not_an_id() {
    let sender = SubscriberEmail::try_from("newsletter@example.com".to_string()).unwrap();
    let client = EmailClient::new(sender);
    let new_subscriber = NewSubscriber {
        name: SubscriberName::try_from("le guin".to_string()).unwrap(),
        email: SubscriberEmail::try_from("ursula_le_guin@gmail.com".to_string()).unwrap(),
    };

    let request = send_confirmation_email(
        &client,
        &new_subscriber,
        "https://lists.example.com",
        "THETOKENTHETOKEN1234",
    );

    let link = "https://lists.example.com/subscriptions/confirm?subscription_token=THETOKENTHETOKEN1234";
    assert_eq!(request.to, "ursula_le_guin@gmail.com");
    assert_eq!(request.subject, "Welcome!");
    assert_eq!(
        request.text_body,
        format!("Welcome to our newsletter!\nVisit {} to confirm your subscription.", link)
    );
    assert_eq!(
        request.html_body,
        format!(
            "Welcome to our newsletter!<br />Click <a href=\"{}\">here</a> to confirm your subscription.",
            link
        )
    );
}
