use zero2prod::domain::NewSubscriber;
use zero2prod::email::{
    classify_send_failure, compose_confirmation_email, confirmation_link, send_confirmation_email,
    Outbox, SendError,
};
use zero2prod::routes::FormData;

fn ursula() -> NewSubscriber {
    NewSubscriber::try_from(FormData {
        email: "ursula@example.com".to_string(),
        name: "Ursula Le Guin".to_string(),
    })
    .unwrap()
}

#[test]
fn the_link_is_base_url_path_and_token() {
    assert_eq!(
        confirmation_link("https://news.example.com", "abc123"),
        "https://news.example.com/subscriptions/confirm?subscription_token=abc123"
    );
    assert_eq!(confirmation_link("", ""), "/subscriptions/confirm?subscription_token=");
}

#[test]
fn the_email_is_addressed_titled_and_holds_the_link_twice() {
    let email = compose_confirmation_email(&ursula(), "http://127.0.0.1", "mytoken");
    assert_eq!(email.recipient, "ursula@example.com");
    assert_eq!(email.subject, "Welcome!");
    assert_eq!(
        email.text_body,
        "Welcome to our newsletter!\n Visit http://127.0.0.1/subscriptions/confirm?subscription_token=mytoken to confirm your subscription."
    );
    assert_eq!(
        email.html_body,
        "Welcome to our newsletter!<br />Click <a href=\"http://127.0.0.1/subscriptions/confirm?subscription_token=mytoken\">here</a> to confirm your subscription."
    );
}

#[test]
fn a_delivering_outbox_keeps_what_it_delivered() {
    let mut outbox = Outbox::new();
    assert_eq!(outbox.sent_count(), 0);
    assert_eq!(send_confirmation_email(&mut outbox, &ursula(), "http://a", "t1"), Ok(()));
    assert_eq!(send_confirmation_email(&mut outbox, &ursula(), "http://a", "t2"), Ok(()));
    assert_eq!(outbox.sent_count(), 2);
    assert_eq!(outbox.attempt_count(), 2);
    assert_eq!(outbox.attempted_email(0).unwrap().text_body, outbox.sent_email(0).unwrap().text_body);
    assert!(outbox.attempted_email(2).is_none());
    assert!(outbox.sent_email(2).is_none());
    assert!(outbox.sent_email(0).unwrap().text_body.contains("subscription_token=t1 "));
    assert!(outbox.sent_email(1).unwrap().html_body.contains("subscription_token=t2\""));
    assert_eq!(outbox.sent_email(1).unwrap().recipient, "ursula@example.com");
}

#[test]
fn a_failing_outbox_passes_its_failure_on_unchanged_and_delivers_nothing() {
    for failure in [SendError::Unreachable, SendError::Rejected] {
        let mut outbox = Outbox::failing(failure);
        assert_eq!(send_confirmation_email(&mut outbox, &ursula(), "http://a", "t"), Err(failure));
        assert_eq!(outbox.sent_count(), 0);
        assert_eq!(outbox.attempt_count(), 1);
        assert_eq!(send_confirmation_email(&mut outbox, &ursula(), "http://a", "u"), Err(failure));
        assert_eq!(outbox.sent_count(), 0);
        assert_eq!(outbox.attempt_count(), 2);
    }
}

#[test]
fn a_failed_send_is_attempted_once_with_the_email_as_written() {
    let mut outbox = Outbox::failing(SendError::Rejected);
    assert_eq!(
        send_confirmation_email(&mut outbox, &ursula(), "http://a", "t"),
        Err(SendError::Rejected)
    );
    assert_eq!(outbox.attempt_count(), 1);
    let attempted = outbox.attempted_email(0).unwrap();
    let written = compose_confirmation_email(&ursula(), "http://a", "t");
    assert_eq!(attempted.recipient, "ursula@example.com");
    assert_eq!(attempted.subject, "Welcome!");
    assert_eq!(attempted.html_body, written.html_body);
    assert_eq!(attempted.text_body, written.text_body);
    assert!(attempted.text_body.contains("http://a/subscriptions/confirm?subscription_token=t"));
}

#[test]
fn a_copy_of_an_email_says_the_same() {
    let written = compose_confirmation_email(&ursula(), "http://a", "t");
    let copy = written.duplicate();
    assert_eq!(copy.recipient, written.recipient);
    assert_eq!(copy.subject, written.subject);
    assert_eq!(copy.html_body, written.html_body);
    assert_eq!(copy.text_body, written.text_body);
}

#[test]
fn failures_of_the_transport_are_told_apart() {
    assert_eq!(classify_send_failure(true, false), SendError::Unreachable);
    assert_eq!(classify_send_failure(false, true), SendError::Unreachable);
    assert_eq!(classify_send_failure(true, true), SendError::Unreachable);
    assert_eq!(classify_send_failure(false, false), SendError::Rejected);
}

#[test]
fn send_errors_have_a_message() {
    assert_eq!(
        SendError::Unreachable.message(),
        "The email service could not be reached in time."
    );
    assert_eq!(SendError::Rejected.message(), "The email service turned the email down.");
}
