use zero2prod::requests::subscribe;
use zero2prod::store::{SubscriberStatus, SubscriberStore};

#[test]
fn subscribe_returns_a_200_for_valid_form_data() {
    let mut store = SubscriberStore::new();
    let body = "name=bo%20manev&email=bo_manev%40gmail.com";

    let status = subscribe(&mut store, body.as_bytes());

    assert_eq!(200, status);
    assert_eq!(1, store.subscriber_count());
    let saved = store.record_at(0);
    assert_eq!(saved.email.as_bytes(), b"bo_manev@gmail.com");
    assert_eq!(saved.name.as_bytes(), b"bo manev");
}

#[test]
fn subscribe_returns_a_400_when_data_is_missing() {
    let mut store = SubscriberStore::new();
    let test_cases = vec![
        ("name=bo%20manev", "missing the email"),
        ("email=bo_manev%40gmail.com", "missing the name"),
        ("", "missing both name and email"),
    ];

    for (invalid_body, error_message) in test_cases {
        let status = subscribe(&mut store, invalid_body.as_bytes());

        assert_eq!(
            400, status,
            "Failed with 400 Bad Request with payload {}",
            error_message
        );
    }
}

#[test]
fn subscribe_returns_a_400_when_fields_are_present_but_invalid() {
    let mut store = SubscriberStore::new();
    let test_cases = vec![
        ("name=&email=bo_manev%40gmail.com", "empty name"),
        ("name=bo%20manev&email=", "empty email"),
        ("name=bo%20manev&email=not-an-email", "invalid email"),
    ];

    for (body, desc) in test_cases {
        let status = subscribe(&mut store, body.as_bytes());

        assert_eq!(
            400, status,
            "Failed to return 400 Bad Request with payload {}",
            desc
        );
    }
}

#[test]
fn subscribe_leaves_the_store_untouched_on_validation_failure() {
    let mut store = SubscriberStore::new();
    let status = subscribe(&mut store, b"name=bo&email=not-an-email");
    assert_eq!(400, status);
    assert_eq!(0, store.subscriber_count());
}

#[test]
fn subscribing_the_same_email_twice_is_refused_by_the_store() {
    let mut store = SubscriberStore::new();
    let body = b"name=bo%20manev&email=bo_manev%40gmail.com";
    assert_eq!(200, subscribe(&mut store, body));
    assert_eq!(500, subscribe(&mut store, body));
    assert_eq!(1, store.subscriber_count());
}

#[test]
fn a_new_subscriber_is_pending_confirmation() {
    let mut store = SubscriberStore::new();
    assert_eq!(
        200,
        subscribe(&mut store, b"name=bo%20manev&email=bo_manev%40gmail.com")
    );
    let saved = store.record_at(0);
    assert_eq!(saved.status, SubscriberStatus::PendingConfirmation);
}
