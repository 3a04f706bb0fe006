use zero2prod::domain::{NewSubscriber, SubscriberEmail, SubscriberName};
use zero2prod::ids::u128_to_hex;
use zero2prod::issue::issue_confirmation;
use zero2prod::requests::{confirm_request, subscribe};
use zero2prod::store::{ConfirmOutcome, StoreError, SubscriberStatus, SubscriberStore};

fn new_subscriber(email: &[u8], name: &[u8]) -> NewSubscriber {
    NewSubscriber {
        email: SubscriberEmail::parse(email.to_vec()).unwrap(),
        name: SubscriberName::parse(name.to_vec()).unwrap(),
    }
}

#[test]
fn create_then_read_yields_the_stored_input_pending() {
    let mut store = SubscriberStore::new();
    let ns = new_subscriber(b"a@b.c", b"Alice");
    let id = store.create(ns, 7, 1_700_000_000).unwrap();
    assert_eq!(id, 7);
    let rec = store.get_record(7).unwrap();
    assert_eq!(rec.email.as_bytes(), b"a@b.c");
    assert_eq!(rec.name.as_bytes(), b"Alice");
    assert_eq!(rec.status, SubscriberStatus::PendingConfirmation);
    assert_eq!(rec.subscribed_at, 1_700_000_000);
}

#[test]
fn creating_a_duplicate_email_is_refused() {
    let mut store = SubscriberStore::new();
    store
        .create(new_subscriber(b"a@b.c", b"Alice"), 1, 0)
        .unwrap();
    let r = store.create(new_subscriber(b"a@b.c", b"Alice again"), 2, 0);
    assert_eq!(r, Err(StoreError::DuplicateSubscriber));
    assert_eq!(store.subscriber_count(), 1);
}

#[test]
fn confirming_a_valid_token_transitions_to_confirmed() {
    let mut store = SubscriberStore::new();
    store
        .create(new_subscriber(b"a@b.c", b"Alice"), 1, 0)
        .unwrap();
    store.bind_token(b"token-1".to_vec(), 1).unwrap();
    let outcome = store.confirm(b"token-1").unwrap();
    assert_eq!(outcome, ConfirmOutcome::NewlyConfirmed);
    assert_eq!(
        store.get_record(1).unwrap().status,
        SubscriberStatus::Confirmed
    );
}

#[test]
fn confirming_twice_is_idempotent() {
    let mut store = SubscriberStore::new();
    store
        .create(new_subscriber(b"a@b.c", b"Alice"), 1, 0)
        .unwrap();
    store.bind_token(b"token-1".to_vec(), 1).unwrap();
    assert_eq!(
        store.confirm(b"token-1").unwrap(),
        ConfirmOutcome::NewlyConfirmed
    );
    assert_eq!(
        store.confirm(b"token-1").unwrap(),
        ConfirmOutcome::AlreadyConfirmed
    );
    assert_eq!(
        store.get_record(1).unwrap().status,
        SubscriberStatus::Confirmed
    );
}

#[test]
fn an_unknown_token_always_fails_the_same_way() {
    let mut store = SubscriberStore::new();
    store
        .create(new_subscriber(b"a@b.c", b"Alice"), 1, 0)
        .unwrap();
    store.bind_token(b"token-1".to_vec(), 1).unwrap();
    // a similar token and a wholly different one fail identically
    assert_eq!(store.confirm(b"token-2"), Err(StoreError::UnknownToken));
    assert_eq!(store.confirm(b"zzz"), Err(StoreError::UnknownToken));
    assert_eq!(
        store.get_record(1).unwrap().status,
        SubscriberStatus::PendingConfirmation
    );
}

#[test]
fn binding_the_same_token_twice_is_refused() {
    let mut store = SubscriberStore::new();
    store
        .create(new_subscriber(b"a@b.c", b"Alice"), 1, 0)
        .unwrap();
    store
        .create(new_subscriber(b"d@e.f", b"Bob"), 2, 0)
        .unwrap();
    store.bind_token(b"token-1".to_vec(), 1).unwrap();
    assert_eq!(
        store.bind_token(b"token-1".to_vec(), 2),
        Err(StoreError::DuplicateToken)
    );
}

#[test]
fn binding_a_token_to_an_unknown_subscriber_is_refused() {
    let mut store = SubscriberStore::new();
    assert_eq!(
        store.bind_token(b"token-1".to_vec(), 99),
        Err(StoreError::UnknownSubscriber)
    );
}

#[test]
fn list_confirmed_returns_exactly_the_confirmed_emails_in_order() {
    let mut store = SubscriberStore::new();
    store
        .create(new_subscriber(b"a@b.c", b"Alice"), 1, 0)
        .unwrap();
    store
        .create(new_subscriber(b"d@e.f", b"Bob"), 2, 0)
        .unwrap();
    store
        .create(new_subscriber(b"g@h.i", b"Carol"), 3, 0)
        .unwrap();
    store.bind_token(b"t1".to_vec(), 1).unwrap();
    store.bind_token(b"t3".to_vec(), 3).unwrap();
    store.confirm(b"t1").unwrap();
    store.confirm(b"t3").unwrap();
    let confirmed = store.list_confirmed();
    let views: Vec<&[u8]> = confirmed.iter().map(|e| e.as_bytes()).collect();
    assert_eq!(views, vec![&b"a@b.c"[..], &b"g@h.i"[..]]);
}

#[test]
fn issued_tokens_confirm_their_subscriber() {
    let mut store = SubscriberStore::new();
    assert_eq!(200, subscribe(&mut store, b"name=bo&email=bo%40gmail.com"));
    let id = store.record_at(0).id;
    let issue = issue_confirmation(&mut store, id, b"https://newsletter.example").unwrap();
    assert_eq!(issue.token.len(), 64);
    let mut expected_link = b"https://newsletter.example".to_vec();
    expected_link.extend_from_slice(b"/subscriptions/confirm?subscription_token=");
    expected_link.extend_from_slice(&issue.token);
    assert_eq!(issue.link, expected_link);

    assert_eq!(401, confirm_request(&mut store, b"some-other-token"));
    assert_eq!(200, confirm_request(&mut store, &issue.token));
    assert_eq!(
        store.get_record(id).unwrap().status,
        SubscriberStatus::Confirmed
    );
}

#[test]
fn issuing_for_an_unknown_subscriber_is_refused() {
    let mut store = SubscriberStore::new();
    let r = issue_confirmation(&mut store, 42, b"https://x.example");
    assert!(matches!(r, Err(StoreError::UnknownSubscriber)));
}

#[test]
fn hex_rendering_is_zero_padded_lower_case() {
    assert_eq!(u128_to_hex(0), vec![b'0'; 32]);
    assert_eq!(
        u128_to_hex(0xdead_beef),
        b"000000000000000000000000deadbeef".to_vec()
    );
    assert_eq!(u128_to_hex(u128::MAX), vec![b'f'; 32]);
}
