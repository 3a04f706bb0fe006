use zero2prod::broadcast::{drive_broadcast, BroadcastRun};
use zero2prod::domain::{NewSubscriber, SubscriberEmail, SubscriberName};
use zero2prod::notify::{
    backoff_delay, classify_response, decide_next, AttemptOutcome, RetryPolicy, SendDecision,
    SendError,
};
use zero2prod::requests::begin_broadcast;
use zero2prod::store::SubscriberStore;

fn email(raw: &[u8]) -> SubscriberEmail {
    SubscriberEmail::parse(raw.to_vec()).unwrap()
}

#[test]
fn provider_responses_classify_by_class() {
    assert_eq!(classify_response(Some(200)), AttemptOutcome::Delivered);
    assert_eq!(classify_response(Some(299)), AttemptOutcome::Delivered);
    assert_eq!(classify_response(Some(500)), AttemptOutcome::TransientFailure);
    assert_eq!(classify_response(Some(503)), AttemptOutcome::TransientFailure);
    assert_eq!(classify_response(None), AttemptOutcome::TransientFailure);
    assert_eq!(classify_response(Some(400)), AttemptOutcome::PermanentFailure);
    assert_eq!(classify_response(Some(422)), AttemptOutcome::PermanentFailure);
    assert_eq!(classify_response(Some(301)), AttemptOutcome::PermanentFailure);
}

#[test]
fn backoff_doubles_and_saturates() {
    assert_eq!(backoff_delay(100, 0, 0), 100);
    assert_eq!(backoff_delay(100, 3, 7), 807);
    assert_eq!(backoff_delay(0, 10, 13), 13);
    assert_eq!(backoff_delay(u64::MAX, 1, 0), u64::MAX);
    assert_eq!(backoff_delay(1, 200, 0), u64::MAX);
}

#[test]
fn transient_failures_retry_until_the_budget_is_spent() {
    let policy = RetryPolicy { max_attempts: 3, base_delay_ms: 50 };
    assert_eq!(
        decide_next(&policy, 1, AttemptOutcome::TransientFailure, 0),
        SendDecision::RetryAfter(100)
    );
    assert_eq!(
        decide_next(&policy, 2, AttemptOutcome::TransientFailure, 0),
        SendDecision::RetryAfter(200)
    );
    assert_eq!(
        decide_next(&policy, 3, AttemptOutcome::TransientFailure, 0),
        SendDecision::Fail(SendError::Unavailable)
    );
}

#[test]
fn permanent_failures_are_never_retried() {
    let policy = RetryPolicy { max_attempts: 5, base_delay_ms: 50 };
    assert_eq!(
        decide_next(&policy, 1, AttemptOutcome::PermanentFailure, 0),
        SendDecision::Fail(SendError::Rejected)
    );
    assert_eq!(
        decide_next(&policy, 1, AttemptOutcome::Delivered, 0),
        SendDecision::Succeed
    );
}

#[test]
fn one_failed_send_yields_one_recorded_failure_and_no_abort() {
    let recipients = vec![email(b"a@b.c"), email(b"d@e.f"), email(b"g@h.i")];
    let mut run = BroadcastRun::begin(recipients);
    let mut attempted: Vec<Vec<u8>> = Vec::new();
    while let Some(next) = run.next_recipient() {
        let to = next.as_bytes().to_vec();
        attempted.push(to.clone());
        if to == b"d@e.f".to_vec() {
            run.record_outcome(Err(SendError::Rejected));
        } else {
            run.record_outcome(Ok(()));
        }
    }
    // no early abort: every recipient was attempted, in order
    assert_eq!(
        attempted,
        vec![b"a@b.c".to_vec(), b"d@e.f".to_vec(), b"g@h.i".to_vec()]
    );
    let report = run.into_report();
    assert_eq!(report.attempted, 3);
    assert_eq!(report.succeeded, 2);
    assert_eq!(report.failed, 1);
    assert_eq!(report.failures.len(), 1);
    assert_eq!(report.failures[0].recipient.as_bytes(), b"d@e.f");
    assert_eq!(report.failures[0].error, SendError::Rejected);
}

#[test]
fn driving_a_whole_fan_out_counts_every_outcome() {
    let recipients = vec![email(b"a@b.c"), email(b"d@e.f"), email(b"g@h.i"), email(b"j@k.l")];
    let outcomes = vec![
        Ok(()),
        Err(SendError::Unavailable),
        Ok(()),
        Err(SendError::Rejected),
    ];
    let report = drive_broadcast(recipients, &outcomes);
    assert_eq!(report.attempted, 4);
    assert_eq!(report.succeeded, 2);
    assert_eq!(report.failed, 2);
    assert_eq!(report.failures[0].recipient.as_bytes(), b"d@e.f");
    assert_eq!(report.failures[0].error, SendError::Unavailable);
    assert_eq!(report.failures[1].recipient.as_bytes(), b"j@k.l");
    assert_eq!(report.failures[1].error, SendError::Rejected);
}

#[test]
fn a_broadcast_reaches_exactly_the_confirmed_subscribers() {
    let mut store = SubscriberStore::new();
    let ns = NewSubscriber {
        email: email(b"a@b.c"),
        name: SubscriberName::parse(b"Alice".to_vec()).unwrap(),
    };
    store.create(ns, 1, 0).unwrap();
    let ns = NewSubscriber {
        email: email(b"d@e.f"),
        name: SubscriberName::parse(b"Bob".to_vec()).unwrap(),
    };
    store.create(ns, 2, 0).unwrap();
    store.bind_token(b"t2".to_vec(), 2).unwrap();
    store.confirm(b"t2").unwrap();

    let mut run = begin_broadcast(&store);
    let mut sent_to: Vec<Vec<u8>> = Vec::new();
    while let Some(next) = run.next_recipient() {
        sent_to.push(next.as_bytes().to_vec());
        run.record_outcome(Ok(()));
    }
    assert_eq!(sent_to, vec![b"d@e.f".to_vec()]);
    let report = run.into_report();
    assert_eq!(report.attempted, 1);
    assert_eq!(report.succeeded, 1);
    assert_eq!(report.failed, 0);
}
