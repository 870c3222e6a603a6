use rental_api::amount::Amount;
use rental_api::auth::register_user;
use rental_api::db::{list_payments, Database};
use rental_api::errors::AppError;
use rental_api::models::{CreatePayment, PaymentStatus, RegisterUser};
use rental_api::payments::{apply_partial_payment, create_payment, mark_completed, mark_failed,
    mark_overdue};

fn new_user(db: &mut Database, username: &str) -> u64 {
    register_user(
        db,
        RegisterUser { username: username.to_string(), password: "pw".to_string() },
    )
    .expect("registration succeeds")
    .id
}

fn payment_request(user_id: u64, amount: &str, currency: &str) -> CreatePayment {
    CreatePayment {
        user_id,
        property_id: None,
        amount: Amount::parse(amount).expect("amount parses"),
        currency: currency.to_string(),
        notes: None,
        due_date: None,
        period_start: None,
        period_end: None,
    }
}

#[test]
fn created_payment_is_pending_with_no_transaction_id() {
    let mut db = Database::new();
    let alice = new_user(&mut db, "alice");

    let resp = create_payment(&mut db, payment_request(alice, "100.00", "USD"))
        .expect("payment creation succeeds");
    assert_eq!(resp.status, PaymentStatus::Pending);
    assert_eq!(resp.transaction_id, None);
    assert_eq!(resp.user_id, alice);
    assert_eq!(resp.amount.minor_units(), 10_000);
    assert_eq!(resp.currency, "USD");

    let with_notes = create_payment(
        &mut db,
        CreatePayment {
            notes: Some("march rent".to_string()),
            ..payment_request(alice, "0.05", "EUR")
        },
    )
    .expect("payment creation succeeds");
    assert_eq!(with_notes.status, PaymentStatus::Pending);
    assert_eq!(with_notes.transaction_id, None);
    assert_eq!(with_notes.notes, Some("march rent".to_string()));
}

#[test]
fn payment_for_unknown_user_is_internal_error() {
    let mut db = Database::new();
    let err = create_payment(&mut db, payment_request(77, "10.00", "USD")).unwrap_err();
    assert!(matches!(err, AppError::InternalServerError(_)));
    assert_eq!(err.status_code(), 500);
}

#[test]
fn create_then_list_returns_that_payment_first() {
    let mut db = Database::new();
    let alice = new_user(&mut db, "alice");

    let resp = create_payment(&mut db, payment_request(alice, "100.00", "USD")).unwrap();

    let listed = list_payments(&db, Some(alice), None);
    assert_eq!(listed.len(), 1);
    assert_eq!(listed[0].id, resp.id);
    assert_eq!(listed[0].status, PaymentStatus::Pending);
    assert_eq!(listed[0].amount.minor_units(), 10_000);
}

#[test]
fn list_filters_by_user_and_orders_newest_first() {
    let mut db = Database::new();
    let alice = new_user(&mut db, "alice");
    let bob = new_user(&mut db, "bob");

    let a1 = create_payment(&mut db, payment_request(alice, "1.00", "USD")).unwrap();
    let b1 = create_payment(&mut db, payment_request(bob, "2.00", "USD")).unwrap();
    let a2 = create_payment(&mut db, payment_request(alice, "3.00", "USD")).unwrap();
    let a3 = create_payment(&mut db, payment_request(alice, "4.00", "USD")).unwrap();

    let for_alice = list_payments(&db, Some(alice), None);
    let ids: Vec<u64> = for_alice.iter().map(|p| p.id).collect();
    assert_eq!(ids, vec![a3.id, a2.id, a1.id]);
    for p in &for_alice {
        assert_eq!(p.user_id, alice);
    }

    let for_bob = list_payments(&db, Some(bob), None);
    assert_eq!(for_bob.len(), 1);
    assert_eq!(for_bob[0].id, b1.id);

    let all = list_payments(&db, None, None);
    assert_eq!(all.len(), 4);
    assert_eq!(all[0].id, a3.id);
}

#[test]
fn list_for_user_without_payments_is_empty() {
    let mut db = Database::new();
    let alice = new_user(&mut db, "alice");
    let bob = new_user(&mut db, "bob");
    create_payment(&mut db, payment_request(alice, "1.00", "USD")).unwrap();

    let listed = list_payments(&db, Some(bob), None);
    assert!(listed.is_empty());

    // an id that no user holds also lists as empty, not as an error
    assert!(list_payments(&db, Some(12345), None).is_empty());
}

#[test]
fn completing_a_pending_payment_records_transaction_id() {
    let mut db = Database::new();
    let alice = new_user(&mut db, "alice");
    let resp = create_payment(&mut db, payment_request(alice, "50.00", "USD")).unwrap();

    let done = mark_completed(&mut db, resp.id, Some("gw-tx-1".to_string()))
        .expect("pending payment completes");
    assert_eq!(done.status, PaymentStatus::Completed);
    assert_eq!(done.transaction_id, Some("gw-tx-1".to_string()));
    assert_eq!(done.id, resp.id);

    let listed = list_payments(&db, Some(alice), None);
    assert_eq!(listed[0].status, PaymentStatus::Completed);
    assert_eq!(listed[0].transaction_id, Some("gw-tx-1".to_string()));
}

#[test]
fn completed_payment_accepts_no_further_transition() {
    let mut db = Database::new();
    let alice = new_user(&mut db, "alice");
    let resp = create_payment(&mut db, payment_request(alice, "50.00", "USD")).unwrap();
    mark_completed(&mut db, resp.id, None).unwrap();

    assert!(matches!(mark_failed(&mut db, resp.id), Err(AppError::Conflict(_))));
    assert!(matches!(mark_overdue(&mut db, resp.id), Err(AppError::Conflict(_))));
    assert!(matches!(apply_partial_payment(&mut db, resp.id), Err(AppError::Conflict(_))));

    let listed = list_payments(&db, Some(alice), None);
    assert_eq!(listed[0].status, PaymentStatus::Completed);
}

#[test]
fn partial_then_completed_is_allowed() {
    let mut db = Database::new();
    let alice = new_user(&mut db, "alice");
    let resp = create_payment(&mut db, payment_request(alice, "80.00", "USD")).unwrap();

    let partial = apply_partial_payment(&mut db, resp.id).unwrap();
    assert_eq!(partial.status, PaymentStatus::PartiallyPaid);

    let overdue = mark_overdue(&mut db, resp.id).unwrap();
    assert_eq!(overdue.status, PaymentStatus::Overdue);

    let done = mark_completed(&mut db, resp.id, Some("gw-tx-9".to_string())).unwrap();
    assert_eq!(done.status, PaymentStatus::Completed);
}

#[test]
fn duplicate_transaction_id_conflicts() {
    let mut db = Database::new();
    let alice = new_user(&mut db, "alice");
    let p1 = create_payment(&mut db, payment_request(alice, "10.00", "USD")).unwrap();
    let p2 = create_payment(&mut db, payment_request(alice, "20.00", "USD")).unwrap();

    mark_completed(&mut db, p1.id, Some("gw-tx-1".to_string())).unwrap();
    let err = mark_completed(&mut db, p2.id, Some("gw-tx-1".to_string())).unwrap_err();
    assert!(matches!(err, AppError::Conflict(_)));
    assert_eq!(err.status_code(), 409);

    // the second payment is untouched and can still complete under another id
    let done = mark_completed(&mut db, p2.id, Some("gw-tx-2".to_string())).unwrap();
    assert_eq!(done.status, PaymentStatus::Completed);
}

#[test]
fn transition_of_unknown_payment_is_internal_error() {
    let mut db = Database::new();
    let err = mark_failed(&mut db, 99).unwrap_err();
    assert!(matches!(err, AppError::InternalServerError(_)));
}
