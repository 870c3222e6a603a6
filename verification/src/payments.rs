use vstd::prelude::*;
use crate::db;
use crate::db::{spec_can_allocate, spec_payment_refs_ok, spec_update_outcome,
    spec_update_succeeds, Database};
use crate::errors::AppError;
use crate::models::{CreatePayment, Payment, PaymentResponse, PaymentStatus};

verus! {

/// Creates a payment record: whatever the request says, every new payment
/// starts in the `Pending` state with no external transaction reference.
/// The store assigns the identity and the creation stamp; a request naming
/// an unknown user or property, like any store fault, is an
/// `InternalServerError`, and then nothing was stored.
pub fn create_payment(db: &mut Database, new_payment: CreatePayment) -> (r: Result<
    PaymentResponse,
    AppError,
>)
    requires
        old(db).wf(),
        new_payment.currency@.len() > 0,
    ensures
        final(db).wf(),
        match r {
            Ok(resp) => {
                let p = final(db)@.payments.last();
                &&& final(db)@.payments == old(db)@.payments.push(p)
                &&& final(db)@.users == old(db)@.users
                &&& final(db)@.properties == old(db)@.properties
                &&& final(db)@.next_id == old(db)@.next_id + 1
                &&& final(db)@.next_stamp == old(db)@.next_stamp + 1
                &&& p.status == PaymentStatus::Pending
                &&& p.transaction_id is None
                &&& p.user_id == new_payment.user_id
                &&& p.property_id == new_payment.property_id
                &&& p.amount == new_payment.amount
                &&& p.currency@ == new_payment.currency@
                &&& p.notes == new_payment.notes
                &&& p.due_date == new_payment.due_date
                &&& p.period_start == new_payment.period_start
                &&& p.period_end == new_payment.period_end
                &&& resp.id == p.id
                &&& resp.user_id == p.user_id
                &&& resp.property_id == p.property_id
                &&& resp.amount == p.amount
                &&& resp.currency@ == p.currency@
                &&& resp.status == PaymentStatus::Pending
                &&& resp.notes == p.notes
                &&& resp.transaction_id is None
                &&& resp.due_date == p.due_date
                &&& resp.period_start == p.period_start
                &&& resp.period_end == p.period_end
            },
            Err(e) => {
                &&& final(db)@ == old(db)@
                &&& e is InternalServerError
            },
        },
        r is Ok <==> spec_payment_refs_ok(old(db)@, new_payment) && spec_can_allocate(old(db)@),
{
    let initial_status = PaymentStatus::Pending;
    let transaction_id: Option<String> = None;
    let payment = match db::create_payment(db, new_payment, initial_status, transaction_id) {
        Ok(p) => p,
        Err(e) => {
            return Err(e);
        },
    };
    Ok(
        PaymentResponse {
            id: payment.id,
            user_id: payment.user_id,
            property_id: payment.property_id,
            amount: payment.amount,
            currency: payment.currency,
            status: payment.status,
            notes: payment.notes,
            transaction_id: payment.transaction_id,
            due_date: payment.due_date,
            period_start: payment.period_start,
            period_end: payment.period_end,
        },
    )
}

/// Marks a payment completed, recording the gateway's external transaction
/// reference when one is supplied.
pub fn mark_completed(db: &mut Database, payment_id: u64, transaction_id: Option<String>) -> (r:
    Result<Payment, AppError>)
    requires
        old(db).wf(),
    ensures
        final(db).wf(),
        spec_update_outcome(
            old(db)@,
            final(db)@,
            payment_id,
            PaymentStatus::Completed,
            transaction_id,
            r,
        ),
        r is Ok <==> spec_update_succeeds(
            old(db)@,
            payment_id,
            PaymentStatus::Completed,
            transaction_id,
        ),
{
    db::update_payment_status(db, payment_id, PaymentStatus::Completed, transaction_id)
}

/// Marks a payment failed.
pub fn mark_failed(db: &mut Database, payment_id: u64) -> (r: Result<Payment, AppError>)
    requires
        old(db).wf(),
    ensures
        final(db).wf(),
        spec_update_outcome(old(db)@, final(db)@, payment_id, PaymentStatus::Failed, None, r),
        r is Ok <==> spec_update_succeeds(old(db)@, payment_id, PaymentStatus::Failed, None),
{
    db::update_payment_status(db, payment_id, PaymentStatus::Failed, None)
}

/// Marks a payment overdue.
pub fn mark_overdue(db: &mut Database, payment_id: u64) -> (r: Result<Payment, AppError>)
    requires
        old(db).wf(),
    ensures
        final(db).wf(),
        spec_update_outcome(old(db)@, final(db)@, payment_id, PaymentStatus::Overdue, None, r),
        r is Ok <==> spec_update_succeeds(old(db)@, payment_id, PaymentStatus::Overdue, None),
{
    db::update_payment_status(db, payment_id, PaymentStatus::Overdue, None)
}

/// Records a partial payment: the record moves to `PartiallyPaid`, keeping
/// any transaction reference already recorded.
pub fn apply_partial_payment(db: &mut Database, payment_id: u64) -> (r: Result<Payment, AppError>)
    requires
        old(db).wf(),
    ensures
        final(db).wf(),
        spec_update_outcome(
            old(db)@,
            final(db)@,
            payment_id,
            PaymentStatus::PartiallyPaid,
            None,
            r,
        ),
        r is Ok <==> spec_update_succeeds(
            old(db)@,
            payment_id,
            PaymentStatus::PartiallyPaid,
            None,
        ),
{
    db::update_payment_status(db, payment_id, PaymentStatus::PartiallyPaid, None)
}

} // verus!
