use vstd::prelude::*;
use crate::amount::Amount;

verus! {

/// A calendar date with day precision and no time of day; the services
/// carry dates through unchanged.
#[derive(Clone, Copy, PartialEq, Eq, Structural, Debug)]
pub struct CalendarDate {
    pub year: i32,
    pub month: u8,
    pub day: u8,
}

/// A stored user: a unique identity with a unique, non-empty username and
/// the salted one-way hash of the password, never the plaintext. Users are
/// immutable after registration.
#[derive(Debug)]
pub struct User {
    pub id: u64,
    pub username: String,
    pub password_hash: String,
    pub created_at: u64,
    pub updated_at: u64,
}

/// The lifecycle state of a payment.
#[derive(Clone, Copy, PartialEq, Eq, Structural, Debug)]
pub enum PaymentStatus {
    Pending,
    Completed,
    Failed,
    Overdue,
    PartiallyPaid,
}

impl PaymentStatus {
    /// The allowed lifecycle moves: a pending payment may resolve, lapse or
    /// be split; a partially paid or overdue payment may still resolve; a
    /// completed or failed payment is final. No state returns to `Pending`.
    pub open spec fn spec_can_transition(self, to: PaymentStatus) -> bool {
        match (self, to) {
            (PaymentStatus::Pending, PaymentStatus::Completed) => true,
            (PaymentStatus::Pending, PaymentStatus::Failed) => true,
            (PaymentStatus::Pending, PaymentStatus::Overdue) => true,
            (PaymentStatus::Pending, PaymentStatus::PartiallyPaid) => true,
            (PaymentStatus::PartiallyPaid, PaymentStatus::Completed) => true,
            (PaymentStatus::PartiallyPaid, PaymentStatus::Failed) => true,
            (PaymentStatus::PartiallyPaid, PaymentStatus::Overdue) => true,
            (PaymentStatus::Overdue, PaymentStatus::Completed) => true,
            (PaymentStatus::Overdue, PaymentStatus::Failed) => true,
            (PaymentStatus::Overdue, PaymentStatus::PartiallyPaid) => true,
            _ => false,
        }
    }

    /// Whether the state machine allows moving from this status to `to`.
    pub fn can_transition(self, to: PaymentStatus) -> (r: bool)
        ensures
            r == self.spec_can_transition(to),
    {
        match (self, to) {
            (PaymentStatus::Pending, PaymentStatus::Completed) => true,
            (PaymentStatus::Pending, PaymentStatus::Failed) => true,
            (PaymentStatus::Pending, PaymentStatus::Overdue) => true,
            (PaymentStatus::Pending, PaymentStatus::PartiallyPaid) => true,
            (PaymentStatus::PartiallyPaid, PaymentStatus::Completed) => true,
            (PaymentStatus::PartiallyPaid, PaymentStatus::Failed) => true,
            (PaymentStatus::PartiallyPaid, PaymentStatus::Overdue) => true,
            (PaymentStatus::Overdue, PaymentStatus::Completed) => true,
            (PaymentStatus::Overdue, PaymentStatus::Failed) => true,
            (PaymentStatus::Overdue, PaymentStatus::PartiallyPaid) => true,
            _ => false,
        }
    }
}

/// A stored payment record. The amount is an exact fixed-point decimal;
/// the transaction id is an external reference, unique when present.
#[derive(Debug)]
pub struct Payment {
    pub id: u64,
    pub user_id: u64,
    pub property_id: Option<u64>,
    pub amount: Amount,
    pub currency: String,
    pub status: PaymentStatus,
    pub notes: Option<String>,
    pub transaction_id: Option<String>,
    pub due_date: Option<CalendarDate>,
    pub period_start: Option<CalendarDate>,
    pub period_end: Option<CalendarDate>,
    pub created_at: u64,
    pub updated_at: u64,
}

impl Clone for User {
    fn clone(&self) -> (res: Self)
        ensures
            res == *self,
    {
        User {
            id: self.id,
            username: self.username.clone(),
            password_hash: self.password_hash.clone(),
            created_at: self.created_at,
            updated_at: self.updated_at,
        }
    }
}

impl Clone for Payment {
    fn clone(&self) -> (res: Self)
        ensures
            res == *self,
    {
        Payment {
            id: self.id,
            user_id: self.user_id,
            property_id: self.property_id,
            amount: self.amount,
            currency: self.currency.clone(),
            status: self.status,
            notes: clone_opt_string(&self.notes),
            transaction_id: clone_opt_string(&self.transaction_id),
            due_date: self.due_date,
            period_start: self.period_start,
            period_end: self.period_end,
            created_at: self.created_at,
            updated_at: self.updated_at,
        }
    }
}

/// An exact copy of an optional string.
pub fn clone_opt_string(s: &Option<String>) -> (res: Option<String>)
    ensures
        res == *s,
{
    match s {
        Some(x) => Some(x.clone()),
        None => None,
    }
}

/// A stored property.
#[derive(Debug)]
pub struct Property {
    pub id: u64,
    pub address: String,
    pub unit_number: Option<String>,
    pub current_rent_amount: Amount,
    pub current_tenant_id: Option<u64>,
    pub created_at: u64,
    pub updated_at: u64,
}

impl Clone for Property {
    fn clone(&self) -> (res: Self)
        ensures
            res == *self,
    {
        Property {
            id: self.id,
            address: self.address.clone(),
            unit_number: clone_opt_string(&self.unit_number),
            current_rent_amount: self.current_rent_amount,
            current_tenant_id: self.current_tenant_id,
            created_at: self.created_at,
            updated_at: self.updated_at,
        }
    }
}

/// Registration request body.
#[derive(Clone, Debug)]
pub struct RegisterUser {
    pub username: String,
    pub password: String,
}

/// Login request body.
#[derive(Clone, Debug)]
pub struct LoginUser {
    pub username: String,
    pub password: String,
}

/// Request body for creating a new payment.
#[derive(Clone, Debug)]
pub struct CreatePayment {
    pub user_id: u64,
    pub property_id: Option<u64>,
    pub amount: Amount,
    pub currency: String,
    pub notes: Option<String>,
    pub due_date: Option<CalendarDate>,
    pub period_start: Option<CalendarDate>,
    pub period_end: Option<CalendarDate>,
}

/// Request body for creating a new property.
#[derive(Clone, Debug)]
pub struct CreateProperty {
    pub address: String,
    pub unit_number: Option<String>,
    pub current_rent_amount: Amount,
    pub current_tenant_id: Option<u64>,
}

/// Successful login response: who authenticated, and the bearer token.
#[derive(Clone, Debug)]
pub struct AuthResponse {
    pub user_id: u64,
    pub username: String,
    pub token: String,
}

/// Response body for a created payment.
#[derive(Clone, Debug)]
pub struct PaymentResponse {
    pub id: u64,
    pub user_id: u64,
    pub property_id: Option<u64>,
    pub amount: Amount,
    pub currency: String,
    pub status: PaymentStatus,
    pub notes: Option<String>,
    pub transaction_id: Option<String>,
    pub due_date: Option<CalendarDate>,
    pub period_start: Option<CalendarDate>,
    pub period_end: Option<CalendarDate>,
}

} // verus!
