//! Core of a small rental-management service: password-based registration
//! and login issuing signed bearer tokens, and payment records with an
//! explicit status lifecycle, over an in-memory relational store.

pub mod amount;
pub mod auth;
pub mod db;
pub mod errors;
pub mod models;
pub mod password;
pub mod payments;
pub mod text;
pub mod token;

use vstd::prelude::*;

verus! {

} // verus!
