//! A verified core for a coupon service: password hashing and verification,
//! short-lived signed bearer tokens, an authorization gate, and an atomic
//! claim/release/update protocol over a pool of expiring coupon records with
//! a first-user-becomes-admin bootstrap policy.

pub mod accounts;
pub mod errors;
pub mod gate;
mod ids;
pub mod ledger;
pub mod service;
pub mod text;
pub mod token;
pub mod vault;
