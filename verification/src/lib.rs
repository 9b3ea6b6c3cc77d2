//! A time-locked escrow between two parties for one deposit of a fungible
//! asset. An initializer deposits an amount into a vault that only this
//! program controls; the beneficiary may withdraw it once the release time
//! has come; the initializer may cancel and take the deposit back.
//!
//! - [`address`]: thirty-two byte identities.
//! - [`pda`]: the derived addresses of the record and of the vault authority.
//! - [`state`]: the escrow record.
//! - [`token`]: holding accounts and the orders given to the custody service.
//! - [`contexts`]: the accounts that each request names, and the checks of
//!   their derived addresses.
//! - [`layout`]: the record as stored bytes.
//! - [`errors`]: why a request is rejected.
//! - [`instructions`]: the decision of each request.
//! - [`ledger`]: accounts stored under their addresses.
//! - [`processor`]: the three requests as atomic transitions of a ledger.
//! - [`laws`]: what holds of every ledger and request.

pub mod address;
pub mod contexts;
pub mod errors;
pub mod instructions;
pub mod laws;
pub mod layout;
pub mod ledger;
pub mod pda;
pub mod processor;
pub mod state;
pub mod token;
