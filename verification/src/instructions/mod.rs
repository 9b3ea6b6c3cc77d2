//! The decisions of the three requests, apart from the ledger they act on.

pub mod cancel;
pub mod initialize;
pub mod release;
