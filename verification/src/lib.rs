//! A small ledger-resident bookkeeping library: it records allowance
//! disbursements from one payer to child recipients, keeping a cumulative
//! total and the most recently paid recipient in durable entries that
//! expire unless a write renews their horizon.

pub mod contract;
pub mod laws;
pub mod storage;
