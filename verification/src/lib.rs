//! Verified decision logic of the proof-of-coverage oracles.
//!
//! The heart of the crate is [`purger`]: the engine that reclaims pending
//! beacon and witness reports, and entropy, once they have outlived their
//! verification window. Every stale report is first handed to the durable
//! archive as an invalid report with reason "stale" and only then removed
//! from the record store.
//!
//! [`balances`] and [`org`] hold the rules of two neighbouring services: the
//! debit of a payer's cached balance, and the bookkeeping of organizations.
//!
//! All input and output (database, file sinks, timers, signals) is left to
//! the caller. The purger is a set of state machines: the caller reports
//! what happened and is told what to do next.

pub mod balances;
pub mod org;
pub mod purger;
