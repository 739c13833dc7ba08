//! Verified core of two Soroban payment contracts: an escrow contract with an
//! administrator-driven migration procedure, and a payment contract with fees
//! and per-merchant payment forwarding.
//!
//! Every operation of a contract is a method on a plain state value; the host
//! side (storage, ledger time, authorisation, token transfers) hands in the
//! current time and carries out the transfers that the methods return.

pub mod address;
pub mod counting;
pub mod escrow;
pub mod escrow_laws;
pub mod fees;
pub mod forward_map;
pub mod payment;
pub mod payment_laws;
