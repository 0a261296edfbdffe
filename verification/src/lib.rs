//! A pooled lending protocol: lenders supply an asset to a shared pool,
//! borrowers draw against it with a scored remittance credential as collateral,
//! and interest is distributed to lenders pro rata as loans are repaid.
//!
//! Every component is an explicit ledger value that is passed by reference into
//! each operation. An operation either succeeds and commits all of its changes
//! or fails and leaves every ledger it was handed unchanged.
//!
//! The ledgers move no funds, publish no events and read no clock: an
//! operation takes the time as an argument and returns what its caller is to
//! move or publish. The only values of the Soroban host in the ledgers are the
//! payment histories and the strings of verification requests; what is assumed
//! of them stands in the module `host`.

pub mod account;
pub mod error;
pub mod host;
pub mod math;
pub mod lending_pool;
pub mod remittance_nft;
pub mod loan_manager;
pub mod oracle_verifier;
pub mod laws;
