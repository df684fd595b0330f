//! Governance for a staking-backed DAO: a proposal state machine whose
//! voting power comes from a height-indexed snapshot ledger of stakes, and
//! a claims queue that releases unstaked tokens after a lock period.
pub mod keyed;
pub mod ledger;
pub mod coin;
pub mod claims;
pub mod staking;
pub mod text;
pub mod decimal;
pub mod config;
pub mod proposal;
pub mod governance;
