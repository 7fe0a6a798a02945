//! Governance of upgrades to an always-running program: proposals approved by
//! a quorum of members, held under a mandatory timelock before execution, and
//! reversible through a staged rollback pipeline if an executed upgrade later
//! proves unsafe.

pub mod approval;
pub mod errors;
pub mod migration;
pub mod monitoring;
pub mod notify;
pub mod proposal;
pub mod rollback;
pub mod security;
pub mod timelock;
