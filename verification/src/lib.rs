//! Verified model of the Astro Orbit Soroban contracts: organizations,
//! projects, deployments, role permissions and the registry index.
//!
//! Each contract is a state machine over its own instance storage. The
//! storage is held here as plain values, the ledger environment (timestamp,
//! authorizations, emitted events) as an [`env::Env`], and every entry point
//! is proved against an abstract specification of the contract.

pub mod errors;
pub mod types;
pub mod env;
pub mod auth;
pub mod events;
pub mod table;
pub mod organization;
pub mod project;
pub mod deployment;
pub mod permissions;
pub mod registry;
