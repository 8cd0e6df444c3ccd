//! Governance and federation logic of a cooperative virtual machine:
//! proposal lifecycles, vote rules, retry bookkeeping for network
//! operations, and the text the command line prints.

pub mod auth;
pub mod cli;
pub mod engine;
pub mod federation;
pub mod lifecycle;
pub mod retry;
pub mod system;
pub mod text;
