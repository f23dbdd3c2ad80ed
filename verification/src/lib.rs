//! Verified core of a revenue-bond contract: bonds pay their owner, each period, a fixed
//! minimum plus a share of the issuer's attested revenue, capped per period and by the
//! face value still outstanding.
//!
//! - `payment`: the per-period payment formula (saturating arithmetic).
//! - `types`: addresses, terms, bonds, redemption records, payments, errors.
//! - `model`: the mathematical state of the contract, its invariant and its transitions.
//! - `lifecycle`: checks and transitions of a single bond.
//! - `contract`: the contract state and its operations, each proved against `model`.
//! - `laws`: properties that hold across operations.
use vstd::prelude::*;

pub mod payment;
pub mod types;
pub mod model;
pub mod laws;
pub mod lifecycle;
pub mod contract;
