//! A deterministic vesting-schedule validator for token-claim contracts.
//!
//! A charm (an application-defined token state carried by a transaction
//! output) holds a vesting schedule and a running total of tokens already
//! claimed.  Each spend of such an output proposes a claim; [`validate`]
//! decides, purely from the supplied inputs, whether the claim respects the
//! schedule and whether the continuation output carries the state forward
//! correctly.
//!
//! [`validate`]: validate::validate

pub mod schedule;
pub mod validate;
