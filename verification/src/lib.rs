//! A structural generator of record builders.
//!
//! Given the description of a record type — an ordered list of named,
//! typed fields, each optionally carrying one metadata annotation — the
//! generator classifies every field as required, optional or accumulating,
//! and synthesizes the companion builder's declarations: one storage slot,
//! one mutator method and one finalize-time extraction rule per field, plus
//! a factory that starts every slot at its empty default.  Generation
//! either succeeds with the full bundle or fails outright.
//!
//! The `runtime` module animates a generated bundle, so that the builder's
//! behaviour — incremental mutation, then a finalize that validates the
//! presence of every required field — is itself executable and verified,
//! and the `laws` module proves the behavioural guarantees: setter calls
//! commute across distinct fields, a missing required field fails by name,
//! optional fields are last-write-wins, accumulators keep call order, and
//! finalizing drains every slot except the accumulating ones.

pub mod classify;
pub mod laws;
pub mod model;
pub mod runtime;
pub mod synth;
