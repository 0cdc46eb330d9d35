//! Reconciles a local rhythm-game profile's per-chart statistics with the
//! player's score history from a remote leaderboard service.
//!
//! The library holds the verified core of the pipeline: pagination planning
//! for the remote fetch, translation of the remote mode string into the local
//! characteristic schema, identity-based indexing of chart records, and
//! conflict resolution when merging remote scores into local statistics.
//! File and network I/O live outside the library and hand it plain values.

pub mod characteristic;
pub mod chart_key;
pub mod data;
pub mod orchestrate;
pub mod pagination;
pub mod reconcile;
pub mod scoresaber;
