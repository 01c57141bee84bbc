//! Batch download orchestration: bounded-concurrency scheduling of transfers,
//! resumable streaming with buffered writes, progress aggregation and the
//! final tally of outcomes. The network and disk work itself is done by the
//! caller, which feeds the decisions of this library with what it observed.
pub mod decimal;
pub mod failure;
pub mod transfer;
pub mod batch;
pub mod naming;
