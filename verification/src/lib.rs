//! Batch-metadata accumulation for an outbound request pipeline.
//!
//! As events are gathered into one outbound batch, a
//! [`metadata::RequestMetadataBuilder`] tracks how many events are present,
//! their raw in-memory size, and an estimated JSON-encoded size grouped by a
//! caller-supplied classification key (a [`ledger::GroupedSizeLedger`]).
//! Once the batch is fully described, the builder is finalized into an
//! immutable [`metadata::RequestMetadata`] snapshot that downstream telemetry
//! and backpressure logic consume.

pub mod events;
pub mod ledger;
pub mod metadata;
