//! Payments engine: fixed-point money and the transaction state machine
//! that applies deposits, withdrawals, disputes, resolutions and
//! chargebacks to per-client accounts.

pub mod dlq;
pub mod domain;
pub mod engine;
pub mod ingestion;
pub mod laws;
pub mod numeral;
pub mod output_repository;
pub mod text;
