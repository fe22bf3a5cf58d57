//! A payments engine: client accounts, the transactions applied to them, and their disputes.
pub mod amount;
pub mod bankrecords;
pub mod client;
pub mod errors;
pub mod processor;
pub mod report;
pub mod transaction;
