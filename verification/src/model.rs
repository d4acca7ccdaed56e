//! Data model of the estate custodian: entities nested in the per-principal
//! user aggregate, the error taxonomy, and the schema constants.

pub mod asset;
pub mod audit;
pub mod base;
pub mod bridge;
pub mod custody;
pub mod distribution;
pub mod document;
pub mod errors;
pub mod heir;
pub mod integrity;
pub mod payout;
pub mod user;
