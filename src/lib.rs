//! Reconstruction of a trading position from an executed trade history.
//!
//! Quantities are fixed-point integers: one whole unit of an asset is
//! [`trade::QTY_SCALE`] quantity units. Prices are integers in whatever
//! smallest currency unit the caller chooses.
pub mod trade;
pub mod selector;
pub mod position;
