//! Streaming feature extraction for stochastic signals: the verified core.
//!
//! This crate holds the integer and structural logic of the signal toolkit:
//! snapshot validation, the rolling volatility window, histogram counting,
//! the Hurst window schedule and surprise-sequence sizing. Samples are
//! carried as IEEE-754 bit patterns (`u32` for single, `u64` for double
//! precision), so finiteness and storage are decided exactly.

pub mod entropy;
pub mod hurst;
pub mod ieee754;
pub mod indicators;
pub mod snapshot;
pub mod surprise;
pub mod volatility;

pub use snapshot::{SNAPSHOT_SCHEMA_VERSION, SnapshotError};
pub use snapshot::{EMASnapshot, SMASnapshot, VolEstimatorSnapshot};
pub use surprise::surprise_sequence_len;
pub use volatility::VolEstimator;
