//! Verified core of a columnar streaming execution layer.
//!
//! The crate models the machinery by which a physical query plan runs as a
//! graph of memory-accounted operators producing sequences of columnar
//! batches: the batch and schema model, memory reservations against a bounded
//! pool, a shared once-computed build value, statistics propagation, the
//! ordering meet, and a cross (cartesian-product) join operator driven as an
//! explicit state machine.

pub mod error;
pub mod scalar;
pub mod schema;
pub mod batch;
pub mod memory;
pub mod once;
pub mod stats;
pub mod ordering;
pub mod plan;
pub mod files;
pub mod metrics;
pub mod stream;
pub mod common;
pub mod cross_join;

pub use error::ExecError;
