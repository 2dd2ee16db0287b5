//! A lightweight execution-time instrumentation library.
//!
//! Callers report timing samples under a logical name; a registry accumulates,
//! per name, the total elapsed time in nanoseconds and the number of samples,
//! and hands out sorted snapshots of every aggregate.

mod data;
mod laws;
mod registry;
mod shared;

pub use data::Aggregate;
pub use data::ProfileData;
pub use laws::duration_sum;
pub use laws::lemma_accumulation;
pub use laws::lemma_record_commutes;
pub use laws::lemma_repeated_accumulation;
pub use laws::lemma_single_accumulation;
pub use laws::record_all;
pub use registry::Registry;
pub use registry::get_data;
pub use registry::record_data;
pub use registry::record_model;
pub use registry::try_record_data;
pub use shared::SharedRegistry;
