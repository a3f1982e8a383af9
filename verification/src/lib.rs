//! A harness that measures how long a codec takes to turn a dataset of sample
//! records into bytes and back.
//!
//! - [`model`]: the sample record and its mathematical view.
//! - [`corpus`]: a dataset of a wanted size out of a corpus, by cycling.
//! - [`timing`]: one unit of work between two readings of the clock.
//! - [`stats`]: the run configuration, the tally of measurements, the records
//!   that a run hands back, and what holds of their numbers.
//! - [`bench`]: the two capabilities of a codec and the two runners.
//! - [`wire`]: the fields of a record as the plain values that a codec writes.
//! - [`frame`]: where the fields lie in the bytes, going by the length words.
//! - [`bincode_bencher`], [`serde_bencher`]: the adapters of the two codecs.
//! - [`error`]: what can go wrong.

pub mod bench;
pub mod bincode_bencher;
pub mod corpus;
pub mod error;
pub mod frame;
pub mod model;
pub mod serde_bencher;
pub mod stats;
pub mod timing;
pub mod wire;
