//! Verified core of a real-time audio spectrum visualiser.
//!
//! The library keeps the bookkeeping of the analysis pipeline: the rolling
//! sample windows, the rate limiting of each spectral analyzer, the mapping
//! of analyzer bands onto the output frame with a cache of the last result,
//! the selection of frequency bins, and timing. The sample type is generic,
//! so the arithmetic on samples stays with the caller.

mod clock;

pub mod beat;
pub mod bench;
pub mod bins;
pub mod coordinator;
pub mod process;
pub mod strip;
pub mod window;
pub mod workers;
