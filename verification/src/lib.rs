//! Search engine for unusually short mnemonic phrases.
//!
//! Candidate phrases are rendered from random 128-bit entropy blocks; the
//! library keeps a bounded sample of the shortest renderings, one bucket per
//! character weight, and scales its unit of work down while the machine is
//! under load.

pub mod config;
pub mod encoder;
pub mod entropy;
pub mod gpu;
pub mod phrase;
pub mod pool;
pub mod report;
pub mod store;
pub mod throttle;
pub mod worker;
