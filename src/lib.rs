//! Reading and writing the raw memory of another running process.
//!
//! A target process is reached through [`ProcT`]: a backend supplies raw byte
//! transfers, and the typed reads and writes are built on them here, with
//! contracts stated over each backend's own model of what a transfer may do.
//! [`LoopbackTarget`] is a backend whose memory is a region of the calling
//! process, with an exact model. The [`resolve`] module reads the output of
//! the platforms' process lookup utilities.
pub mod error;
pub mod flat;
pub mod loopback;
pub mod outcome;
pub mod proc;
pub mod resolve;

pub use error::ProcError;
pub use flat::Flat;
pub use loopback::LoopbackTarget;
pub use proc::ProcT;
