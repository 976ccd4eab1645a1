//! Schema compiler for device communication protocols: a document describes a
//! device's packet formats, the validator checks it for soundness, and the
//! generator lowers it to C source that reads and writes those packets.

use vstd::prelude::*;

pub mod config;
pub mod emit;
pub mod error;
pub mod generate;
pub mod naming;
pub mod slots;
pub mod text;
pub mod validate;

pub use config::OpenPID;
pub use error::CodegenError;

verus! {

/// A code-generation backend.
pub trait Codegen {
    /// Produces this backend's artifact for its document.
    fn codegen(&mut self) -> Result<(), CodegenError>;
}

} // verus!
