//! Packing and checking of an embedded script: the script's bytecode is
//! compressed and encrypted into a self-describing blob together with an
//! obfuscated reference answer, and unpacked again at run time.

use vstd::prelude::*;

pub mod blob;
pub mod cipher;
pub mod codec;
pub mod compress;
pub mod pipeline;
pub mod script;

verus! {

/// What can go wrong while packing, unpacking or running a script.
#[derive(Debug, Clone, Copy, PartialEq, Eq, Structural)]
pub enum PipelineError {
    /// The script source does not compile.
    Compile,
    /// A section is longer than its 32-bit length field can declare.
    TooLarge,
    /// A declared length runs past the end of the blob.
    CorruptBlob,
    /// The decrypted section is no valid compressed stream.
    Decompress,
    /// Loading the bytecode or running the script raised an error.
    ScriptExecution,
}

} // verus!
