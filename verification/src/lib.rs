//! An assembler for a 16-bit-word, 4096-word-memory educational computer.
//!
//! Source text goes in as one string, one statement per line:
//! `[label ","] body ["//" comment]`, where a body is either the origin
//! directive `ORG hex-address` or an instruction
//! `mnemonic [operand] ["I"]`. A single left-to-right scan binds each label
//! to the address cursor, encodes each instruction against the opcode
//! catalog and the labels bound so far, and packs the words into a flat
//! 4096-word image. The scan is all or nothing: the first error aborts it
//! and reports the offending line.

use vstd::prelude::*;

pub mod constants;
pub mod errors;
pub mod instructions;
pub mod labels;
pub mod memory;
pub mod text;

verus! {

} // verus!
