use vstd::prelude::*;

verus! {

/// Number of 16-bit words in the machine's memory image.
pub const MEMORY_WORDS_SIZE: usize = 4096;

/// Width, in bits, of one machine word and of one register.
pub const REGISTER_SIZE: usize = 16;

} // verus!
