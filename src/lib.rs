//! A small xorshift-family pseudo-random generator seeded from up to four
//! 32-bit words, and table-driven reflected CRC-16 and CRC-32 checksums.
use vstd::prelude::*;

pub mod crc;
pub mod random;

verus! {

} // verus!
