//! Encoder for the Apple II cassette-tape loading protocol.
//!
//! A binary program image is turned into a sequence of 8-bit signed PCM
//! samples that, played into the machine's cassette input, load the program.
//! Bits are frequency-modulated sine cycles; each protocol segment carries a
//! leader tone, a sync marker, payload bytes, an XOR checksum and a footer
//! bit.

pub mod encode;
pub mod file_name;
pub mod sound;

use vstd::prelude::*;

verus! {

/// Sample rate of the standard output configuration, in samples per second.
pub const STANDARD_RATE: u32 = 11025;

} // verus!
