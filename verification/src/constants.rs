//! Sizes that the tag data formats fix.

use vstd::prelude::*;

verus! {

/// Size of an Xbox ADPCM chunk.
pub const XBOX_ADPCM_BLOCK_SIZE_BYTES: usize = 36;

/// Number of samples in an Xbox ADPCM block.
pub const XBOX_ADPCM_BLOCK_SAMPLE_COUNT: usize = 64;

/// Size of a 16-bit PCM sample in bytes.
pub const PCM_SAMPLE_SIZE_BYTES: usize = 2;

} // verus!
