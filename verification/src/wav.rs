//! Arithmetic of the WAV stream adapter: the host reads samples with a WAV
//! decoder; these functions give each sample its stream time and the stream
//! its maximum sample magnitude.

use vstd::prelude::*;

verus! {

/// The maximum sample magnitude claimed for a WAV stream:
/// two to the power of its bits per sample.
pub fn wav_sample_max(bits_per_sample: u16) -> (r: u32)
    requires
        bits_per_sample < 32,
    ensures
        r == 1u32 << bits_per_sample as u32,
{
    1u32 << (bits_per_sample as u32)
}

/// Stream time of the sample at `sample_index`, in milliseconds: the index
/// over the sample rate, in seconds, scaled to whole milliseconds.
pub fn wav_sample_time_ms(sample_index: u64, sample_rate: u32) -> (r: u64)
    requires
        sample_rate > 0,
        sample_index <= 0x3f_ffff_ffff_ffff,
    ensures
        r == sample_index * 1000 / (sample_rate as int),
{
    (sample_index * 1000) / (sample_rate as u64)
}

} // verus!
