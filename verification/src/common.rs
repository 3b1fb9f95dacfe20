//! Shared value types of the analysis pipeline, and the dispatch on the
//! song file's format.

use vstd::prelude::*;

use crate::text::lower_bytes;
use crate::text::to_ascii_lower;

verus! {

/// The audio features a packet can carry.
#[derive(Hash, PartialEq, Eq, Clone, Copy, Debug, Structural)]
pub enum AudioType {
    Impulse,
    Level,
}

/// Variable arguments of the visual effects that consume feature packets.
#[derive(Hash, PartialEq, Eq, Clone, Copy, Debug, Structural)]
pub enum GArg {
    Size,
    Width,
    R,
    G,
    B,
    Trans,
    Scale,
    Count,
    X,
    Y,
}

/// One decoded sample: a signed amplitude and the time since the stream
/// began, in nanoseconds.
#[derive(PartialEq, Eq, Clone, Copy, Debug, Structural)]
pub struct AudioData {
    pub sample: i32,
    pub time_ns: u64,
}

/// The audio container formats a song file may use.
#[derive(PartialEq, Eq, Clone, Copy, Debug, Structural)]
pub enum AudioFormat {
    Wav,
    Mp3,
}

/// The format a lowercased file extension names, if any.
pub open spec fn spec_song_format(low: Seq<u8>) -> Option<AudioFormat> {
    if low == seq![119u8, 97u8, 118u8] {  // wav
        Some(AudioFormat::Wav)
    } else if low == seq![109u8, 112u8, 51u8] {  // mp3
        Some(AudioFormat::Mp3)
    } else {
        None
    }
}

/// Which decoder a song file needs, from its extension, matched
/// case-insensitively (ASCII). Nothing means the extension is unsupported.
pub fn song_format(ext: &[u8]) -> (r: Option<AudioFormat>)
    ensures
        r == spec_song_format(lower_bytes(ext@)),
{
    let low = to_ascii_lower(ext);
    let n = low.len();
    if n == 3 && low[0] == 119 && low[1] == 97 && low[2] == 118 {
        proof {
            assert(low@ =~= seq![119u8, 97u8, 118u8]);
        }
        Some(AudioFormat::Wav)
    } else if n == 3 && low[0] == 109 && low[1] == 112 && low[2] == 51 {
        proof {
            assert(low@ =~= seq![109u8, 112u8, 51u8]);
        }
        Some(AudioFormat::Mp3)
    } else {
        None
    }
}

/// The absolute difference of two durations, both in nanoseconds.
pub fn diff_durs(x: u64, y: u64) -> (r: u64)
    ensures
        r == if x >= y { x - y } else { y - x },
{
    if x > y {
        x - y
    } else {
        y - x
    }
}

} // verus!
