//! Keyword matchers of the mapping-script parser: visual-argument names and
//! audio-feature names, matched case-insensitively (ASCII).

use vstd::prelude::*;
use vstd::string::StringExecFns;

use crate::common::AudioType;
use crate::common::GArg;
use crate::text::append_rendered;
use crate::text::lower_bytes;
use crate::text::rendered;
use crate::text::to_ascii_lower;

verus! {

/// The visual argument a lowercased identifier names, if any.
pub open spec fn spec_check_garg(low: Seq<u8>) -> Option<GArg> {
    if low == seq![115u8, 105u8, 122u8, 101u8] {  // size
        Some(GArg::Size)
    } else if low == seq![114u8] {  // r
        Some(GArg::R)
    } else if low == seq![114u8, 101u8, 100u8] {  // red
        Some(GArg::R)
    } else if low == seq![103u8] {  // g
        Some(GArg::G)
    } else if low == seq![103u8, 114u8, 101u8, 101u8, 110u8] {  // green
        Some(GArg::G)
    } else if low == seq![98u8] {  // b
        Some(GArg::B)
    } else if low == seq![98u8, 108u8, 117u8, 101u8] {  // blue
        Some(GArg::B)
    } else if low == seq![115u8, 99u8, 97u8, 108u8, 101u8] {  // scale
        Some(GArg::Scale)
    } else if low == seq![99u8, 111u8, 117u8, 110u8, 116u8] {  // count
        Some(GArg::Count)
    } else if low == seq![120u8] {  // x
        Some(GArg::X)
    } else if low == seq![121u8] {  // y
        Some(GArg::Y)
    } else {
        None
    }
}

/// The audio feature a lowercased identifier names, if any.
pub open spec fn spec_check_audio(low: Seq<u8>) -> Option<AudioType> {
    if low == seq![105u8, 109u8, 112u8, 117u8, 108u8, 115u8, 101u8] {  // impulse
        Some(AudioType::Impulse)
    } else if low == seq![108u8, 101u8, 118u8, 101u8, 108u8] {  // level
        Some(AudioType::Level)
    } else {
        None
    }
}

/// Match an identifier, case-insensitively, against the visual argument
/// names a mapping script may use. A rejection carries the offending
/// identifier, rendered letter for letter (bytes outside the script
/// alphabet appear as a placeholder).
pub fn check_garg_name(i: &[u8]) -> (r: Result<GArg, String>)
    ensures
        match r {
            Ok(g) => spec_check_garg(lower_bytes(i@)) == Some(g),
            Err(m) => spec_check_garg(lower_bytes(i@)) is None && m@
                == "Invalid graphic argument specified: "@ + rendered(i@),
        },
{
    let low = to_ascii_lower(i);
    let n = low.len();
    if n == 4 && low[0] == 115 && low[1] == 105 && low[2] == 122 && low[3] == 101 {
        proof {
            assert(low@ =~= seq![115u8, 105u8, 122u8, 101u8]);
        }
        Ok(GArg::Size)
    } else if n == 1 && low[0] == 114 {
        proof {
            assert(low@ =~= seq![114u8]);
        }
        Ok(GArg::R)
    } else if n == 3 && low[0] == 114 && low[1] == 101 && low[2] == 100 {
        proof {
            assert(low@ =~= seq![114u8, 101u8, 100u8]);
        }
        Ok(GArg::R)
    } else if n == 1 && low[0] == 103 {
        proof {
            assert(low@ =~= seq![103u8]);
        }
        Ok(GArg::G)
    } else if n == 5 && low[0] == 103 && low[1] == 114 && low[2] == 101 && low[3] == 101
        && low[4] == 110 {
        proof {
            assert(low@ =~= seq![103u8, 114u8, 101u8, 101u8, 110u8]);
        }
        Ok(GArg::G)
    } else if n == 1 && low[0] == 98 {
        proof {
            assert(low@ =~= seq![98u8]);
        }
        Ok(GArg::B)
    } else if n == 4 && low[0] == 98 && low[1] == 108 && low[2] == 117 && low[3] == 101 {
        proof {
            assert(low@ =~= seq![98u8, 108u8, 117u8, 101u8]);
        }
        Ok(GArg::B)
    } else if n == 5 && low[0] == 115 && low[1] == 99 && low[2] == 97 && low[3] == 108
        && low[4] == 101 {
        proof {
            assert(low@ =~= seq![115u8, 99u8, 97u8, 108u8, 101u8]);
        }
        Ok(GArg::Scale)
    } else if n == 5 && low[0] == 99 && low[1] == 111 && low[2] == 117 && low[3] == 110
        && low[4] == 116 {
        proof {
            assert(low@ =~= seq![99u8, 111u8, 117u8, 110u8, 116u8]);
        }
        Ok(GArg::Count)
    } else if n == 1 && low[0] == 120 {
        proof {
            assert(low@ =~= seq![120u8]);
        }
        Ok(GArg::X)
    } else if n == 1 && low[0] == 121 {
        proof {
            assert(low@ =~= seq![121u8]);
        }
        Ok(GArg::Y)
    } else {
        let mut msg = String::from_str("Invalid graphic argument specified: ");
        append_rendered(&mut msg, i);
        Err(msg)
    }
}

/// Match an identifier, case-insensitively, against the audio feature names
/// a mapping script may read. A rejection carries the offending identifier.
pub fn check_audio_name(i: &[u8]) -> (r: Result<AudioType, String>)
    ensures
        match r {
            Ok(a) => spec_check_audio(lower_bytes(i@)) == Some(a),
            Err(m) => spec_check_audio(lower_bytes(i@)) is None && m@
                == "Invalid audio input specified: "@ + rendered(i@),
        },
{
    let low = to_ascii_lower(i);
    let n = low.len();
    if n == 7 && low[0] == 105 && low[1] == 109 && low[2] == 112 && low[3] == 117
        && low[4] == 108 && low[5] == 115 && low[6] == 101 {
        proof {
            assert(low@ =~= seq![105u8, 109u8, 112u8, 117u8, 108u8, 115u8, 101u8]);
        }
        Ok(AudioType::Impulse)
    } else if n == 5 && low[0] == 108 && low[1] == 101 && low[2] == 118 && low[3] == 101
        && low[4] == 108 {
        proof {
            assert(low@ =~= seq![108u8, 101u8, 118u8, 101u8, 108u8]);
        }
        Ok(AudioType::Level)
    } else {
        let mut msg = String::from_str("Invalid audio input specified: ");
        append_rendered(&mut msg, i);
        Err(msg)
    }
}

} // verus!
