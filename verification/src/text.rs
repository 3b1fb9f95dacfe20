//! ASCII case folding over byte strings, used by the keyword matchers, and
//! the rendering of an offending identifier into a diagnostic message.

use vstd::prelude::*;
use vstd::string::StrSliceExecFns;
use vstd::string::StringExecFns;

verus! {

/// ASCII-lowercase one byte: fold `A`..`Z` onto `a`..`z`, leave the rest.
pub open spec fn ascii_lower_byte(b: u8) -> u8 {
    if 65 <= b && b <= 90 {
        (b + 32) as u8
    } else {
        b
    }
}

/// ASCII-lowercase a whole byte string.
pub open spec fn lower_bytes(s: Seq<u8>) -> Seq<u8> {
    s.map_values(|b: u8| ascii_lower_byte(b))
}

/// Fold one byte to ASCII lower case.
pub fn lower_byte(b: u8) -> (r: u8)
    ensures
        r == ascii_lower_byte(b),
{
    if 65 <= b && b <= 90 {
        b + 32
    } else {
        b
    }
}

/// ASCII-lowercase a byte slice.
pub fn to_ascii_lower(i: &[u8]) -> (r: Vec<u8>)
    ensures
        r@ == lower_bytes(i@),
{
    let mut out: Vec<u8> = Vec::new();
    let mut j: usize = 0;
    while j < i.len()
        invariant
            j <= i@.len(),
            out@.len() == j,
            forall|m: int| 0 <= m < j ==> out@[m] == lower_bytes(i@)[m],
        decreases i@.len() - j,
    {
        out.push(lower_byte(i[j]));
        j = j + 1;
    }
    proof {
        assert(out@ =~= lower_bytes(i@));
    }
    out
}

/// The characters an identifier byte can render to in a diagnostic message.
pub open spec fn render_table() -> Seq<char> {
    "?abcdefghijklmnopqrstuvwxyzABCDEFGHIJKLMNOPQRSTUVWXYZ0123456789"@
}

/// Where an identifier byte renders in the table: letters and digits stand
/// for themselves, anything else for the leading placeholder.
pub open spec fn render_index(b: u8) -> int {
    if 97 <= b && b <= 122 {
        b - 96
    } else if 65 <= b && b <= 90 {
        b - 38
    } else if 48 <= b && b <= 57 {
        b + 5
    } else {
        0
    }
}

/// An identifier rendered for a diagnostic message, byte by byte.
pub open spec fn rendered(s: Seq<u8>) -> Seq<char> {
    s.map_values(|b: u8| render_table()[render_index(b)])
}

/// Append the rendering of the identifier `i` to a message.
pub fn append_rendered(msg: &mut String, i: &[u8])
    ensures
        final(msg)@ == old(msg)@ + rendered(i@),
{
    let table: &str = "?abcdefghijklmnopqrstuvwxyzABCDEFGHIJKLMNOPQRSTUVWXYZ0123456789";
    proof {
        reveal_strlit("?abcdefghijklmnopqrstuvwxyzABCDEFGHIJKLMNOPQRSTUVWXYZ0123456789");
        assert(vstd::string::is_ascii(table));
        assert(msg@ + rendered(i@.take(0)) =~= msg@);
    }
    let mut j: usize = 0;
    while j < i.len()
        invariant
            j <= i@.len(),
            table@ == render_table(),
            table@.len() == 63,
            vstd::string::is_ascii(table),
            msg@ == old(msg)@ + rendered(i@.take(j as int)),
        decreases i@.len() - j,
    {
        let b = i[j];
        let idx: usize = if 97 <= b && b <= 122 {
            (b - 96) as usize
        } else if 65 <= b && b <= 90 {
            (b - 38) as usize
        } else if 48 <= b && b <= 57 {
            (b + 5) as usize
        } else {
            0
        };
        let piece = table.substring_ascii(idx, idx + 1);
        msg.append(piece);
        j = j + 1;
        proof {
            assert(piece@ =~= seq![render_table()[render_index(b)]]);
            assert(rendered(i@.take(j as int)) =~= rendered(i@.take(j - 1)).push(
                render_table()[render_index(b)],
            ));
        }
    }
    proof {
        assert(i@.take(i@.len() as int) =~= i@);
    }
}

} // verus!
