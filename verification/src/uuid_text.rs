//! UUID text: the 32-digit simple form and the 36-character `8-4-4-4-12`
//! hyphenated form, parsed into the canonical 16 bytes.

use vstd::prelude::*;
use crate::hex::{all_hex, hex_digit_value, is_hex_digit};
use crate::id::{Confidence, SystemId};

verus! {

/// Source index of digit `i` of a hyphenated UUID: digits sit around the
/// hyphens at positions 8, 13, 18 and 23.
pub open spec fn hyphen_digit_pos(i: int) -> int {
    if i < 8 {
        i
    } else if i < 12 {
        i + 1
    } else if i < 16 {
        i + 2
    } else if i < 20 {
        i + 3
    } else {
        i + 4
    }
}

/// The 32 hexadecimal digits of a hyphenated UUID, hyphens removed.
pub open spec fn hyphens_stripped(s: Seq<u8>) -> Seq<u8> {
    Seq::new(32, |i: int| s[hyphen_digit_pos(i)])
}

/// Hyphenated UUID text: 36 bytes, a hyphen at positions 8, 13, 18 and 23,
/// hexadecimal digits everywhere else.
pub open spec fn is_hyphenated_uuid(s: Seq<u8>) -> bool {
    s.len() == 36 && s[8] == 45 && s[13] == 45 && s[18] == 45 && s[23] == 45 && all_hex(
        hyphens_stripped(s),
    )
}

/// Simple UUID text: exactly 32 hexadecimal digits.
pub open spec fn is_simple_uuid(s: Seq<u8>) -> bool {
    s.len() == 32 && all_hex(s)
}

/// The two accepted text forms of a UUID.
pub open spec fn is_uuid_text(s: Seq<u8>) -> bool {
    is_simple_uuid(s) || is_hyphenated_uuid(s)
}

/// The 32 hexadecimal digits of a UUID text.
pub open spec fn uuid_digits(s: Seq<u8>) -> Seq<u8> {
    if s.len() == 32 {
        s
    } else {
        hyphens_stripped(s)
    }
}

/// The bytes denoted by consecutive pairs of hexadecimal digits.
pub open spec fn hex_pair_bytes(d: Seq<u8>) -> Seq<u8>
    decreases d.len(),
{
    if d.len() < 2 {
        Seq::empty()
    } else {
        hex_pair_bytes(d.subrange(0, d.len() - 2)).push(
            (hex_digit_value(d[d.len() - 2]) * 16 + hex_digit_value(d[d.len() - 1])) as u8,
        )
    }
}

/// The 16 bytes of a UUID given in either accepted text form.
pub open spec fn uuid_bytes(s: Seq<u8>) -> Seq<u8> {
    hex_pair_bytes(uuid_digits(s))
}

/// Value of one hexadecimal digit known to be valid.
fn hex_digit_val(b: u8) -> (r: u8)
    requires
        is_hex_digit(b),
    ensures
        r as nat == hex_digit_value(b),
{
    if b <= 57 {
        b - 48
    } else if b >= 97 {
        b - 97 + 10
    } else {
        b - 65 + 10
    }
}

/// Exec mirror of `hyphen_digit_pos`.
fn hyphen_digit_pos_at(i: usize) -> (r: usize)
    requires
        i < 32,
    ensures
        r as int == hyphen_digit_pos(i as int),
        r < 36,
{
    if i < 8 {
        i
    } else if i < 12 {
        i + 1
    } else if i < 16 {
        i + 2
    } else if i < 20 {
        i + 3
    } else {
        i + 4
    }
}

/// Collects the 32 hexadecimal digits of `s`, in either accepted text form.
fn uuid_digit_vec(s: &Vec<u8>) -> (r: Option<Vec<u8>>)
    ensures
        r is Some <==> is_uuid_text(s@),
        r matches Some(d) ==> d@ == uuid_digits(s@) && d@.len() == 32 && all_hex(d@),
{
    if s.len() == 32 {
        let mut d: Vec<u8> = Vec::new();
        let mut i: usize = 0;
        while i < 32
            invariant
                s@.len() == 32,
                i <= 32,
                d@ == s@.subrange(0, i as int),
                all_hex(s@.subrange(0, i as int)),
            decreases 32 - i,
        {
            let b = s[i];
            if !(48 <= b && b <= 57 || 97 <= b && b <= 102 || 65 <= b && b <= 70) {
                proof {
                    assert(!is_hex_digit(s@[i as int]));
                }
                return None;
            }
            d.push(b);
            i += 1;
            proof {
                assert(d@ =~= s@.subrange(0, i as int));
            }
        }
        proof {
            assert(s@.subrange(0, 32) =~= s@);
        }
        Some(d)
    } else if s.len() == 36 {
        if !(s[8] == 45 && s[13] == 45 && s[18] == 45 && s[23] == 45) {
            return None;
        }
        let ghost stripped = hyphens_stripped(s@);
        let mut d: Vec<u8> = Vec::new();
        let mut i: usize = 0;
        while i < 32
            invariant
                s@.len() == 36,
                i <= 32,
                stripped == hyphens_stripped(s@),
                d@ == stripped.subrange(0, i as int),
                all_hex(stripped.subrange(0, i as int)),
            decreases 32 - i,
        {
            let pos = hyphen_digit_pos_at(i);
            let b = s[pos];
            proof {
                assert(stripped[i as int] == s@[hyphen_digit_pos(i as int)]);
            }
            if !(48 <= b && b <= 57 || 97 <= b && b <= 102 || 65 <= b && b <= 70) {
                proof {
                    assert(!is_hex_digit(stripped[i as int]));
                }
                return None;
            }
            d.push(b);
            i += 1;
            proof {
                assert(d@ =~= stripped.subrange(0, i as int));
            }
        }
        proof {
            assert(stripped.subrange(0, 32) =~= stripped);
        }
        Some(d)
    } else {
        None
    }
}

/// Parses UUID text into its 16 bytes; any other shape yields nothing.
pub fn parse_uuid(s: &Vec<u8>) -> (r: Option<Vec<u8>>)
    ensures
        r is Some <==> is_uuid_text(s@),
        r matches Some(b) ==> b@ == uuid_bytes(s@) && b@.len() == 16,
{
    let d = match uuid_digit_vec(s) {
        Some(d) => d,
        None => {
            return None;
        },
    };
    let mut out: Vec<u8> = Vec::new();
    let mut i: usize = 0;
    while i < 16
        invariant
            d@.len() == 32,
            all_hex(d@),
            i <= 16,
            out@.len() == i,
            out@ == hex_pair_bytes(d@.subrange(0, 2 * i as int)),
        decreases 16 - i,
    {
        let hi = hex_digit_val(d[2 * i]);
        let lo = hex_digit_val(d[2 * i + 1]);
        proof {
            assert(hex_digit_value(d@[2 * i as int]) <= 15);
            assert(hex_digit_value(d@[2 * i as int + 1]) <= 15);
            let next = d@.subrange(0, 2 * i as int + 2);
            assert(next.subrange(0, next.len() - 2) =~= d@.subrange(0, 2 * i as int));
            assert(next[next.len() - 2] == d@[2 * i as int]);
            assert(next[next.len() - 1] == d@[2 * i as int + 1]);
        }
        out.push(hi * 16 + lo);
        i += 1;
    }
    proof {
        assert(d@.subrange(0, 32) =~= d@);
    }
    Some(out)
}

/// Builds an identity value from UUID text: 16 canonical bytes with the
/// given confidence, or nothing when the text is not a UUID.
pub fn uuid_system_id(text: &Vec<u8>, confidence: Confidence) -> (r: Option<SystemId>)
    ensures
        r is Some <==> is_uuid_text(text@),
        r matches Some(id) ==> id@.bytes == uuid_bytes(text@) && id@.bytes.len() == 16
            && id@.confidence == confidence,
{
    match parse_uuid(text) {
        Some(b) => Some(SystemId::from_bytes(b, confidence)),
        None => None,
    }
}

} // verus!
