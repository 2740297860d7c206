//! Hexadecimal text: digit classification and the 32-digit numeral format in
//! which the D-Bus/systemd machine id is stored.

use vstd::prelude::*;

verus! {

/// A hexadecimal digit: `0`-`9`, `a`-`f` or `A`-`F`.
pub open spec fn is_hex_digit(b: u8) -> bool {
    (48 <= b && b <= 57) || (97 <= b && b <= 102) || (65 <= b && b <= 70)
}

/// Numeric value of the hexadecimal digit `b`.
pub open spec fn hex_digit_value(b: u8) -> nat {
    if 48 <= b && b <= 57 {
        (b - 48) as nat
    } else if 97 <= b && b <= 102 {
        (b - 97 + 10) as nat
    } else if 65 <= b && b <= 70 {
        (b - 65 + 10) as nat
    } else {
        0
    }
}

/// Every byte of `s` is a hexadecimal digit.
pub open spec fn all_hex(s: Seq<u8>) -> bool {
    forall|i: int| 0 <= i < s.len() ==> is_hex_digit(#[trigger] s[i])
}

/// Value of `s` read as a hexadecimal numeral, most significant digit first.
pub open spec fn hex_value(s: Seq<u8>) -> nat
    decreases s.len(),
{
    if s.len() == 0 {
        0
    } else {
        hex_value(s.drop_last()) * 16 + hex_digit_value(s.last())
    }
}

/// Classifies one byte as a hexadecimal digit and yields its value.
pub fn hex_digit(b: u8) -> (r: Option<u8>)
    ensures
        r is Some <==> is_hex_digit(b),
        r matches Some(d) ==> d as nat == hex_digit_value(b),
{
    if 48 <= b && b <= 57 {
        Some(b - 48)
    } else if 97 <= b && b <= 102 {
        Some(b - 97 + 10)
    } else if 65 <= b && b <= 70 {
        Some(b - 65 + 10)
    } else {
        None
    }
}

/// Largest value a hexadecimal numeral of `n` digits can denote.
pub open spec fn max_hex(n: nat) -> nat
    decreases n,
{
    if n == 0 {
        0
    } else {
        max_hex((n - 1) as nat) * 16 + 15
    }
}

proof fn lemma_max_hex_mono(a: nat, b: nat)
    requires
        a <= b,
    ensures
        max_hex(a) <= max_hex(b),
    decreases b,
{
    if a < b {
        lemma_max_hex_mono(a, (b - 1) as nat);
    }
}

proof fn lemma_max_hex_32()
    ensures
        max_hex(32) == 0xffffffffffffffffffffffffffffffff,
{
    assert(max_hex(0) == 0x0);
    assert(max_hex(1) == 0xf);
    assert(max_hex(2) == 0xff);
    assert(max_hex(3) == 0xfff);
    assert(max_hex(4) == 0xffff);
    assert(max_hex(5) == 0xfffff);
    assert(max_hex(6) == 0xffffff);
    assert(max_hex(7) == 0xfffffff);
    assert(max_hex(8) == 0xffffffff);
    assert(max_hex(9) == 0xfffffffff);
    assert(max_hex(10) == 0xffffffffff);
    assert(max_hex(11) == 0xfffffffffff);
    assert(max_hex(12) == 0xffffffffffff);
    assert(max_hex(13) == 0xfffffffffffff);
    assert(max_hex(14) == 0xffffffffffffff);
    assert(max_hex(15) == 0xfffffffffffffff);
    assert(max_hex(16) == 0xffffffffffffffff);
    assert(max_hex(17) == 0xfffffffffffffffff);
    assert(max_hex(18) == 0xffffffffffffffffff);
    assert(max_hex(19) == 0xfffffffffffffffffff);
    assert(max_hex(20) == 0xffffffffffffffffffff);
    assert(max_hex(21) == 0xfffffffffffffffffffff);
    assert(max_hex(22) == 0xffffffffffffffffffffff);
    assert(max_hex(23) == 0xfffffffffffffffffffffff);
    assert(max_hex(24) == 0xffffffffffffffffffffffff);
    assert(max_hex(25) == 0xfffffffffffffffffffffffff);
    assert(max_hex(26) == 0xffffffffffffffffffffffffff);
    assert(max_hex(27) == 0xfffffffffffffffffffffffffff);
    assert(max_hex(28) == 0xffffffffffffffffffffffffffff);
    assert(max_hex(29) == 0xfffffffffffffffffffffffffffff);
    assert(max_hex(30) == 0xffffffffffffffffffffffffffffff);
    assert(max_hex(31) == 0xfffffffffffffffffffffffffffffff);
    assert(max_hex(32) == 0xffffffffffffffffffffffffffffffff);
}

/// A numeral of `n` hexadecimal digits denotes at most `max_hex(n)`.
pub proof fn lemma_hex_value_bound(s: Seq<u8>)
    ensures
        hex_value(s) <= max_hex(s.len()),
    decreases s.len(),
{
    if s.len() > 0 {
        lemma_hex_value_bound(s.drop_last());
        assert(hex_digit_value(s.last()) <= 15);
    }
}

/// Parses `s` as a 32-digit hexadecimal numeral, the textual form of a
/// 128-bit machine id. Any other length, or any non-hexadecimal byte, is
/// rejected.
pub fn parse_hex_u128(s: &Vec<u8>) -> (r: Option<u128>)
    ensures
        r is Some <==> s@.len() == 32 && all_hex(s@),
        r matches Some(v) ==> v as nat == hex_value(s@),
{
    if s.len() != 32 {
        return None;
    }
    let mut acc: u128 = 0;
    let mut i: usize = 0;
    while i < 32
        invariant
            s@.len() == 32,
            i <= 32,
            all_hex(s@.subrange(0, i as int)),
            acc as nat == hex_value(s@.subrange(0, i as int)),
        decreases 32 - i,
    {
        match hex_digit(s[i]) {
            Some(d) => {
                proof {
                    let prefix = s@.subrange(0, i as int);
                    lemma_hex_value_bound(prefix);
                    lemma_max_hex_mono(prefix.len(), 31);
                    lemma_max_hex_32();
                    assert(max_hex(32) == max_hex(31) * 16 + 15);
                    assert(acc as nat * 16 <= max_hex(31) * 16);
                    assert(s@.subrange(0, i as int + 1).drop_last() =~= prefix);
                    assert(s@.subrange(0, i as int + 1).last() == s@[i as int]);
                }
                acc = acc * 16 + (d as u128);
                i += 1;
            },
            None => {
                proof {
                    assert(!is_hex_digit(s@[i as int]));
                }
                return None;
            },
        }
    }
    proof {
        assert(s@.subrange(0, 32) =~= s@);
    }
    Some(acc)
}

} // verus!
