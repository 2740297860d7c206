//! Canonical big-endian byte representations of the fixed-width integers that
//! native mechanisms yield.

use vstd::prelude::*;

verus! {

/// The `n`-byte big-endian representation of `x`: most significant byte first.
pub open spec fn be_bytes(x: nat, n: nat) -> Seq<u8>
    decreases n,
{
    if n == 0 {
        Seq::empty()
    } else {
        be_bytes(x / 256, (n - 1) as nat).push((x % 256) as u8)
    }
}

/// A big-endian representation is exactly as long as requested.
pub proof fn lemma_be_bytes_len(x: nat, n: nat)
    ensures
        be_bytes(x, n).len() == n,
    decreases n,
{
    if n > 0 {
        lemma_be_bytes_len(x / 256, (n - 1) as nat);
    }
}

/// Builds the `n`-byte big-endian representation of `x`.
pub fn to_be_vec(x: u128, n: usize) -> (r: Vec<u8>)
    ensures
        r@ == be_bytes(x as nat, n as nat),
    decreases n,
{
    if n == 0 {
        Vec::new()
    } else {
        let mut r = to_be_vec(x / 256, n - 1);
        r.push((x % 256) as u8);
        r
    }
}

/// The 64-bit two's-complement bit pattern of `x`, as a natural number.
pub open spec fn i64_bits(x: i64) -> nat {
    if x >= 0 {
        x as nat
    } else {
        (x + 0x10000000000000000) as nat
    }
}

/// Reinterprets a signed machine word as its 64-bit pattern.
pub fn i64_to_bits(x: i64) -> (r: u64)
    ensures
        r as nat == i64_bits(x),
{
    if x >= 0 {
        x as u64
    } else {
        ((x as i128) + 0x10000000000000000i128) as u64
    }
}

} // verus!
