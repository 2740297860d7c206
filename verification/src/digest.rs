//! SHA-224 fingerprinting, used where a native value has no fixed, specified
//! byte layout and must be condensed to a stable digest.

use vstd::prelude::*;

verus! {

/// The 28-byte SHA-224 digest of `data`. The digest function is computed by
/// an outside implementation; it is named here, not defined, and depends on
/// its input alone.
pub uninterp spec fn sha224_of(data: Seq<u8>) -> Seq<u8>;

/// Relies on sha2::Sha224::digest: the SHA-224 digest is a function of the
/// input bytes alone and is always 28 bytes long.
#[verifier::external_body]
pub(crate) fn sha224_digest(data: &Vec<u8>) -> (r: Vec<u8>)
    ensures
        r@ == sha224_of(data@),
        r@.len() == 28,
{
    let digest = <sha2::Sha224 as sha2::Digest>::digest(data.as_slice());
    digest.to_vec()
}

/// Concatenates the given byte strings in order.
fn concat_bytes(parts: &Vec<Vec<u8>>) -> (r: Vec<u8>)
    ensures
        r@ == parts.deep_view().flatten(),
{
    let ghost pv = parts.deep_view();
    proof {
        assert(pv.subrange(0, 0) =~= Seq::<Seq<u8>>::empty());
    }
    let mut r: Vec<u8> = Vec::new();
    let mut i: usize = 0;
    while i < parts.len()
        invariant
            pv == parts.deep_view(),
            pv.len() == parts@.len(),
            i <= parts@.len(),
            r@ == pv.subrange(0, i as int).flatten(),
        decreases parts@.len() - i,
    {
        proof {
            assert(pv[i as int] == parts@[i as int]@);
            assert(pv.subrange(0, i as int + 1) =~= pv.subrange(0, i as int).push(pv[i as int]));
            pv.subrange(0, i as int).lemma_flatten_push(pv[i as int]);
        }
        r.extend_from_slice(parts[i].as_slice());
        i += 1;
    }
    proof {
        assert(pv.subrange(0, pv.len() as int) =~= pv);
    }
    r
}

/// SHA-224 fingerprint of the given byte strings hashed in order as one
/// continuous stream, with no separators.
pub fn fingerprint(parts: &Vec<Vec<u8>>) -> (r: Vec<u8>)
    ensures
        r@ == sha224_of(parts.deep_view().flatten()),
        r@.len() == 28,
{
    let all = concat_bytes(parts);
    sha224_digest(&all)
}

} // verus!
