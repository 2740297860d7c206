//! Path relativization for archive entries: a canonical descendant path is
//! rewritten relative to a canonical root, component by component. Paths are
//! handled as their component byte strings, the platform-independent form an
//! archive stores.

use vstd::prelude::*;
use crate::bytes::bytes_eq;

verus! {

/// The first `n` components of `desc` relativized against `root`: a
/// component is dropped exactly when the root holds the same component at
/// the same index, and kept otherwise.
pub open spec fn relativized(root: Seq<Seq<u8>>, desc: Seq<Seq<u8>>, n: int) -> Seq<Seq<u8>>
    decreases n,
{
    if n <= 0 {
        Seq::empty()
    } else {
        let prev = relativized(root, desc, n - 1);
        if n - 1 < root.len() && root[n - 1] == desc[n - 1] {
            prev
        } else {
            prev.push(desc[n - 1])
        }
    }
}

/// Relativizes a canonical descendant path against a canonical root path,
/// both given as their ordered components: components matched by the root
/// at the same index are dropped, every other component is kept in order.
/// Symlinks are assumed to have been resolved by canonicalization.
pub fn relativize_path_for_zip_file(
    canonical_root_path: &Vec<Vec<u8>>,
    canonical_descendant_path: &Vec<Vec<u8>>,
) -> (r: Vec<Vec<u8>>)
    ensures
        r.deep_view() == relativized(
            canonical_root_path.deep_view(),
            canonical_descendant_path.deep_view(),
            canonical_descendant_path.deep_view().len() as int,
        ),
{
    let ghost rv = canonical_root_path.deep_view();
    let ghost dv = canonical_descendant_path.deep_view();
    let mut r: Vec<Vec<u8>> = Vec::new();
    proof {
        assert(r.deep_view() =~= Seq::<Seq<u8>>::empty());
    }
    let mut i: usize = 0;
    while i < canonical_descendant_path.len()
        invariant
            rv == canonical_root_path.deep_view(),
            dv == canonical_descendant_path.deep_view(),
            rv.len() == canonical_root_path@.len(),
            dv.len() == canonical_descendant_path@.len(),
            i <= dv.len(),
            r.deep_view() == relativized(rv, dv, i as int),
        decreases dv.len() - i,
    {
        let ghost old_r = r.deep_view();
        proof {
            assert(dv[i as int] == canonical_descendant_path@[i as int]@);
            if i < canonical_root_path.len() {
                assert(rv[i as int] == canonical_root_path@[i as int]@);
            }
        }
        if i < canonical_root_path.len() && bytes_eq(
            &canonical_root_path[i],
            &canonical_descendant_path[i],
        ) {
            // The component is shared with the root: drop it.
        } else {
            let component = crate::bytes::copy_range(
                &canonical_descendant_path[i],
                0,
                canonical_descendant_path[i].len(),
            );
            proof {
                assert(component@ =~= dv[i as int]);
            }
            r.push(component);
            proof {
                assert(r.deep_view() =~~= old_r.push(dv[i as int]));
            }
        }
        i += 1;
    }
    r
}

} // verus!
