//! Linux strategies: the kernel boot id, the DMI product id from sysfs, and
//! the fingerprint aggregated over the DMI serial numbers collected by the
//! udev hardware database. The file reads happen in the unverified shell;
//! the verified logic parses, canonicalizes and fingerprints the contents.

use vstd::prelude::*;
use crate::bytes::{
    copy_range, find_byte, find_byte_from, lex_geq_order, trim_ascii, trim_ascii_bytes,
};
use crate::digest::{fingerprint, sha224_of};
use crate::id::{Confidence, SystemId};
use crate::sorting::{lemma_sort_descending_canonical, sort_descending};
use crate::uuid_text::{is_uuid_text, uuid_bytes, uuid_system_id};

verus! {

broadcast use vstd::seq_lib::group_to_multiset_ensures;

/// Linux boot-id strategy. `content` is the boot-id procfs file's bytes, or
/// `None` where it could not be read. The trimmed content must parse as
/// UUID text; the id changes on every boot, so confidence is low.
pub fn get_boot_id(content: &Option<Vec<u8>>) -> (r: Option<SystemId>)
    ensures
        r is Some <==> ((*content) matches Some(c) && is_uuid_text(trim_ascii(c@))),
        r matches Some(id) ==> (*content) matches Some(c) && id@.bytes == uuid_bytes(
            trim_ascii(c@),
        ) && id@.bytes.len() == 16 && id@.confidence == Confidence::Low,
{
    match content {
        Some(c) => {
            let t = trim_ascii_bytes(c);
            uuid_system_id(&t, Confidence::Low)
        },
        None => None,
    }
}

/// Linux DMI product-id strategy. `content` is the sysfs product-uuid
/// file's bytes, or `None` where it could not be read (the file usually
/// needs root privileges). The trimmed content must parse as UUID text; the
/// DMI product uuid is BIOS-provided and persistent, so confidence is high.
pub fn get_dmi_product_id(content: &Option<Vec<u8>>) -> (r: Option<SystemId>)
    ensures
        r is Some <==> ((*content) matches Some(c) && is_uuid_text(trim_ascii(c@))),
        r matches Some(id) ==> (*content) matches Some(c) && id@.bytes == uuid_bytes(
            trim_ascii(c@),
        ) && id@.bytes.len() == 16 && id@.confidence == Confidence::High,
{
    match content {
        Some(c) => {
            let t = trim_ascii_bytes(c);
            uuid_system_id(&t, Confidence::High)
        },
        None => None,
    }
}

/// The key suffix that marks a serial-number property: `_SERIAL_NUMBER`.
pub open spec fn serial_suffix() -> Seq<u8> {
    seq![95u8, 83u8, 69u8, 82u8, 73u8, 65u8, 76u8, 95u8, 78u8, 85u8, 77u8, 66u8, 69u8, 82u8]
}

/// Builds the serial-number key suffix, `_SERIAL_NUMBER` as bytes.
fn serial_suffix_vec() -> (r: Vec<u8>)
    ensures
        r@ == serial_suffix(),
        r@.len() == 14,
{
    let mut r: Vec<u8> = Vec::new();
    r.push(95);
    r.push(83);
    r.push(69);
    r.push(82);
    r.push(73);
    r.push(65);
    r.push(76);
    r.push(95);
    r.push(78);
    r.push(85);
    r.push(77);
    r.push(66);
    r.push(69);
    r.push(82);
    proof {
        assert(r@ =~= serial_suffix());
    }
    r
}

/// A udev database line carries a serial number when it is a
/// device-property entry (`E:` marker), splits into key and value at the
/// first `=`, and its key ends with the serial-number suffix.
pub open spec fn is_serial_line(line: Seq<u8>) -> bool {
    &&& line.len() >= 2
    &&& line[0] == 69
    &&& line[1] == 58
    &&& match find_byte(line.skip(2), 61) {
        Some(eq) => eq >= 14 && line.skip(2).subrange(eq - 14, eq) == serial_suffix(),
        None => false,
    }
}

/// The value of a property line: the bytes after the first `=` past the
/// `E:` marker.
pub open spec fn serial_value(line: Seq<u8>) -> Seq<u8> {
    match find_byte(line.skip(2), 61) {
        Some(eq) => line.skip(2).subrange(eq + 1, line.skip(2).len() as int),
        None => Seq::empty(),
    }
}

/// The serial-number values of the database lines, in file order.
pub open spec fn extracted_serials(lines: Seq<Seq<u8>>) -> Seq<Seq<u8>>
    decreases lines.len(),
{
    if lines.len() == 0 {
        Seq::empty()
    } else if is_serial_line(lines[0]) {
        seq![serial_value(lines[0])] + extracted_serials(lines.drop_first())
    } else {
        extracted_serials(lines.drop_first())
    }
}

/// Hard cap on the database lines examined, bounding work against a
/// corrupted or adversarial file.
pub const LINE_CAP: usize = 16384;

/// The lines taken into account: at most the first `LINE_CAP`.
pub open spec fn capped_lines(lines: Seq<Seq<u8>>) -> Seq<Seq<u8>> {
    if lines.len() <= LINE_CAP {
        lines
    } else {
        lines.subrange(0, LINE_CAP as int)
    }
}

/// The aggregated fingerprint of a database: its serial-number values,
/// canonically ordered (descending), hashed as one stream.
pub open spec fn aggregated_digest(lines: Seq<Seq<u8>>) -> Seq<u8> {
    sha224_of(extracted_serials(capped_lines(lines)).sort_by(lex_geq_order()).flatten())
}

/// Classifies one database line and extracts its serial-number value.
fn serial_line_value(line: &Vec<u8>) -> (r: Option<Vec<u8>>)
    ensures
        r is Some <==> is_serial_line(line@),
        r matches Some(v) ==> v@ == serial_value(line@),
{
    if line.len() < 2 {
        return None;
    }
    if !(line[0] == 69 && line[1] == 58) {
        return None;
    }
    let ghost rest = line@.skip(2);
    match find_byte_from(line, 2, 61) {
        Some(eq_abs) => {
            let ghost eq = eq_abs - 2;
            proof {
                assert(find_byte(rest, 61) == Some(eq));
            }
            if eq_abs < 16 {
                return None;
            }
            let sfx = serial_suffix_vec();
            let mut j: usize = 0;
            while j < 14
                invariant
                    line@.len() >= 2,
                    rest == line@.skip(2),
                    sfx@ == serial_suffix(),
                    16 <= eq_abs < line@.len(),
                    eq == eq_abs - 2,
                    find_byte(rest, 61) == Some(eq),
                    j <= 14,
                    forall|jj: int|
                        0 <= jj < j ==> line@[eq_abs - 14 + jj] == #[trigger] serial_suffix()[jj],
                decreases 14 - j,
            {
                if line[eq_abs - 14 + j] != sfx[j] {
                    proof {
                        assert(rest.subrange(eq - 14, eq)[j as int] == line@[eq_abs - 14 + j]);
                        assert(rest.subrange(eq - 14, eq) != serial_suffix());
                    }
                    return None;
                }
                j += 1;
            }
            proof {
                assert forall|jj: int| 0 <= jj < 14 implies rest.subrange(eq - 14, eq)[jj]
                    == serial_suffix()[jj] by {
                    assert(rest.subrange(eq - 14, eq)[jj] == line@[eq_abs - 14 + jj]);
                }
                assert(rest.subrange(eq - 14, eq) =~= serial_suffix());
            }
            let v = copy_range(line, eq_abs + 1, line.len());
            proof {
                assert(v@ =~= rest.subrange(eq + 1, rest.len() as int));
            }
            Some(v)
        },
        None => {
            proof {
                assert(find_byte(rest, 61) is None);
            }
            None
        },
    }
}

/// Splitting a line list splits its extracted serial values.
pub proof fn lemma_extracted_concat(a: Seq<Seq<u8>>, b: Seq<Seq<u8>>)
    ensures
        extracted_serials(a + b) == extracted_serials(a) + extracted_serials(b),
    decreases a.len(),
{
    if a.len() == 0 {
        assert(a + b =~= b);
        assert(extracted_serials(a) + extracted_serials(b) =~= extracted_serials(b));
    } else {
        assert((a + b).drop_first() =~= a.drop_first() + b);
        assert((a + b)[0] == a[0]);
        lemma_extracted_concat(a.drop_first(), b);
        if is_serial_line(a[0]) {
            assert(seq![serial_value(a[0])] + (extracted_serials(a.drop_first())
                + extracted_serials(b)) =~= (seq![serial_value(a[0])] + extracted_serials(
                a.drop_first(),
            )) + extracted_serials(b));
        }
    }
}

/// The multiset of extracted serial values is determined by the multiset of
/// database lines: extraction looks at each line independently.
proof fn lemma_extracted_multiset(l1: Seq<Seq<u8>>, l2: Seq<Seq<u8>>)
    requires
        l1.to_multiset() == l2.to_multiset(),
    ensures
        extracted_serials(l1).to_multiset() == extracted_serials(l2).to_multiset(),
    decreases l1.len(),
{
    broadcast use vstd::seq_lib::lemma_multiset_commutative;

    if l1.len() == 0 {
        assert(l2.len() == l2.to_multiset().len());
        assert(l2.len() == 0);
        assert(l1 =~= l2);
    } else {
        let x = l1[0];
        assert(l1.contains(x));
        assert(l1.to_multiset().count(x) > 0);
        assert(l2.contains(x));
        let j = choose|j: int| 0 <= j < l2.len() && l2[j] == x;
        let l1r = l1.drop_first();
        let l2r = l2.remove(j);
        assert(l1.remove(0) =~= l1r);
        assert(l1.remove(0).to_multiset() == l1.to_multiset().remove(x));
        assert(l2r.to_multiset() == l2.to_multiset().remove(x));
        lemma_extracted_multiset(l1r, l2r);
        let pre = l2.subrange(0, j);
        let suf = l2.subrange(j + 1, l2.len() as int);
        assert(l2 =~= (pre + seq![x]) + suf);
        assert(l2r =~= pre + suf);
        assert(l1 =~= seq![x] + l1r);
        lemma_extracted_concat(pre, seq![x]);
        lemma_extracted_concat(pre + seq![x], suf);
        lemma_extracted_concat(pre, suf);
        lemma_extracted_concat(seq![x], l1r);
        let ex = extracted_serials(seq![x]);
        let ep = extracted_serials(pre);
        let es = extracted_serials(suf);
        assert(extracted_serials(l1).to_multiset() == ex.to_multiset().add(
            extracted_serials(l1r).to_multiset(),
        ));
        assert(extracted_serials(l2r).to_multiset() == ep.to_multiset().add(es.to_multiset()));
        assert(extracted_serials(l2).to_multiset() == ep.to_multiset().add(
            ex.to_multiset(),
        ).add(es.to_multiset()));
        assert(extracted_serials(l1).to_multiset() =~= extracted_serials(l2).to_multiset());
    }
}

/// Law: the aggregated fingerprint is a function of the multiset of
/// database lines alone. Two databases holding the same lines in any
/// permutation — as firmware quirks and daemon restarts produce — yield the
/// byte-identical digest.
pub proof fn lemma_aggregation_order_independent(l1: Seq<Seq<u8>>, l2: Seq<Seq<u8>>)
    requires
        l1.to_multiset() == l2.to_multiset(),
        l1.len() <= LINE_CAP,
    ensures
        aggregated_digest(l1) == aggregated_digest(l2),
{
    assert(l1.len() == l1.to_multiset().len());
    assert(l2.len() == l2.to_multiset().len());
    assert(capped_lines(l1) == l1);
    assert(capped_lines(l2) == l2);
    lemma_extracted_multiset(l1, l2);
    let e1 = extracted_serials(l1);
    let e2 = extracted_serials(l2);
    crate::bytes::lemma_lex_geq_total_ordering();
    e1.lemma_sort_by_ensures(lex_geq_order());
    e2.lemma_sort_by_ensures(lex_geq_order());
    vstd::seq_lib::lemma_sorted_unique(
        e1.sort_by(lex_geq_order()),
        e2.sort_by(lex_geq_order()),
        lex_geq_order(),
    );
    assert(e1.sort_by(lex_geq_order()) == e2.sort_by(lex_geq_order()));
}

/// Aggregated DMI serial-number strategy. `lines` is the udev hardware
/// database, one line per entry, or `None` where the database was absent or
/// could not be read in full: aggregation is all-or-nothing, and a partial
/// read yields nothing rather than a misleading partial fingerprint. At
/// most the first `LINE_CAP` lines are examined. The serial-number values
/// are canonically ordered and hashed; a database with no matching lines
/// deliberately still yields an identity value, the digest of the empty
/// stream. Confidence is high: the fingerprint follows the physical
/// component set.
pub fn get_aggregated_dmi_serial_numbers_id(lines: &Option<Vec<Vec<u8>>>) -> (r: Option<SystemId>)
    ensures
        r is Some <==> (*lines) is Some,
        r matches Some(id) ==> (*lines) matches Some(ls) && id@.bytes == aggregated_digest(
            ls.deep_view(),
        ) && id@.bytes.len() == 28 && id@.confidence == Confidence::High,
{
    let ls = match lines {
        Some(ls) => ls,
        None => {
            return None;
        },
    };
    let ghost lv = ls.deep_view();
    let n = if ls.len() > LINE_CAP {
        LINE_CAP
    } else {
        ls.len()
    };
    let ghost cl = capped_lines(lv);
    proof {
        assert(lv.len() == ls@.len());
        assert(cl =~= lv.subrange(0, n as int));
        assert(cl.subrange(0, 0) =~= Seq::<Seq<u8>>::empty());
    }
    let mut serials: Vec<Vec<u8>> = Vec::new();
    proof {
        assert(serials.deep_view() =~= Seq::<Seq<u8>>::empty());
    }
    let mut i: usize = 0;
    while i < n
        invariant
            lv == ls.deep_view(),
            lv.len() == ls@.len(),
            cl == capped_lines(lv),
            cl == lv.subrange(0, n as int),
            n <= ls@.len(),
            i <= n,
            serials.deep_view() == extracted_serials(cl.subrange(0, i as int)),
        decreases n - i,
    {
        let ghost old_serials = serials.deep_view();
        proof {
            assert(cl.subrange(0, i as int + 1) =~= cl.subrange(0, i as int) + seq![cl[i as int]]);
            lemma_extracted_concat(cl.subrange(0, i as int), seq![cl[i as int]]);
            assert(seq![cl[i as int]].drop_first() =~= Seq::<Seq<u8>>::empty());
            assert(extracted_serials(Seq::<Seq<u8>>::empty()) == Seq::<Seq<u8>>::empty());
            assert(cl[i as int] == ls@[i as int]@);
        }
        match serial_line_value(&ls[i]) {
            Some(v) => {
                proof {
                    assert(extracted_serials(seq![cl[i as int]]) =~= seq![
                        serial_value(cl[i as int]),
                    ]);
                }
                serials.push(v);
                proof {
                    assert(v.deep_view() =~= v@);
                    assert(serials.deep_view() =~~= old_serials + seq![v@]);
                }
            },
            None => {
                proof {
                    assert(extracted_serials(seq![cl[i as int]]) =~= Seq::<Seq<u8>>::empty());
                    assert(old_serials + Seq::<Seq<u8>>::empty() =~= old_serials);
                }
            },
        }
        i += 1;
    }
    proof {
        assert(cl.subrange(0, n as int) =~= cl);
    }
    let sorted = sort_descending(serials);
    proof {
        lemma_sort_descending_canonical(extracted_serials(cl), sorted.deep_view());
    }
    let digest = fingerprint(&sorted);
    Some(SystemId::from_bytes(digest, Confidence::High))
}

} // verus!
