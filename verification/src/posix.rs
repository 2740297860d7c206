//! Strategies shared across Unix-like platforms: the D-Bus/systemd machine
//! id and the POSIX host id.

use vstd::prelude::*;
use crate::bytes::{trim_ascii, trim_ascii_bytes};
use crate::endian::{be_bytes, i64_bits};
use crate::hex::{all_hex, hex_value, parse_hex_u128};
use crate::id::{Confidence, SystemId};

verus! {

/// A machine-id file's content is valid when, after trimming ASCII
/// whitespace, exactly 32 hexadecimal digits remain.
pub open spec fn machine_id_text_valid(c: Seq<u8>) -> bool {
    trim_ascii(c).len() == 32 && all_hex(trim_ascii(c))
}

/// The 128-bit machine id denoted by a machine-id file's content.
pub open spec fn machine_id_value(c: Seq<u8>) -> nat {
    hex_value(trim_ascii(c))
}

/// Outcome of the D-Bus/systemd machine-id strategy over the ordered
/// contents of the well-known machine-id files (`None` where a file could
/// not be read): the first content that is present and valid wins.
pub open spec fn dbus_machine_id(contents: Seq<Option<Seq<u8>>>) -> Option<nat>
    decreases contents.len(),
{
    if contents.len() == 0 {
        None
    } else {
        match contents[0] {
            Some(c) => if machine_id_text_valid(c) {
                Some(machine_id_value(c))
            } else {
                dbus_machine_id(contents.drop_first())
            },
            None => dbus_machine_id(contents.drop_first()),
        }
    }
}

/// D-Bus/systemd machine-id strategy. `contents` holds, for each well-known
/// machine-id file in priority order, the bytes read from it, or `None`
/// where the file could not be opened. The first content present and valid
/// — 32 hexadecimal digits once trimmed — yields the id in canonical
/// 16-byte big-endian form, with high confidence: the machine id is meant
/// to be constant for the lifetime of the OS install.
pub fn get_dbus_machine_id(contents: &Vec<Option<Vec<u8>>>) -> (r: Option<SystemId>)
    ensures
        r is Some <==> dbus_machine_id(contents.deep_view()) is Some,
        r matches Some(id) ==> dbus_machine_id(contents.deep_view()) matches Some(v)
            && id@.bytes == be_bytes(v, 16) && id@.bytes.len() == 16 && id@.confidence
            == Confidence::High,
{
    let ghost cv = contents.deep_view();
    proof {
        assert(cv.skip(0) =~= cv);
    }
    let mut i: usize = 0;
    while i < contents.len()
        invariant
            cv == contents.deep_view(),
            cv.len() == contents@.len(),
            i <= contents@.len(),
            dbus_machine_id(cv) == dbus_machine_id(cv.skip(i as int)),
        decreases contents@.len() - i,
    {
        proof {
            assert(cv[i as int] == contents@[i as int].deep_view());
            assert(cv.skip(i as int)[0] == cv[i as int]);
            assert(cv.skip(i as int).drop_first() =~= cv.skip(i as int + 1));
        }
        match &contents[i] {
            Some(c) => {
                proof {
                    assert(cv[i as int] == Some(c@));
                }
                let t = trim_ascii_bytes(c);
                match parse_hex_u128(&t) {
                    Some(v) => {
                        proof {
                            assert(machine_id_text_valid(c@));
                            assert(dbus_machine_id(cv.skip(i as int)) == Some(
                                machine_id_value(c@),
                            ));
                        }
                        return Some(SystemId::from_u128(v, Confidence::High));
                    },
                    None => {
                        proof {
                            assert(!machine_id_text_valid(c@));
                        }
                    },
                }
            },
            None => {
            },
        }
        i += 1;
    }
    proof {
        assert(cv.skip(cv.len() as int).len() == 0);
    }
    None
}

/// POSIX host-id strategy: wraps the machine word the host-id call returned
/// in canonical 8-byte big-endian form, by its two's-complement bit
/// pattern. The call itself cannot fail, but how the word is generated is
/// system-dependent and sometimes degrades to a constant, so confidence is
/// low.
pub fn get_host_id(host_id: i64) -> (r: SystemId)
    ensures
        r@.bytes == be_bytes(i64_bits(host_id), 8),
        r@.bytes.len() == 8,
        r@.confidence == Confidence::Low,
{
    SystemId::from_i64(host_id, Confidence::Low)
}

} // verus!
