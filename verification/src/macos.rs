//! macOS strategy: the IOKit platform serial number. The service and
//! property lookups, and the release of every acquired native handle, happen
//! in the unverified shell; the verified logic condenses whatever string
//! came back — its format is unspecified — into a fixed-size digest.

use vstd::prelude::*;
use crate::digest::{sha224_digest, sha224_of};
use crate::id::{Confidence, SystemId};

verus! {

/// macOS platform-serial strategy. `serial` is the platform serial string
/// the service registry yielded, or `None` where the service or the
/// property was unavailable. No format is assumed: the bytes are hashed to
/// the 28-byte SHA-224 digest. The platform serial identifies the machine
/// itself, so confidence is high.
pub fn get_platform_serial_number(serial: &Option<Vec<u8>>) -> (r: Option<SystemId>)
    ensures
        r is Some <==> (*serial) is Some,
        r matches Some(id) ==> (*serial) matches Some(s) && id@.bytes == sha224_of(s@)
            && id@.bytes.len() == 28 && id@.confidence == Confidence::High,
{
    match serial {
        Some(s) => {
            let digest = sha224_digest(s);
            Some(SystemId::from_bytes(digest, Confidence::High))
        },
        None => None,
    }
}

} // verus!
