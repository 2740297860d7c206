//! BSD strategies: the kernel host id read through sysctl, and the DMI
//! product id read through the kernel environment (kenv). Both native calls
//! fill a fixed-size text buffer; the verified logic here judges the call's
//! reported result and parses the buffer.

use vstd::prelude::*;
use crate::bytes::{copy_range, find_byte, find_byte_from};
use crate::id::{Confidence, SystemId};
use crate::uuid_text::{is_uuid_text, uuid_bytes, uuid_system_id};

verus! {

/// Whether the buffer holds a NUL terminator.
pub open spec fn nul_terminated(buf: Seq<u8>) -> bool {
    find_byte(buf, 0) is Some
}

/// The buffer's content: the bytes before its first NUL terminator.
pub open spec fn before_nul(buf: Seq<u8>) -> Seq<u8> {
    match find_byte(buf, 0) {
        Some(i) => buf.subrange(0, i),
        None => buf,
    }
}

/// Copies the bytes before the buffer's first NUL terminator; a buffer
/// without one is a malformed native reply and yields nothing.
fn take_before_nul(buf: &Vec<u8>) -> (r: Option<Vec<u8>>)
    ensures
        r is Some <==> nul_terminated(buf@),
        r matches Some(c) ==> c@ == before_nul(buf@),
{
    proof {
        assert(buf@.skip(0) =~= buf@);
    }
    match find_byte_from(buf, 0, 0) {
        Some(i) => Some(copy_range(buf, 0, i)),
        None => None,
    }
}

/// BSD kernel host-id strategy (sysctl by symbolic key into a fixed text
/// buffer). `status` is the native call's return code; only the zero
/// "no error" sentinel is a success. On success the NUL-terminated buffer
/// must parse as UUID text; the kernel host uuid is stable for the OS
/// install, so confidence is high.
pub fn get_kernel_host_id(status: i32, buf: &Vec<u8>) -> (r: Option<SystemId>)
    ensures
        r is Some <==> status == 0 && nul_terminated(buf@) && is_uuid_text(before_nul(buf@)),
        r matches Some(id) ==> id@.bytes == uuid_bytes(before_nul(buf@)) && id@.bytes.len() == 16
            && id@.confidence == Confidence::High,
{
    if status != 0 {
        return None;
    }
    match take_before_nul(buf) {
        Some(c) => uuid_system_id(&c, Confidence::High),
        None => None,
    }
}

/// BSD/Linux DMI product-id strategy via the kernel environment (kenv).
/// `written` is the byte count the native call reports having written: only
/// exactly 33 or 37 — a 32- or 36-character UUID plus its terminator — is
/// accepted, even where the call itself succeeded; the NUL-terminated
/// buffer must then parse as UUID text. The DMI product uuid is
/// BIOS-provided and extremely persistent, so confidence is high.
pub fn get_dmi_product_id(written: i32, buf: &Vec<u8>) -> (r: Option<SystemId>)
    ensures
        r is Some <==> (written == 33 || written == 37) && nul_terminated(buf@) && is_uuid_text(
            before_nul(buf@),
        ),
        r matches Some(id) ==> id@.bytes == uuid_bytes(before_nul(buf@)) && id@.bytes.len() == 16
            && id@.confidence == Confidence::High,
{
    if !(written == 33 || written == 37) {
        return None;
    }
    match take_before_nul(buf) {
        Some(c) => uuid_system_id(&c, Confidence::High),
        None => None,
    }
}

} // verus!
