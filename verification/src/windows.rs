//! Windows strategies: the registry machine GUID, the WMI product UUID, the
//! system-root volume serial and the install date. The registry, WMI and
//! filesystem-metadata reads happen in the unverified shell; the verified
//! logic validates and converts the plain values they yield.

use vstd::prelude::*;
use crate::endian::be_bytes;
use crate::id::{Confidence, SystemId};
use crate::uuid_text::{is_uuid_text, uuid_bytes, uuid_system_id};

verus! {

/// Windows machine-id strategy. `machine_guid` is the text of the
/// well-known machine GUID registry value, or `None` where the key or value
/// was absent. It must parse as UUID text; the GUID persists across
/// upgrades, so confidence is high.
pub fn get_machine_id(machine_guid: &Option<Vec<u8>>) -> (r: Option<SystemId>)
    ensures
        r is Some <==> ((*machine_guid) matches Some(g) && is_uuid_text(g@)),
        r matches Some(id) ==> (*machine_guid) matches Some(g) && id@.bytes == uuid_bytes(g@)
            && id@.bytes.len() == 16 && id@.confidence == Confidence::High,
{
    match machine_guid {
        Some(g) => uuid_system_id(g, Confidence::High),
        None => None,
    }
}

/// Windows DMI product-uuid strategy. `product_uuid` is the UUID field of
/// the computer-system product as reported by the management interface, or
/// `None` where the query failed. It must parse as UUID text; the product
/// uuid is BIOS-provided and persistent, so confidence is high.
pub fn get_dmi_product_id(product_uuid: &Option<Vec<u8>>) -> (r: Option<SystemId>)
    ensures
        r is Some <==> ((*product_uuid) matches Some(u) && is_uuid_text(u@)),
        r matches Some(id) ==> (*product_uuid) matches Some(u) && id@.bytes == uuid_bytes(u@)
            && id@.bytes.len() == 16 && id@.confidence == Confidence::High,
{
    match product_uuid {
        Some(u) => uuid_system_id(u, Confidence::High),
        None => None,
    }
}

/// Windows system-root volume-serial strategy. `volume_serial` is the
/// serial number from the system-root volume's metadata, or `None` where it
/// was unavailable; it needs no further parse and is kept in canonical
/// 4-byte big-endian form, with high confidence.
pub fn get_system_root_volume_id(volume_serial: &Option<u32>) -> (r: Option<SystemId>)
    ensures
        r is Some <==> (*volume_serial) is Some,
        r matches Some(id) ==> (*volume_serial) matches Some(v) && id@.bytes == be_bytes(
            v as nat,
            4,
        ) && id@.bytes.len() == 4 && id@.confidence == Confidence::High,
{
    match volume_serial {
        Some(v) => Some(SystemId::from_u32(*v, Confidence::High)),
        None => None,
    }
}

/// Windows install-date strategy. `install_date` is the 32-bit install-date
/// registry value, or `None` where it was absent; it is kept in canonical
/// 4-byte big-endian form. The date can change after certain system
/// updates, so confidence is low.
pub fn get_install_date(install_date: &Option<u32>) -> (r: Option<SystemId>)
    ensures
        r is Some <==> (*install_date) is Some,
        r matches Some(id) ==> (*install_date) matches Some(v) && id@.bytes == be_bytes(
            v as nat,
            4,
        ) && id@.bytes.len() == 4 && id@.confidence == Confidence::Low,
{
    match install_date {
        Some(v) => Some(SystemId::from_u32(*v, Confidence::Low)),
        None => None,
    }
}

} // verus!
