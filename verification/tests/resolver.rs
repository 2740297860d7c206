//! The platform resolver walking synthetic strategy outcomes.

use system_id::id::Confidence;
use system_id::posix;
use system_id::resolver::{
    bsd_strategy_chain, linux_strategy_chain, macos_strategy_chain, windows_strategy_chain,
    Resolver, Strategy,
};

fn synthetic_outcome(strategy: Strategy) -> Option<system_id::id::SystemId> {
    // A fixed synthetic environment: only the DMI product id and the boot
    // id are available.
    match strategy {
        Strategy::LinuxDmiProductId => system_id::linux::get_dmi_product_id(&Some(
            b"6ba7b810-9dad-11d1-80b4-00c04fd430c8\n".to_vec(),
        )),
        Strategy::LinuxBootId => system_id::linux::get_boot_id(&Some(
            b"11111111-2222-3333-4444-555555555555\n".to_vec(),
        )),
        _ => None,
    }
}

fn resolve_once() -> Option<system_id::id::SystemId> {
    let mut resolver = Resolver::new(linux_strategy_chain());
    while let Some(strategy) = resolver.next_strategy() {
        resolver.report(synthetic_outcome(strategy));
    }
    match resolver.result() {
        Some(id) => Some(system_id::id::SystemId::from_bytes(
            id.bytes().clone(),
            id.confidence(),
        )),
        None => None,
    }
}

#[test]
fn resolver_returns_the_first_success_in_priority_order() {
    let id = resolve_once().expect("a strategy succeeds");
    // The DMI product id outranks the boot id in the priority table.
    let expected = uuid::Uuid::parse_str("6ba7b810-9dad-11d1-80b4-00c04fd430c8").unwrap();
    assert_eq!(id.bytes().as_slice(), expected.as_bytes());
    assert_eq!(id.confidence(), Confidence::High);
}

#[test]
fn resolving_twice_with_unchanged_state_is_bit_identical() {
    let first = resolve_once().expect("resolves");
    let second = resolve_once().expect("resolves");
    assert_eq!(first.bytes(), second.bytes());
    assert_eq!(first.confidence(), second.confidence());
}

#[test]
fn resolver_tries_each_strategy_once_and_in_chain_order() {
    let mut resolver = Resolver::new(linux_strategy_chain());
    let mut tried: Vec<Strategy> = Vec::new();
    while let Some(strategy) = resolver.next_strategy() {
        tried.push(strategy);
        resolver.report(None);
    }
    assert_eq!(
        tried,
        vec![
            Strategy::DbusMachineId,
            Strategy::LinuxDmiProductId,
            Strategy::AggregatedDmiSerialNumbers,
            Strategy::PosixHostId,
            Strategy::LinuxBootId,
        ]
    );
    assert!(resolver.exhausted());
    assert_eq!(*resolver.result(), None);
}

#[test]
fn resolver_stops_at_the_first_success() {
    let mut resolver = Resolver::new(linux_strategy_chain());
    let mut runs: usize = 0;
    while let Some(_strategy) = resolver.next_strategy() {
        runs += 1;
        resolver.report(Some(posix::get_host_id(7)));
    }
    assert_eq!(runs, 1);
    assert!(!resolver.exhausted());
    let id = resolver.result().as_ref().expect("resolved");
    assert_eq!(id.bytes().as_slice(), &7i64.to_be_bytes());
}

#[test]
fn priority_tables_hold_the_documented_orders() {
    assert_eq!(
        linux_strategy_chain(),
        vec![
            Strategy::DbusMachineId,
            Strategy::LinuxDmiProductId,
            Strategy::AggregatedDmiSerialNumbers,
            Strategy::PosixHostId,
            Strategy::LinuxBootId,
        ]
    );
    assert_eq!(
        bsd_strategy_chain(),
        vec![
            Strategy::DbusMachineId,
            Strategy::KernelHostId,
            Strategy::KenvDmiProductId,
            Strategy::PosixHostId,
        ]
    );
    assert_eq!(
        macos_strategy_chain(),
        vec![Strategy::PlatformSerialNumber, Strategy::PosixHostId]
    );
    assert_eq!(
        windows_strategy_chain(),
        vec![
            Strategy::WindowsMachineId,
            Strategy::WmiDmiProductId,
            Strategy::SystemRootVolumeId,
            Strategy::InstallDate,
        ]
    );
}
