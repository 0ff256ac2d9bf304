use driver_env::arena::AlignmentPolicy;
use driver_env::env::{Environment, SimEnvironment};
use driver_env::errors::EnvError;
use driver_env::pci::PciAddress;

const PRESENT: u64 = 0x8000_0000_0000_0000;

fn small_env(policy: AlignmentPolicy) -> SimEnvironment {
    // A 4096-byte synthetic arena substituted for the hugepage, a synthetic
    // pagemap of three pages, one megabyte of synthetic physical memory, and
    // both permissions granted.
    let pagemap = vec![0, PRESENT, PRESENT | 5];
    SimEnvironment::new(4096, policy, 4096, pagemap, 1 << 20, true, true)
}

#[test]
fn two_allocations_in_a_row_are_adjacent() {
    // A 4096-byte synthetic arena; 10 elements of 4 bytes, twice in a row.
    let mut env = small_env(AlignmentPolicy::AddressDriven);
    let first = env.allocate_slice(10, 4, 4).unwrap();
    // The cursor stands at 40, which is already 4-byte aligned, so the
    // second request needs no padding and lands exactly 40 bytes further.
    assert_eq!(
        driver_env::arena::padding_bytes(AlignmentPolicy::AddressDriven, 40, 4, 4),
        0
    );
    let second = env.allocate_slice(10, 4, 4).unwrap();
    assert_eq!(second, first + 40);
}

#[test]
fn size_driven_variant_pads_the_second_allocation() {
    // The same two requests under the size-driven reference rule: the second
    // is padded by 40 % 64 = 40 and lands 80 bytes past the first.
    let mut env = small_env(AlignmentPolicy::SizeDriven);
    let first = env.allocate_slice(10, 4, 4).unwrap();
    assert_eq!(
        driver_env::arena::padding_bytes(AlignmentPolicy::SizeDriven, 40, 4, 4),
        40
    );
    let second = env.allocate_slice(10, 4, 4).unwrap();
    assert_eq!(second, first + 80);
}

#[test]
fn fixed_count_allocation_matches_the_slice_form() {
    let mut env = small_env(AlignmentPolicy::AddressDriven);
    let first = env.allocate::<10>(4, 4).unwrap();
    let second = env.allocate_slice(10, 4, 4).unwrap();
    assert_eq!(first, 0);
    assert_eq!(second, 40);
}

#[test]
fn arena_exhaustion_through_the_facade() {
    let mut env = small_env(AlignmentPolicy::AddressDriven);
    assert_eq!(env.allocate_slice(4096, 1, 1), Err(EnvError::ArenaExhausted));
    assert_eq!(env.arena.used, 0);
}

#[test]
fn resolution_against_the_synthetic_pagemap() {
    let env = small_env(AlignmentPolicy::AddressDriven);
    // Page 0 is marked not present.
    assert_eq!(env.get_physical_address(100), Err(EnvError::PageNotPresent));
    // Page 1 is present with a zero frame number.
    assert_eq!(env.get_physical_address(4096), Err(EnvError::PageNotMapped));
    // Page 2 backs onto frame 5: zero and non-zero offsets.
    assert_eq!(env.get_physical_address(2 * 4096), Ok(5 * 4096));
    assert_eq!(env.get_physical_address(2 * 4096 + 123), Ok(5 * 4096 + 123));
    // Pages beyond the synthetic table are not present.
    assert_eq!(env.get_physical_address(100 * 4096), Err(EnvError::PageNotPresent));
}

#[test]
fn mapping_misaligned_length_is_refused() {
    let mut env = small_env(AlignmentPolicy::AddressDriven);
    // 65 bytes is no whole number of 16-byte elements.
    assert_eq!(
        env.map_physical_memory(0x1000, 65, 16),
        Err(EnvError::MappingMisaligned)
    );
    assert_eq!(env.mappings.len(), 0);
}

#[test]
fn mapping_valid_range_yields_exactly_len_over_elem_size_elements() {
    let mut env = small_env(AlignmentPolicy::AddressDriven);
    let token = env.map_physical_memory(0x1000, 64, 16).unwrap();
    assert_eq!(env.mapping_elements(token), 4);
    let token2 = env.map_physical_memory(0x8000, 4096, 4).unwrap();
    assert_eq!(env.mapping_elements(token2), 1024);
    assert_eq!(env.mappings.len(), 2);
}

#[test]
fn mapping_beyond_synthetic_memory_fails() {
    let mut env = small_env(AlignmentPolicy::AddressDriven);
    // One megabyte of synthetic physical memory: one byte past it fails.
    assert_eq!(
        env.map_physical_memory((1 << 20) - 63, 64, 16),
        Err(EnvError::MappingFailed)
    );
    assert_eq!(env.map_physical_memory((1 << 20) - 64, 64, 16), Ok(0));
}

#[test]
fn mapping_without_permission_is_denied() {
    let pagemap = vec![0];
    let mut env =
        SimEnvironment::new(4096, AlignmentPolicy::AddressDriven, 4096, pagemap, 1 << 20, true, false);
    assert_eq!(
        env.map_physical_memory(0x1000, 64, 16),
        Err(EnvError::PermissionDenied)
    );
}

#[test]
fn pci_write_then_read_returns_the_written_value() {
    let mut env = small_env(AlignmentPolicy::AddressDriven);
    let addr = PciAddress { bus: 0x00, device: 0x1F, function: 0x06 };
    assert_eq!(env.pci_write(addr, 0x10, 0xDEAD_BEEF), Ok(()));
    assert_eq!(env.pci_read(addr, 0x10), Ok(0xDEAD_BEEF));

    // A second write to the same target wins over the first.
    assert_eq!(env.pci_write(addr, 0x10, 0x1234_5678), Ok(()));
    assert_eq!(env.pci_read(addr, 0x10), Ok(0x1234_5678));

    // Another register of the same function is untouched.
    assert_eq!(env.pci_read(addr, 0x14), Ok(0));
}

#[test]
fn pci_access_without_permission_is_denied() {
    let pagemap = vec![0];
    let mut env =
        SimEnvironment::new(4096, AlignmentPolicy::AddressDriven, 4096, pagemap, 1 << 20, false, true);
    let addr = PciAddress { bus: 0, device: 0, function: 0 };
    assert_eq!(env.pci_write(addr, 0, 1), Err(EnvError::PermissionDenied));
    assert_eq!(env.pci_read(addr, 0), Err(EnvError::PermissionDenied));
}

#[test]
fn sleep_accumulates_for_the_full_duration() {
    let mut env = small_env(AlignmentPolicy::AddressDriven);
    env.sleep(5);
    env.sleep(7);
    assert_eq!(env.slept_ms, 12);
}

#[test]
fn error_conditions_describe_themselves() {
    assert_eq!(EnvError::ArenaExhausted.describe(), "arena exhausted");
    assert_eq!(EnvError::MappingMisaligned.describe(), "mapping misaligned");
    assert_eq!(EnvError::MappingFailed.describe(), "mapping failed");
    assert_eq!(EnvError::PageNotPresent.describe(), "page not present");
    assert_eq!(EnvError::PageNotMapped.describe(), "page not mapped");
    assert_eq!(EnvError::PermissionDenied.describe(), "permission denied");
}
