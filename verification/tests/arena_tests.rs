use driver_env::arena::{padding_bytes, AlignmentPolicy, Arena};
use driver_env::errors::EnvError;

#[test]
fn size_driven_regions_are_disjoint_and_padded() {
    // The size-driven rule: padding is the cursor modulo the smallest
    // multiple of 64 strictly above the element size.
    let mut a = Arena::new(4096, AlignmentPolicy::SizeDriven);
    let first = a.allocate(10, 4, 4).unwrap();
    assert_eq!(first, 0);
    assert_eq!(a.used, 40);

    // Cursor 40, modulus 64: the rule pads by 40 % 64 = 40.
    assert_eq!(padding_bytes(AlignmentPolicy::SizeDriven, 40, 4, 4), 40);
    let second = a.allocate(10, 4, 4).unwrap();
    assert_eq!(second, 80);
    assert_eq!(a.used, 120);

    // Element size 64 derives modulus 128: the rule pads by 120 % 128 = 120.
    assert_eq!(padding_bytes(AlignmentPolicy::SizeDriven, 120, 64, 64), 120);
    let third = a.allocate(1, 64, 64).unwrap();
    assert_eq!(third, 240);
    assert_eq!(a.used, 304);

    // Regions [0, 40), [80, 120), [240, 304) are pairwise disjoint.
    assert!(first + 40 <= second);
    assert!(second + 40 <= third);
}

#[test]
fn exhaustion_reports_arena_exhausted_and_moves_nothing() {
    let mut a = Arena::new(4096, AlignmentPolicy::AddressDriven);
    // Reaching capacity exactly is already a failure.
    assert_eq!(a.allocate(4096, 1, 1), Err(EnvError::ArenaExhausted));
    assert_eq!(a.used, 0);

    // One byte under capacity still fits.
    assert_eq!(a.allocate(4095, 1, 1), Ok(0));
    assert_eq!(a.used, 4095);

    // The next byte would reach capacity: refused, cursor unchanged.
    assert_eq!(a.allocate(1, 1, 1), Err(EnvError::ArenaExhausted));
    assert_eq!(a.used, 4095);
}

#[test]
fn exhaustion_by_padding_alone_is_refused() {
    let mut a = Arena::new(64, AlignmentPolicy::SizeDriven);
    assert_eq!(a.allocate(10, 4, 4), Ok(0));
    assert_eq!(a.used, 40);
    // Padding 40 % 64 = 40 reaches 80, past the 64-byte capacity.
    assert_eq!(a.allocate(1, 4, 4), Err(EnvError::ArenaExhausted));
    assert_eq!(a.used, 40);
}

#[test]
fn address_driven_padding_aligns_the_cursor() {
    // Cursor 40 is 4-aligned: no padding for 4-byte alignment.
    assert_eq!(padding_bytes(AlignmentPolicy::AddressDriven, 40, 4, 4), 0);
    // Cursor 40 against 64-byte alignment pads up to 64.
    assert_eq!(padding_bytes(AlignmentPolicy::AddressDriven, 40, 4, 64), 24);
    // An aligned cursor needs nothing.
    assert_eq!(padding_bytes(AlignmentPolicy::AddressDriven, 128, 16, 64), 0);
}

#[test]
fn zero_count_allocation_claims_only_padding() {
    let mut a = Arena::new(64, AlignmentPolicy::AddressDriven);
    assert_eq!(a.allocate(0, 8, 8), Ok(0));
    assert_eq!(a.used, 0);
}
