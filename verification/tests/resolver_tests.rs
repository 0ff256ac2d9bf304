use driver_env::errors::EnvError;
use driver_env::physmem::{pagemap_offset, resolve_entry};

const PRESENT: u64 = 0x8000_0000_0000_0000;

#[test]
fn not_present_entry_fails_with_page_not_present() {
    // Present bit unset, even with a frame number in the low bits.
    assert_eq!(resolve_entry(5, 4096, 4096), Err(EnvError::PageNotPresent));
    assert_eq!(resolve_entry(0, 0, 4096), Err(EnvError::PageNotPresent));
}

#[test]
fn zero_frame_number_fails_with_page_not_mapped() {
    assert_eq!(resolve_entry(PRESENT, 123, 4096), Err(EnvError::PageNotMapped));
    // Bits 55 to 62 are not part of the frame number.
    assert_eq!(
        resolve_entry(PRESENT | 0x0080_0000_0000_0000, 123, 4096),
        Err(EnvError::PageNotMapped)
    );
}

#[test]
fn valid_entry_resolves_frame_times_page_size_plus_offset() {
    // Zero offset within the page.
    assert_eq!(resolve_entry(PRESENT | 5, 8192, 4096), Ok(5 * 4096));
    // Non-zero offset within the page.
    assert_eq!(resolve_entry(PRESENT | 5, 8192 + 7, 4096), Ok(5 * 4096 + 7));
    // A different page size.
    assert_eq!(resolve_entry(PRESENT | 3, 70000, 65536), Ok(3 * 65536 + (70000 % 65536)));
}

#[test]
fn pagemap_offset_is_eight_bytes_per_page() {
    assert_eq!(pagemap_offset(0, 4096), 0);
    assert_eq!(pagemap_offset(4095, 4096), 0);
    assert_eq!(pagemap_offset(4096, 4096), 8);
    assert_eq!(pagemap_offset(3 * 4096 + 17, 4096), 24);
}
