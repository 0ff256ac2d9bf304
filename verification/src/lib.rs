//! Hardware-access environment for a user-space, kernel-bypass NIC driver.
//!
//! The library models and verifies the layer beneath the packet-forwarding
//! loop: a bump arena for physically-backed DMA memory, a resolver that turns
//! virtual addresses into physical bus addresses by decoding page-table
//! metadata entries, a registry of memory-mapped I/O windows, and the legacy
//! PCI configuration-space transport. The `Environment` trait is the single
//! capability surface a device collaborator sees; a fully verified simulated
//! implementation backs the contracts, while a hardware-backed implementation
//! lives outside the verified library and reuses the same verified logic.

use vstd::prelude::*;

pub mod arena;
pub mod env;
pub mod errors;
pub mod mmio;
pub mod packet;
pub mod pci;
pub mod physmem;

verus! {

} // verus!
