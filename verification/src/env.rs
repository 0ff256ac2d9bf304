//! The environment facade.
//!
//! A device or agent collaborator never touches memory layout, hardware
//! registers or the PCI bus directly: it is handed one capability object,
//! the `Environment`, whose five operations are allocation of pinned memory,
//! physical-address resolution, MMIO mapping, PCI configuration access and a
//! blocking sleep.
//!
//! The trait's contracts are stated against an abstract state, `EnvModel`,
//! and a transition function per operation, so every implementation promises
//! the same observable behaviour. `SimEnvironment` is the verified
//! implementation over synthetic memory and canned PCI responses; a
//! hardware-backed implementation performs the same transitions against the
//! operating system.

use vstd::prelude::*;

use crate::arena::{spec_padding, AlignmentPolicy, Arena};
use crate::errors::EnvError;
use crate::mmio::{MappingRegistry, MmioMapping};
use crate::pci::{pci_target, spec_lookup, spec_target_value, ConfigPorts, PciAddress,
    PCI_CONFIG_DATA};
use crate::physmem::{entry_pfn, entry_present, resolve_entry};

verus! {

/// The abstract state of an environment: the arena cursor, the retained
/// mappings, the PCI configuration transport, the page-table metadata and
/// the time slept.
pub struct EnvModel {
    pub arena_capacity: nat,
    pub arena_used: nat,
    pub arena_policy: AlignmentPolicy,
    pub mappings: Seq<MmioMapping>,
    pub mem_permitted: bool,
    pub phys_mem_len: nat,
    pub ports_permitted: bool,
    pub pci_latched: u32,
    pub pci_writes: Seq<(u32, u32)>,
    pub page_size: nat,
    pub pagemap: Seq<u64>,
    pub slept_ms: nat,
}

/// A `Result` over machine words, lifted to the model's mathematical values.
pub open spec fn usize_result_model(r: Result<usize, EnvError>) -> Result<nat, EnvError> {
    match r {
        Ok(v) => Ok(v as nat),
        Err(e) => Err(e),
    }
}

/// Transition: claim `count` elements of `elem_size` bytes from the arena.
pub open spec fn spec_allocate(m: EnvModel, count: usize, elem_size: usize, elem_align: usize) -> (
    EnvModel,
    Result<nat, EnvError>,
) {
    let pad = spec_padding(m.arena_policy, m.arena_used, elem_size as nat, elem_align as nat);
    if m.arena_used + pad + count * elem_size >= m.arena_capacity {
        (m, Err(EnvError::ArenaExhausted))
    } else {
        (
            EnvModel { arena_used: (m.arena_used + pad + count * elem_size) as nat, ..m },
            Ok((m.arena_used + pad) as nat),
        )
    }
}

/// Transition: map `len_bytes` bytes of physical memory at `phys` as
/// elements of `elem_size` bytes. A misaligned length is refused first; then
/// missing permission for the raw-memory device; then a range the device
/// cannot serve. Success retains the mapping forever and yields its token.
pub open spec fn spec_map_physical(m: EnvModel, phys: u64, len_bytes: usize, elem_size: usize) -> (
    EnvModel,
    Result<nat, EnvError>,
)
    recommends
        elem_size >= 1,
{
    if len_bytes as int % elem_size as int != 0 {
        (m, Err(EnvError::MappingMisaligned))
    } else if !m.mem_permitted {
        (m, Err(EnvError::PermissionDenied))
    } else if phys + len_bytes > m.phys_mem_len {
        (m, Err(EnvError::MappingFailed))
    } else {
        (
            EnvModel { mappings: m.mappings.push((MmioMapping { phys, len_bytes, elem_size })), ..m },
            Ok(m.mappings.len()),
        )
    }
}

/// The page-table metadata entry governing `addr`: entries beyond the
/// recorded table read as zero, which is a non-present page.
pub open spec fn model_entry(m: EnvModel, addr: usize) -> u64
    recommends
        m.page_size >= 1,
{
    let page = addr as nat / m.page_size;
    if page < m.pagemap.len() {
        m.pagemap[page as int]
    } else {
        0
    }
}

/// Transition: resolve a virtual address to the physical bus address backing
/// it. The state does not change.
pub open spec fn spec_resolve(m: EnvModel, addr: usize) -> Result<nat, EnvError>
    recommends
        m.page_size >= 1,
{
    let entry = model_entry(m, addr);
    if !entry_present(entry) {
        Err(EnvError::PageNotPresent)
    } else if entry_pfn(entry) == 0 {
        Err(EnvError::PageNotMapped)
    } else {
        Ok((entry_pfn(entry) * m.page_size + addr as nat % m.page_size) as nat)
    }
}

/// Transition: a PCI configuration write. The target is latched on
/// CONFIG_ADDRESS and the value transferred through CONFIG_DATA.
pub open spec fn spec_pci_write(m: EnvModel, address: PciAddress, register: u8, value: u32) -> (
    EnvModel,
    Result<(), EnvError>,
) {
    if !m.ports_permitted {
        (m, Err(EnvError::PermissionDenied))
    } else {
        let target = spec_target_value(address, register);
        (
            EnvModel { pci_latched: target, pci_writes: m.pci_writes.push((target, value)), ..m },
            Ok(()),
        )
    }
}

/// Transition: a PCI configuration read. The target is latched on
/// CONFIG_ADDRESS and CONFIG_DATA yields the value most recently written to
/// that target, or zero.
pub open spec fn spec_pci_read(m: EnvModel, address: PciAddress, register: u8) -> (
    EnvModel,
    Result<u32, EnvError>,
) {
    if !m.ports_permitted {
        (m, Err(EnvError::PermissionDenied))
    } else {
        let target = spec_target_value(address, register);
        (EnvModel { pci_latched: target, ..m }, Ok(spec_lookup(m.pci_writes, target)))
    }
}

/// Transition: block the calling thread for `ms` milliseconds.
pub open spec fn spec_sleep(m: EnvModel, ms: u64) -> EnvModel {
    EnvModel { slept_ms: (m.slept_ms + ms) as nat, ..m }
}

/// Law: through permitted ports, a PCI configuration write followed
/// immediately by a read of the same (address, register) yields the written
/// value, from any starting state.
pub proof fn lemma_pci_write_then_read(m: EnvModel, address: PciAddress, register: u8, value: u32)
    requires
        m.ports_permitted,
    ensures
        spec_pci_read(spec_pci_write(m, address, register, value).0, address, register).1
            == Ok::<u32, EnvError>(value),
{
    crate::pci::lemma_write_then_read(m.pci_writes, spec_target_value(address, register), value);
}

/// The single capability surface handed to device and agent collaborators.
///
/// Every operation is specified as a transition of the abstract `EnvModel`,
/// so a collaborator verified against this trait behaves the same over the
/// simulated environment and over a hardware-backed one.
pub trait Environment: Sized {
    /// The abstract state of this environment. Left arbitrary by default:
    /// an implementation outside the verified library need not name one,
    /// while every implementation verified against this trait gives it a
    /// body that its method proofs then answer to.
    open spec fn model(&self) -> EnvModel {
        vstd::pervasive::arbitrary()
    }

    /// Claim `count` elements of `elem_size` bytes each from the pinned
    /// arena, padded per the arena's policy; the returned byte offset into
    /// the arena region stays valid until process exit.
    fn allocate_slice(&mut self, count: usize, elem_size: usize, elem_align: usize) -> (r: Result<
        usize,
        EnvError,
    >)
        requires
            elem_align >= 1,
            elem_size <= usize::MAX - 64,
        ensures
            final(self).model() == spec_allocate(old(self).model(), count, elem_size, elem_align).0,
            usize_result_model(r) == spec_allocate(old(self).model(), count, elem_size,
                elem_align).1,
    ;

    /// Claim a compile-time-sized batch of `COUNT` elements from the arena.
    fn allocate<const COUNT: usize>(&mut self, elem_size: usize, elem_align: usize) -> (r: Result<
        usize,
        EnvError,
    >)
        requires
            elem_align >= 1,
            elem_size <= usize::MAX - 64,
        ensures
            final(self).model() == spec_allocate(old(self).model(), COUNT, elem_size, elem_align).0,
            usize_result_model(r) == spec_allocate(old(self).model(), COUNT, elem_size,
                elem_align).1,
    ;

    /// Map `len_bytes` bytes of physical memory at `addr` (a 64-bit value,
    /// since PCI base address registers are 64-bit) as a window of elements
    /// of `elem_size` bytes, retained for the process lifetime; the token
    /// returned stands for the window.
    fn map_physical_memory(&mut self, addr: u64, len_bytes: usize, elem_size: usize) -> (r: Result<
        usize,
        EnvError,
    >)
        requires
            elem_size >= 1,
        ensures
            final(self).model() == spec_map_physical(old(self).model(), addr, len_bytes,
                elem_size).0,
            usize_result_model(r) == spec_map_physical(old(self).model(), addr, len_bytes,
                elem_size).1,
    ;

    /// How many whole elements the mapped window behind `token` holds.
    fn mapping_elements(&self, token: usize) -> (r: usize)
        requires
            token < self.model().mappings.len(),
            self.model().mappings[token as int].elem_size >= 1,
        ensures
            r == self.model().mappings[token as int].len_bytes as int / self.model(
            ).mappings[token as int].elem_size as int,
    ;

    /// Resolve a virtual address into the physical bus address backing it,
    /// by decoding the page-table metadata entry of its page.
    fn get_physical_address(&self, addr: usize) -> (r: Result<usize, EnvError>)
        requires
            self.model().page_size >= 1,
            entry_present(model_entry(self.model(), addr)) && entry_pfn(
                model_entry(self.model(), addr),
            ) != 0 ==> entry_pfn(model_entry(self.model(), addr)) * self.model().page_size
                + self.model().page_size <= usize::MAX + 1,
        ensures
            usize_result_model(r) == spec_resolve(self.model(), addr),
    ;

    /// Read the 32-bit configuration register `register` of the PCI function
    /// at `address`.
    fn pci_read(&mut self, address: PciAddress, register: u8) -> (r: Result<u32, EnvError>)
        ensures
            final(self).model() == spec_pci_read(old(self).model(), address, register).0,
            r == spec_pci_read(old(self).model(), address, register).1,
    ;

    /// Write `value` to the 32-bit configuration register `register` of the
    /// PCI function at `address`.
    fn pci_write(&mut self, address: PciAddress, register: u8, value: u32) -> (r: Result<
        (),
        EnvError,
    >)
        ensures
            final(self).model() == spec_pci_write(old(self).model(), address, register, value).0,
            r == spec_pci_write(old(self).model(), address, register, value).1,
    ;

    /// Block the calling thread for `ms` milliseconds, in full and without
    /// cancellation.
    fn sleep(&mut self, ms: u64)
        requires
            old(self).model().slept_ms + ms <= u64::MAX,
        ensures
            final(self).model() == spec_sleep(old(self).model(), ms),
    ;
}

/// The verified environment over synthetic resources: an in-process arena,
/// a synthetic page-table metadata array, a bounded synthetic physical
/// memory and a simulated PCI port pair. It substitutes for the
/// hardware-backed environment wherever no real device is wanted.
pub struct SimEnvironment {
    pub arena: Arena,
    pub mappings: MappingRegistry,
    pub ports: ConfigPorts,
    pub mem_permitted: bool,
    pub phys_mem_len: u64,
    pub page_size: usize,
    pub pagemap: Vec<u64>,
    pub slept_ms: u64,
}

impl SimEnvironment {
    /// A fresh simulated environment.
    ///
    /// `capacity` bytes of arena are governed by `policy`; `pagemap` holds
    /// one synthetic page-table metadata entry per page of a `page_size`
    /// paged address space; `phys_mem_len` bounds the synthetic physical
    /// memory; the two permission flags model what the operating system
    /// would grant.
    pub fn new(
        capacity: usize,
        policy: AlignmentPolicy,
        page_size: usize,
        pagemap: Vec<u64>,
        phys_mem_len: u64,
        ports_permitted: bool,
        mem_permitted: bool,
    ) -> (r: SimEnvironment)
        ensures
            r.model() == (EnvModel {
                arena_capacity: capacity as nat,
                arena_used: 0,
                arena_policy: policy,
                mappings: Seq::<MmioMapping>::empty(),
                mem_permitted,
                phys_mem_len: phys_mem_len as nat,
                ports_permitted,
                pci_latched: 0,
                pci_writes: Seq::<(u32, u32)>::empty(),
                page_size: page_size as nat,
                pagemap: pagemap@,
                slept_ms: 0,
            }),
    {
        SimEnvironment {
            arena: Arena::new(capacity, policy),
            mappings: MappingRegistry::new(),
            ports: ConfigPorts::new(ports_permitted),
            mem_permitted,
            phys_mem_len,
            page_size,
            pagemap,
            slept_ms: 0,
        }
    }
}

impl Environment for SimEnvironment {
    open spec fn model(&self) -> EnvModel {
        EnvModel {
            arena_capacity: self.arena.capacity as nat,
            arena_used: self.arena.used as nat,
            arena_policy: self.arena.policy,
            mappings: self.mappings.maps@,
            mem_permitted: self.mem_permitted,
            phys_mem_len: self.phys_mem_len as nat,
            ports_permitted: self.ports.permitted,
            pci_latched: self.ports.latched,
            pci_writes: self.ports.writes@,
            page_size: self.page_size as nat,
            pagemap: self.pagemap@,
            slept_ms: self.slept_ms as nat,
        }
    }

    fn allocate_slice(&mut self, count: usize, elem_size: usize, elem_align: usize) -> (r: Result<
        usize,
        EnvError,
    >) {
        self.arena.allocate(count, elem_size, elem_align)
    }

    fn allocate<const COUNT: usize>(&mut self, elem_size: usize, elem_align: usize) -> (r: Result<
        usize,
        EnvError,
    >) {
        self.allocate_slice(COUNT, elem_size, elem_align)
    }

    fn map_physical_memory(&mut self, addr: u64, len_bytes: usize, elem_size: usize) -> (r: Result<
        usize,
        EnvError,
    >) {
        if len_bytes % elem_size != 0 {
            return Err(EnvError::MappingMisaligned);
        }
        if !self.mem_permitted {
            return Err(EnvError::PermissionDenied);
        }
        if (addr as u128) + (len_bytes as u128) > (self.phys_mem_len as u128) {
            return Err(EnvError::MappingFailed);
        }
        self.mappings.register(addr, len_bytes, elem_size)
    }

    fn mapping_elements(&self, token: usize) -> (r: usize) {
        self.mappings.get(token).elements()
    }

    fn get_physical_address(&self, addr: usize) -> (r: Result<usize, EnvError>) {
        let page = addr / self.page_size;
        let entry = if page < self.pagemap.len() {
            self.pagemap[page]
        } else {
            0
        };
        resolve_entry(entry, addr, self.page_size)
    }

    fn pci_read(&mut self, address: PciAddress, register: u8) -> (r: Result<u32, EnvError>) {
        match pci_target(&mut self.ports, address, register) {
            Ok(()) => self.ports.port_in_32(PCI_CONFIG_DATA),
            Err(e) => Err(e),
        }
    }

    fn pci_write(&mut self, address: PciAddress, register: u8, value: u32) -> (r: Result<
        (),
        EnvError,
    >) {
        match pci_target(&mut self.ports, address, register) {
            Ok(()) => self.ports.port_out_32(PCI_CONFIG_DATA, value),
            Err(e) => Err(e),
        }
    }

    fn sleep(&mut self, ms: u64) {
        self.slept_ms = self.slept_ms + ms;
    }
}

} // verus!
