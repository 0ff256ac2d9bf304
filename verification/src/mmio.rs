//! Registry of memory-mapped I/O windows.
//!
//! A mapping of a device's register window must stay valid for the whole
//! process lifetime, because the hardware keeps referencing it. Rather than
//! handing out references with fabricated lifetimes, the registry records
//! each mapping and hands back a small integer token; the owner of the real
//! mapped memory exchanges the token for a view. Mappings are never removed.

use vstd::prelude::*;

use crate::errors::EnvError;

verus! {

/// One retained mapping: the physical base address, the mapped byte length,
/// and the element size of the typed view over it.
#[derive(Clone, Copy, Debug, PartialEq, Eq, Structural)]
pub struct MmioMapping {
    pub phys: u64,
    pub len_bytes: usize,
    pub elem_size: usize,
}

impl MmioMapping {
    /// How many whole elements the mapping holds.
    pub fn elements(&self) -> (r: usize)
        requires
            self.elem_size >= 1,
        ensures
            r == self.len_bytes as int / self.elem_size as int,
    {
        self.len_bytes / self.elem_size
    }
}

/// The process-wide registry of retained mappings. Tokens are indices into
/// the record list, which only ever grows.
pub struct MappingRegistry {
    pub maps: Vec<MmioMapping>,
}

impl MappingRegistry {
    /// An empty registry.
    pub fn new() -> (r: MappingRegistry)
        ensures
            r.maps@ == Seq::<MmioMapping>::empty(),
    {
        MappingRegistry { maps: Vec::new() }
    }

    /// Record a mapping of `len_bytes` bytes at physical address `phys`,
    /// viewed as elements of `elem_size` bytes.
    ///
    /// Fails with `MappingMisaligned`, recording nothing, exactly when the
    /// byte length is not a multiple of the element size; otherwise the
    /// mapping is retained and its token returned. The registered view holds
    /// exactly `len_bytes / elem_size` elements.
    pub fn register(&mut self, phys: u64, len_bytes: usize, elem_size: usize) -> (r: Result<
        usize,
        EnvError,
    >)
        requires
            elem_size >= 1,
        ensures
            match r {
                Ok(token) => {
                    &&& len_bytes as int % elem_size as int == 0
                    &&& token == old(self).maps@.len()
                    &&& final(self).maps@ == old(self).maps@.push(
                        (MmioMapping { phys, len_bytes, elem_size }),
                    )
                },
                Err(e) => {
                    &&& e == EnvError::MappingMisaligned
                    &&& len_bytes as int % elem_size as int != 0
                    &&& *final(self) == *old(self)
                },
            },
    {
        if len_bytes % elem_size != 0 {
            return Err(EnvError::MappingMisaligned);
        }
        let token = self.maps.len();
        self.maps.push(MmioMapping { phys, len_bytes, elem_size });
        Ok(token)
    }

    /// The record behind a token.
    pub fn get(&self, token: usize) -> (r: MmioMapping)
        requires
            token < self.maps@.len(),
        ensures
            r == self.maps@[token as int],
    {
        self.maps[token]
    }

    /// How many mappings are retained.
    pub fn len(&self) -> (r: usize)
        ensures
            r == self.maps@.len(),
    {
        self.maps.len()
    }
}

} // verus!
