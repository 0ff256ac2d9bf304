//! Legacy PCI configuration-space transport (mechanism #1).
//!
//! A configuration access first targets a (bus, device, function, register)
//! by writing a packed 32-bit value to the CONFIG_ADDRESS I/O port, then
//! transfers a 32-bit value through the CONFIG_DATA I/O port. The packing and
//! the protocol state machine are verified here over a simulated port pair;
//! the owner of real I/O-port permissions drives the same packing against the
//! hardware ports.

use vstd::prelude::*;
use vstd::string::StringSliceAdditionalSpecFns;

use crate::errors::EnvError;

verus! {

/// The CONFIG_ADDRESS I/O port of the legacy PCI configuration mechanism.
pub const PCI_CONFIG_ADDR: u16 = 0xCF8;

/// The CONFIG_DATA I/O port of the legacy PCI configuration mechanism.
pub const PCI_CONFIG_DATA: u16 = 0xCFC;

/// A PCI function locator: bus, device and function numbers. A plain value
/// with no lifecycle.
#[derive(Clone, Copy, Debug, PartialEq, Eq, Structural)]
pub struct PciAddress {
    pub bus: u8,
    pub device: u8,
    pub function: u8,
}

/// The 32-bit CONFIG_ADDRESS value that targets `register` of the function
/// at `address`: enable bit 31, bus in bits 16 to 23, device in bits 11 to
/// 15, function in bits 8 to 10, register in the low byte.
pub open spec fn spec_target_value(address: PciAddress, register: u8) -> u32 {
    0x8000_0000u32 | ((address.bus as u32) << 16) | ((address.device as u32) << 11) | ((
    address.function as u32) << 8) | (register as u32)
}

/// Compute the CONFIG_ADDRESS value for `register` of the function at
/// `address`.
pub fn pci_target_value(address: PciAddress, register: u8) -> (r: u32)
    ensures
        r == spec_target_value(address, register),
{
    0x8000_0000u32 | ((address.bus as u32) << 16) | ((address.device as u32) << 11) | ((
    address.function as u32) << 8) | (register as u32)
}

/// The value the data port yields for a target: the value most recently
/// written to that target, or zero if it was never written.
pub open spec fn spec_lookup(log: Seq<(u32, u32)>, target: u32) -> u32
    decreases log.len(),
{
    if log.len() == 0 {
        0
    } else if log.last().0 == target {
        log.last().1
    } else {
        spec_lookup(log.drop_last(), target)
    }
}

/// A simulated CONFIG_ADDRESS/CONFIG_DATA port pair.
///
/// `permitted` models whether the process holds I/O-port permission: every
/// access through unpermitted ports fails with `PermissionDenied`, as the
/// real ports do when the operating system refuses the permission request.
/// `latched` is the last value written to CONFIG_ADDRESS; `writes` is the
/// log of (target, value) transfers through CONFIG_DATA, later entries
/// winning.
pub struct ConfigPorts {
    pub permitted: bool,
    pub latched: u32,
    pub writes: Vec<(u32, u32)>,
}

impl ConfigPorts {
    /// A fresh port pair with nothing latched and nothing written.
    pub fn new(permitted: bool) -> (r: ConfigPorts)
        ensures
            r.permitted == permitted,
            r.latched == 0,
            r.writes@ == Seq::<(u32, u32)>::empty(),
    {
        ConfigPorts { permitted, latched: 0, writes: Vec::new() }
    }

    /// A 32-bit write to an I/O port. A write to CONFIG_ADDRESS latches the
    /// target; a write to CONFIG_DATA stores the value at the latched
    /// target; a write anywhere else (such as the port used as a post-write
    /// flush) changes nothing observable.
    pub fn port_out_32(&mut self, port: u16, value: u32) -> (r: Result<(), EnvError>)
        ensures
            !old(self).permitted ==> r == Err::<(), EnvError>(EnvError::PermissionDenied)
                && *final(self) == *old(self),
            old(self).permitted ==> {
                &&& r == Ok::<(), EnvError>(())
                &&& final(self).permitted == old(self).permitted
                &&& if port == PCI_CONFIG_ADDR {
                    final(self).latched == value && final(self).writes@ == old(self).writes@
                } else if port == PCI_CONFIG_DATA {
                    final(self).latched == old(self).latched && final(self).writes@ == old(
                        self,
                    ).writes@.push((old(self).latched, value))
                } else {
                    *final(self) == *old(self)
                }
            },
    {
        if !self.permitted {
            return Err(EnvError::PermissionDenied);
        }
        if port == PCI_CONFIG_ADDR {
            self.latched = value;
        } else if port == PCI_CONFIG_DATA {
            let target = self.latched;
            self.writes.push((target, value));
        }
        Ok(())
    }

    /// A 32-bit read from an I/O port. CONFIG_DATA yields the value at the
    /// latched target; CONFIG_ADDRESS reads back the latch; any other port
    /// yields zero.
    pub fn port_in_32(&self, port: u16) -> (r: Result<u32, EnvError>)
        ensures
            !self.permitted ==> r == Err::<u32, EnvError>(EnvError::PermissionDenied),
            self.permitted ==> r == Ok::<u32, EnvError>(
                if port == PCI_CONFIG_DATA {
                    spec_lookup(self.writes@, self.latched)
                } else if port == PCI_CONFIG_ADDR {
                    self.latched
                } else {
                    0
                },
            ),
    {
        if !self.permitted {
            return Err(EnvError::PermissionDenied);
        }
        if port == PCI_CONFIG_DATA {
            Ok(self.lookup(self.latched))
        } else if port == PCI_CONFIG_ADDR {
            Ok(self.latched)
        } else {
            Ok(0)
        }
    }

    /// The value most recently written to `target`, or zero.
    fn lookup(&self, target: u32) -> (r: u32)
        ensures
            r == spec_lookup(self.writes@, target),
    {
        let mut i: usize = self.writes.len();
        proof {
            assert(self.writes@.take(i as int) =~= self.writes@);
        }
        while i > 0
            invariant
                i <= self.writes@.len(),
                spec_lookup(self.writes@, target) == spec_lookup(self.writes@.take(i as int),
                    target),
            decreases i,
        {
            i = i - 1;
            let entry = self.writes[i];
            if entry.0 == target {
                proof {
                    assert(self.writes@.take(i as int + 1).last() == self.writes@[i as int]);
                }
                return entry.1;
            }
            proof {
                assert(self.writes@.take(i as int + 1).drop_last() =~= self.writes@.take(i as int));
            }
        }
        proof {
            assert(self.writes@.take(0).len() == 0);
        }
        0
    }
}

/// Target `register` of the function at `address`: the first step of every
/// configuration access, a write of the packed value to CONFIG_ADDRESS.
pub fn pci_target(ports: &mut ConfigPorts, address: PciAddress, register: u8) -> (r: Result<
    (),
    EnvError,
>)
    ensures
        !old(ports).permitted ==> r == Err::<(), EnvError>(EnvError::PermissionDenied)
            && *final(ports) == *old(ports),
        old(ports).permitted ==> {
            &&& r == Ok::<(), EnvError>(())
            &&& final(ports).permitted == old(ports).permitted
            &&& final(ports).latched == spec_target_value(address, register)
            &&& final(ports).writes@ == old(ports).writes@
        },
{
    let value = pci_target_value(address, register);
    ports.port_out_32(PCI_CONFIG_ADDR, value)
}

/// A hexadecimal digit, in either case.
pub open spec fn is_hex_digit(b: u8) -> bool {
    (0x30 <= b <= 0x39) || (0x61 <= b <= 0x66) || (0x41 <= b <= 0x46)
}

/// The value of a hexadecimal digit.
pub open spec fn hex_digit_value(b: u8) -> nat
    recommends
        is_hex_digit(b),
{
    if 0x30 <= b <= 0x39 {
        (b - 0x30) as nat
    } else if 0x61 <= b <= 0x66 {
        (b - 0x61 + 10) as nat
    } else {
        (b - 0x41 + 10) as nat
    }
}

/// A nonempty run of hexadecimal digits.
pub open spec fn is_hex_run(s: Seq<u8>) -> bool {
    s.len() > 0 && forall|i: int| 0 <= i < s.len() ==> is_hex_digit(#[trigger] s[i])
}

/// The number a run of hexadecimal digits denotes.
pub open spec fn hex_value(s: Seq<u8>) -> nat
    decreases s.len(),
{
    if s.len() == 0 {
        0
    } else {
        hex_value(s.drop_last()) * 16 + hex_digit_value(s.last())
    }
}

/// The two characters that may separate the fields of a textual PCI address.
pub open spec fn is_separator(b: u8) -> bool {
    b == 0x3au8 || b == 0x2eu8
}

/// The bytes of a well-formed textual PCI address split at positions `i` and
/// `j`: exactly two separators, delimiting three nonempty hexadecimal runs
/// that each denote a value below 256.
pub open spec fn valid_pci_split(s: Seq<u8>, i: int, j: int) -> bool {
    &&& 0 <= i < j < s.len()
    &&& is_separator(s[i])
    &&& is_separator(s[j])
    &&& forall|k: int| 0 <= k < s.len() && k != i && k != j ==> !is_separator(#[trigger] s[k])
    &&& is_hex_run(s.subrange(0, i))
    &&& is_hex_run(s.subrange(i + 1, j))
    &&& is_hex_run(s.subrange(j + 1, s.len() as int))
    &&& hex_value(s.subrange(0, i)) < 256
    &&& hex_value(s.subrange(i + 1, j)) < 256
    &&& hex_value(s.subrange(j + 1, s.len() as int)) < 256
}

/// The PCI address a well-formed split denotes.
pub open spec fn pci_address_of_split(s: Seq<u8>, i: int, j: int) -> PciAddress
    recommends
        valid_pci_split(s, i, j),
{
    PciAddress {
        bus: hex_value(s.subrange(0, i)) as u8,
        device: hex_value(s.subrange(i + 1, j)) as u8,
        function: hex_value(s.subrange(j + 1, s.len() as int)) as u8,
    }
}

/// A prefix of a digit run never denotes more than the whole run.
proof fn lemma_hex_value_prefix_le(s: Seq<u8>, m: int)
    requires
        0 <= m <= s.len(),
    ensures
        hex_value(s.subrange(0, m)) <= hex_value(s),
    decreases s.len(),
{
    if m == s.len() {
        assert(s.subrange(0, m) =~= s);
    } else {
        assert(s.drop_last().subrange(0, m) =~= s.subrange(0, m));
        lemma_hex_value_prefix_le(s.drop_last(), m);
    }
}

/// Decode one hexadecimal digit.
fn hex_digit(b: u8) -> (r: Option<u8>)
    ensures
        match r {
            Some(d) => is_hex_digit(b) && d == hex_digit_value(b),
            None => !is_hex_digit(b),
        },
{
    if 0x30 <= b && b <= 0x39 {
        Some(b - 0x30)
    } else if 0x61 <= b && b <= 0x66 {
        Some(b - 0x61 + 10)
    } else if 0x41 <= b && b <= 0x46 {
        Some(b - 0x41 + 10)
    } else {
        None
    }
}

/// Parse `bytes[start..end]` as a hexadecimal number that must fit in eight
/// bits. Yields the value exactly when the range is a nonempty run of
/// hexadecimal digits denoting a value below 256.
fn parse_hex_u8(bytes: &[u8], start: usize, end: usize) -> (r: Option<u8>)
    requires
        start <= end <= bytes@.len(),
    ensures
        ({
            let part = bytes@.subrange(start as int, end as int);
            match r {
                Some(v) => is_hex_run(part) && hex_value(part) < 256 && v == hex_value(part),
                None => !(is_hex_run(part) && hex_value(part) < 256),
            }
        }),
{
    let ghost part = bytes@.subrange(start as int, end as int);
    if start == end {
        return None;
    }
    let mut acc: u16 = 0;
    let mut k: usize = start;
    proof {
        assert(bytes@.subrange(start as int, start as int) =~= Seq::<u8>::empty());
    }
    while k < end
        invariant
            start <= k <= end <= bytes@.len(),
            acc == hex_value(bytes@.subrange(start as int, k as int)),
            acc <= 255,
            forall|t: int| start <= t < k ==> is_hex_digit(#[trigger] bytes@[t]),
            part == bytes@.subrange(start as int, end as int),
        decreases end - k,
    {
        let d = match hex_digit(bytes[k]) {
            Some(d) => d,
            None => {
                proof {
                    assert(part[k - start] == bytes@[k as int]);
                }
                return None;
            },
        };
        proof {
            assert(bytes@.subrange(start as int, k + 1).drop_last() =~= bytes@.subrange(
                start as int,
                k as int,
            ));
            assert(bytes@.subrange(start as int, k + 1).last() == bytes@[k as int]);
        }
        let next = acc * 16 + (d as u16);
        if next > 255 {
            proof {
                assert(part.subrange(0, k + 1 - start) =~= bytes@.subrange(start as int, k + 1));
                lemma_hex_value_prefix_le(part, k + 1 - start);
            }
            return None;
        }
        acc = next;
        k = k + 1;
    }
    proof {
        assert(part =~= bytes@.subrange(start as int, k as int));
        assert forall|i: int| 0 <= i < part.len() implies is_hex_digit(#[trigger] part[i]) by {
            assert(part[i] == bytes@[start + i]);
        }
    }
    Some(acc as u8)
}

/// Parse a textual PCI address of the form `bus:device.function`, each field
/// hexadecimal, as the process receives it on its command line.
///
/// Yields an address exactly when the text splits at two separators (`:` or
/// `.`, in either role) into three nonempty hexadecimal runs each below 256;
/// anything else is a usage error reported as `None`.
pub fn parse_pci_address(s: &str) -> (r: Option<PciAddress>)
    ensures
        match r {
            Some(a) => exists|i: int, j: int|
                valid_pci_split(s.spec_bytes(), i, j) && a == pci_address_of_split(
                    s.spec_bytes(),
                    i,
                    j,
                ),
            None => !(exists|i: int, j: int| valid_pci_split(s.spec_bytes(), i, j)),
        },
{
    let bytes = s.as_bytes();
    let n = bytes.len();
    let mut sep1: usize = 0;
    let mut sep2: usize = 0;
    let mut sep3: usize = 0;
    let mut count: usize = 0;
    let mut k: usize = 0;
    while k < n
        invariant
            k <= n == bytes@.len(),
            bytes@ == s.spec_bytes(),
            count <= 3,
            count >= 1 ==> sep1 < k && is_separator(bytes@[sep1 as int]),
            count >= 2 ==> sep1 < sep2 < k && is_separator(bytes@[sep2 as int]),
            count >= 3 ==> sep2 < sep3 < k && is_separator(bytes@[sep3 as int]),
            count == 0 ==> forall|t: int| 0 <= t < k ==> !is_separator(#[trigger] bytes@[t]),
            count == 1 ==> forall|t: int|
                0 <= t < k && t != sep1 ==> !is_separator(#[trigger] bytes@[t]),
            count == 2 ==> forall|t: int|
                0 <= t < k && t != sep1 && t != sep2 ==> !is_separator(#[trigger] bytes@[t]),
        decreases n - k,
    {
        let b = bytes[k];
        if b == 0x3au8 || b == 0x2eu8 {
            if count == 0 {
                sep1 = k;
                count = 1;
            } else if count == 1 {
                sep2 = k;
                count = 2;
            } else if count == 2 {
                sep3 = k;
                count = 3;
            }
        }
        k = k + 1;
    }
    if count != 2 {
        proof {
            assert forall|i: int, j: int| !valid_pci_split(s.spec_bytes(), i, j) by {
                if valid_pci_split(s.spec_bytes(), i, j) {
                    if count < 2 {
                        // two distinct separator positions would have been counted
                        assert(is_separator(bytes@[i]) && is_separator(bytes@[j]) && i != j);
                        if count == 1 {
                            assert(i == sep1 && j == sep1);
                        }
                    } else {
                        // three distinct separator positions exist, one beyond the split
                        assert(sep1 < sep2 < sep3);
                        if sep1 != i && sep1 != j {
                            assert(!is_separator(bytes@[sep1 as int]));
                        } else if sep2 != i && sep2 != j {
                            assert(!is_separator(bytes@[sep2 as int]));
                        } else {
                            assert(sep3 != i && sep3 != j);
                            assert(!is_separator(bytes@[sep3 as int]));
                        }
                    }
                }
            }
        }
        return None;
    }
    proof {
        assert forall|i: int, j: int| valid_pci_split(s.spec_bytes(), i, j) implies i == sep1 && j
            == sep2 by {
            if i != sep1 || i != j {
                if i != sep1 && i != sep2 {
                    assert(!is_separator(bytes@[i]));
                }
                if j != sep1 && j != sep2 {
                    assert(!is_separator(bytes@[j]));
                }
            }
        }
    }
    let bus = match parse_hex_u8(bytes, 0, sep1) {
        Some(v) => v,
        None => {
            return None;
        },
    };
    let device = match parse_hex_u8(bytes, sep1 + 1, sep2) {
        Some(v) => v,
        None => {
            return None;
        },
    };
    let function = match parse_hex_u8(bytes, sep2 + 1, n) {
        Some(v) => v,
        None => {
            return None;
        },
    };
    proof {
        assert(valid_pci_split(s.spec_bytes(), sep1 as int, sep2 as int));
    }
    Some(PciAddress { bus, device, function })
}

/// Law: a configuration-space write followed immediately by a read of the
/// same target yields the written value, whatever was in the log before.
pub proof fn lemma_write_then_read(log: Seq<(u32, u32)>, target: u32, value: u32)
    ensures
        spec_lookup(log.push((target, value)), target) == value,
{
    assert(log.push((target, value)).last() == (target, value));
}

} // verus!
