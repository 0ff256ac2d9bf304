//! The per-packet processing callback of the forwarding loop.
//!
//! Every forwarded packet gets its Ethernet destination set to the station
//! address 00:00:00:00:00:01 and its source zeroed, and is sent onward with
//! its received length. The forwarding loop itself belongs to the device
//! collaborator that pulls packets from one port and pushes them to the
//! other; only the rewrite applied to each packet is logic of this layer.

use vstd::prelude::*;
use vstd::pervasive::VecAdditionalExecFns;

verus! {

/// The fourteen header bytes are not all touched: exactly the first twelve
/// (destination and source station addresses) are rewritten to this.
pub open spec fn rewritten_header() -> Seq<u8> {
    seq![0u8, 0u8, 0u8, 0u8, 0u8, 1u8, 0u8, 0u8, 0u8, 0u8, 0u8, 0u8]
}

/// Rewrite one received packet in place and report its output length.
///
/// The first twelve bytes of `data` become `rewritten_header()`; every byte
/// beyond them is untouched; the packet goes out on the first output at its
/// received length.
pub fn proc(data: &mut Vec<u8>, length: u16, output_lengths: &mut Vec<u16>)
    requires
        old(data)@.len() >= 12,
        old(output_lengths)@.len() >= 1,
    ensures
        final(data)@.len() == old(data)@.len(),
        final(data)@.subrange(0, 12) == rewritten_header(),
        forall|i: int| 12 <= i < old(data)@.len() ==> final(data)@[i] == old(data)@[i],
        final(output_lengths)@ == old(output_lengths)@.update(0, length),
{
    data.set(0, 0);
    data.set(1, 0);
    data.set(2, 0);
    data.set(3, 0);
    data.set(4, 0);
    data.set(5, 1);
    data.set(6, 0);
    data.set(7, 0);
    data.set(8, 0);
    data.set(9, 0);
    data.set(10, 0);
    data.set(11, 0);
    output_lengths.set(0, length);
    proof {
        assert(data@.subrange(0, 12) =~= rewritten_header());
    }
}

} // verus!
