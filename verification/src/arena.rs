//! DMA arena allocator.
//!
//! One pinned, physically-contiguous region of fixed capacity is carved into
//! allocations by a monotonically advancing cursor. Allocations are never
//! freed: the arena lives for the whole process. The allocator returns byte
//! offsets into the region; the owner of the backing memory turns an offset
//! into a pointer.
//!
//! Before an allocation the cursor is padded. Two padding rules exist: the
//! size-driven rule of the reference hardware configuration (padding is the
//! cursor modulo the next multiple of 64 strictly above the element size),
//! and the conventional address-driven rule (the cursor is advanced to the
//! next multiple of the element alignment). The policy is chosen when the
//! arena is built, so both behaviours stay available.

use vstd::prelude::*;

use crate::errors::EnvError;

verus! {

/// How the arena pads its cursor before serving an allocation.
#[derive(Clone, Copy, Debug, PartialEq, Eq, Structural)]
pub enum AlignmentPolicy {
    /// Padding is `used % m` where `m` is the smallest multiple of 64
    /// strictly greater than the element size.
    SizeDriven,
    /// The cursor is advanced to the next multiple of the element alignment.
    AddressDriven,
}

/// The modulus the size-driven rule derives from an element size: the
/// smallest multiple of 64 strictly greater than `elem_size`.
pub open spec fn size_driven_modulus(elem_size: nat) -> nat {
    (elem_size + 64 - elem_size % 64) as nat
}

/// Padding inserted before an allocation with cursor `used`.
pub open spec fn spec_padding(
    policy: AlignmentPolicy,
    used: nat,
    elem_size: nat,
    elem_align: nat,
) -> nat
    recommends
        elem_align >= 1,
{
    match policy {
        AlignmentPolicy::SizeDriven => used % size_driven_modulus(elem_size),
        AlignmentPolicy::AddressDriven => if used % elem_align == 0 {
            0
        } else {
            (elem_align - used % elem_align) as nat
        },
    }
}

/// The bump arena: a capacity in bytes, the cursor of bytes used so far, and
/// the padding policy. The backing memory itself is owned elsewhere; the
/// arena accounts for it.
pub struct Arena {
    pub capacity: usize,
    pub used: usize,
    pub policy: AlignmentPolicy,
}

impl Arena {
    /// A fresh arena over `capacity` bytes with nothing allocated yet.
    pub fn new(capacity: usize, policy: AlignmentPolicy) -> (r: Arena)
        ensures
            r.capacity == capacity,
            r.used == 0,
            r.policy == policy,
    {
        Arena { capacity, used: 0, policy }
    }

    /// Claim `count` elements of `elem_size` bytes each, aligned per the
    /// arena's policy, and return the byte offset of the region's start.
    ///
    /// The request fails with `ArenaExhausted`, and the cursor does not move,
    /// exactly when padding plus the requested bytes would push cumulative
    /// usage to or past the capacity. On success the cursor advances by the
    /// padding plus the requested bytes, so the region never crosses the
    /// arena boundary and is disjoint from every earlier region.
    pub fn allocate(&mut self, count: usize, elem_size: usize, elem_align: usize) -> (r: Result<
        usize,
        EnvError,
    >)
        requires
            elem_align >= 1,
            elem_size <= usize::MAX - 64,
        ensures
            ({
                let pad = spec_padding(old(self).policy, old(self).used as nat, elem_size as nat,
                    elem_align as nat);
                match r {
                    Ok(offset) => {
                        &&& old(self).used + pad + count * elem_size < old(self).capacity
                        &&& offset == old(self).used + pad
                        &&& final(self).used == old(self).used + pad + count * elem_size
                        &&& final(self).capacity == old(self).capacity
                        &&& final(self).policy == old(self).policy
                    },
                    Err(e) => {
                        &&& e == EnvError::ArenaExhausted
                        &&& old(self).used + pad + count * elem_size >= old(self).capacity
                        &&& *final(self) == *old(self)
                    },
                }
            }),
    {
        let pad = padding_bytes(self.policy, self.used, elem_size, elem_align);
        if self.used >= self.capacity {
            return Err(EnvError::ArenaExhausted);
        }
        let room = self.capacity - self.used;
        if pad >= room {
            return Err(EnvError::ArenaExhausted);
        }
        let room_after_pad = room - pad;
        proof {
            assert((count as int) * (elem_size as int) <= (u64::MAX as int) * (u64::MAX as int)
                < u128::MAX as int) by (nonlinear_arith)
                requires
                    0 <= count as int <= u64::MAX as int,
                    0 <= elem_size as int <= u64::MAX as int,
            ;
        }
        let requested = (count as u128) * (elem_size as u128);
        if requested >= room_after_pad as u128 {
            return Err(EnvError::ArenaExhausted);
        }
        let offset = self.used + pad;
        self.used = offset + requested as usize;
        Ok(offset)
    }
}

/// One allocation request, at the level of the mathematical model.
pub struct AllocRequest {
    pub count: nat,
    pub elem_size: nat,
    pub elem_align: nat,
}

/// The bytes a request claims beyond its padding.
pub open spec fn request_bytes(r: AllocRequest) -> nat {
    r.count * r.elem_size
}

/// The offset at which a request is served when the cursor stands at `used`.
pub open spec fn alloc_offset(policy: AlignmentPolicy, used: nat, r: AllocRequest) -> nat {
    used + spec_padding(policy, used, r.elem_size, r.elem_align)
}

/// The cursor after a request served at cursor `used`.
pub open spec fn alloc_next_used(policy: AlignmentPolicy, used: nat, r: AllocRequest) -> nat {
    alloc_offset(policy, used, r) + request_bytes(r)
}

/// The cursor after a whole sequence of requests.
pub open spec fn used_after(policy: AlignmentPolicy, used: nat, reqs: Seq<AllocRequest>) -> nat
    decreases reqs.len(),
{
    if reqs.len() == 0 {
        used
    } else {
        used_after(policy, alloc_next_used(policy, used, reqs[0]), reqs.drop_first())
    }
}

/// The regions (start offset, byte length) a sequence of requests receives
/// when the cursor starts at `used`.
pub open spec fn arena_regions(policy: AlignmentPolicy, used: nat, reqs: Seq<AllocRequest>) -> Seq<
    (nat, nat),
>
    decreases reqs.len(),
{
    if reqs.len() == 0 {
        Seq::empty()
    } else {
        seq![(alloc_offset(policy, used, reqs[0]), request_bytes(reqs[0]))] + arena_regions(
            policy,
            alloc_next_used(policy, used, reqs[0]),
            reqs.drop_first(),
        )
    }
}

/// Pairwise disjointness: an earlier region ends at or before a later one starts.
pub open spec fn regions_disjoint(rs: Seq<(nat, nat)>) -> bool {
    forall|i: int, j: int| 0 <= i < j < rs.len() ==> rs[i].0 + rs[i].1 <= rs[j].0
}

/// A request sequence receives exactly one region per request.
pub proof fn lemma_regions_len(policy: AlignmentPolicy, used: nat, reqs: Seq<AllocRequest>)
    ensures
        arena_regions(policy, used, reqs).len() == reqs.len(),
    decreases reqs.len(),
{
    if reqs.len() > 0 {
        lemma_regions_len(policy, alloc_next_used(policy, used, reqs[0]), reqs.drop_first());
    }
}

/// Every region a request sequence receives starts at or after the starting
/// cursor and ends at or before the final cursor, which never moves
/// backwards.
proof fn lemma_regions_start_bound(policy: AlignmentPolicy, used: nat, reqs: Seq<AllocRequest>)
    ensures
        used <= used_after(policy, used, reqs),
        forall|k: int|
            0 <= k < reqs.len() ==> used <= #[trigger] arena_regions(policy, used, reqs)[k].0,
        forall|k: int|
            0 <= k < reqs.len() ==> #[trigger] arena_regions(policy, used, reqs)[k].0
                + arena_regions(policy, used, reqs)[k].1 <= used_after(policy, used, reqs),
    decreases reqs.len(),
{
    if reqs.len() > 0 {
        let next = alloc_next_used(policy, used, reqs[0]);
        lemma_regions_len(policy, used, reqs);
        lemma_regions_len(policy, next, reqs.drop_first());
        lemma_regions_start_bound(policy, next, reqs.drop_first());
        assert forall|k: int| 0 <= k < reqs.len() implies used <= #[trigger] arena_regions(
            policy,
            used,
            reqs,
        )[k].0 && arena_regions(policy, used, reqs)[k].0 + arena_regions(policy, used, reqs)[k].1
            <= used_after(policy, used, reqs) by {
            if k > 0 {
                assert(arena_regions(policy, used, reqs)[k] == arena_regions(
                    policy,
                    next,
                    reqs.drop_first(),
                )[k - 1]);
            }
        }
    }
}

/// The cursor standing before the request at position `i` of a sequence.
pub open spec fn used_before(policy: AlignmentPolicy, used: nat, reqs: Seq<AllocRequest>, i: int) -> nat
    recommends
        0 <= i <= reqs.len(),
{
    used_after(policy, used, reqs.take(i))
}

/// Law: for every sequence of allocation requests whose cumulative padded
/// size stays within the arena capacity, each returned region is disjoint
/// from every other returned region, each region starts exactly at the
/// padded cursor the policy demands, and no region crosses the arena
/// boundary.
pub proof fn lemma_arena_regions_disjoint(
    policy: AlignmentPolicy,
    used: nat,
    reqs: Seq<AllocRequest>,
    capacity: nat,
)
    requires
        used_after(policy, used, reqs) <= capacity,
    ensures
        regions_disjoint(arena_regions(policy, used, reqs)),
        forall|i: int|
            0 <= i < reqs.len() ==> #[trigger] arena_regions(policy, used, reqs)[i].0
                == alloc_offset(policy, used_before(policy, used, reqs, i), reqs[i]),
        forall|i: int|
            0 <= i < reqs.len() ==> #[trigger] arena_regions(policy, used, reqs)[i].0
                + arena_regions(policy, used, reqs)[i].1 <= capacity,
    decreases reqs.len(),
{
    if reqs.len() > 0 {
        let next = alloc_next_used(policy, used, reqs[0]);
        let rest = reqs.drop_first();
        lemma_regions_len(policy, used, reqs);
        lemma_regions_len(policy, next, rest);
        lemma_regions_start_bound(policy, used, reqs);
        lemma_regions_start_bound(policy, next, rest);
        lemma_arena_regions_disjoint(policy, next, rest, capacity);
        let rs = arena_regions(policy, used, reqs);
        assert forall|i: int, j: int| 0 <= i < j < rs.len() implies rs[i].0 + rs[i].1 <= rs[j].0 by {
            if i == 0 {
                assert(rs[j] == arena_regions(policy, next, rest)[j - 1]);
            } else {
                assert(rs[i] == arena_regions(policy, next, rest)[i - 1]);
                assert(rs[j] == arena_regions(policy, next, rest)[j - 1]);
            }
        }
        assert forall|i: int| 0 <= i < reqs.len() implies #[trigger] rs[i].0 == alloc_offset(
            policy,
            used_before(policy, used, reqs, i),
            reqs[i],
        ) by {
            if i == 0 {
                assert(reqs.take(0) =~= Seq::<AllocRequest>::empty());
            } else {
                assert(rs[i] == arena_regions(policy, next, rest)[i - 1]);
                assert(reqs.take(i)[0] == reqs[0]);
                assert(reqs.take(i).drop_first() =~= rest.take(i - 1));
                assert(used_before(policy, used, reqs, i) == used_before(policy, next, rest, i - 1));
            }
        }
    }
}

/// The padding the policy inserts before an allocation when `used` bytes are
/// already claimed, as executable code.
pub fn padding_bytes(policy: AlignmentPolicy, used: usize, elem_size: usize, elem_align: usize)
    -> (r: usize)
    requires
        elem_align >= 1,
        elem_size <= usize::MAX - 64,
    ensures
        r == spec_padding(policy, used as nat, elem_size as nat, elem_align as nat),
{
    match policy {
        AlignmentPolicy::SizeDriven => {
            let modulus = (elem_size / 64) * 64 + 64;
            assert(modulus == size_driven_modulus(elem_size as nat)) by {
                assert(elem_size / 64 * 64 == elem_size - elem_size % 64);
            };
            used % modulus
        },
        AlignmentPolicy::AddressDriven => {
            let rem = used % elem_align;
            if rem == 0 {
                0
            } else {
                elem_align - rem
            }
        },
    }
}

} // verus!
