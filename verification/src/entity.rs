//! Entity — a lightweight, generational handle into the world.

use vstd::prelude::*;

verus! {

/// Index into the entity arena.
pub type EntityIndex = u32;

/// A 64-bit entity handle: 32-bit index in the low half, 32-bit generation
/// in the high half.
///
/// The generation is incremented every time an entity is despawned and its
/// index recycled, so stale handles can be detected.
#[derive(Clone, Copy, PartialEq, Eq, Structural, Hash, PartialOrd, Ord, Debug)]
pub struct Entity(pub(crate) u64);

/// The index half of a packed handle.
pub open spec fn low_half(bits: u64) -> u32 {
    (bits & 0xffff_ffffu64) as u32
}

/// The generation half of a packed handle.
pub open spec fn high_half(bits: u64) -> u32 {
    (bits >> 32u64) as u32
}

/// The packed form of an (index, generation) pair.
pub open spec fn pack(index: u32, generation: u32) -> u64 {
    (index as u64) | ((generation as u64) << 32u64)
}

impl Entity {
    /// The arena index of this handle.
    pub closed spec fn idx(self) -> u32 {
        low_half(self.0)
    }

    /// The generation of this handle.
    pub closed spec fn gen(self) -> u32 {
        high_half(self.0)
    }

    /// The handle with the given index and generation.
    pub closed spec fn spec_new(index: u32, generation: u32) -> Entity {
        Entity(pack(index, generation))
    }

    /// Create a raw entity from index + generation.
    pub fn new(index: EntityIndex, generation: u32) -> (e: Entity)
        ensures
            e == Entity::spec_new(index, generation),
            e.idx() == index,
            e.gen() == generation,
    {
        proof {
            lemma_pack_unpack(index, generation);
        }
        Entity((index as u64) | ((generation as u64) << 32u64))
    }

    /// The arena index of this handle.
    pub fn index(self) -> (i: EntityIndex)
        ensures
            i == self.idx(),
    {
        (self.0 & 0xffff_ffffu64) as u32
    }

    /// The generation of this handle.
    pub fn generation(self) -> (g: u32)
        ensures
            g == self.gen(),
    {
        (self.0 >> 32u64) as u32
    }

    /// Placeholder used for "no entity": index and generation both `u32::MAX`.
    pub fn placeholder() -> (e: Entity)
        ensures
            e.idx() == u32::MAX,
            e.gen() == u32::MAX,
    {
        Entity::new(u32::MAX, u32::MAX)
    }
}

/// Unpacking a packed pair gives back its two halves.
pub proof fn lemma_pack_unpack(index: u32, generation: u32)
    ensures
        low_half(pack(index, generation)) == index,
        high_half(pack(index, generation)) == generation,
{
    assert(((((index as u64) | ((generation as u64) << 32u64)) & 0xffff_ffffu64) as u32) == index)
        by (bit_vector);
    assert(((((index as u64) | ((generation as u64) << 32u64)) >> 32u64) as u32) == generation)
        by (bit_vector);
}

/// A handle is determined by its two halves: packing them again gives the same bits.
pub proof fn lemma_unpack_pack(bits: u64)
    ensures
        pack(low_half(bits), high_half(bits)) == bits,
{
    assert((((bits & 0xffff_ffffu64) as u32) as u64) | ((((bits >> 32u64) as u32) as u64) << 32u64)
        == bits) by (bit_vector);
}

/// Law: handles made by `new` round-trip — `new(i, g)` has index `i` and
/// generation `g`, and two handles are equal exactly when their indices and
/// generations are equal.
pub proof fn law_entity_roundtrip(a: Entity, b: Entity, index: u32, generation: u32)
    ensures
        Entity::spec_new(index, generation).idx() == index,
        Entity::spec_new(index, generation).gen() == generation,
        (a == b) <==> (a.idx() == b.idx() && a.gen() == b.gen()),
        Entity::spec_new(a.idx(), a.gen()) == a,
{
    lemma_pack_unpack(index, generation);
    lemma_unpack_pack(a.0);
    lemma_unpack_pack(b.0);
}

} // verus!
