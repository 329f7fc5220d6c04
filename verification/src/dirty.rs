//! Dirty masks: which GPU resources of an object are stale.

use vstd::prelude::*;

verus! {

/// A GPU resource of a dynamic object that can fall behind the CPU state.
#[derive(Clone, Copy, Debug, PartialEq, Eq, Structural)]
pub enum Resource {
    VertexBuffer,
    IndexBuffer,
    BlockState,
}

/// The mask bit that stands for a resource.
pub open spec fn bit_of(r: Resource) -> u32 {
    match r {
        Resource::VertexBuffer => 1u32,
        Resource::IndexBuffer => 2u32,
        Resource::BlockState => 4u32,
    }
}

/// The resources whose bit is set in `bits`.
pub open spec fn resources_of(bits: u32) -> Set<Resource> {
    Set::new(|r: Resource| bits & bit_of(r) != 0)
}

/// The mask with exactly the bits of the resources in `s`.
pub open spec fn mask_of(s: Set<Resource>) -> u32 {
    ((if s.contains(Resource::VertexBuffer) { 1int } else { 0int })
        + (if s.contains(Resource::IndexBuffer) { 2int } else { 0int })
        + (if s.contains(Resource::BlockState) { 4int } else { 0int })) as u32
}

/// How `|` and `&` act on the three resource bits.
proof fn lemma_mask_algebra(a: u32, b: u32)
    by (bit_vector)
    ensures
        (a | b) & 1 != 0 <==> a & 1 != 0 || b & 1 != 0,
        (a | b) & 2 != 0 <==> a & 2 != 0 || b & 2 != 0,
        (a | b) & 4 != 0 <==> a & 4 != 0 || b & 4 != 0,
        (a & !b) & 1 != 0 <==> a & 1 != 0 && b & 1 == 0,
        (a & !b) & 2 != 0 <==> a & 2 != 0 && b & 2 == 0,
        (a & !b) & 4 != 0 <==> a & 4 != 0 && b & 4 == 0,
        a <= 7 && b <= 7 ==> (a | b) <= 7,
        a <= 7 ==> (a & !b) <= 7,
        a <= 7 && b <= 7 ==> (a & b == b <==> (b & 1 != 0 ==> a & 1 != 0) && (b & 2 != 0 ==> a & 2
            != 0) && (b & 4 != 0 ==> a & 4 != 0)),
{
}

/// How a mask of known bits splits into its three bits.
proof fn lemma_mask_bits(a: u32)
    by (bit_vector)
    ensures
        (a & 7) <= 7,
        (a & 7) & 1 == a & 1,
        (a & 7) & 2 == a & 2,
        (a & 7) & 4 == a & 4,
        a & 1 == 0 || a & 1 == 1,
        a & 2 == 0 || a & 2 == 2,
        a & 4 == 0 || a & 4 == 4,
        a <= 7 <==> a & !7u32 == 0,
        a <= 7 ==> a == (a & 1) + (a & 2) + (a & 4),
        a <= 7 ==> (a == 0 <==> a & 1 == 0 && a & 2 == 0 && a & 4 == 0),
{
}

/// Stale resources of a dynamic object, one bit each.
#[derive(Clone, Copy, Debug, PartialEq, Eq, Structural)]
pub struct DynamicDirtyState {
    bits: u32,
}

impl DynamicDirtyState {
    #[verifier::type_invariant]
    spec fn known_bits_only(self) -> bool {
        self.bits <= 7
    }

    /// The set of resources that the mask marks as stale.
    pub closed spec fn view(&self) -> Set<Resource> {
        resources_of(self.bits)
    }

    /// The position of an object lives in its block state.
    pub open spec fn position_set() -> Set<Resource> {
        set![Resource::BlockState]
    }

    /// The mesh of an object lives in its vertex and index buffers.
    pub open spec fn mesh_set() -> Set<Resource> {
        set![Resource::VertexBuffer, Resource::IndexBuffer]
    }

    /// Every resource of a dynamic object.
    pub open spec fn all_set() -> Set<Resource> {
        set![Resource::VertexBuffer, Resource::IndexBuffer, Resource::BlockState]
    }

    fn of_bits(bits: u32) -> (r: Self)
        requires
            bits <= 7,
        ensures
            r@ == resources_of(bits),
            r.bits == bits,
    {
        DynamicDirtyState { bits }
    }

    /// No resource is stale.
    pub fn empty() -> (r: Self)
        ensures
            r@ == Set::<Resource>::empty(),
    {
        let r = Self::of_bits(0);
        proof {
            lemma_mask_bits(0);
            assert(r@ =~= Set::<Resource>::empty());
        }
        r
    }

    /// The vertex buffer alone.
    pub fn vb() -> (r: Self)
        ensures
            r@ == set![Resource::VertexBuffer],
    {
        let r = Self::of_bits(1);
        proof {
            assert(1u32 & 1 != 0 && 1u32 & 2 == 0 && 1u32 & 4 == 0) by (bit_vector);
            assert(r@ =~= set![Resource::VertexBuffer]);
        }
        r
    }

    /// The index buffer alone.
    pub fn ib() -> (r: Self)
        ensures
            r@ == set![Resource::IndexBuffer],
    {
        let r = Self::of_bits(2);
        proof {
            assert(2u32 & 1 == 0 && 2u32 & 2 != 0 && 2u32 & 4 == 0) by (bit_vector);
            assert(r@ =~= set![Resource::IndexBuffer]);
        }
        r
    }

    /// The block states alone.
    pub fn bs() -> (r: Self)
        ensures
            r@ == set![Resource::BlockState],
    {
        let r = Self::of_bits(4);
        proof {
            assert(4u32 & 1 == 0 && 4u32 & 2 == 0 && 4u32 & 4 != 0) by (bit_vector);
            assert(r@ =~= set![Resource::BlockState]);
        }
        r
    }

    /// What a change of position makes stale: the block states.
    pub fn position() -> (r: Self)
        ensures
            r@ == Self::position_set(),
    {
        Self::bs()
    }

    /// What a change of mesh makes stale: vertex and index buffer.
    pub fn mesh() -> (r: Self)
        ensures
            r@ == Self::mesh_set(),
    {
        let r = Self::of_bits(3);
        proof {
            assert(3u32 & 1 != 0 && 3u32 & 2 != 0 && 3u32 & 4 == 0) by (bit_vector);
            assert(r@ =~= Self::mesh_set());
        }
        r
    }

    /// Everything is stale.
    pub fn all() -> (r: Self)
        ensures
            r@ == Self::all_set(),
    {
        let r = Self::of_bits(7);
        proof {
            assert(7u32 & 1 != 0 && 7u32 & 2 != 0 && 7u32 & 4 != 0) by (bit_vector);
            assert(r@ =~= Self::all_set());
        }
        r
    }

    /// The raw mask.
    pub fn bits(&self) -> (r: u32)
        ensures
            r == mask_of(self@),
            r <= 7,
    {
        proof {
            use_type_invariant(self);
            lemma_mask_bits(self.bits);
        }
        self.bits
    }

    /// The mask with these bits, unless one of them stands for no resource.
    pub fn from_bits(bits: u32) -> (r: Option<Self>)
        ensures
            r is Some <==> bits <= 7,
            r matches Some(d) ==> d@ == resources_of(bits),
    {
        if bits <= 7 {
            Some(Self::of_bits(bits))
        } else {
            None
        }
    }

    /// The mask with these bits, those that stand for no resource dropped.
    pub fn from_bits_truncate(bits: u32) -> (r: Self)
        ensures
            r@ == resources_of(bits),
    {
        proof {
            lemma_mask_bits(bits);
        }
        let r = Self::of_bits(bits & 7);
        proof {
            assert(r@ =~= resources_of(bits));
        }
        r
    }

    /// Whether nothing is stale.
    pub fn is_empty(&self) -> (r: bool)
        ensures
            r <==> self@ == Set::<Resource>::empty(),
    {
        proof {
            use_type_invariant(self);
            lemma_mask_bits(self.bits);
            if self.bits == 0 {
                assert(self@ =~= Set::<Resource>::empty());
            } else {
                assert(self@.contains(Resource::VertexBuffer) || self@.contains(
                    Resource::IndexBuffer,
                ) || self@.contains(Resource::BlockState));
            }
        }
        self.bits == 0
    }

    /// Whether every resource that `other` marks is marked here too.
    pub fn contains(&self, other: Self) -> (r: bool)
        ensures
            r <==> other@.subset_of(self@),
    {
        proof {
            use_type_invariant(self);
            use_type_invariant(other);
            lemma_mask_algebra(self.bits, other.bits);
            if self.bits & other.bits == other.bits {
                assert forall|x: Resource| other@.contains(x) implies self@.contains(x) by {}
            } else {
                if other.bits & 1 != 0 && self.bits & 1 == 0 {
                    assert(other@.contains(Resource::VertexBuffer));
                } else if other.bits & 2 != 0 && self.bits & 2 == 0 {
                    assert(other@.contains(Resource::IndexBuffer));
                } else {
                    assert(other@.contains(Resource::BlockState));
                }
            }
        }
        (self.bits & other.bits) == other.bits
    }

    /// The resources marked in either mask.
    pub fn union(self, other: Self) -> (r: Self)
        ensures
            r@ == self@.union(other@),
    {
        proof {
            use_type_invariant(self);
            use_type_invariant(other);
            lemma_mask_algebra(self.bits, other.bits);
        }
        let r = Self::of_bits(self.bits | other.bits);
        proof {
            assert(r@ =~= self@.union(other@));
        }
        r
    }

    /// The resources marked here and not in `other`.
    pub fn difference(self, other: Self) -> (r: Self)
        ensures
            r@ == self@.difference(other@),
    {
        proof {
            use_type_invariant(self);
            use_type_invariant(other);
            lemma_mask_algebra(self.bits, other.bits);
        }
        let r = Self::of_bits(self.bits & !other.bits);
        proof {
            assert(r@ =~= self@.difference(other@));
        }
        r
    }

    /// Marks the resources of `other` as stale too.
    pub fn insert(&mut self, other: Self)
        ensures
            final(self)@ == old(self)@.union(other@),
    {
        *self = self.union(other);
    }
}

/// A GPU resource of a static object. Its vertex and index buffers are
/// uploaded together.
#[derive(Clone, Copy, Debug, PartialEq, Eq, Structural)]
pub enum StaticResource {
    Geometry,
    BlockState,
}

/// The mask bit that stands for a resource of a static object.
pub open spec fn static_bit_of(r: StaticResource) -> u32 {
    match r {
        StaticResource::Geometry => 1u32,
        StaticResource::BlockState => 2u32,
    }
}

/// The resources of a static object whose bit is set in `bits`.
pub open spec fn static_resources_of(bits: u32) -> Set<StaticResource> {
    Set::new(|r: StaticResource| bits & static_bit_of(r) != 0)
}

/// The mask with exactly the bits of the resources in `s`.
pub open spec fn static_mask_of(s: Set<StaticResource>) -> u32 {
    ((if s.contains(StaticResource::Geometry) { 1int } else { 0int })
        + (if s.contains(StaticResource::BlockState) { 2int } else { 0int })) as u32
}

/// How `|` and `&` act on the two bits of a static object.
proof fn lemma_static_mask(a: u32, b: u32)
    by (bit_vector)
    ensures
        (a | b) & 1 != 0 <==> a & 1 != 0 || b & 1 != 0,
        (a | b) & 2 != 0 <==> a & 2 != 0 || b & 2 != 0,
        a <= 3 && b <= 3 ==> (a | b) <= 3,
        a <= 3 && b <= 3 ==> (a & b == b <==> (b & 1 != 0 ==> a & 1 != 0) && (b & 2 != 0 ==> a & 2
            != 0)),
        (a & 3) <= 3,
        (a & 3) & 1 == a & 1,
        (a & 3) & 2 == a & 2,
        a & 1 == 0 || a & 1 == 1,
        a & 2 == 0 || a & 2 == 2,
        a <= 3 ==> a == (a & 1) + (a & 2),
        a <= 3 ==> (a == 0 <==> a & 1 == 0 && a & 2 == 0),
{
}

/// Stale resources of a static object, one bit each.
#[derive(Clone, Copy, Debug, PartialEq, Eq, Structural)]
pub struct StaticDirtyState {
    bits: u32,
}

impl StaticDirtyState {
    #[verifier::type_invariant]
    spec fn known_bits_only(self) -> bool {
        self.bits <= 3
    }

    /// The set of resources that the mask marks as stale.
    pub closed spec fn view(&self) -> Set<StaticResource> {
        static_resources_of(self.bits)
    }

    /// Every resource of a static object.
    pub open spec fn all_set() -> Set<StaticResource> {
        set![StaticResource::Geometry, StaticResource::BlockState]
    }

    fn of_bits(bits: u32) -> (r: Self)
        requires
            bits <= 3,
        ensures
            r@ == static_resources_of(bits),
            r.bits == bits,
    {
        StaticDirtyState { bits }
    }

    /// No resource is stale.
    pub fn empty() -> (r: Self)
        ensures
            r@ == Set::<StaticResource>::empty(),
    {
        let r = Self::of_bits(0);
        proof {
            lemma_static_mask(0, 0);
            assert(r@ =~= Set::<StaticResource>::empty());
        }
        r
    }

    /// Vertex and index buffer.
    pub fn vib() -> (r: Self)
        ensures
            r@ == set![StaticResource::Geometry],
    {
        let r = Self::of_bits(1);
        proof {
            assert(1u32 & 1 != 0 && 1u32 & 2 == 0) by (bit_vector);
            assert(r@ =~= set![StaticResource::Geometry]);
        }
        r
    }

    /// The block states alone.
    pub fn bs() -> (r: Self)
        ensures
            r@ == set![StaticResource::BlockState],
    {
        let r = Self::of_bits(2);
        proof {
            assert(2u32 & 1 == 0 && 2u32 & 2 != 0) by (bit_vector);
            assert(r@ =~= set![StaticResource::BlockState]);
        }
        r
    }

    /// Everything is stale.
    pub fn all() -> (r: Self)
        ensures
            r@ == Self::all_set(),
    {
        let r = Self::of_bits(3);
        proof {
            assert(3u32 & 1 != 0 && 3u32 & 2 != 0) by (bit_vector);
            assert(r@ =~= Self::all_set());
        }
        r
    }

    /// The raw mask.
    pub fn bits(&self) -> (r: u32)
        ensures
            r == static_mask_of(self@),
            r <= 3,
    {
        proof {
            use_type_invariant(self);
            lemma_static_mask(self.bits, 0);
        }
        self.bits
    }

    /// The mask with these bits, unless one of them stands for no resource.
    pub fn from_bits(bits: u32) -> (r: Option<Self>)
        ensures
            r is Some <==> bits <= 3,
            r matches Some(d) ==> d@ == static_resources_of(bits),
    {
        if bits <= 3 {
            Some(Self::of_bits(bits))
        } else {
            None
        }
    }

    /// The mask with these bits, those that stand for no resource dropped.
    pub fn from_bits_truncate(bits: u32) -> (r: Self)
        ensures
            r@ == static_resources_of(bits),
    {
        proof {
            lemma_static_mask(bits, 0);
        }
        let r = Self::of_bits(bits & 3);
        proof {
            assert(r@ =~= static_resources_of(bits));
        }
        r
    }

    /// Whether nothing is stale.
    pub fn is_empty(&self) -> (r: bool)
        ensures
            r <==> self@ == Set::<StaticResource>::empty(),
    {
        proof {
            use_type_invariant(self);
            lemma_static_mask(self.bits, 0);
            if self.bits == 0 {
                assert(self@ =~= Set::<StaticResource>::empty());
            } else {
                assert(self@.contains(StaticResource::Geometry) || self@.contains(
                    StaticResource::BlockState,
                ));
            }
        }
        self.bits == 0
    }

    /// Whether every resource that `other` marks is marked here too.
    pub fn contains(&self, other: Self) -> (r: bool)
        ensures
            r <==> other@.subset_of(self@),
    {
        proof {
            use_type_invariant(self);
            use_type_invariant(other);
            lemma_static_mask(self.bits, other.bits);
            if self.bits & other.bits == other.bits {
                assert forall|x: StaticResource| other@.contains(x) implies self@.contains(x) by {}
            } else {
                if other.bits & 1 != 0 && self.bits & 1 == 0 {
                    assert(other@.contains(StaticResource::Geometry));
                } else {
                    assert(other@.contains(StaticResource::BlockState));
                }
            }
        }
        (self.bits & other.bits) == other.bits
    }

    /// The resources marked in either mask.
    pub fn union(self, other: Self) -> (r: Self)
        ensures
            r@ == self@.union(other@),
    {
        proof {
            use_type_invariant(self);
            use_type_invariant(other);
            lemma_static_mask(self.bits, other.bits);
        }
        let r = Self::of_bits(self.bits | other.bits);
        proof {
            assert(r@ =~= self@.union(other@));
        }
        r
    }

    /// Marks the resources of `other` as stale too.
    pub fn insert(&mut self, other: Self)
        ensures
            final(self)@ == old(self)@.union(other@),
    {
        *self = self.union(other);
    }
}

} // verus!
