//! Block states: a uniform block with one GPU copy per frame in flight.

use vstd::prelude::*;

verus! {

/// The GPU side of a block for one frame in flight.
#[derive(Clone, Copy, Debug, PartialEq, Eq, Structural)]
pub struct FrameCopy {
    /// The uniform memory that the frame reads.
    pub allocation: u64,
    /// The descriptor set that points at it.
    pub descriptor_set: u64,
}

/// A uniform block: its layout on the CPU side and its copies on the GPU,
/// one per frame in flight.
#[derive(Debug, PartialEq, Eq)]
pub struct BlockState {
    /// Size of the block's data in bytes.
    pub size: usize,
    /// The binding of the block inside its set.
    pub binding: u32,
    /// The descriptor set index that shaders use.
    pub set: u32,
    /// The descriptor set layout. It never changes.
    pub layout: u64,
    /// The copies, by frame index. Empty while the memory is destroyed.
    pub copies: Vec<FrameCopy>,
}

impl BlockState {
    /// What stays for the whole life of a block state: data size, binding,
    /// set index and descriptor set layout.
    pub open spec fn description(&self) -> (usize, u32, u32, u64) {
        (self.size, self.binding, self.set, self.layout)
    }

    /// The descriptor sets of the copies, by frame index.
    pub open spec fn descriptor_sets(&self) -> Seq<u64> {
        Seq::new(self.copies@.len(), |i: int| self.copies@[i].descriptor_set)
    }

    /// A block state with the given copies, one per frame in flight.
    pub fn new(size: usize, binding: u32, set: u32, layout: u64, copies: Vec<FrameCopy>) -> (r:
        Self)
        ensures
            r.description() == (size, binding, set, layout),
            r.copies == copies,
    {
        BlockState { size, binding, set, layout, copies }
    }

    /// The number of frames in flight that the block has a copy for.
    pub fn frame_count(&self) -> (r: usize)
        ensures
            r == self.copies@.len(),
    {
        self.copies.len()
    }

    /// The descriptor set to bind while recording frame `frame`.
    pub fn descriptor_set(&self, frame: usize) -> (r: u64)
        requires
            frame < self.copies@.len(),
        ensures
            r == self.descriptor_sets()[frame as int],
    {
        self.copies[frame].descriptor_set
    }

    /// The memory to copy the block's data into for frame `frame`, or `None`
    /// where the block has no copy for that frame.
    pub fn update(&self, frame: usize) -> (r: Option<u64>)
        ensures
            r == if frame < self.copies@.len() {
                Some(self.copies@[frame as int].allocation)
            } else {
                None
            },
    {
        if frame < self.copies.len() {
            Some(self.copies[frame].allocation)
        } else {
            None
        }
    }

    /// Gives up the GPU copies: returns them for release and keeps none.
    /// The description stays.
    pub fn destroy_memory(&mut self) -> (released: Vec<FrameCopy>)
        ensures
            released@ == old(self).copies@,
            final(self).copies@.len() == 0,
            final(self).description() == old(self).description(),
    {
        let mut released: Vec<FrameCopy> = Vec::new();
        std::mem::swap(&mut self.copies, &mut released);
        released
    }

    /// Takes freshly created GPU copies, one per frame in flight, and returns
    /// those held before, which the caller has to release. The description
    /// stays.
    pub fn recreate_memory(&mut self, copies: Vec<FrameCopy>) -> (released: Vec<FrameCopy>)
        ensures
            released@ == old(self).copies@,
            final(self).copies@ == copies@,
            final(self).description() == old(self).description(),
    {
        let mut previous: Vec<FrameCopy> = copies;
        std::mem::swap(&mut self.copies, &mut previous);
        previous
    }
}

/// All copies that the block states hold, block by block.
pub open spec fn copies_of(blocks: Seq<BlockState>) -> Seq<FrameCopy>
    decreases blocks.len(),
{
    if blocks.len() == 0 {
        Seq::empty()
    } else {
        copies_of(blocks.drop_last()) + blocks.last().copies@
    }
}

/// The data sizes of the block states, in order.
pub open spec fn sizes_of(blocks: Seq<BlockState>) -> Seq<usize> {
    Seq::new(blocks.len(), |k: int| blocks[k].size)
}

/// Appends to `sizes` the data sizes of the block states.
pub fn push_block_sizes(sizes: &mut Vec<usize>, blocks: &Vec<BlockState>)
    ensures
        final(sizes)@ == old(sizes)@ + sizes_of(blocks@),
{
    let mut k: usize = 0;
    while k < blocks.len()
        invariant
            k <= blocks@.len(),
            sizes@ == old(sizes)@ + sizes_of(blocks@).take(k as int),
        decreases blocks@.len() - k,
    {
        sizes.push(blocks[k].size);
        assert(sizes@ =~= old(sizes)@ + sizes_of(blocks@).take(k + 1));
        k += 1;
    }
    assert(sizes_of(blocks@).take(k as int) =~= sizes_of(blocks@));
}

/// Whether `after` holds the same block states as `before`, as far as their
/// descriptions go: what may differ is the GPU copies.
pub open spec fn same_descriptions(after: Seq<BlockState>, before: Seq<BlockState>) -> bool {
    &&& after.len() == before.len()
    &&& forall|k: int|
        0 <= k < after.len() ==> (#[trigger] after[k]).description() == before[k].description()
}

/// Whether none of the block states holds a GPU copy.
pub open spec fn without_memory(blocks: Seq<BlockState>) -> bool {
    forall|k: int| 0 <= k < blocks.len() ==> (#[trigger] blocks[k]).copies@.len() == 0
}

/// Tests whether none of the block states holds a GPU copy.
pub fn check_without_memory(blocks: &Vec<BlockState>) -> (r: bool)
    ensures
        r == without_memory(blocks@),
{
    let mut k: usize = 0;
    while k < blocks.len()
        invariant
            k <= blocks@.len(),
            forall|j: int| 0 <= j < k ==> (#[trigger] blocks@[j]).copies@.len() == 0,
        decreases blocks@.len() - k,
    {
        if blocks[k].frame_count() != 0 {
            return false;
        }
        k += 1;
    }
    true
}

/// Block states without memory hold no copies.
pub proof fn lemma_without_memory_holds_nothing(blocks: Seq<BlockState>)
    requires
        without_memory(blocks),
    ensures
        copies_of(blocks) == Seq::<FrameCopy>::empty(),
    decreases blocks.len(),
{
    if blocks.len() > 0 {
        lemma_without_memory_holds_nothing(blocks.drop_last());
        assert(blocks.last().copies@ =~= Seq::<FrameCopy>::empty());
    }
}

/// A copy of a list of frame copies.
pub fn clone_copies(copies: &Vec<FrameCopy>) -> (r: Vec<FrameCopy>)
    ensures
        r@ == copies@,
{
    let mut r: Vec<FrameCopy> = Vec::new();
    let mut i: usize = 0;
    while i < copies.len()
        invariant
            i <= copies@.len(),
            r@ == copies@.take(i as int),
        decreases copies@.len() - i,
    {
        r.push(copies[i]);
        assert(r@ =~= copies@.take(i + 1));
        i += 1;
    }
    assert(copies@.take(i as int) =~= copies@);
    r
}

/// Gives up the GPU copies of all the block states: appends them to
/// `released`, block by block, and leaves the block states without memory.
pub fn destroy_blocks(blocks: &mut Vec<BlockState>, released: &mut Vec<FrameCopy>)
    ensures
        final(released)@ == old(released)@ + copies_of(old(blocks)@),
        same_descriptions(final(blocks)@, old(blocks)@),
        without_memory(final(blocks)@),
{
    let mut k: usize = 0;
    while k < blocks.len()
        invariant
            k <= blocks@.len(),
            blocks@.len() == old(blocks)@.len(),
            released@ == old(released)@ + copies_of(old(blocks)@.take(k as int)),
            forall|j: int|
                0 <= j < blocks@.len() ==> (#[trigger] blocks@[j]).description()
                    == old(blocks)@[j].description(),
            forall|j: int| 0 <= j < k ==> (#[trigger] blocks@[j]).copies@.len() == 0,
            forall|j: int| k <= j < blocks@.len() ==> #[trigger] blocks@[j] == old(blocks)@[j],
        decreases blocks@.len() - k,
    {
        let mut freed = blocks[k].destroy_memory();
        let ghost before = released@;
        released.append(&mut freed);
        proof {
            let next = old(blocks)@.take(k + 1);
            assert(next.drop_last() =~= old(blocks)@.take(k as int));
            assert(next.last() == old(blocks)@[k as int]);
            assert(released@ =~= old(released)@ + copies_of(next));
        }
        k += 1;
    }
    assert(old(blocks)@.take(k as int) =~= old(blocks)@);
}

/// Hands every block state its freshly created copies: block `k` takes
/// `supply[start + k]`. The copies held before are appended to `released`.
pub fn recreate_blocks(
    blocks: &mut Vec<BlockState>,
    supply: &Vec<Vec<FrameCopy>>,
    start: usize,
    released: &mut Vec<FrameCopy>,
)
    requires
        start + old(blocks)@.len() <= supply@.len(),
    ensures
        final(released)@ == old(released)@ + copies_of(old(blocks)@),
        same_descriptions(final(blocks)@, old(blocks)@),
        forall|k: int|
            0 <= k < final(blocks)@.len() ==> (#[trigger] final(blocks)@[k]).copies@
                == supply@[start + k]@,
{
    let total: usize = supply.len();
    let mut k: usize = 0;
    while k < blocks.len()
        invariant
            k <= blocks@.len(),
            blocks@.len() == old(blocks)@.len(),
            start + blocks@.len() <= supply@.len() == total,
            released@ == old(released)@ + copies_of(old(blocks)@.take(k as int)),
            forall|j: int|
                0 <= j < blocks@.len() ==> (#[trigger] blocks@[j]).description()
                    == old(blocks)@[j].description(),
            forall|j: int| 0 <= j < k ==> (#[trigger] blocks@[j]).copies@ == supply@[start + j]@,
            forall|j: int| k <= j < blocks@.len() ==> #[trigger] blocks@[j] == old(blocks)@[j],
        decreases blocks@.len() - k,
    {
        let fresh = clone_copies(&supply[start + k]);
        let mut freed = blocks[k].recreate_memory(fresh);
        released.append(&mut freed);
        proof {
            let next = old(blocks)@.take(k + 1);
            assert(next.drop_last() =~= old(blocks)@.take(k as int));
            assert(next.last() == old(blocks)@[k as int]);
            assert(released@ =~= old(released)@ + copies_of(next));
        }
        k += 1;
    }
    assert(old(blocks)@.take(k as int) =~= old(blocks)@);
}

/// The copies that a supply holds in its lists `lo` up to `hi`, list by list.
pub open spec fn supplied_between(supply: Seq<Vec<FrameCopy>>, lo: int, hi: int) -> Seq<FrameCopy>
    decreases hi - lo,
{
    if hi <= lo {
        Seq::empty()
    } else {
        supplied_between(supply, lo, hi - 1) + supply[hi - 1]@
    }
}

/// A stretch of a supply is its two halves, one after the other.
pub proof fn lemma_supplied_split(supply: Seq<Vec<FrameCopy>>, lo: int, mid: int, hi: int)
    requires
        lo <= mid <= hi,
    ensures
        supplied_between(supply, lo, hi) == supplied_between(supply, lo, mid) + supplied_between(
            supply,
            mid,
            hi,
        ),
    decreases hi - mid,
{
    if mid < hi {
        lemma_supplied_split(supply, lo, mid, hi - 1);
        assert(supplied_between(supply, lo, hi) =~= supplied_between(supply, lo, mid)
            + supplied_between(supply, mid, hi));
    } else {
        assert(supplied_between(supply, lo, hi) =~= supplied_between(supply, lo, mid)
            + supplied_between(supply, mid, hi));
    }
}

/// Block states that took their copies from a supply, starting at list
/// `start`, hold that stretch of the supply.
pub proof fn lemma_copies_are_supplied(
    blocks: Seq<BlockState>,
    supply: Seq<Vec<FrameCopy>>,
    start: int,
)
    requires
        forall|k: int| 0 <= k < blocks.len() ==> (#[trigger] blocks[k]).copies@ == supply[start + k]@,
    ensures
        copies_of(blocks) == supplied_between(supply, start, start + blocks.len()),
    decreases blocks.len(),
{
    if blocks.len() > 0 {
        let rest = blocks.drop_last();
        assert forall|k: int| 0 <= k < rest.len() implies (#[trigger] rest[k]).copies@
            == supply[start + k]@ by {
            assert(rest[k] == blocks[k]);
        }
        lemma_copies_are_supplied(rest, supply, start);
        assert(blocks.last() == blocks[blocks.len() - 1]);
    }
}

} // verus!
