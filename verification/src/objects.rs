//! Renderable objects: their buffers, their stale resources, and what to
//! upload for a frame.

pub mod buffers;
pub mod dynamic;
pub mod fixed;
pub mod sub;

use vstd::prelude::*;
use vstd::set_lib::{lemma_int_range, lemma_subset_equality, set_int_range};

verus! {

/// What to upload for one object before a frame is recorded.
#[derive(Clone, Copy, Debug, PartialEq, Eq, Structural)]
pub struct UpdatePlan {
    /// Upload the vertex buffer.
    pub vertex_buffer: bool,
    /// Upload the index buffer.
    pub index_buffer: bool,
    /// Upload the block states' copy for this frame index.
    pub block_state: Option<usize>,
}

/// Whether an update uploads the block states: they were marked stale, or
/// copies for other frames in flight are still behind.
pub open spec fn refreshes_blocks(marked: bool, frames_left: nat) -> bool {
    marked || frames_left > 0
}

/// The number of frames in flight whose copy is still behind after an update.
pub open spec fn frames_left_after(marked: bool, frames_left: nat, frame_count: nat) -> nat {
    if marked {
        (frame_count - 1) as nat
    } else if frames_left > 0 {
        (frames_left - 1) as nat
    } else {
        0
    }
}

/// The counter after a run of updates. `marks[k]` says whether the block
/// states were marked stale between update `k - 1` and update `k`.
pub open spec fn frames_left_after_run(frames_left: nat, frame_count: nat, marks: Seq<bool>) -> nat
    decreases marks.len(),
{
    if marks.len() == 0 {
        frames_left
    } else {
        frames_left_after(
            marks.last(),
            frames_left_after_run(frames_left, frame_count, marks.drop_last()),
            frame_count,
        )
    }
}

/// Whether update `k` of a run uploads the block states.
pub open spec fn run_refreshes_at(frames_left: nat, frame_count: nat, marks: Seq<bool>, k: int) -> bool
    recommends
        0 <= k < marks.len(),
{
    refreshes_blocks(marks[k], frames_left_after_run(frames_left, frame_count, marks.take(k)))
}

/// A run in which the block states are marked stale once, before its first
/// update, and never again.
pub open spec fn marked_once(marks: Seq<bool>) -> bool {
    &&& marks.len() > 0
    &&& marks[0]
    &&& forall|k: int| 0 < k < marks.len() ==> !#[trigger] marks[k]
}

/// After `k` updates of a run that was marked once, `frame_count - k` copies
/// are still behind, or none.
proof fn lemma_countdown(frames_left: nat, frame_count: nat, marks: Seq<bool>, k: int)
    requires
        frame_count >= 1,
        marked_once(marks),
        1 <= k <= marks.len(),
    ensures
        frames_left_after_run(frames_left, frame_count, marks.take(k)) == if k <= frame_count {
            (frame_count - k) as nat
        } else {
            0
        },
    decreases k,
{
    let prefix = marks.take(k);
    assert(prefix.last() == marks[k - 1]);
    assert(prefix.drop_last() =~= marks.take(k - 1));
    if k == 1 {
        assert(marks.take(0).len() == 0);
    } else {
        lemma_countdown(frames_left, frame_count, marks, k - 1);
    }
}

/// Marked stale once, the block states are uploaded on exactly the next
/// `frame_count` updates, whatever the counter held before, and on none
/// after them until they are marked again.
pub proof fn lemma_marked_once_refreshes_frame_count_times(
    frames_left: nat,
    frame_count: nat,
    marks: Seq<bool>,
)
    requires
        frame_count >= 1,
        marked_once(marks),
    ensures
        forall|k: int|
            0 <= k < marks.len() ==> (#[trigger] run_refreshes_at(
                frames_left,
                frame_count,
                marks,
                k,
            ) <==> k < frame_count),
{
    assert forall|k: int| 0 <= k < marks.len() implies (#[trigger] run_refreshes_at(
        frames_left,
        frame_count,
        marks,
        k,
    ) <==> k < frame_count) by {
        if k > 0 {
            lemma_countdown(frames_left, frame_count, marks, k);
        }
    }
}

/// Never marked and with no copy behind, a run uploads nothing and leaves the
/// counter at zero.
pub proof fn lemma_clean_stays_clean(frame_count: nat, marks: Seq<bool>)
    requires
        forall|k: int| 0 <= k < marks.len() ==> !#[trigger] marks[k],
    ensures
        frames_left_after_run(0, frame_count, marks) == 0,
        forall|k: int|
            0 <= k < marks.len() ==> !#[trigger] run_refreshes_at(0, frame_count, marks, k),
    decreases marks.len(),
{
    if marks.len() > 0 {
        lemma_clean_stays_clean(frame_count, marks.drop_last());
        assert forall|k: int| 0 <= k < marks.len() implies !#[trigger] run_refreshes_at(
            0,
            frame_count,
            marks,
            k,
        ) by {
            lemma_clean_stays_clean(frame_count, marks.take(k));
        }
    }
}

/// Marked stale once, and with the next `frame_count` updates made for
/// `frame_count` different frames in flight, the copy of every frame is
/// uploaded by one of these updates. `frames[k]` is the frame that update
/// `k` is made for.
pub proof fn lemma_distinct_frames_reach_every_copy(
    frames_left: nat,
    frame_count: nat,
    marks: Seq<bool>,
    frames: Seq<int>,
    frame: int,
)
    requires
        frame_count >= 1,
        marked_once(marks),
        marks.len() >= frame_count,
        frames.len() == marks.len(),
        forall|k: int| 0 <= k < frame_count ==> 0 <= #[trigger] frames[k] < frame_count,
        forall|j: int, k: int| 0 <= j < k < frame_count ==> frames[j] != frames[k],
        0 <= frame < frame_count,
    ensures
        exists|k: int|
            0 <= k < frame_count && frames[k] == frame && #[trigger] run_refreshes_at(
                frames_left,
                frame_count,
                marks,
                k,
            ),
{
    let head = frames.take(frame_count as int);
    let range = set_int_range(0, frame_count as int);
    assert(head.no_duplicates());
    head.unique_seq_to_set();
    lemma_int_range(0, frame_count as int);
    assert(head.to_set().subset_of(range)) by {
        assert forall|f: int| head.to_set().contains(f) implies range.contains(f) by {
            let k = choose|k: int| 0 <= k < head.len() && head[k] == f;
            assert(frames[k] == f);
        }
    }
    vstd::set_lib::lemma_len_subset(head.to_set(), range);
    lemma_subset_equality(head.to_set(), range);
    assert(range.contains(frame));
    assert(head.contains(frame));
    let k = choose|k: int| 0 <= k < head.len() && head[k] == frame;
    lemma_marked_once_refreshes_frame_count_times(frames_left, frame_count, marks);
    assert(frames[k] == frame);
    assert(run_refreshes_at(frames_left, frame_count, marks, k));
}

} // verus!
