use vstd::prelude::*;

verus! {

/// People are processed for collisions in chunks of this many.
pub const COLLISION_CHUNK_SIZE: usize = 250;

/// Advances a system's frame counter and says whether the system skips this
/// frame: with `Some(n)` it skips the frames whose number is a multiple of
/// `n`; with `None` it never skips.
pub fn advance_frame_and_check_skip(frame: &mut u32, every_n_frames: Option<u32>) -> (skip: bool)
    requires
        *old(frame) < u32::MAX,
        every_n_frames matches Some(n) ==> n != 0,
    ensures
        *final(frame) == *old(frame) + 1,
        skip == match every_n_frames {
            Some(n) => *final(frame) % n == 0,
            None => false,
        },
{
    *frame = *frame + 1;
    match every_n_frames {
        Some(n) => *frame % n == 0,
        None => false,
    }
}

/// The half-open index range of chunk `k` when `total` people are split into
/// chunks of `COLLISION_CHUNK_SIZE`.
pub open spec fn spec_chunk(total: int, k: int) -> (int, int) {
    let start = k * COLLISION_CHUNK_SIZE;
    let end = if start + COLLISION_CHUNK_SIZE <= total {
        start + COLLISION_CHUNK_SIZE
    } else {
        total
    };
    (start, end)
}

/// Number of chunks needed for `total` people.
pub open spec fn spec_chunk_count(total: int) -> int {
    (total + COLLISION_CHUNK_SIZE - 1) / (COLLISION_CHUNK_SIZE as int)
}

/// Splits the indices `0..total` into consecutive chunks of
/// `COLLISION_CHUNK_SIZE` (the last one possibly shorter), as
/// `(start, end)` pairs.
pub fn collision_chunks(total: usize) -> (chunks: Vec<(usize, usize)>)
    requires
        total + COLLISION_CHUNK_SIZE <= usize::MAX,
    ensures
        chunks@.len() == spec_chunk_count(total as int),
        forall|k: int|
            0 <= k < chunks@.len() ==> (#[trigger] chunks@[k]).0 == spec_chunk(total as int, k).0
                && chunks@[k].1 == spec_chunk(total as int, k).1,
{
    let chunk_size = COLLISION_CHUNK_SIZE;
    let count = (total + chunk_size - 1) / chunk_size;
    let mut chunks: Vec<(usize, usize)> = Vec::new();
    let mut chunk_idx: usize = 0;
    while chunk_idx < count
        invariant
            chunk_size == COLLISION_CHUNK_SIZE,
            total + COLLISION_CHUNK_SIZE <= usize::MAX,
            count == spec_chunk_count(total as int),
            chunk_idx <= count,
            chunks@.len() == chunk_idx,
            forall|k: int|
                0 <= k < chunk_idx ==> (#[trigger] chunks@[k]).0 == spec_chunk(total as int, k).0
                    && chunks@[k].1 == spec_chunk(total as int, k).1,
        decreases count - chunk_idx,
    {
        assert(chunk_idx * 250 < total) by (nonlinear_arith)
            requires
                chunk_idx < count,
                count == (total + 249) / 250,
        ;
        let start_idx = chunk_idx * chunk_size;
        let end_idx = if start_idx + chunk_size <= total {
            start_idx + chunk_size
        } else {
            total
        };
        chunks.push((start_idx, end_idx));
        chunk_idx = chunk_idx + 1;
    }
    chunks
}

/// The chunks cover `0..total` exactly once, in order: the first starts at
/// 0, each starts where the one before ends, the last ends at `total`, and
/// every chunk is non-empty and at most `COLLISION_CHUNK_SIZE` long.
pub proof fn lemma_chunks_partition(total: int)
    requires
        total >= 0,
    ensures
        total == 0 ==> spec_chunk_count(total) == 0,
        total > 0 ==> spec_chunk(total, 0).0 == 0,
        total > 0 ==> spec_chunk(total, spec_chunk_count(total) - 1).1 == total,
        forall|k: int|
            0 <= k < spec_chunk_count(total) - 1 ==> #[trigger] spec_chunk(total, k).1 == spec_chunk(
                total,
                k + 1,
            ).0,
        forall|k: int|
            0 <= k < spec_chunk_count(total) ==> #[trigger] spec_chunk(total, k).0 < spec_chunk(total, k).1
                <= spec_chunk(total, k).0 + COLLISION_CHUNK_SIZE,
{
    let n = spec_chunk_count(total);
    assert(total > 0 ==> n >= 1 && (n - 1) * 250 < total && total <= n * 250) by (nonlinear_arith)
        requires
            total >= 0,
            n == (total + 249) / 250,
    ;
    assert(total == 0 ==> n == 0);
    assert forall|k: int| 0 <= k < n - 1 implies #[trigger] spec_chunk(total, k).1 == spec_chunk(
        total,
        k + 1,
    ).0 by {
        assert(k * 250 + 250 <= total) by (nonlinear_arith)
            requires
                0 <= k < n - 1,
                n == (total + 249) / 250,
        ;
        assert((k + 1) * 250 == k * 250 + 250) by (nonlinear_arith);
    }
    assert forall|k: int| 0 <= k < n implies #[trigger] spec_chunk(total, k).0 < spec_chunk(total, k).1
        <= spec_chunk(total, k).0 + COLLISION_CHUNK_SIZE by {
        assert(k * 250 < total) by (nonlinear_arith)
            requires
                0 <= k < n,
                n == (total + 249) / 250,
        ;
    }
    if total > 0 {
        assert((n - 1) * 250 + 250 >= total) by (nonlinear_arith)
            requires
                total <= n * 250,
        ;
    }
}

/// Which movement keys of the fly camera are held.
#[derive(Clone, Copy, Debug, PartialEq, Eq, Structural)]
pub struct MoveKeys {
    pub forward: bool,
    pub back: bool,
    pub left: bool,
    pub right: bool,
    pub up: bool,
    pub down: bool,
}

/// An unnormalized camera movement direction; each component is -1, 0 or 1.
#[derive(Clone, Copy, Debug, PartialEq, Eq, Structural)]
pub struct MoveDirection {
    pub x: i8,
    pub y: i8,
    pub z: i8,
}

/// 1 when `b` holds, 0 otherwise.
pub open spec fn flag(b: bool) -> int {
    if b {
        1
    } else {
        0
    }
}

/// The direction the held keys ask for: right minus left along `x`, up minus
/// down along `y`, back minus forward along `z` (forward looks down `-z`).
pub fn camera_move_direction(keys: MoveKeys) -> (dir: MoveDirection)
    ensures
        dir.x == flag(keys.right) - flag(keys.left),
        dir.y == flag(keys.up) - flag(keys.down),
        dir.z == flag(keys.back) - flag(keys.forward),
{
    let mut dir = MoveDirection { x: 0, y: 0, z: 0 };
    if keys.forward {
        dir.z = dir.z - 1;
    }
    if keys.back {
        dir.z = dir.z + 1;
    }
    if keys.left {
        dir.x = dir.x - 1;
    }
    if keys.right {
        dir.x = dir.x + 1;
    }
    if keys.up {
        dir.y = dir.y + 1;
    }
    if keys.down {
        dir.y = dir.y - 1;
    }
    dir
}

} // verus!
