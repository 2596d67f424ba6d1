use vstd::prelude::*;

use crate::config::SPATIALIZATION_TOTAL_CELLS;
use crate::spatial::SpatialGrid;

verus! {

/// Most cells synchronized in one frame, unless more cells are in view.
pub const CELLS_PER_FRAME: usize = 5;

/// Frames that must pass before a cell in view is synchronized again.
pub const SYNC_INTERVAL_IN_FRUSTUM: u32 = 0;

/// Frames that must pass before a cell out of view is synchronized again.
pub const SYNC_INTERVAL_OUTSIDE: u32 = 4;

/// The server's record of which grid cells it synchronized when, and which
/// cells some client saw in the previous frame.
pub struct SyncTracker {
    /// Frame number when each cell was last synced.
    pub cell_last_sync: Vec<u32>,
    /// Whether each cell was visible in the previous frame.
    pub previously_visible: Vec<bool>,
    pub current_frame: u32,
}

/// The indices below `n` that satisfy `pred`, in increasing order.
pub open spec fn indices_where(pred: spec_fn(int) -> bool, n: nat) -> Seq<usize>
    decreases n,
{
    if n == 0 {
        Seq::empty()
    } else {
        let rest = indices_where(pred, (n - 1) as nat);
        if pred(n - 1) {
            rest.push((n - 1) as usize)
        } else {
            rest
        }
    }
}

/// Cells in view that are due: newly visible, or not synced for
/// `SYNC_INTERVAL_IN_FRUSTUM` frames.
pub open spec fn due_in_view(
    in_frustum: Seq<bool>,
    previously_visible: Seq<bool>,
    last_sync: Seq<u32>,
    frame: u32,
) -> spec_fn(int) -> bool {
    |i: int|
        in_frustum[i] && (!previously_visible[i] || frame - last_sync[i] >= SYNC_INTERVAL_IN_FRUSTUM)
}

/// Cells out of view that are due: occupied, and not synced for
/// `SYNC_INTERVAL_OUTSIDE` frames.
pub open spec fn due_out_of_view<T>(
    in_frustum: Seq<bool>,
    last_sync: Seq<u32>,
    frame: u32,
    cells: Seq<Seq<T>>,
) -> spec_fn(int) -> bool {
    |i: int| !in_frustum[i] && cells[i].len() != 0 && frame - last_sync[i] >= SYNC_INTERVAL_OUTSIDE
}

/// The cells to synchronize in a frame: every due cell in view, in index
/// order, then, while fewer than `CELLS_PER_FRAME` are chosen, the first due
/// cells out of view until there are `CELLS_PER_FRAME`.
pub open spec fn spec_cells_to_sync<T>(
    in_frustum: Seq<bool>,
    previously_visible: Seq<bool>,
    last_sync: Seq<u32>,
    frame: u32,
    cells: Seq<Seq<T>>,
) -> Seq<usize> {
    let in_view = indices_where(
        due_in_view(in_frustum, previously_visible, last_sync, frame),
        SPATIALIZATION_TOTAL_CELLS as nat,
    );
    let out_of_view = indices_where(
        due_out_of_view(in_frustum, last_sync, frame, cells),
        SPATIALIZATION_TOTAL_CELLS as nat,
    );
    if in_view.len() < CELLS_PER_FRAME {
        let room = CELLS_PER_FRAME - in_view.len();
        in_view + if out_of_view.len() <= room {
            out_of_view
        } else {
            out_of_view.take(room)
        }
    } else {
        in_view
    }
}

/// Every index listed is below `n` and satisfies `pred`; the list is strictly
/// increasing; and each index below `n` that satisfies `pred` is listed.
pub proof fn lemma_indices_where(pred: spec_fn(int) -> bool, n: nat)
    requires
        n <= usize::MAX,
    ensures
        forall|j: int|
            0 <= j < indices_where(pred, n).len() ==> #[trigger] indices_where(pred, n)[j] < n && pred(
                indices_where(pred, n)[j] as int,
            ),
        forall|j: int, k: int|
            0 <= j < k < indices_where(pred, n).len() ==> #[trigger] indices_where(pred, n)[j]
                < #[trigger] indices_where(pred, n)[k],
        forall|i: int| 0 <= i < n && pred(i) ==> #[trigger] indices_where(pred, n).contains(i as usize),
    decreases n,
{
    if n > 0 {
        lemma_indices_where(pred, (n - 1) as nat);
        let rest = indices_where(pred, (n - 1) as nat);
        let all = indices_where(pred, n);
        assert forall|j: int, k: int| 0 <= j < k < all.len() implies #[trigger] all[j] < #[trigger] all[k] by {
            if k == rest.len() {
                assert(all[j] == rest[j]);
            } else {
                assert(all[j] == rest[j] && all[k] == rest[k]);
            }
        }
        assert forall|i: int| 0 <= i < n && pred(i) implies #[trigger] indices_where(
            pred,
            n,
        ).contains(i as usize) by {
            if i < n - 1 {
                assert(rest.contains(i as usize));
                let w = choose|w: int| 0 <= w < rest.len() && rest[w] == i as usize;
                assert(indices_where(pred, n)[w] == i as usize);
            } else {
                assert(indices_where(pred, n)[rest.len() as int] == i as usize);
            }
        }
    }
}

/// The listing up to `m` starts with the listing up to `n` when `n <= m`.
pub proof fn lemma_indices_where_prefix(pred: spec_fn(int) -> bool, n: nat, m: nat)
    requires
        n <= m,
    ensures
        indices_where(pred, n).len() <= indices_where(pred, m).len(),
        indices_where(pred, m).take(indices_where(pred, n).len() as int) =~= indices_where(pred, n),
    decreases m,
{
    if n < m {
        lemma_indices_where_prefix(pred, n, (m - 1) as nat);
        let a = indices_where(pred, (m - 1) as nat);
        let b = indices_where(pred, m);
        assert(b.take(a.len() as int) =~= a);
        let p = indices_where(pred, n);
        assert(b.take(p.len() as int) =~= a.take(p.len() as int));
    }
}

/// Every cell that some client sees is synchronized in every frame.
pub proof fn lemma_visible_cells_always_synced<T>(
    in_frustum: Seq<bool>,
    previously_visible: Seq<bool>,
    last_sync: Seq<u32>,
    frame: u32,
    cells: Seq<Seq<T>>,
    cell: int,
)
    requires
        0 <= cell < SPATIALIZATION_TOTAL_CELLS,
        in_frustum[cell],
        last_sync[cell] <= frame,
    ensures
        spec_cells_to_sync(in_frustum, previously_visible, last_sync, frame, cells).contains(
            cell as usize,
        ),
{
    let pin = due_in_view(in_frustum, previously_visible, last_sync, frame);
    lemma_indices_where(pin, SPATIALIZATION_TOTAL_CELLS as nat);
    let in_view = indices_where(pin, SPATIALIZATION_TOTAL_CELLS as nat);
    assert(in_view.contains(cell as usize));
    let w = choose|w: int| 0 <= w < in_view.len() && in_view[w] == cell as usize;
    assert(spec_cells_to_sync(in_frustum, previously_visible, last_sync, frame, cells)[w]
        == cell as usize);
}

/// The cells chosen in a frame are distinct grid cells; each is in view or is
/// an occupied cell not synced for `SYNC_INTERVAL_OUTSIDE` frames; and more
/// than `CELLS_PER_FRAME` are chosen only when all of them are in view.
pub proof fn lemma_cells_to_sync_shape<T>(
    in_frustum: Seq<bool>,
    previously_visible: Seq<bool>,
    last_sync: Seq<u32>,
    frame: u32,
    cells: Seq<Seq<T>>,
)
    ensures
        ({
            let chosen = spec_cells_to_sync(in_frustum, previously_visible, last_sync, frame, cells);
            &&& forall|j: int| 0 <= j < chosen.len() ==> #[trigger] chosen[j] < SPATIALIZATION_TOTAL_CELLS
            &&& forall|j: int, k: int| 0 <= j < k < chosen.len() ==> #[trigger] chosen[j] != #[trigger] chosen[k]
            &&& forall|j: int|
                0 <= j < chosen.len() ==> in_frustum[#[trigger] chosen[j] as int] || (cells[chosen[j] as int].len()
                    != 0 && frame - last_sync[chosen[j] as int] >= SYNC_INTERVAL_OUTSIDE)
            &&& chosen.len() > CELLS_PER_FRAME ==> forall|j: int|
                0 <= j < chosen.len() ==> in_frustum[#[trigger] chosen[j] as int]
        }),
{
    let pin = due_in_view(in_frustum, previously_visible, last_sync, frame);
    let pout = due_out_of_view(in_frustum, last_sync, frame, cells);
    lemma_indices_where(pin, SPATIALIZATION_TOTAL_CELLS as nat);
    lemma_indices_where(pout, SPATIALIZATION_TOTAL_CELLS as nat);
    let in_view = indices_where(pin, SPATIALIZATION_TOTAL_CELLS as nat);
    let out_of_view = indices_where(pout, SPATIALIZATION_TOTAL_CELLS as nat);
    let chosen = spec_cells_to_sync(in_frustum, previously_visible, last_sync, frame, cells);
    assert forall|j: int| 0 <= j < chosen.len() implies #[trigger] chosen[j] < SPATIALIZATION_TOTAL_CELLS
        && (if j < in_view.len() {
        pin(chosen[j] as int)
    } else {
        pout(chosen[j] as int)
    }) by {
        if j < in_view.len() {
            assert(chosen[j] == in_view[j]);
        } else {
            assert(chosen[j] == out_of_view[j - in_view.len()]);
        }
    }
    assert forall|j: int, k: int| 0 <= j < k < chosen.len() implies #[trigger] chosen[j]
        != #[trigger] chosen[k] by {
        if k < in_view.len() {
            assert(chosen[j] == in_view[j] && chosen[k] == in_view[k]);
        } else if j >= in_view.len() {
            assert(chosen[j] == out_of_view[j - in_view.len()]);
            assert(chosen[k] == out_of_view[k - in_view.len()]);
        }
    }
}

/// Whether `cells` lists `cell`.
fn contains_cell(cells: &Vec<usize>, cell: usize) -> (res: bool)
    ensures
        res == cells@.contains(cell),
{
    let mut i: usize = 0;
    while i < cells.len()
        invariant
            i <= cells@.len(),
            forall|j: int| 0 <= j < i ==> cells@[j] != cell,
        decreases cells@.len() - i,
    {
        if cells[i] == cell {
            return true;
        }
        i = i + 1;
    }
    false
}

impl SyncTracker {
    /// One entry per grid cell, and no cell synced after the current frame.
    pub open spec fn wf(&self) -> bool {
        &&& self.cell_last_sync@.len() == SPATIALIZATION_TOTAL_CELLS
        &&& self.previously_visible@.len() == SPATIALIZATION_TOTAL_CELLS
        &&& forall|i: int|
            0 <= i < SPATIALIZATION_TOTAL_CELLS ==> #[trigger] self.cell_last_sync@[i] <= self.current_frame
    }

    /// A tracker at frame 0 with every cell last synced at frame 0 and none
    /// visible.
    pub fn new() -> (tracker: Self)
        ensures
            tracker.wf(),
            tracker.current_frame == 0,
            forall|i: int| 0 <= i < SPATIALIZATION_TOTAL_CELLS ==> #[trigger] tracker.cell_last_sync@[i] == 0,
            forall|i: int| 0 <= i < SPATIALIZATION_TOTAL_CELLS ==> !#[trigger] tracker.previously_visible@[i],
    {
        let total_cells = SPATIALIZATION_TOTAL_CELLS;
        SyncTracker {
            cell_last_sync: vec![0; total_cells],
            current_frame: 0,
            previously_visible: vec![false; total_cells],
        }
    }

    /// Advances to the next frame and chooses the cells to synchronize in it
    /// (see `spec_cells_to_sync`): those cells are recorded as synced at the
    /// new frame, and `in_frustum_cells`, which says for each cell whether
    /// some client sees it, becomes the visibility of the previous frame.
    pub fn rolling_sync_step<T: Copy>(
        &mut self,
        grid: &SpatialGrid<T>,
        in_frustum_cells: Vec<bool>,
    ) -> (cells_to_sync: Vec<usize>)
        requires
            old(self).wf(),
            grid.wf(),
            in_frustum_cells@.len() == SPATIALIZATION_TOTAL_CELLS,
            old(self).current_frame < u32::MAX,
        ensures
            final(self).wf(),
            final(self).current_frame == old(self).current_frame + 1,
            cells_to_sync@ == spec_cells_to_sync(
                in_frustum_cells@,
                old(self).previously_visible@,
                old(self).cell_last_sync@,
                final(self).current_frame,
                grid.cell_items(),
            ),
            final(self).previously_visible@ == in_frustum_cells@,
            forall|i: int|
                0 <= i < SPATIALIZATION_TOTAL_CELLS ==> #[trigger] final(self).cell_last_sync@[i] == if cells_to_sync@.contains(
                    i as usize,
                ) {
                    final(self).current_frame
                } else {
                    old(self).cell_last_sync@[i]
                },
    {
        self.current_frame = self.current_frame + 1;
        let frame = self.current_frame;
        let ghost pin = due_in_view(
            in_frustum_cells@,
            self.previously_visible@,
            self.cell_last_sync@,
            frame,
        );
        let ghost pout = due_out_of_view(in_frustum_cells@, self.cell_last_sync@, frame, grid.cell_items());
        let mut cells_to_sync: Vec<usize> = Vec::with_capacity(CELLS_PER_FRAME);

        // First, always add cells that are in the frustum and need syncing.
        let mut cell_idx: usize = 0;
        while cell_idx < grid.cells.len()
            invariant
                self.wf(),
                grid.wf(),
                self.current_frame == frame,
                self.previously_visible@ == old(self).previously_visible@,
                self.cell_last_sync@ == old(self).cell_last_sync@,
                in_frustum_cells@.len() == SPATIALIZATION_TOTAL_CELLS,
                pin == due_in_view(
                    in_frustum_cells@,
                    self.previously_visible@,
                    self.cell_last_sync@,
                    frame,
                ),
                cell_idx <= SPATIALIZATION_TOTAL_CELLS,
                cells_to_sync@ == indices_where(pin, cell_idx as nat),
            decreases SPATIALIZATION_TOTAL_CELLS - cell_idx,
        {
            if in_frustum_cells[cell_idx] {
                let is_newly_visible = !self.previously_visible[cell_idx];
                let time_since_sync = frame - self.cell_last_sync[cell_idx];
                if is_newly_visible || time_since_sync >= SYNC_INTERVAL_IN_FRUSTUM {
                    cells_to_sync.push(cell_idx);
                }
            }
            cell_idx = cell_idx + 1;
        }
        let ghost in_view = cells_to_sync@;
        let ghost out_of_view = indices_where(pout, SPATIALIZATION_TOTAL_CELLS as nat);
        proof {
            lemma_indices_where(pin, SPATIALIZATION_TOTAL_CELLS as nat);
            lemma_indices_where(pout, SPATIALIZATION_TOTAL_CELLS as nat);
        }

        // Then add out-of-frustum cells only if there is room left and they
        // need periodic updates.
        if cells_to_sync.len() < CELLS_PER_FRAME {
            let ghost room = CELLS_PER_FRAME - in_view.len();
            let mut cell_idx: usize = 0;
            while cell_idx < grid.cells.len()
                invariant_except_break
                    cells_to_sync@.len() < CELLS_PER_FRAME,
                    cells_to_sync@ == in_view + indices_where(pout, cell_idx as nat),
                invariant
                    self.wf(),
                    grid.wf(),
                    self.current_frame == frame,
                    self.previously_visible@ == old(self).previously_visible@,
                    self.cell_last_sync@ == old(self).cell_last_sync@,
                    in_frustum_cells@.len() == SPATIALIZATION_TOTAL_CELLS,
                    pin == due_in_view(
                        in_frustum_cells@,
                        self.previously_visible@,
                        self.cell_last_sync@,
                        frame,
                    ),
                    pout == due_out_of_view(in_frustum_cells@, self.cell_last_sync@, frame, grid.cell_items()),
                    in_view == indices_where(pin, SPATIALIZATION_TOTAL_CELLS as nat),
                    out_of_view == indices_where(pout, SPATIALIZATION_TOTAL_CELLS as nat),
                    forall|j: int| 0 <= j < in_view.len() ==> pin(#[trigger] in_view[j] as int),
                    in_view.len() < CELLS_PER_FRAME,
                    room == CELLS_PER_FRAME - in_view.len(),
                    cell_idx <= SPATIALIZATION_TOTAL_CELLS,
                ensures
                    cells_to_sync@ == in_view + if out_of_view.len() <= room {
                        out_of_view
                    } else {
                        out_of_view.take(room as int)
                    },
                decreases SPATIALIZATION_TOTAL_CELLS - cell_idx,
            {
                proof {
                    lemma_indices_where(pout, cell_idx as nat);
                }
                if contains_cell(&cells_to_sync, cell_idx) || in_frustum_cells[cell_idx]
                    || grid.cells[cell_idx].len() == 0 {
                    proof {
                        if cells_to_sync@.contains(cell_idx) {
                            let w = choose|w: int|
                                0 <= w < cells_to_sync@.len() && cells_to_sync@[w] == cell_idx;
                            if w < in_view.len() {
                                assert(pin(in_view[w] as int));
                            } else {
                                assert(cells_to_sync@[w] == indices_where(pout, cell_idx as nat)[w
                                    - in_view.len()]);
                            }
                        }
                        assert(!pout(cell_idx as int));
                    }
                    cell_idx = cell_idx + 1;
                    continue;
                }
                // For cells outside frustum, sync less frequently.
                let time_since_sync = frame - self.cell_last_sync[cell_idx];
                if time_since_sync >= SYNC_INTERVAL_OUTSIDE {
                    cells_to_sync.push(cell_idx);
                    assert(cells_to_sync@ =~= in_view + indices_where(pout, (cell_idx + 1) as nat));
                    // Stop adding non-visible cells once the limit is reached.
                    if cells_to_sync.len() >= CELLS_PER_FRAME {
                        proof {
                            lemma_indices_where_prefix(
                                pout,
                                (cell_idx + 1) as nat,
                                SPATIALIZATION_TOTAL_CELLS as nat,
                            );
                            let got = indices_where(pout, (cell_idx + 1) as nat);
                            assert(got.len() == room);
                            if out_of_view.len() > room {
                                assert(out_of_view.take(room as int) =~= got);
                            } else {
                                assert(out_of_view =~= got);
                            }
                        }
                        break;
                    }
                } else {
                    assert(indices_where(pout, (cell_idx + 1) as nat) =~= indices_where(
                        pout,
                        cell_idx as nat,
                    ));
                }
                cell_idx = cell_idx + 1;
            }
        }
        let ghost chosen = cells_to_sync@;
        assert(chosen == spec_cells_to_sync(
            in_frustum_cells@,
            old(self).previously_visible@,
            old(self).cell_last_sync@,
            frame,
            grid.cell_items(),
        ));
        assert forall|j: int| 0 <= j < chosen.len() implies #[trigger] chosen[j]
            < SPATIALIZATION_TOTAL_CELLS by {
            if j >= in_view.len() {
                assert(chosen[j] == out_of_view[j - in_view.len()]);
            }
        }

        // Record the chosen cells as synced at this frame.
        let mut n: usize = 0;
        while n < cells_to_sync.len()
            invariant
                self.current_frame == frame,
                self.cell_last_sync@.len() == SPATIALIZATION_TOTAL_CELLS,
                self.previously_visible@ == old(self).previously_visible@,
                chosen == cells_to_sync@,
                forall|j: int| 0 <= j < chosen.len() ==> #[trigger] chosen[j] < SPATIALIZATION_TOTAL_CELLS,
                n <= chosen.len(),
                forall|i: int|
                    0 <= i < SPATIALIZATION_TOTAL_CELLS ==> #[trigger] self.cell_last_sync@[i] == if chosen.take(
                        n as int,
                    ).contains(i as usize) {
                        frame
                    } else {
                        old(self).cell_last_sync@[i]
                    },
            decreases chosen.len() - n,
        {
            let c = cells_to_sync[n];
            self.cell_last_sync.set(c, frame);
            assert forall|i: int| 0 <= i < SPATIALIZATION_TOTAL_CELLS implies #[trigger] self.cell_last_sync@[i]
                == if chosen.take(n + 1).contains(i as usize) {
                frame
            } else {
                old(self).cell_last_sync@[i]
            } by {
                assert(chosen.take(n + 1) =~= chosen.take(n as int).push(c));
                if i == c as int {
                    assert(chosen.take(n + 1)[n as int] == c);
                }
            }
            n = n + 1;
        }
        assert(chosen.take(chosen.len() as int) =~= chosen);
        self.previously_visible = in_frustum_cells;
        cells_to_sync
    }
}

impl Default for SyncTracker {
    fn default() -> (tracker: Self)
        ensures
            tracker.wf(),
            tracker.current_frame == 0,
            forall|i: int| 0 <= i < SPATIALIZATION_TOTAL_CELLS ==> #[trigger] tracker.cell_last_sync@[i] == 0,
            forall|i: int| 0 <= i < SPATIALIZATION_TOTAL_CELLS ==> !#[trigger] tracker.previously_visible@[i],
    {
        SyncTracker::new()
    }
}

/// No occupied cell out of view is starved while there is room: whenever
/// fewer than `CELLS_PER_FRAME` cells are chosen in a frame, every occupied
/// cell out of view that has not been synced for `SYNC_INTERVAL_OUTSIDE`
/// frames is among them, however long ago or recently before that it was
/// synced.
pub proof fn lemma_due_cells_out_of_view_synced<T>(
    in_frustum: Seq<bool>,
    previously_visible: Seq<bool>,
    last_sync: Seq<u32>,
    frame: u32,
    cells: Seq<Seq<T>>,
    cell: int,
)
    requires
        0 <= cell < SPATIALIZATION_TOTAL_CELLS,
        !in_frustum[cell],
        cells[cell].len() != 0,
        frame - last_sync[cell] >= SYNC_INTERVAL_OUTSIDE,
        spec_cells_to_sync(in_frustum, previously_visible, last_sync, frame, cells).len()
            < CELLS_PER_FRAME,
    ensures
        spec_cells_to_sync(in_frustum, previously_visible, last_sync, frame, cells).contains(
            cell as usize,
        ),
{
    let pin = due_in_view(in_frustum, previously_visible, last_sync, frame);
    let pout = due_out_of_view(in_frustum, last_sync, frame, cells);
    lemma_indices_where(pin, SPATIALIZATION_TOTAL_CELLS as nat);
    lemma_indices_where(pout, SPATIALIZATION_TOTAL_CELLS as nat);
    let in_view = indices_where(pin, SPATIALIZATION_TOTAL_CELLS as nat);
    let out_of_view = indices_where(pout, SPATIALIZATION_TOTAL_CELLS as nat);
    let chosen = spec_cells_to_sync(in_frustum, previously_visible, last_sync, frame, cells);
    assert(pout(cell));
    assert(in_view.len() < CELLS_PER_FRAME);
    assert(out_of_view.len() <= CELLS_PER_FRAME - in_view.len());
    assert(chosen == in_view + out_of_view);
    assert(out_of_view.contains(cell as usize));
    let w = choose|w: int| 0 <= w < out_of_view.len() && out_of_view[w] == cell as usize;
    assert(chosen[in_view.len() + w] == cell as usize);
}

} // verus!
