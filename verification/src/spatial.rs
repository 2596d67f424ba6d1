use vstd::prelude::*;

use crate::config::{
    PERSON_COUNT, SPATIALIZATION_GRID_CELLS_PER_AXIS, SPATIALIZATION_MAX_NEIGHBORS,
    SPATIALIZATION_TOTAL_CELLS,
};

verus! {

/// A uniform grid over the arena. Each cell holds the items whose position
/// falls into it, in insertion order. Cell `z * 50 + x` covers column `x`
/// and row `z`.
pub struct SpatialGrid<T> {
    pub cells: Vec<Vec<T>>,
    pub nearby_cache: Vec<T>,
    pub dirty_cells: Vec<bool>,
}

/// The index of the cell at column `x` and row `z`, when both lie in the grid.
pub open spec fn spec_cell_index(x: int, z: int) -> Option<int> {
    if 0 <= x < SPATIALIZATION_GRID_CELLS_PER_AXIS && 0 <= z < SPATIALIZATION_GRID_CELLS_PER_AXIS {
        Some(z * SPATIALIZATION_GRID_CELLS_PER_AXIS + x)
    } else {
        None
    }
}

/// Column of a cell index.
pub open spec fn spec_cell_x(index: int) -> int {
    index % (SPATIALIZATION_GRID_CELLS_PER_AXIS as int)
}

/// Row of a cell index.
pub open spec fn spec_cell_z(index: int) -> int {
    index / (SPATIALIZATION_GRID_CELLS_PER_AXIS as int)
}

/// The `k`-th cell (0 <= k < 9) of the 3x3 block centred on column `cx`,
/// row `cz`, visited row by row from the row above to the row below and, in
/// each row, from left to right; `None` where that cell lies off the grid.
pub open spec fn neighbor_cell(cx: int, cz: int, k: int) -> Option<int> {
    spec_cell_index(cx + (k % 3 - 1), cz + (k / 3 - 1))
}

/// The items of the first `k` cells of the 3x3 block around (`cx`, `cz`),
/// concatenated in visiting order.
pub open spec fn neighborhood_prefix<T>(cells: Seq<Seq<T>>, cx: int, cz: int, k: nat) -> Seq<T>
    decreases k,
{
    if k == 0 {
        Seq::empty()
    } else {
        neighborhood_prefix(cells, cx, cz, (k - 1) as nat) + match neighbor_cell(
            cx,
            cz,
            k - 1,
        ) {
            Some(i) => cells[i],
            None => Seq::empty(),
        }
    }
}

/// All items of the 3x3 block of cells around (`cx`, `cz`), in visiting order.
pub open spec fn neighborhood<T>(cells: Seq<Seq<T>>, cx: int, cz: int) -> Seq<T> {
    neighborhood_prefix(cells, cx, cz, 9)
}

/// What a proximity query around the cell at column `cx`, row `cz` returns:
/// the items of the surrounding 3x3 block, cut off after the first
/// `SPATIALIZATION_MAX_NEIGHBORS`.
pub open spec fn spec_nearby<T>(cells: Seq<Seq<T>>, cx: int, cz: int) -> Seq<T> {
    let all = neighborhood(cells, cx, cz);
    if all.len() <= SPATIALIZATION_MAX_NEIGHBORS {
        all
    } else {
        all.take(SPATIALIZATION_MAX_NEIGHBORS as int)
    }
}

/// Views of the cells of a grid as sequences of items.
pub open spec fn cells_view<T>(cells: Seq<Vec<T>>) -> Seq<Seq<T>> {
    cells.map_values(|c: Vec<T>| c@)
}

/// The prefix over the first `k` cells is a prefix of the one over the first `j`.
pub proof fn lemma_neighborhood_prefix_grows<T>(cells: Seq<Seq<T>>, cx: int, cz: int, k: nat, j: nat)
    requires
        k <= j,
    ensures
        neighborhood_prefix(cells, cx, cz, k).len() <= neighborhood_prefix(cells, cx, cz, j).len(),
        neighborhood_prefix(cells, cx, cz, j).take(
            neighborhood_prefix(cells, cx, cz, k).len() as int,
        ) =~= neighborhood_prefix(cells, cx, cz, k),
    decreases j,
{
    if k < j {
        lemma_neighborhood_prefix_grows(cells, cx, cz, k, (j - 1) as nat);
        let a = neighborhood_prefix(cells, cx, cz, (j - 1) as nat);
        let b = neighborhood_prefix(cells, cx, cz, j);
        let p = neighborhood_prefix(cells, cx, cz, k);
        assert(b.take(a.len() as int) =~= a);
        assert(b.take(p.len() as int) =~= a.take(p.len() as int));
    }
}

/// Cell indices and cell coordinates determine each other: the index of an
/// in-grid column and row decomposes back into that column and row, and every
/// index of the grid is the index of its own column and row.
pub proof fn lemma_cell_index_roundtrip(x: int, z: int, index: int)
    ensures
        spec_cell_index(x, z) == Some(index) ==> spec_cell_x(index) == x && spec_cell_z(index) == z,
        0 <= index < SPATIALIZATION_TOTAL_CELLS ==> spec_cell_index(spec_cell_x(index), spec_cell_z(index))
            == Some(index),
{
    if spec_cell_index(x, z) == Some(index) {
        assert(index % 50 == x && index / 50 == z) by (nonlinear_arith)
            requires
                index == z * 50 + x,
                0 <= x < 50,
                0 <= z < 50,
        ;
    }
    if 0 <= index < SPATIALIZATION_TOTAL_CELLS {
        assert(index == (index / 50) * 50 + index % 50 && 0 <= index % 50 < 50 && 0 <= index / 50 < 50)
            by (nonlinear_arith)
            requires
                0 <= index < 2500,
        ;
    }
}

/// Column and row of a grid cell, the inverse of `SpatialGrid::position_to_cell_index`.
pub fn cell_coordinates(index: usize) -> (xz: (usize, usize))
    requires
        index < SPATIALIZATION_TOTAL_CELLS,
    ensures
        xz.0 == spec_cell_x(index as int),
        xz.1 == spec_cell_z(index as int),
        xz.0 < SPATIALIZATION_GRID_CELLS_PER_AXIS,
        xz.1 < SPATIALIZATION_GRID_CELLS_PER_AXIS,
        spec_cell_index(xz.0 as int, xz.1 as int) == Some(index as int),
{
    proof {
        lemma_cell_index_roundtrip(0, 0, index as int);
    }
    (index % SPATIALIZATION_GRID_CELLS_PER_AXIS, index / SPATIALIZATION_GRID_CELLS_PER_AXIS)
}

/// The items of `people`, in order, whose cell coordinates map to cell `index`.
pub open spec fn bucket<T>(people: Seq<(T, isize, isize)>, index: int) -> Seq<T>
    decreases people.len(),
{
    if people.len() == 0 {
        Seq::empty()
    } else {
        let last = people.last();
        bucket(people.drop_last(), index) + if spec_cell_index(last.1 as int, last.2 as int) == Some(
            index,
        ) {
            seq![last.0]
        } else {
            Seq::empty()
        }
    }
}

/// Refills the grid from scratch: every cell is emptied, then each person is
/// added to the cell its coordinates map to. Each entry of `people` is an
/// item with its cell coordinates.
pub fn update_spatial_grid<T: Copy>(grid: &mut SpatialGrid<T>, people: &Vec<(T, isize, isize)>)
    requires
        old(grid).wf(),
    ensures
        final(grid).wf(),
        final(grid).dirty_cells@ == old(grid).dirty_cells@,
        final(grid).nearby_cache@ == old(grid).nearby_cache@,
        forall|i: int|
            0 <= i < SPATIALIZATION_TOTAL_CELLS ==> #[trigger] final(grid).cell_items()[i] == bucket(people@, i),
{
    grid.clear();
    let mut n: usize = 0;
    while n < people.len()
        invariant
            grid.wf(),
            grid.dirty_cells@ == old(grid).dirty_cells@,
            grid.nearby_cache@ == old(grid).nearby_cache@,
            n <= people@.len(),
            forall|i: int|
                0 <= i < SPATIALIZATION_TOTAL_CELLS ==> #[trigger] grid.cell_items()[i] == bucket(people@.take(n as int), i),
        decreases people@.len() - n,
    {
        let (item, cell_x, cell_z) = people[n];
        let ghost before = grid.cell_items();
        grid.add_entity(item, cell_x, cell_z);
        assert(people@.take(n + 1).drop_last() =~= people@.take(n as int));
        assert forall|i: int| 0 <= i < SPATIALIZATION_TOTAL_CELLS implies #[trigger] grid.cell_items()[i]
            == bucket(people@.take(n + 1), i) by {
            assert(people@.take(n + 1).last() == people@[n as int]);
            if spec_cell_index(cell_x as int, cell_z as int) == Some(i) {
                assert(grid.cell_items()[i] =~= before[i] + seq![item]);
            } else {
                assert(grid.cell_items()[i] =~= before[i] + Seq::<T>::empty());
            }
        }
        n = n + 1;
    }
    assert(people@.take(people@.len() as int) =~= people@);
}

/// The items of the listed cells, concatenated in the order the cells are listed.
pub open spec fn items_of_cells<T>(cells: Seq<Seq<T>>, indices: Seq<usize>) -> Seq<T>
    decreases indices.len(),
{
    if indices.len() == 0 {
        Seq::empty()
    } else {
        items_of_cells(cells, indices.drop_last()) + cells[indices.last() as int]
    }
}

/// Every item held by the listed cells, cell after cell in the order the cells
/// are listed, and within a cell in insertion order: the people whose state is
/// refreshed when those cells are synchronized.
pub fn persons_to_refresh<T: Copy>(grid: &SpatialGrid<T>, cells: &Vec<usize>) -> (items: Vec<T>)
    requires
        grid.wf(),
        forall|j: int| 0 <= j < cells@.len() ==> #[trigger] cells@[j] < SPATIALIZATION_TOTAL_CELLS,
    ensures
        items@ == items_of_cells(grid.cell_items(), cells@),
{
    let ghost all = grid.cell_items();
    let mut items: Vec<T> = Vec::new();
    let mut n: usize = 0;
    while n < cells.len()
        invariant
            grid.wf(),
            all == grid.cell_items(),
            forall|j: int| 0 <= j < cells@.len() ==> #[trigger] cells@[j] < SPATIALIZATION_TOTAL_CELLS,
            n <= cells@.len(),
            items@ == items_of_cells(all, cells@.take(n as int)),
        decreases cells@.len() - n,
    {
        let cell = cells[n];
        let ghost before = items@;
        let mut j: usize = 0;
        while j < grid.cells[cell].len()
            invariant
                grid.wf(),
                all == grid.cell_items(),
                cell < SPATIALIZATION_TOTAL_CELLS,
                j <= all[cell as int].len(),
                items@ == before + all[cell as int].take(j as int),
            decreases all[cell as int].len() - j,
        {
            items.push(grid.cells[cell][j]);
            assert(all[cell as int].take(j + 1) =~= all[cell as int].take(j as int).push(all[cell as int][j as int]));
            j = j + 1;
        }
        assert(all[cell as int].take(j as int) =~= all[cell as int]);
        assert(cells@.take(n + 1).drop_last() =~= cells@.take(n as int));
        assert(cells@.take(n + 1).last() == cell);
        n = n + 1;
    }
    assert(cells@.take(cells@.len() as int) =~= cells@);
    items
}

/// Every item of a cell visited among the first `k` cells of the block is in
/// the concatenation of those cells.
pub proof fn lemma_neighborhood_prefix_contains<T>(
    cells: Seq<Seq<T>>,
    cx: int,
    cz: int,
    k: nat,
    j: int,
    index: int,
    item: T,
)
    requires
        0 <= j < k,
        neighbor_cell(cx, cz, j) == Some(index),
        cells[index].contains(item),
    ensures
        neighborhood_prefix(cells, cx, cz, k).contains(item),
    decreases k,
{
    let before = neighborhood_prefix(cells, cx, cz, (k - 1) as nat);
    let all = neighborhood_prefix(cells, cx, cz, k);
    if j < k - 1 {
        lemma_neighborhood_prefix_contains(cells, cx, cz, (k - 1) as nat, j, index, item);
        let w = choose|w: int| 0 <= w < before.len() && before[w] == item;
        assert(all[w] == item);
    } else {
        let w = choose|w: int| 0 <= w < cells[index].len() && cells[index][w] == item;
        assert(all[before.len() + w] == item);
    }
}

/// A proximity query finds every item of the queried cell and of its eight
/// neighbours, as long as that block holds no more than
/// `SPATIALIZATION_MAX_NEIGHBORS` items.
pub proof fn lemma_nearby_finds_neighbours<T>(
    cells: Seq<Seq<T>>,
    query_x: int,
    query_z: int,
    x: int,
    z: int,
    item: T,
)
    requires
        spec_cell_index(x, z) is Some,
        query_x - 1 <= x <= query_x + 1,
        query_z - 1 <= z <= query_z + 1,
        cells[spec_cell_index(x, z)->0].contains(item),
        neighborhood(cells, query_x, query_z).len() <= SPATIALIZATION_MAX_NEIGHBORS,
    ensures
        spec_nearby(cells, query_x, query_z).contains(item),
{
    let j = (z - query_z + 1) * 3 + (x - query_x + 1);
    assert(j % 3 - 1 == x - query_x && j / 3 - 1 == z - query_z);
    lemma_neighborhood_prefix_contains(cells, query_x, query_z, 9, j, spec_cell_index(x, z)->0, item);
}

/// A person handed to `update_spatial_grid` lands in the cell its
/// coordinates map to.
pub proof fn lemma_bucket_contains<T>(people: Seq<(T, isize, isize)>, n: int)
    requires
        0 <= n < people.len(),
        spec_cell_index(people[n].1 as int, people[n].2 as int) is Some,
    ensures
        bucket(people, spec_cell_index(people[n].1 as int, people[n].2 as int)->0).contains(people[n].0),
    decreases people.len(),
{
    let index = spec_cell_index(people[n].1 as int, people[n].2 as int)->0;
    let rest = bucket(people.drop_last(), index);
    let all = bucket(people, index);
    if n < people.len() - 1 {
        lemma_bucket_contains(people.drop_last(), n);
        let w = choose|w: int| 0 <= w < rest.len() && rest[w] == people[n].0;
        assert(all[w] == people[n].0);
    } else {
        assert(all[rest.len() as int] == people[n].0);
    }
}

/// After the grid is refilled from `people`, a proximity query from a cell
/// next to (or at) a person's cell finds that person, as long as the queried
/// block holds no more than `SPATIALIZATION_MAX_NEIGHBORS` people.
pub proof fn lemma_refilled_grid_finds_neighbours<T>(
    people: Seq<(T, isize, isize)>,
    n: int,
    query_x: int,
    query_z: int,
)
    requires
        0 <= n < people.len(),
        spec_cell_index(people[n].1 as int, people[n].2 as int) is Some,
        query_x - 1 <= people[n].1 <= query_x + 1,
        query_z - 1 <= people[n].2 <= query_z + 1,
        neighborhood(
            Seq::new(SPATIALIZATION_TOTAL_CELLS as nat, |i: int| bucket(people, i)),
            query_x,
            query_z,
        ).len() <= SPATIALIZATION_MAX_NEIGHBORS,
    ensures
        spec_nearby(
            Seq::new(SPATIALIZATION_TOTAL_CELLS as nat, |i: int| bucket(people, i)),
            query_x,
            query_z,
        ).contains(people[n].0),
{
    let cells = Seq::new(SPATIALIZATION_TOTAL_CELLS as nat, |i: int| bucket(people, i));
    lemma_bucket_contains(people, n);
    lemma_nearby_finds_neighbours(
        cells,
        query_x,
        query_z,
        people[n].1 as int,
        people[n].2 as int,
        people[n].0,
    );
}

impl<T: Copy> SpatialGrid<T> {
    /// The grid has one cell and one dirty flag per cell of the arena.
    pub open spec fn wf(&self) -> bool {
        &&& self.cells@.len() == SPATIALIZATION_TOTAL_CELLS
        &&& self.dirty_cells@.len() == SPATIALIZATION_TOTAL_CELLS
    }

    /// The contents of every cell.
    pub open spec fn cell_items(&self) -> Seq<Seq<T>> {
        cells_view(self.cells@)
    }

    /// An empty grid: every cell empty, no cell dirty.
    pub fn new() -> (grid: Self)
        ensures
            grid.wf(),
            forall|i: int| 0 <= i < SPATIALIZATION_TOTAL_CELLS ==> (#[trigger] grid.cells@[i])@.len() == 0,
            forall|i: int| 0 <= i < SPATIALIZATION_TOTAL_CELLS ==> !#[trigger] grid.dirty_cells@[i],
            grid.nearby_cache@.len() == 0,
    {
        let total_cells = SPATIALIZATION_GRID_CELLS_PER_AXIS * SPATIALIZATION_GRID_CELLS_PER_AXIS;
        let mut cells: Vec<Vec<T>> = Vec::with_capacity(total_cells);
        let mut n: usize = 0;
        while n < total_cells
            invariant
                total_cells == SPATIALIZATION_TOTAL_CELLS,
                n <= total_cells,
                cells@.len() == n,
                forall|i: int| 0 <= i < n ==> (#[trigger] cells@[i])@.len() == 0,
            decreases total_cells - n,
        {
            cells.push(Vec::with_capacity(PERSON_COUNT));
            n = n + 1;
        }
        SpatialGrid {
            cells,
            nearby_cache: Vec::with_capacity(SPATIALIZATION_MAX_NEIGHBORS * 4),
            dirty_cells: vec![false; total_cells],
        }
    }

    /// Empties every cell.
    pub fn clear(&mut self)
        requires
            old(self).wf(),
        ensures
            final(self).wf(),
            forall|i: int| 0 <= i < SPATIALIZATION_TOTAL_CELLS ==> (#[trigger] final(self).cells@[i])@.len() == 0,
            final(self).dirty_cells@ == old(self).dirty_cells@,
            final(self).nearby_cache@ == old(self).nearby_cache@,
    {
        let mut i: usize = 0;
        while i < self.cells.len()
            invariant
                self.wf(),
                self.dirty_cells@ == old(self).dirty_cells@,
                self.nearby_cache@ == old(self).nearby_cache@,
                i <= self.cells@.len(),
                forall|j: int| 0 <= j < i ==> (#[trigger] self.cells@[j])@.len() == 0,
            decreases self.cells@.len() - i,
        {
            self.cells[i].clear();
            i = i + 1;
        }
    }

    /// Maps the cell coordinates of a position (its arena-relative coordinates
    /// divided by the cell size, truncated towards zero) to a cell index, or
    /// `None` when the position lies outside the grid.
    pub fn position_to_cell_index(&self, cell_x: isize, cell_z: isize) -> (res: Option<usize>)
        ensures
            match res {
                Some(i) => spec_cell_index(cell_x as int, cell_z as int) == Some(i as int),
                None => spec_cell_index(cell_x as int, cell_z as int) is None,
            },
    {
        if cell_x >= 0 && cell_x < SPATIALIZATION_GRID_CELLS_PER_AXIS as isize && cell_z >= 0
            && cell_z < SPATIALIZATION_GRID_CELLS_PER_AXIS as isize {
            Some((cell_z as usize * SPATIALIZATION_GRID_CELLS_PER_AXIS) + cell_x as usize)
        } else {
            None
        }
    }

    /// Appends `item` to the cell at the given cell coordinates; an item whose
    /// coordinates lie outside the grid is dropped.
    pub fn add_entity(&mut self, item: T, cell_x: isize, cell_z: isize)
        requires
            old(self).wf(),
        ensures
            final(self).wf(),
            final(self).dirty_cells@ == old(self).dirty_cells@,
            final(self).nearby_cache@ == old(self).nearby_cache@,
            final(self).cell_items() == match spec_cell_index(cell_x as int, cell_z as int) {
                Some(i) => old(self).cell_items().update(i, old(self).cell_items()[i].push(item)),
                None => old(self).cell_items(),
            },
    {
        if let Some(index) = self.position_to_cell_index(cell_x, cell_z) {
            if index < self.cells.len() {
                self.cells[index].push(item);
            }
        }
        assert(self.cell_items() =~= match spec_cell_index(cell_x as int, cell_z as int) {
            Some(i) => old(self).cell_items().update(i, old(self).cell_items()[i].push(item)),
            None => old(self).cell_items(),
        });
    }

    /// Marks the cell at the given cell coordinates as dirty; nothing changes
    /// when they lie outside the grid.
    pub fn mark_cell_dirty(&mut self, cell_x: isize, cell_z: isize)
        requires
            old(self).wf(),
        ensures
            final(self).wf(),
            final(self).cells@ == old(self).cells@,
            final(self).nearby_cache@ == old(self).nearby_cache@,
            final(self).dirty_cells@ == match spec_cell_index(cell_x as int, cell_z as int) {
                Some(i) => old(self).dirty_cells@.update(i, true),
                None => old(self).dirty_cells@,
            },
    {
        if let Some(index) = self.position_to_cell_index(cell_x, cell_z) {
            self.dirty_cells.set(index, true);
        }
    }

    /// Collects the items of the cell at the given cell coordinates and of its
    /// (up to eight) neighbours, row by row, stopping as soon as
    /// `SPATIALIZATION_MAX_NEIGHBORS` items have been gathered. The result is
    /// empty when the coordinates lie outside the grid.
    pub fn get_nearby_entities(&mut self, cell_x: isize, cell_z: isize) -> (res: &[T])
        requires
            old(self).wf(),
        ensures
            final(self).wf(),
            final(self).cells@ == old(self).cells@,
            final(self).dirty_cells@ == old(self).dirty_cells@,
            res@ == (match spec_cell_index(cell_x as int, cell_z as int) {
                Some(_) => spec_nearby(old(self).cell_items(), cell_x as int, cell_z as int),
                None => Seq::<T>::empty(),
            }),
            res@.len() <= SPATIALIZATION_MAX_NEIGHBORS,
            final(self).nearby_cache@ == res@,
    {
        self.nearby_cache.clear();
        let ghost cells = self.cell_items();
        if let Some(cell_index) = self.position_to_cell_index(cell_x, cell_z) {
            let cx = cell_index % SPATIALIZATION_GRID_CELLS_PER_AXIS;
            let cz = cell_index / SPATIALIZATION_GRID_CELLS_PER_AXIS;
            assert(cx == cell_x && cz == cell_z) by (nonlinear_arith)
                requires
                    cell_index == cell_z * 50 + cell_x,
                    0 <= cell_x < 50,
                    0 <= cell_z < 50,
                    cx == cell_index % 50,
                    cz == cell_index / 50,
            ;
            let mut z_offset: isize = -1;
            while z_offset <= 1
                invariant
                    self.wf(),
                    self.cells@ == old(self).cells@,
                    self.dirty_cells@ == old(self).dirty_cells@,
                    cells == self.cell_items(),
                    cx == cell_x,
                    cz == cell_z,
                    0 <= cx < 50,
                    0 <= cz < 50,
                    -1 <= z_offset <= 2,
                    self.nearby_cache@ == neighborhood_prefix(cells, cx as int, cz as int, (3 * (z_offset + 1)) as nat),
                    self.nearby_cache@.len() < SPATIALIZATION_MAX_NEIGHBORS,
                decreases 2 - z_offset,
            {
                let z = cz as isize + z_offset;
                let ghost k0 = 3 * (z_offset + 1);
                let mut x_offset: isize = -1;
                while x_offset <= 1
                    invariant
                        self.wf(),
                        self.cells@ == old(self).cells@,
                        self.dirty_cells@ == old(self).dirty_cells@,
                        cells == self.cell_items(),
                        cx == cell_x,
                        cz == cell_z,
                        0 <= cx < 50,
                        0 <= cz < 50,
                        -1 <= z_offset <= 1,
                        z == cz + z_offset,
                        k0 == 3 * (z_offset + 1),
                        -1 <= x_offset <= 2,
                        self.nearby_cache@ == neighborhood_prefix(cells, cx as int, cz as int, (k0 + x_offset + 1) as nat),
                        self.nearby_cache@.len() < SPATIALIZATION_MAX_NEIGHBORS,
                    decreases 2 - x_offset,
                {
                    let ghost k = k0 + x_offset + 1;
                    assert(k % 3 - 1 == x_offset && k / 3 - 1 == z_offset);
                    let x = cx as isize + x_offset;
                    if z >= 0 && z < SPATIALIZATION_GRID_CELLS_PER_AXIS as isize && x >= 0 && x
                        < SPATIALIZATION_GRID_CELLS_PER_AXIS as isize {
                        let neighbor_index = (z as usize * SPATIALIZATION_GRID_CELLS_PER_AXIS)
                            + x as usize;
                        assert(neighbor_cell(cx as int, cz as int, k) == Some(neighbor_index as int));
                        if neighbor_index < self.cells.len() {
                            let ghost before = self.nearby_cache@;
                            let mut j: usize = 0;
                            while j < self.cells[neighbor_index].len()
                                invariant
                                    self.wf(),
                                    self.cells@ == old(self).cells@,
                                    self.dirty_cells@ == old(self).dirty_cells@,
                                    cells == self.cell_items(),
                                    neighbor_index < SPATIALIZATION_TOTAL_CELLS,
                                    cx == cell_x,
                                    cz == cell_z,
                                    0 <= cx < 50,
                                    0 <= cz < 50,
                                    neighbor_cell(cx as int, cz as int, k) == Some(neighbor_index as int),
                                    0 <= k < 9,
                                    before == neighborhood_prefix(cells, cx as int, cz as int, k as nat),
                                    j <= cells[neighbor_index as int].len(),
                                    self.nearby_cache@ == before + cells[neighbor_index as int].take(j as int),
                                    self.nearby_cache@.len() < SPATIALIZATION_MAX_NEIGHBORS,
                                decreases cells[neighbor_index as int].len() - j,
                            {
                                let entity_data = self.cells[neighbor_index][j];
                                self.nearby_cache.push(entity_data);
                                assert(cells[neighbor_index as int].take(j + 1) =~= cells[neighbor_index as int].take(j as int).push(entity_data));
                                if self.nearby_cache.len() >= SPATIALIZATION_MAX_NEIGHBORS {
                                    proof {
                                        let full = neighborhood_prefix(cells, cx as int, cz as int, (k + 1) as nat);
                                        assert(full =~= before + cells[neighbor_index as int]);
                                        lemma_neighborhood_prefix_grows(cells, cx as int, cz as int, (k + 1) as nat, 9);
                                        let all = neighborhood(cells, cx as int, cz as int);
                                        assert(all.take(200) =~= full.take(200));
                                        assert(full.take(200) =~= self.nearby_cache@);
                                        assert(all.len() >= 200);
                                        assert(spec_nearby(cells, cx as int, cz as int) =~= self.nearby_cache@);
                                    }
                                    return self.nearby_cache.as_slice();
                                }
                                j = j + 1;
                            }
                            assert(cells[neighbor_index as int].take(j as int) =~= cells[neighbor_index as int]);
                        }
                    } else {
                        assert(neighbor_cell(cx as int, cz as int, k) is None);
                        assert(neighborhood_prefix(cells, cx as int, cz as int, (k + 1) as nat)
                            =~= neighborhood_prefix(cells, cx as int, cz as int, k as nat));
                    }
                    x_offset = x_offset + 1;
                }
                z_offset = z_offset + 1;
            }
        }
        self.nearby_cache.as_slice()
    }
}

impl<T: Copy> Default for SpatialGrid<T> {
    fn default() -> (grid: Self)
        ensures
            grid.wf(),
            forall|i: int| 0 <= i < SPATIALIZATION_TOTAL_CELLS ==> (#[trigger] grid.cells@[i])@.len() == 0,
            forall|i: int| 0 <= i < SPATIALIZATION_TOTAL_CELLS ==> !#[trigger] grid.dirty_cells@[i],
            grid.nearby_cache@.len() == 0,
    {
        SpatialGrid::new()
    }
}

/// Every item in the first `k` cells of the block around (`cx`, `cz`) lies in
/// one of those cells.
proof fn lemma_neighborhood_prefix_source<T>(cells: Seq<Seq<T>>, cx: int, cz: int, k: nat, item: T)
    requires
        neighborhood_prefix(cells, cx, cz, k).contains(item),
    ensures
        exists|j: int, index: int|
            #![trigger neighbor_cell(cx, cz, j), cells[index].contains(item)]
            0 <= j < k && neighbor_cell(cx, cz, j) == Some(index) && cells[index].contains(item),
    decreases k,
{
    let before = neighborhood_prefix(cells, cx, cz, (k - 1) as nat);
    let all = neighborhood_prefix(cells, cx, cz, k);
    let w = choose|w: int| 0 <= w < all.len() && all[w] == item;
    if w < before.len() {
        assert(before[w] == item);
        lemma_neighborhood_prefix_source(cells, cx, cz, (k - 1) as nat, item);
        let (j, index) = choose|j: int, index: int|
            #![trigger neighbor_cell(cx, cz, j), cells[index].contains(item)]
            0 <= j < k - 1 && neighbor_cell(cx, cz, j) == Some(index) && cells[index].contains(item);
        assert(0 <= j < k && neighbor_cell(cx, cz, j) == Some(index) && cells[index].contains(item));
    } else {
        let index = neighbor_cell(cx, cz, k - 1)->0;
        assert(cells[index][w - before.len()] == item);
        assert(cells[index].contains(item));
    }
}

/// A proximity query returns only neighbours: every item it returns lies in
/// a grid cell whose column and row each differ by at most one from the
/// queried cell's.
pub proof fn lemma_nearby_only_neighbours<T>(cells: Seq<Seq<T>>, query_x: int, query_z: int, item: T)
    requires
        spec_nearby(cells, query_x, query_z).contains(item),
    ensures
        exists|x: int, z: int|
            query_x - 1 <= x <= query_x + 1 && query_z - 1 <= z <= query_z + 1 && spec_cell_index(x, z)
                is Some && #[trigger] cells[spec_cell_index(x, z)->0].contains(item),
{
    let all = neighborhood(cells, query_x, query_z);
    let w = choose|w: int|
        0 <= w < spec_nearby(cells, query_x, query_z).len() && spec_nearby(cells, query_x, query_z)[w]
            == item;
    assert(all[w] == item);
    lemma_neighborhood_prefix_source(cells, query_x, query_z, 9, item);
    let (j, index) = choose|j: int, index: int|
        #![trigger neighbor_cell(query_x, query_z, j), cells[index].contains(item)]
        0 <= j < 9 && neighbor_cell(query_x, query_z, j) == Some(index) && cells[index].contains(item);
    let x = query_x + (j % 3 - 1);
    let z = query_z + (j / 3 - 1);
    assert(spec_cell_index(x, z) == Some(index));
    assert(cells[spec_cell_index(x, z)->0].contains(item));
}

/// Listing one more cell appends that whole cell's items, and every item of
/// every listed cell is among the people listed.
pub proof fn lemma_items_of_cells<T>(cells: Seq<Seq<T>>, indices: Seq<usize>, cell: usize)
    ensures
        items_of_cells(cells, indices.push(cell)) == items_of_cells(cells, indices) + cells[cell as int],
        forall|j: int, k: int|
            0 <= j < indices.len() && 0 <= k < cells[indices[j] as int].len() ==> items_of_cells(
                cells,
                indices,
            ).contains(#[trigger] cells[indices[j] as int][k]),
    decreases indices.len(),
{
    assert(indices.push(cell).drop_last() =~= indices);
    if indices.len() > 0 {
        let rest = indices.drop_last();
        lemma_items_of_cells(cells, rest, indices.last());
        assert(rest.push(indices.last()) =~= indices);
        let before = items_of_cells(cells, rest);
        let all = items_of_cells(cells, indices);
        assert forall|j: int, k: int|
            0 <= j < indices.len() && 0 <= k < cells[indices[j] as int].len() implies all.contains(
            #[trigger] cells[indices[j] as int][k],
        ) by {
            if j < indices.len() - 1 {
                assert(rest[j] == indices[j]);
                let w = choose|w: int| 0 <= w < before.len() && before[w] == cells[indices[j] as int][k];
                assert(all[w] == before[w]);
            } else {
                assert(all[before.len() + k] == cells[indices[j] as int][k]);
            }
        }
    }
}

} // verus!
