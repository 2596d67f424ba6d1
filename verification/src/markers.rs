use vstd::prelude::*;

use std::collections::HashMap;

use crate::config::SPATIALIZATION_TOTAL_CELLS;
use crate::schedule::indices_where;

verus! {

broadcast use vstd::std_specs::hash::group_hash_axioms;

/// The server's debug overlay: one marker entity per grid cell that some
/// client saw in the previous frame.
pub struct DebugVisualization<E> {
    pub cell_entities: HashMap<usize, E>,
    pub active: bool,
}

/// What to do with the overlay's markers this frame.
pub enum MarkerPlan<E> {
    /// The overlay is off: despawn these marker entities.
    Hide { despawn: Vec<E> },
    /// The overlay is on: despawn the existing markers at these positions of
    /// the list of markers handed in, and spawn a marker for each of these
    /// cells.
    Show { remove: Vec<usize>, spawn: Vec<usize> },
}

/// Whether `cell` is a grid cell that was visible.
pub open spec fn visible_cell(previously_visible: Seq<bool>, cell: int) -> bool {
    0 <= cell < SPATIALIZATION_TOTAL_CELLS && previously_visible[cell]
}

/// Whether the marker of `cell` goes away: some existing marker is on it and
/// the cell is not visible.
pub open spec fn marker_removed(previously_visible: Seq<bool>, marker_cells: Seq<usize>, cell: usize) -> bool {
    marker_cells.contains(cell) && !visible_cell(previously_visible, cell as int)
}

/// `values` lists the value of every key of `m` once: it is the values of
/// some ordering of the keys of `m`, each key taken once.
pub open spec fn lists_values_of<E>(values: Seq<E>, m: Map<usize, E>) -> bool {
    exists|keys: Seq<usize>|
        #![trigger keys.to_set()]
        keys.no_duplicates() && keys.to_set() == m.dom() && values == keys.map_values(
            |k: usize| m[k],
        )
}

/// The marker map after `record_marker` is called for each spawned cell in
/// turn, with the entity spawned for it.
pub open spec fn record_markers<E>(m: Map<usize, E>, cells: Seq<usize>, entities: Seq<E>) -> Map<
    usize,
    E,
>
    decreases cells.len(),
{
    if cells.len() == 0 || entities.len() == 0 {
        m
    } else {
        record_markers(m, cells.drop_last(), entities.drop_last()).insert(
            cells.last(),
            entities.last(),
        )
    }
}

/// Recording markers adds exactly the recorded cells to the map's keys and
/// leaves the entity of every other cell as it was.
pub proof fn lemma_record_markers<E>(m: Map<usize, E>, cells: Seq<usize>, entities: Seq<E>)
    requires
        cells.len() == entities.len(),
    ensures
        forall|c: usize|
            #[trigger] record_markers(m, cells, entities).contains_key(c) <==> m.contains_key(c)
                || cells.contains(c),
        forall|c: usize|
            !cells.contains(c) && m.contains_key(c) ==> #[trigger] record_markers(m, cells, entities)[c]
                == m[c],
    decreases cells.len(),
{
    if cells.len() > 0 {
        let rest = cells.drop_last();
        lemma_record_markers(m, rest, entities.drop_last());
        assert forall|c: usize| #[trigger] cells.contains(c) <==> rest.contains(c) || c == cells.last() by {
            if cells.contains(c) {
                let w = choose|w: int| 0 <= w < cells.len() && cells[w] == c;
                if w < cells.len() - 1 {
                    assert(rest[w] == c);
                }
            }
            if rest.contains(c) {
                let w = choose|w: int| 0 <= w < rest.len() && rest[w] == c;
                assert(cells[w] == c);
            }
            if c == cells.last() {
                assert(cells[cells.len() - 1] == c);
            }
        }
        let prev = record_markers(m, rest, entities.drop_last());
        assert forall|c: usize|
            !cells.contains(c) && m.contains_key(c) implies #[trigger] record_markers(
            m,
            cells,
            entities,
        )[c] == m[c] by {
            assert(!rest.contains(c) && c != cells.last());
            assert(prev.contains_key(c) && prev[c] == m[c]);
        }
    }
}

/// The overlay tracks exactly the visible cells: when the markers handed to
/// `visualize_visible_cells` are exactly those the overlay tracks, then once
/// a marker is recorded for each cell it asks to spawn, the overlay tracks a
/// marker for every visible cell and for no other cell, and a visible cell
/// that already had a marker keeps the same one.
pub proof fn lemma_overlay_tracks_visible_cells<E>(
    before: Map<usize, E>,
    after: Map<usize, E>,
    previously_visible: Seq<bool>,
    marker_cells: Seq<usize>,
    spawn: Seq<usize>,
    spawned: Seq<E>,
)
    requires
        marker_cells.to_set() == before.dom(),
        forall|c: usize|
            #[trigger] after.contains_key(c) <==> before.contains_key(c) && !marker_removed(
                previously_visible,
                marker_cells,
                c,
            ),
        forall|c: usize| #[trigger] after.contains_key(c) ==> after[c] == before[c],
        spawn == indices_where(
            |i: int| previously_visible[i] && !after.contains_key(i as usize),
            SPATIALIZATION_TOTAL_CELLS as nat,
        ),
        spawned.len() == spawn.len(),
    ensures
        forall|c: usize|
            #[trigger] record_markers(after, spawn, spawned).contains_key(c) <==> visible_cell(
                previously_visible,
                c as int,
            ),
        forall|c: usize|
            before.contains_key(c) && visible_cell(previously_visible, c as int) ==> #[trigger] record_markers(
                after,
                spawn,
                spawned,
            )[c] == before[c],
{
    let needs = |i: int| previously_visible[i] && !after.contains_key(i as usize);
    crate::schedule::lemma_indices_where(needs, SPATIALIZATION_TOTAL_CELLS as nat);
    lemma_record_markers(after, spawn, spawned);
    let recorded = record_markers(after, spawn, spawned);
    assert forall|c: usize| #[trigger] recorded.contains_key(c) <==> visible_cell(
        previously_visible,
        c as int,
    ) by {
        if visible_cell(previously_visible, c as int) {
            if !after.contains_key(c) {
                assert(needs(c as int));
                assert(spawn.contains(c));
            }
        }
        if recorded.contains_key(c) {
            if after.contains_key(c) {
                assert(before.dom().contains(c));
                assert(marker_cells.to_set().contains(c));
                assert(marker_cells.contains(c));
            } else {
                assert(spawn.contains(c));
                let w = choose|w: int| 0 <= w < spawn.len() && spawn[w] == c;
                assert(needs(spawn[w] as int));
            }
        }
    }
    assert forall|c: usize|
        before.contains_key(c) && visible_cell(previously_visible, c as int) implies #[trigger] recorded[c]
        == before[c] by {
        assert(after.contains_key(c));
        if spawn.contains(c) {
            let w = choose|w: int| 0 <= w < spawn.len() && spawn[w] == c;
            assert(needs(spawn[w] as int));
        }
    }
}

impl<E: Copy> DebugVisualization<E> {
    /// An active overlay with no markers.
    pub fn new() -> (vis: Self)
        ensures
            vis.active,
            vis.cell_entities@ == Map::<usize, E>::empty(),
    {
        DebugVisualization { cell_entities: HashMap::new(), active: true }
    }

    /// Collects every marker entity the overlay tracks and forgets them all.
    pub fn take_all_markers(&mut self) -> (despawn: Vec<E>)
        ensures
            final(self).cell_entities@ == Map::<usize, E>::empty(),
            final(self).active == old(self).active,
            lists_values_of(despawn@, old(self).cell_entities@),
            despawn@.len() == old(self).cell_entities@.dom().len(),
    {
        let mut despawn: Vec<E> = Vec::new();
        let ghost m = self.cell_entities@;
        let ghost pairs = vstd::std_specs::iter::IteratorSpec::remaining(
            &vstd::std_specs::hash::spec_hash_map_iter(&self.cell_entities),
        );
        let ghost mut keys: Seq<usize> = Seq::empty();
        for kv in it: self.cell_entities.iter()
            invariant
                m == self.cell_entities@,
                it.seq() == pairs,
                pairs.no_duplicates(),
                pairs.len() == m.dom().len(),
                forall|k: usize| #[trigger] m.contains_key(k) ==> pairs.contains((&k, &m[k])),
                despawn@.len() == it.index(),
                keys.len() == it.index(),
                forall|j: int| 0 <= j < it.index() ==> keys[j] == *(#[trigger] pairs[j]).0,
                forall|j: int| 0 <= j < it.index() ==> m.contains_key(#[trigger] keys[j]),
                forall|j: int| 0 <= j < it.index() ==> despawn@[j] == m[#[trigger] keys[j]],
        {
            proof {
                assert(m.contains_key(*pairs[it.index()].0) && m[*pairs[it.index()].0] == *pairs[it.index()].1);
                keys = keys.push(*kv.0);
            }
            despawn.push(*kv.1);
        }
        proof {
            assert(keys.len() == pairs.len());
            assert(despawn@ =~= keys.map_values(|k: usize| m[k]));
            assert forall|i: int, j: int| 0 <= i < keys.len() && 0 <= j < keys.len() && i != j implies keys[i] != keys[j] by {
                if keys[i] == keys[j] {
                    assert(m.contains_key(*pairs[i].0) && m[*pairs[i].0] == *pairs[i].1);
                    assert(m.contains_key(*pairs[j].0) && m[*pairs[j].0] == *pairs[j].1);
                    assert(pairs[i] == pairs[j]);
                }
            }
            assert forall|k: usize| m.dom().contains(k) implies #[trigger] keys.to_set().contains(k) by {
                assert(pairs.contains((&k, &m[k])));
                let w = choose|w: int| 0 <= w < pairs.len() && pairs[w] == (&k, &m[k]);
                assert(keys[w] == k);
                assert(keys.contains(k));
            }
            assert forall|k: usize| #[trigger] keys.to_set().contains(k) implies m.dom().contains(k) by {
                assert(keys.contains(k));
            }
            assert(keys.to_set() =~= m.dom());
        }
        self.cell_entities.clear();
        despawn
    }

    /// Switches the overlay on or off and returns whether it is now on.
    pub fn toggle(&mut self) -> (active: bool)
        ensures
            final(self).active == !old(self).active,
            active == final(self).active,
            final(self).cell_entities@ == old(self).cell_entities@,
    {
        self.active = !self.active;
        self.active
    }

    /// Records the marker entity spawned for `cell`.
    pub fn record_marker(&mut self, cell: usize, entity: E)
        ensures
            final(self).cell_entities@ == old(self).cell_entities@.insert(cell, entity),
            final(self).active == old(self).active,
    {
        self.cell_entities.insert(cell, entity);
    }

    /// Decides what the overlay does this frame. When it is off, every marker
    /// it tracks is despawned and forgotten. When it is on, the existing
    /// markers (`marker_cells` lists the cell of each) whose cell was not
    /// visible are despawned and forgotten, and a marker is to be spawned for
    /// each visible cell that then has none.
    pub fn visualize_visible_cells(
        &mut self,
        previously_visible: &Vec<bool>,
        marker_cells: &Vec<usize>,
    ) -> (plan: MarkerPlan<E>)
        requires
            old(self).active ==> previously_visible@.len() >= SPATIALIZATION_TOTAL_CELLS,
        ensures
            final(self).active == old(self).active,
            !old(self).active ==> {
                &&& final(self).cell_entities@ == Map::<usize, E>::empty()
                &&& plan matches MarkerPlan::Hide { despawn } && lists_values_of(
                    despawn@,
                    old(self).cell_entities@,
                )
            },
            old(self).active ==> {
                &&& forall|c: usize|
                    #[trigger] final(self).cell_entities@.contains_key(c) <==> old(self).cell_entities@.contains_key(c)
                        && !marker_removed(previously_visible@, marker_cells@, c)
                &&& forall|c: usize|
                    #[trigger] final(self).cell_entities@.contains_key(c) ==> final(self).cell_entities@[c]
                        == old(self).cell_entities@[c]
                &&& plan matches MarkerPlan::Show { remove, spawn } && {
                    &&& remove@ == indices_where(
                        |j: int| !visible_cell(previously_visible@, marker_cells@[j] as int),
                        marker_cells@.len(),
                    )
                    &&& spawn@ == indices_where(
                        |i: int|
                            previously_visible@[i] && !final(self).cell_entities@.contains_key(
                                i as usize,
                            ),
                        SPATIALIZATION_TOTAL_CELLS as nat,
                    )
                }
            },
    {
        if !self.active {
            let despawn = if !self.cell_entities.is_empty() {
                self.take_all_markers()
            } else {
                assert(self.cell_entities@ =~= Map::<usize, E>::empty());
                let despawn: Vec<E> = Vec::new();
                proof {
                    let keys = Seq::<usize>::empty();
                    assert(keys.to_set() =~= self.cell_entities@.dom());
                    assert(despawn@ =~= keys.map_values(|k: usize| self.cell_entities@[k]));
                }
                despawn
            };
            return MarkerPlan::Hide { despawn };
        }
        let ghost vis = previously_visible@;
        let ghost markers = marker_cells@;
        let ghost gone = |j: int| !visible_cell(vis, markers[j] as int);

        // Markers whose cell is no longer visible.
        let mut remove: Vec<usize> = Vec::new();
        let mut j: usize = 0;
        while j < marker_cells.len()
            invariant
                vis == previously_visible@,
                vis.len() >= SPATIALIZATION_TOTAL_CELLS,
                markers == marker_cells@,
                gone == (|j: int| !visible_cell(vis, markers[j] as int)),
                j <= markers.len(),
                remove@ == indices_where(gone, j as nat),
            decreases markers.len() - j,
        {
            let cell = marker_cells[j];
            if !(cell < SPATIALIZATION_TOTAL_CELLS && previously_visible[cell]) {
                remove.push(j);
            }
            j = j + 1;
        }
        proof {
            crate::schedule::lemma_indices_where(gone, markers.len());
        }

        let ghost before = self.cell_entities@;
        let mut n: usize = 0;
        while n < remove.len()
            invariant
                vis == previously_visible@,
                markers == marker_cells@,
                gone == (|j: int| !visible_cell(vis, markers[j] as int)),
                remove@ == indices_where(gone, markers.len()),
                forall|t: int| 0 <= t < remove@.len() ==> #[trigger] remove@[t] < markers.len(),
                n <= remove@.len(),
                forall|c: usize|
                    #[trigger] self.cell_entities@.contains_key(c) <==> before.contains_key(c) && !(exists|t: int|
                        0 <= t < n && markers[#[trigger] remove@[t] as int] == c),
                forall|c: usize|
                    #[trigger] self.cell_entities@.contains_key(c) ==> self.cell_entities@[c] == before[c],
                self.active == old(self).active,
            decreases remove@.len() - n,
        {
            let cell = marker_cells[remove[n]];
            self.cell_entities.remove(&cell);
            assert forall|c: usize|
                #[trigger] self.cell_entities@.contains_key(c) <==> before.contains_key(c) && !(exists|t: int|
                    0 <= t < n + 1 && markers[#[trigger] remove@[t] as int] == c) by {
                if c == cell {
                    assert(markers[remove@[n as int] as int] == c);
                }
            }
            n = n + 1;
        }
        assert forall|c: usize|
            #[trigger] self.cell_entities@.contains_key(c) <==> before.contains_key(c)
                && !marker_removed(vis, markers, c) by {
            if marker_removed(vis, markers, c) {
                let j = choose|j: int| 0 <= j < markers.len() && markers[j] == c;
                assert(gone(j));
                assert(remove@.contains(j as usize));
                let t = choose|t: int| 0 <= t < remove@.len() && remove@[t] == j as usize;
                assert(markers[remove@[t] as int] == c);
            }
            if exists|t: int| 0 <= t < remove@.len() && markers[#[trigger] remove@[t] as int] == c {
                let t = choose|t: int| 0 <= t < remove@.len() && markers[#[trigger] remove@[t] as int] == c;
                assert(gone(remove@[t] as int));
                assert(markers.contains(c));
            }
        }

        // Visible cells that have no marker yet.
        let ghost after = self.cell_entities@;
        let ghost needs = |i: int| vis[i] && !after.contains_key(i as usize);
        let mut spawn: Vec<usize> = Vec::new();
        let mut i: usize = 0;
        while i < SPATIALIZATION_TOTAL_CELLS
            invariant
                vis == previously_visible@,
                vis.len() >= SPATIALIZATION_TOTAL_CELLS,
                after == self.cell_entities@,
                needs == (|i: int| vis[i] && !after.contains_key(i as usize)),
                i <= SPATIALIZATION_TOTAL_CELLS,
                spawn@ == indices_where(needs, i as nat),
            decreases SPATIALIZATION_TOTAL_CELLS - i,
        {
            if previously_visible[i] {
                if !self.cell_entities.contains_key(&i) {
                    spawn.push(i);
                }
            }
            i = i + 1;
        }
        MarkerPlan::Show { remove, spawn }
    }
}

impl<E: Copy> Default for DebugVisualization<E> {
    fn default() -> (vis: Self)
        ensures
            vis.active,
            vis.cell_entities@ == Map::<usize, E>::empty(),
    {
        DebugVisualization::new()
    }
}

} // verus!
