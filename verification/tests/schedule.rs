use crowdsim::config::SPATIALIZATION_TOTAL_CELLS;
use crowdsim::schedule::{SyncTracker, CELLS_PER_FRAME, SYNC_INTERVAL_OUTSIDE};
use crowdsim::spatial::SpatialGrid;

fn no_view() -> Vec<bool> {
    vec![false; SPATIALIZATION_TOTAL_CELLS]
}

#[test]
fn new_tracker_starts_at_frame_zero() {
    let t = SyncTracker::new();
    assert_eq!(t.current_frame, 0);
    assert_eq!(t.cell_last_sync.len(), SPATIALIZATION_TOTAL_CELLS);
    assert!(t.cell_last_sync.iter().all(|f| *f == 0));
    assert!(t.previously_visible.iter().all(|v| !v));
    let d = SyncTracker::default();
    assert_eq!(d.current_frame, 0);
}

#[test]
fn empty_world_out_of_view_syncs_nothing() {
    let grid: SpatialGrid<u32> = SpatialGrid::new();
    let mut t = SyncTracker::new();
    let cells = t.rolling_sync_step(&grid, no_view());
    assert!(cells.is_empty());
    assert_eq!(t.current_frame, 1);
}

#[test]
fn out_of_view_cells_wait_for_the_interval_and_respect_the_limit() {
    let mut grid: SpatialGrid<u32> = SpatialGrid::new();
    for (i, x) in [0isize, 5, 10, 15, 20, 25, 30].iter().enumerate() {
        grid.add_entity(i as u32, *x, 0);
    }
    let mut t = SyncTracker::new();
    // Frames 1..3: not enough frames since the (initial) sync at frame 0.
    for _ in 1..SYNC_INTERVAL_OUTSIDE {
        assert!(t.rolling_sync_step(&grid, no_view()).is_empty());
    }
    // Frame 4: the first five occupied cells are due.
    let cells = t.rolling_sync_step(&grid, no_view());
    assert_eq!(t.current_frame, 4);
    assert_eq!(cells, vec![0, 5, 10, 15, 20]);
    assert_eq!(cells.len(), CELLS_PER_FRAME);
    assert_eq!(t.cell_last_sync[0], 4);
    assert_eq!(t.cell_last_sync[25], 0);
    // Frame 5: the remaining occupied cells.
    let cells = t.rolling_sync_step(&grid, no_view());
    assert_eq!(cells, vec![25, 30]);
    assert_eq!(t.cell_last_sync[30], 5);
}

#[test]
fn visible_cells_are_always_synced_even_beyond_the_limit() {
    let mut grid: SpatialGrid<u32> = SpatialGrid::new();
    grid.add_entity(1, 40, 40);
    let mut t = SyncTracker::new();
    let mut view = no_view();
    for c in 100..108 {
        view[c] = true;
    }
    let cells = t.rolling_sync_step(&grid, view.clone());
    assert_eq!(cells, (100..108).collect::<Vec<usize>>());
    assert_eq!(t.previously_visible, view);
    // Visible again next frame, although synced one frame ago.
    let cells = t.rolling_sync_step(&grid, view.clone());
    assert_eq!(cells, (100..108).collect::<Vec<usize>>());
    assert!(cells.iter().all(|c| t.cell_last_sync[*c] == 2));
}

#[test]
fn visible_cells_come_first_then_due_cells_out_of_view() {
    let mut grid: SpatialGrid<u32> = SpatialGrid::new();
    grid.add_entity(1, 0, 0);
    grid.add_entity(2, 1, 0);
    grid.add_entity(3, 2, 0);
    grid.add_entity(4, 3, 0);
    let mut t = SyncTracker::new();
    t.current_frame = 10;
    let mut view = no_view();
    view[2] = true;
    view[2000] = true;
    let cells = t.rolling_sync_step(&grid, view);
    // Cell 2 is in view; cells 0, 1 and 3 are occupied and due.
    assert_eq!(cells, vec![2, 2000, 0, 1, 3]);
    assert_eq!(t.current_frame, 11);
    assert!(cells.iter().all(|c| t.cell_last_sync[*c] == 11));
    assert_eq!(t.cell_last_sync[4], 0);
}
