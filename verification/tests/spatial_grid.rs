use crowdsim::config::{SPATIALIZATION_MAX_NEIGHBORS, SPATIALIZATION_TOTAL_CELLS};
use crowdsim::spatial::{cell_coordinates, persons_to_refresh, update_spatial_grid, SpatialGrid};

#[test]
fn new_grid_is_empty() {
    let grid: SpatialGrid<u32> = SpatialGrid::new();
    assert_eq!(grid.cells.len(), SPATIALIZATION_TOTAL_CELLS);
    assert_eq!(grid.dirty_cells.len(), SPATIALIZATION_TOTAL_CELLS);
    assert!(grid.cells.iter().all(|c| c.is_empty()));
    assert!(grid.dirty_cells.iter().all(|d| !d));
    assert!(grid.nearby_cache.is_empty());
}

#[test]
fn default_grid_matches_new() {
    let grid: SpatialGrid<u32> = SpatialGrid::default();
    assert_eq!(grid.cells.len(), SPATIALIZATION_TOTAL_CELLS);
    assert!(grid.cells.iter().all(|c| c.is_empty()));
}

#[test]
fn cell_index_inside_grid() {
    let grid: SpatialGrid<u32> = SpatialGrid::new();
    assert_eq!(grid.position_to_cell_index(0, 0), Some(0));
    assert_eq!(grid.position_to_cell_index(3, 2), Some(103));
    assert_eq!(grid.position_to_cell_index(49, 49), Some(2499));
    assert_eq!(grid.position_to_cell_index(49, 0), Some(49));
}

#[test]
fn cell_index_outside_grid() {
    let grid: SpatialGrid<u32> = SpatialGrid::new();
    assert_eq!(grid.position_to_cell_index(-1, 0), None);
    assert_eq!(grid.position_to_cell_index(0, -1), None);
    assert_eq!(grid.position_to_cell_index(50, 0), None);
    assert_eq!(grid.position_to_cell_index(0, 50), None);
    assert_eq!(grid.position_to_cell_index(isize::MIN, isize::MAX), None);
}

#[test]
fn cell_coordinates_round_trip() {
    let grid: SpatialGrid<u32> = SpatialGrid::new();
    assert_eq!(cell_coordinates(103), (3, 2));
    assert_eq!(cell_coordinates(2499), (49, 49));
    for index in [0usize, 1, 49, 50, 1234, 2499] {
        let (x, z) = cell_coordinates(index);
        assert_eq!(grid.position_to_cell_index(x as isize, z as isize), Some(index));
    }
}

#[test]
fn add_entity_appends_to_its_cell() {
    let mut grid: SpatialGrid<u32> = SpatialGrid::new();
    grid.add_entity(7, 3, 2);
    grid.add_entity(8, 3, 2);
    grid.add_entity(9, 0, 0);
    assert_eq!(grid.cells[103], vec![7, 8]);
    assert_eq!(grid.cells[0], vec![9]);
    assert_eq!(grid.cells.iter().map(|c| c.len()).sum::<usize>(), 3);
}

#[test]
fn add_entity_outside_grid_is_dropped() {
    let mut grid: SpatialGrid<u32> = SpatialGrid::new();
    grid.add_entity(1, 50, 0);
    grid.add_entity(2, -1, 3);
    assert!(grid.cells.iter().all(|c| c.is_empty()));
}

#[test]
fn clear_empties_every_cell() {
    let mut grid: SpatialGrid<u32> = SpatialGrid::new();
    grid.add_entity(1, 1, 1);
    grid.add_entity(2, 40, 20);
    grid.mark_cell_dirty(1, 1);
    grid.clear();
    assert!(grid.cells.iter().all(|c| c.is_empty()));
    assert_eq!(grid.cells.len(), SPATIALIZATION_TOTAL_CELLS);
    assert!(grid.dirty_cells[51]);
}

#[test]
fn mark_cell_dirty_sets_one_flag() {
    let mut grid: SpatialGrid<u32> = SpatialGrid::new();
    grid.mark_cell_dirty(4, 1);
    grid.mark_cell_dirty(-4, 1);
    assert!(grid.dirty_cells[54]);
    assert_eq!(grid.dirty_cells.iter().filter(|d| **d).count(), 1);
}

#[test]
fn nearby_collects_the_three_by_three_block_in_row_order() {
    let mut grid: SpatialGrid<u32> = SpatialGrid::new();
    // Centre cell (10, 10); neighbours one cell away in every direction.
    grid.add_entity(100, 10, 10);
    grid.add_entity(1, 9, 9);
    grid.add_entity(2, 10, 9);
    grid.add_entity(3, 11, 9);
    grid.add_entity(4, 9, 10);
    grid.add_entity(6, 11, 10);
    grid.add_entity(7, 9, 11);
    grid.add_entity(8, 10, 11);
    grid.add_entity(9, 11, 11);
    // Two cells away: not a neighbour.
    grid.add_entity(55, 12, 10);
    let nearby = grid.get_nearby_entities(10, 10).to_vec();
    assert_eq!(nearby, vec![1, 2, 3, 4, 100, 6, 7, 8, 9]);
}

#[test]
fn nearby_at_corner_skips_cells_off_the_grid() {
    let mut grid: SpatialGrid<u32> = SpatialGrid::new();
    grid.add_entity(1, 0, 0);
    grid.add_entity(2, 1, 0);
    grid.add_entity(3, 0, 1);
    grid.add_entity(4, 1, 1);
    grid.add_entity(5, 49, 0);
    let nearby = grid.get_nearby_entities(0, 0).to_vec();
    assert_eq!(nearby, vec![1, 2, 3, 4]);
}

#[test]
fn nearby_outside_grid_is_empty() {
    let mut grid: SpatialGrid<u32> = SpatialGrid::new();
    grid.add_entity(1, 0, 0);
    assert!(grid.get_nearby_entities(-1, 0).is_empty());
    assert!(grid.get_nearby_entities(0, 50).is_empty());
}

#[test]
fn nearby_stops_at_the_neighbour_limit() {
    let mut grid: SpatialGrid<u32> = SpatialGrid::new();
    for i in 0..150u32 {
        grid.add_entity(i, 4, 4);
    }
    for i in 1000..1150u32 {
        grid.add_entity(i, 5, 4);
    }
    let nearby = grid.get_nearby_entities(5, 5).to_vec();
    assert_eq!(nearby.len(), SPATIALIZATION_MAX_NEIGHBORS);
    let expected: Vec<u32> = (0..150u32).chain(1000..1050u32).collect();
    assert_eq!(nearby, expected);
}

#[test]
fn nearby_replaces_the_previous_result() {
    let mut grid: SpatialGrid<u32> = SpatialGrid::new();
    grid.add_entity(1, 0, 0);
    grid.add_entity(2, 30, 30);
    assert_eq!(grid.get_nearby_entities(0, 0).to_vec(), vec![1]);
    assert_eq!(grid.get_nearby_entities(30, 30).to_vec(), vec![2]);
}

#[test]
fn update_spatial_grid_buckets_every_person() {
    let mut grid: SpatialGrid<u32> = SpatialGrid::new();
    grid.add_entity(99, 7, 7);
    let people = vec![(1u32, 0isize, 0isize), (2, 3, 2), (3, 0, 0), (4, 60, 0), (5, 3, 2)];
    update_spatial_grid(&mut grid, &people);
    assert_eq!(grid.cells[0], vec![1, 3]);
    assert_eq!(grid.cells[103], vec![2, 5]);
    assert!(grid.cells[7 * 50 + 7].is_empty());
    assert_eq!(grid.cells.iter().map(|c| c.len()).sum::<usize>(), 4);
}

#[test]
fn refilled_grid_query_finds_people_in_neighbouring_cells() {
    let mut grid: SpatialGrid<u32> = SpatialGrid::new();
    let people = vec![(1u32, 20isize, 20isize), (2, 21, 19), (3, 22, 20), (4, 19, 21)];
    update_spatial_grid(&mut grid, &people);
    let mut nearby = grid.get_nearby_entities(20, 20).to_vec();
    nearby.sort();
    assert_eq!(nearby, vec![1, 2, 4]);
    let mut nearby = grid.get_nearby_entities(21, 20).to_vec();
    nearby.sort();
    assert_eq!(nearby, vec![1, 2, 3]);
}

#[test]
fn persons_to_refresh_lists_cells_in_order() {
    let mut grid: SpatialGrid<u32> = SpatialGrid::new();
    grid.add_entity(1, 0, 0);
    grid.add_entity(2, 0, 0);
    grid.add_entity(3, 5, 0);
    grid.add_entity(4, 9, 9);
    assert_eq!(persons_to_refresh(&grid, &vec![5, 0, 1]), vec![3, 1, 2]);
    assert!(persons_to_refresh(&grid, &vec![]).is_empty());
    assert_eq!(persons_to_refresh(&grid, &vec![459]), vec![4]);
}
