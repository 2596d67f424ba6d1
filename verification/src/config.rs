use vstd::prelude::*;

verus! {

/// Number of grid cells along each axis of the square arena.
pub const SPATIALIZATION_GRID_CELLS_PER_AXIS: usize = 50;

/// Total number of grid cells.
pub const SPATIALIZATION_TOTAL_CELLS: usize = 2500;

/// Upper bound on the number of neighbours returned by a proximity query.
pub const SPATIALIZATION_MAX_NEIGHBORS: usize = 200;

/// Number of simulated people.
pub const PERSON_COUNT: usize = 5000;

/// Every how many frames the crowd systems skip a frame; `None` runs them
/// every frame.
pub const SIMULATION_COMPUTE_EVERY_N_FRAMES: Option<u32> = None;

} // verus!
