# crowdsim

The verified core of a networked crowd simulation: a server simulates a crowd
of people walking to random goals and replicates their state to clients, a
few grid cells at a time.

`src/` is the library, verified with Verus:

- `config` — grid size, neighbour limit, crowd size.
- `spatial` — the uniform grid that buckets people into cells, cell
  indexing, proximity queries over the 3x3 block of cells around a position,
  and refilling the grid every tick.
- `schedule` — the server's rolling replication schedule: which cells are
  synchronized in each frame.
- `state` — the replicated components of a person, with positions and
  velocities quantized to hundredths and single-precision scalars carried as
  bit patterns.
- `sync` — building a person's state update on the server and applying it
  on a client, with the laws that keep the two in step.
- `markers` — the server's debug overlay of visible cells.
- `simulation` — frame skipping, collision chunks and fly-camera key input.

`app/` is the program around it: the Bevy application, its systems, the
floating-point physics and rendering, networking and the command line.
