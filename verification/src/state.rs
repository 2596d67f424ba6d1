use vstd::prelude::*;

verus! {

/// A horizontal vector quantized to hundredths of a unit: `x` is the east-west
/// component and `y` the north-south one (the `z` axis of the world).
#[derive(Clone, Copy, Debug, PartialEq, Eq, Structural)]
pub struct QuantizedVec2 {
    pub x: i16,
    pub y: i16,
}

impl QuantizedVec2 {
    /// The zero vector.
    pub fn zero() -> (v: Self)
        ensures
            v.x == 0 && v.y == 0,
    {
        QuantizedVec2 { x: 0, y: 0 }
    }
}

/// The IEEE-754 bit pattern of a single-precision scalar (a rotation angle, a
/// density or a pressure). The library only stores, compares and copies such
/// values; it never does arithmetic on them.
#[derive(Clone, Copy, Debug, PartialEq, Eq, Structural)]
pub struct FloatBits(pub u32);

/// Current velocity of a person, followed by the velocity it had before the
/// last update.
#[derive(Clone, Copy, Debug, PartialEq, Eq, Structural)]
pub struct PersonVelocity(pub QuantizedVec2, pub QuantizedVec2);

/// The point a person is walking towards.
#[derive(Clone, Copy, Debug, PartialEq, Eq, Structural)]
pub struct PersonGoalPosition(pub QuantizedVec2);

/// Local crowd density around a person.
#[derive(Clone, Copy, Debug, PartialEq, Eq, Structural)]
pub struct PersonDensity(pub FloatBits);

/// Pressure that pushes a person away from dense areas.
#[derive(Clone, Copy, Debug, PartialEq, Eq, Structural)]
pub struct PersonPressure(pub FloatBits);

/// Sequence number of the last state update a client applied to a person.
#[derive(Clone, Copy, Debug, PartialEq, Eq, Structural)]
pub struct PersonStateSyncPointLastReceived(pub u32);

/// The replicated state of one person, as the server sees it at one moment.
#[derive(Clone, Copy, Debug, PartialEq, Eq, Structural)]
pub struct PersonState {
    pub position: QuantizedVec2,
    pub rotation: FloatBits,
    pub velocity: QuantizedVec2,
    pub density: FloatBits,
    pub pressure: FloatBits,
    pub goal_position: QuantizedVec2,
}

/// The state a person is spawned with on every peer.
#[derive(Clone, Copy, Debug, PartialEq, Eq, Structural)]
pub struct PersonInitialStateSyncPoint {
    pub position: QuantizedVec2,
    pub rotation: FloatBits,
    pub velocity: QuantizedVec2,
    pub density: FloatBits,
    pub pressure: FloatBits,
    pub goal_position: QuantizedVec2,
}

/// A numbered state update for one person, sent from the server to the
/// clients. A field is `Some` when the update carries it.
#[derive(Clone, Copy, Debug, PartialEq, Eq, Structural)]
pub struct PersonStateSyncPoint {
    pub seq_num: u32,
    pub position: Option<QuantizedVec2>,
    pub rotation: Option<FloatBits>,
    pub velocity: Option<QuantizedVec2>,
    pub density: Option<FloatBits>,
    pub pressure: Option<FloatBits>,
    pub goal_position: Option<QuantizedVec2>,
}

/// The state of a person the server last put into its sync point.
#[derive(Clone, Copy, Debug, PartialEq, Eq, Structural)]
pub struct ServerPersonLastState(pub PersonState);

} // verus!
