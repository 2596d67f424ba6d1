use vstd::prelude::*;

use crate::state::{
    FloatBits, PersonDensity, PersonInitialStateSyncPoint, PersonPressure, PersonState,
    PersonStateSyncPoint, PersonStateSyncPointLastReceived, PersonVelocity, QuantizedVec2,
    ServerPersonLastState,
};

verus! {

/// Whether the server sends every field of a synchronized person rather than
/// only the fields that changed: a client may not hold the state a partial
/// update would build on, so updates are always sent in full.
pub const FORCE_UPDATE: bool = true;

/// What a refreshed sync point carries for one field: the new value when an
/// update is forced or the value changed, nothing otherwise. Rotation, density
/// and pressure are compared by bit pattern, so a change between +0.0 and -0.0
/// counts as a change and an unchanged NaN does not, unlike `f32` `!=`; this
/// matters only for updates that are not forced, and `FORCE_UPDATE` forces
/// every update.
pub open spec fn field_update<V>(force_update: bool, new_value: V, last_value: V) -> Option<V> {
    if force_update || new_value != last_value {
        Some(new_value)
    } else {
        None
    }
}

/// Whether a sync point carries at least one field.
pub open spec fn carries_any(sync_point: PersonStateSyncPoint) -> bool {
    ||| sync_point.position is Some
    ||| sync_point.rotation is Some
    ||| sync_point.velocity is Some
    ||| sync_point.density is Some
    ||| sync_point.pressure is Some
    ||| sync_point.goal_position is Some
}

/// The fields of a refreshed sync point, before its sequence number is bumped.
pub open spec fn refreshed_fields(
    sync_point: PersonStateSyncPoint,
    last: PersonState,
    current: PersonState,
    force_update: bool,
) -> PersonStateSyncPoint {
    PersonStateSyncPoint {
        seq_num: sync_point.seq_num,
        position: field_update(force_update, current.position, last.position),
        rotation: field_update(force_update, current.rotation, last.rotation),
        velocity: field_update(force_update, current.velocity, last.velocity),
        density: field_update(force_update, current.density, last.density),
        pressure: field_update(force_update, current.pressure, last.pressure),
        goal_position: field_update(force_update, current.goal_position, last.goal_position),
    }
}

/// The refreshed sync point: the fields that changed since `last` (all of
/// them when the update is forced), with the sequence number bumped by one
/// whenever it carries anything.
pub open spec fn spec_refresh(
    sync_point: PersonStateSyncPoint,
    last: PersonState,
    current: PersonState,
    force_update: bool,
) -> PersonStateSyncPoint {
    let fields = refreshed_fields(sync_point, last, current, force_update);
    PersonStateSyncPoint {
        seq_num: if carries_any(fields) {
            (sync_point.seq_num + 1) as u32
        } else {
            sync_point.seq_num
        },
        ..fields
    }
}

/// Whether refreshing would bump the sequence number.
pub open spec fn refresh_bumps(
    sync_point: PersonStateSyncPoint,
    last: PersonState,
    current: PersonState,
    force_update: bool,
) -> bool {
    carries_any(refreshed_fields(sync_point, last, current, force_update))
}

/// Server side: fills `sync_point` with the state of a person in a cell that
/// is being synchronized this frame, and records that state as the last one
/// sent. Without `force_update`, scalar fields count as changed when their bit
/// patterns differ (see `field_update`).
pub fn refresh_sync_point(
    sync_point: &mut PersonStateSyncPoint,
    last_state: &mut ServerPersonLastState,
    current: PersonState,
    force_update: bool,
)
    requires
        refresh_bumps(*old(sync_point), old(last_state).0, current, force_update) ==> old(
            sync_point,
        ).seq_num < u32::MAX,
    ensures
        *final(sync_point) == spec_refresh(*old(sync_point), old(last_state).0, current, force_update),
        final(last_state).0 == current,
{
    let last = last_state.0;
    if force_update || current.position != last.position {
        sync_point.position = Some(current.position);
    } else {
        sync_point.position = None;
    }
    if force_update || current.rotation != last.rotation {
        sync_point.rotation = Some(current.rotation);
    } else {
        sync_point.rotation = None;
    }
    if force_update || current.velocity != last.velocity {
        sync_point.velocity = Some(current.velocity);
    } else {
        sync_point.velocity = None;
    }
    if force_update || current.density != last.density {
        sync_point.density = Some(current.density);
    } else {
        sync_point.density = None;
    }
    if force_update || current.pressure != last.pressure {
        sync_point.pressure = Some(current.pressure);
    } else {
        sync_point.pressure = None;
    }
    if force_update || current.goal_position != last.goal_position {
        sync_point.goal_position = Some(current.goal_position);
    } else {
        sync_point.goal_position = None;
    }
    last_state.0 = current;
    if sync_point.position.is_some() || sync_point.rotation.is_some()
        || sync_point.velocity.is_some() || sync_point.density.is_some()
        || sync_point.pressure.is_some() || sync_point.goal_position.is_some() {
        sync_point.seq_num = sync_point.seq_num + 1;
    }
}

/// The sync point a person is spawned with on the server: sequence number 1,
/// carrying nothing.
pub fn initial_sync_point() -> (sync_point: PersonStateSyncPoint)
    ensures
        sync_point.seq_num == 1,
        !carries_any(sync_point),
{
    PersonStateSyncPoint {
        seq_num: 1,
        position: None,
        rotation: None,
        velocity: None,
        density: None,
        pressure: None,
        goal_position: None,
    }
}

/// The state the server records as last sent when it spawns a person: every
/// field zero.
pub fn initial_server_last_state() -> (last: ServerPersonLastState)
    ensures
        last.0.position == (QuantizedVec2 { x: 0, y: 0 }),
        last.0.rotation == FloatBits(0),
        last.0.velocity == (QuantizedVec2 { x: 0, y: 0 }),
        last.0.density == FloatBits(0),
        last.0.pressure == FloatBits(0),
        last.0.goal_position == (QuantizedVec2 { x: 0, y: 0 }),
{
    ServerPersonLastState(
        PersonState {
            position: QuantizedVec2::zero(),
            rotation: FloatBits(0),
            velocity: QuantizedVec2::zero(),
            density: FloatBits(0),
            pressure: FloatBits(0),
            goal_position: QuantizedVec2::zero(),
        },
    )
}

/// The part of a client's copy of a person that replicated updates write.
#[derive(Clone, Copy, Debug, PartialEq, Eq, Structural)]
pub struct ReceiverState {
    pub velocity: PersonVelocity,
    pub density: PersonDensity,
    pub pressure: PersonPressure,
    pub last_received: PersonStateSyncPointLastReceived,
}

/// The transform changes a received update asks for: a new position and a
/// new rotation, each when the update carries it.
#[derive(Clone, Copy, Debug, PartialEq, Eq, Structural)]
pub struct TransformUpdate {
    pub position: Option<QuantizedVec2>,
    pub rotation: Option<FloatBits>,
}

/// Whether a client that last applied update `last_received` applies
/// `sync_point`: only updates newer than the last one applied are taken.
pub open spec fn accepts(
    sync_point: PersonStateSyncPoint,
    last_received: PersonStateSyncPointLastReceived,
) -> bool {
    sync_point.seq_num > last_received.0
}

/// A client's copy of a person after it is handed `sync_point`, with the
/// transform change to make: a newer update overwrites each field it carries
/// (the previous velocity keeps the velocity it replaces) and becomes the last
/// one applied; an update that is not newer changes nothing.
pub open spec fn spec_receive(sync_point: PersonStateSyncPoint, state: ReceiverState) -> (
    ReceiverState,
    Option<TransformUpdate>,
) {
    if !accepts(sync_point, state.last_received) {
        (state, None)
    } else {
        (
            ReceiverState {
                velocity: match sync_point.velocity {
                    Some(v) => PersonVelocity(v, state.velocity.0),
                    None => state.velocity,
                },
                density: match sync_point.density {
                    Some(d) => PersonDensity(d),
                    None => state.density,
                },
                pressure: match sync_point.pressure {
                    Some(p) => PersonPressure(p),
                    None => state.pressure,
                },
                last_received: PersonStateSyncPointLastReceived(sync_point.seq_num),
            },
            Some(TransformUpdate { position: sync_point.position, rotation: sync_point.rotation }),
        )
    }
}

/// Client side: applies a replicated sync point to the local copy of a
/// person. Returns the transform change to make, or `None` when the update is
/// not newer than the last one applied.
pub fn receive_person_state_sync_point(
    sync_point: &PersonStateSyncPoint,
    velocity: &mut PersonVelocity,
    density: &mut PersonDensity,
    pressure: &mut PersonPressure,
    last_received: &mut PersonStateSyncPointLastReceived,
) -> (update: Option<TransformUpdate>)
    ensures
        (
            ReceiverState {
                velocity: *final(velocity),
                density: *final(density),
                pressure: *final(pressure),
                last_received: *final(last_received),
            },
            update,
        ) == spec_receive(
            *sync_point,
            ReceiverState {
                velocity: *old(velocity),
                density: *old(density),
                pressure: *old(pressure),
                last_received: *old(last_received),
            },
        ),
{
    if sync_point.seq_num <= last_received.0 {
        return None;
    }
    if let Some(v) = sync_point.velocity {
        velocity.1 = velocity.0;
        velocity.0 = v;
    }
    if let Some(d) = sync_point.density {
        density.0 = d;
    }
    if let Some(p) = sync_point.pressure {
        pressure.0 = p;
    }
    last_received.0 = sync_point.seq_num;
    Some(TransformUpdate { position: sync_point.position, rotation: sync_point.rotation })
}

/// The components a peer gives a person it sees spawn, taken from the
/// person's initial state: its density and pressure, its velocity (also as the
/// previous one), and no update applied yet.
pub fn client_spawn_state(initial: &PersonInitialStateSyncPoint) -> (state: ReceiverState)
    ensures
        state.density == PersonDensity(initial.density),
        state.pressure == PersonPressure(initial.pressure),
        state.velocity == PersonVelocity(initial.velocity, initial.velocity),
        state.last_received == PersonStateSyncPointLastReceived(0),
{
    ReceiverState {
        velocity: PersonVelocity(initial.velocity, initial.velocity),
        density: PersonDensity(initial.density),
        pressure: PersonPressure(initial.pressure),
        last_received: PersonStateSyncPointLastReceived(0),
    }
}

/// A sync point is applied at most once: handing a client the same update a
/// second time changes nothing and asks for no transform change.
pub proof fn lemma_receive_exactly_once(sync_point: PersonStateSyncPoint, state: ReceiverState)
    ensures
        spec_receive(sync_point, spec_receive(sync_point, state).0).0 == spec_receive(sync_point, state).0,
        spec_receive(sync_point, spec_receive(sync_point, state).0).1 is None,
{
}

/// The last update a client applied never goes back: after any update it is
/// the larger of the one before and the update's own number.
pub proof fn lemma_last_received_monotone(sync_point: PersonStateSyncPoint, state: ReceiverState)
    ensures
        spec_receive(sync_point, state).0.last_received.0 >= state.last_received.0,
        spec_receive(sync_point, state).0.last_received.0 >= sync_point.seq_num,
        spec_receive(sync_point, state).0.last_received.0 == state.last_received.0
            || spec_receive(sync_point, state).0.last_received.0 == sync_point.seq_num,
{
}

/// Refreshing never lowers the sequence number; it raises it by exactly one
/// when the refreshed sync point carries something, and always when the
/// update is forced.
pub proof fn lemma_refresh_sequence(
    sync_point: PersonStateSyncPoint,
    last: PersonState,
    current: PersonState,
    force_update: bool,
)
    requires
        sync_point.seq_num < u32::MAX,
    ensures
        spec_refresh(sync_point, last, current, force_update).seq_num == if refresh_bumps(
            sync_point,
            last,
            current,
            force_update,
        ) {
            sync_point.seq_num + 1
        } else {
            sync_point.seq_num as int
        },
        force_update ==> spec_refresh(sync_point, last, current, force_update).seq_num
            == sync_point.seq_num + 1,
        !force_update && current == last ==> spec_refresh(sync_point, last, current, force_update)
            == (PersonStateSyncPoint {
            position: None,
            rotation: None,
            velocity: None,
            density: None,
            pressure: None,
            goal_position: None,
            ..sync_point
        }),
{
}

/// A client that holds the state the server last sent, and has applied the
/// server's previous sync point, holds the server's current state after it
/// receives the refreshed sync point, forced or not: its velocity, density
/// and pressure are the current ones, and the transform change it is asked
/// for sets the current position and rotation, or leaves one that has not
/// changed.
pub proof fn lemma_refresh_then_receive_in_sync(
    sync_point: PersonStateSyncPoint,
    last: PersonState,
    current: PersonState,
    force_update: bool,
    client: ReceiverState,
)
    requires
        sync_point.seq_num < u32::MAX,
        client.last_received.0 == sync_point.seq_num,
        client.velocity.0 == last.velocity,
        client.density.0 == last.density,
        client.pressure.0 == last.pressure,
    ensures
        ({
            let sent = spec_refresh(sync_point, last, current, force_update);
            let (after, update) = spec_receive(sent, client);
            &&& after.velocity.0 == current.velocity
            &&& after.density.0 == current.density
            &&& after.pressure.0 == current.pressure
            &&& after.last_received.0 == sent.seq_num
            &&& match update {
                Some(u) => {
                    &&& (u.position == Some(current.position) || (u.position is None
                        && current.position == last.position))
                    &&& (u.rotation == Some(current.rotation) || (u.rotation is None
                        && current.rotation == last.rotation))
                },
                None => current.position == last.position && current.rotation == last.rotation,
            }
        }),
{
}

/// A forced refresh delivers the server's whole current state to any client
/// that has not yet applied an update newer than the previous one.
pub proof fn lemma_forced_refresh_delivers(
    sync_point: PersonStateSyncPoint,
    last: PersonState,
    current: PersonState,
    client: ReceiverState,
)
    requires
        sync_point.seq_num < u32::MAX,
        client.last_received.0 <= sync_point.seq_num,
    ensures
        ({
            let sent = spec_refresh(sync_point, last, current, true);
            let (after, update) = spec_receive(sent, client);
            &&& sent.seq_num == sync_point.seq_num + 1
            &&& after.velocity == PersonVelocity(current.velocity, client.velocity.0)
            &&& after.density == PersonDensity(current.density)
            &&& after.pressure == PersonPressure(current.pressure)
            &&& after.last_received.0 == sent.seq_num
            &&& update == Some(
                TransformUpdate {
                    position: Some(current.position),
                    rotation: Some(current.rotation),
                },
            )
        }),
{
}

/// What a refresh sends, field by field: a forced refresh carries every
/// field of the current state and bumps the sequence number; an unforced one
/// carries a field exactly when it differs from the state last sent, and
/// otherwise carries nothing for it.
pub proof fn lemma_refresh_fields(
    sync_point: PersonStateSyncPoint,
    last: PersonState,
    current: PersonState,
    force_update: bool,
)
    ensures
        force_update && sync_point.seq_num < u32::MAX ==> spec_refresh(
            sync_point,
            last,
            current,
            force_update,
        ) == (PersonStateSyncPoint {
            seq_num: (sync_point.seq_num + 1) as u32,
            position: Some(current.position),
            rotation: Some(current.rotation),
            velocity: Some(current.velocity),
            density: Some(current.density),
            pressure: Some(current.pressure),
            goal_position: Some(current.goal_position),
        }),
        ({
            let sent = spec_refresh(sync_point, last, current, force_update);
            &&& (sent.position == Some(current.position) <==> force_update || current.position
                != last.position)
            &&& (sent.position is None <==> !force_update && current.position == last.position)
            &&& (sent.rotation == Some(current.rotation) <==> force_update || current.rotation
                != last.rotation)
            &&& (sent.rotation is None <==> !force_update && current.rotation == last.rotation)
            &&& (sent.velocity == Some(current.velocity) <==> force_update || current.velocity
                != last.velocity)
            &&& (sent.velocity is None <==> !force_update && current.velocity == last.velocity)
            &&& (sent.density == Some(current.density) <==> force_update || current.density
                != last.density)
            &&& (sent.density is None <==> !force_update && current.density == last.density)
            &&& (sent.pressure == Some(current.pressure) <==> force_update || current.pressure
                != last.pressure)
            &&& (sent.pressure is None <==> !force_update && current.pressure == last.pressure)
            &&& (sent.goal_position == Some(current.goal_position) <==> force_update
                || current.goal_position != last.goal_position)
            &&& (sent.goal_position is None <==> !force_update && current.goal_position
                == last.goal_position)
        }),
{
}

/// What a client keeps of an update, component by component: a newer update
/// replaces the velocity (keeping the replaced one as the previous velocity),
/// the density and the pressure only when it carries them, and leaves each
/// component it does not carry exactly as it was; an update that is not
/// newer leaves everything as it was.
pub proof fn lemma_receive_components(sync_point: PersonStateSyncPoint, state: ReceiverState)
    ensures
        ({
            let after = spec_receive(sync_point, state).0;
            &&& sync_point.velocity is None ==> after.velocity == state.velocity
            &&& sync_point.density is None ==> after.density == state.density
            &&& sync_point.pressure is None ==> after.pressure == state.pressure
            &&& sync_point.seq_num <= state.last_received.0 ==> after == state
            &&& sync_point.seq_num > state.last_received.0 ==> {
                &&& after.last_received.0 == sync_point.seq_num
                &&& (sync_point.velocity matches Some(v) ==> after.velocity == PersonVelocity(
                    v,
                    state.velocity.0,
                ))
                &&& (sync_point.density matches Some(d) ==> after.density.0 == d)
                &&& (sync_point.pressure matches Some(p) ==> after.pressure.0 == p)
            }
        }),
{
}

} // verus!
