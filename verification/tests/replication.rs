use crowdsim::state::{
    FloatBits, PersonDensity, PersonInitialStateSyncPoint, PersonPressure, PersonState,
    PersonStateSyncPoint, PersonStateSyncPointLastReceived, PersonVelocity, QuantizedVec2,
    ServerPersonLastState,
};
use crowdsim::sync::{
    client_spawn_state, initial_server_last_state, initial_sync_point,
    receive_person_state_sync_point, refresh_sync_point, ReceiverState, TransformUpdate,
    FORCE_UPDATE,
};

fn q(x: i16, y: i16) -> QuantizedVec2 {
    QuantizedVec2 { x, y }
}

fn state(p: i16) -> PersonState {
    PersonState {
        position: q(p, p + 1),
        rotation: FloatBits(1.5f32.to_bits()),
        velocity: q(-p, 3),
        density: FloatBits(0.25f32.to_bits()),
        pressure: FloatBits(30.0f32.to_bits()),
        goal_position: q(-12500, -12500),
    }
}

fn receive(sp: &PersonStateSyncPoint, r: &mut ReceiverState) -> Option<TransformUpdate> {
    receive_person_state_sync_point(
        sp,
        &mut r.velocity,
        &mut r.density,
        &mut r.pressure,
        &mut r.last_received,
    )
}

#[test]
fn initial_sync_point_carries_nothing() {
    let sp = initial_sync_point();
    assert_eq!(sp.seq_num, 1);
    assert!(sp.position.is_none() && sp.rotation.is_none() && sp.velocity.is_none());
    assert!(sp.density.is_none() && sp.pressure.is_none() && sp.goal_position.is_none());
}

#[test]
fn initial_server_state_is_zero() {
    let last = initial_server_last_state();
    assert_eq!(last.0.position, QuantizedVec2::zero());
    assert_eq!(last.0.rotation, FloatBits(0.0f32.to_bits()));
    assert_eq!(last.0.density, FloatBits(0));
    assert_eq!(last.0.goal_position, q(0, 0));
}

#[test]
fn forced_refresh_sends_everything_and_bumps() {
    let mut sp = initial_sync_point();
    let mut last = initial_server_last_state();
    let current = state(5);
    refresh_sync_point(&mut sp, &mut last, current, FORCE_UPDATE);
    assert_eq!(sp.seq_num, 2);
    assert_eq!(sp.position, Some(current.position));
    assert_eq!(sp.rotation, Some(current.rotation));
    assert_eq!(sp.velocity, Some(current.velocity));
    assert_eq!(sp.density, Some(current.density));
    assert_eq!(sp.pressure, Some(current.pressure));
    assert_eq!(sp.goal_position, Some(current.goal_position));
    assert_eq!(last, ServerPersonLastState(current));
}

#[test]
fn forced_refresh_of_unchanged_state_still_bumps() {
    let mut sp = initial_sync_point();
    let mut last = ServerPersonLastState(state(5));
    refresh_sync_point(&mut sp, &mut last, state(5), true);
    assert_eq!(sp.seq_num, 2);
    assert_eq!(sp.position, Some(state(5).position));
}

#[test]
fn unforced_refresh_sends_only_changes() {
    let mut sp = initial_sync_point();
    let mut last = ServerPersonLastState(state(5));
    let mut current = state(5);
    current.velocity = q(9, 9);
    current.pressure = FloatBits(31.0f32.to_bits());
    refresh_sync_point(&mut sp, &mut last, current, false);
    assert_eq!(sp.seq_num, 2);
    assert_eq!(sp.position, None);
    assert_eq!(sp.rotation, None);
    assert_eq!(sp.velocity, Some(q(9, 9)));
    assert_eq!(sp.density, None);
    assert_eq!(sp.pressure, Some(FloatBits(31.0f32.to_bits())));
    assert_eq!(sp.goal_position, None);
    assert_eq!(last.0, current);
}

#[test]
fn unforced_refresh_without_change_keeps_sequence() {
    let mut sp = initial_sync_point();
    sp.seq_num = 41;
    sp.position = Some(q(1, 1));
    let mut last = ServerPersonLastState(state(2));
    refresh_sync_point(&mut sp, &mut last, state(2), false);
    assert_eq!(sp.seq_num, 41);
    assert_eq!(sp.position, None);
    assert_eq!(sp.velocity, None);
}

#[test]
fn client_spawn_state_from_initial() {
    let initial = PersonInitialStateSyncPoint {
        position: q(100, -200),
        rotation: FloatBits(0),
        velocity: q(-50, 75),
        density: FloatBits(2.0f32.to_bits()),
        pressure: FloatBits(0),
        goal_position: q(-12500, -12500),
    };
    let r = client_spawn_state(&initial);
    assert_eq!(r.velocity, PersonVelocity(q(-50, 75), q(-50, 75)));
    assert_eq!(r.density, PersonDensity(FloatBits(2.0f32.to_bits())));
    assert_eq!(r.pressure, PersonPressure(FloatBits(0)));
    assert_eq!(r.last_received, PersonStateSyncPointLastReceived(0));
}

#[test]
fn receive_newer_update_applies_it() {
    let mut r = ReceiverState {
        velocity: PersonVelocity(q(1, 1), q(0, 0)),
        density: PersonDensity(FloatBits(1)),
        pressure: PersonPressure(FloatBits(2)),
        last_received: PersonStateSyncPointLastReceived(3),
    };
    let sp = PersonStateSyncPoint {
        seq_num: 4,
        position: Some(q(10, 20)),
        rotation: None,
        velocity: Some(q(5, 6)),
        density: Some(FloatBits(7)),
        pressure: None,
        goal_position: Some(q(8, 8)),
    };
    let update = receive(&sp, &mut r);
    assert_eq!(update, Some(TransformUpdate { position: Some(q(10, 20)), rotation: None }));
    assert_eq!(r.velocity, PersonVelocity(q(5, 6), q(1, 1)));
    assert_eq!(r.density, PersonDensity(FloatBits(7)));
    assert_eq!(r.pressure, PersonPressure(FloatBits(2)));
    assert_eq!(r.last_received, PersonStateSyncPointLastReceived(4));
}

#[test]
fn receive_stale_or_repeated_update_is_ignored() {
    let before = ReceiverState {
        velocity: PersonVelocity(q(1, 1), q(0, 0)),
        density: PersonDensity(FloatBits(1)),
        pressure: PersonPressure(FloatBits(2)),
        last_received: PersonStateSyncPointLastReceived(9),
    };
    let mut r = before;
    let mut sp = initial_sync_point();
    sp.seq_num = 9;
    sp.velocity = Some(q(4, 4));
    assert_eq!(receive(&sp, &mut r), None);
    assert_eq!(r, before);
    sp.seq_num = 2;
    assert_eq!(receive(&sp, &mut r), None);
    assert_eq!(r, before);
}

#[test]
fn receive_twice_applies_once() {
    let mut r = client_spawn_state(&PersonInitialStateSyncPoint {
        position: q(0, 0),
        rotation: FloatBits(0),
        velocity: q(1, 2),
        density: FloatBits(0),
        pressure: FloatBits(0),
        goal_position: q(0, 0),
    });
    let mut sp = initial_sync_point();
    let mut last = initial_server_last_state();
    refresh_sync_point(&mut sp, &mut last, state(3), FORCE_UPDATE);
    assert!(receive(&sp, &mut r).is_some());
    let once = r;
    assert_eq!(receive(&sp, &mut r), None);
    assert_eq!(r, once);
}

#[test]
fn server_to_client_round_trip_keeps_client_in_sync() {
    // Server and client start from the spawned state.
    let initial = PersonInitialStateSyncPoint {
        position: q(0, 0),
        rotation: FloatBits(0),
        velocity: q(0, 0),
        density: FloatBits(0),
        pressure: FloatBits(0),
        goal_position: q(0, 0),
    };
    let mut client = client_spawn_state(&initial);
    let mut sp = initial_sync_point();
    let mut last = initial_server_last_state();
    // The initial sync point is newer than what the client has seen.
    assert_eq!(
        receive(&sp, &mut client),
        Some(TransformUpdate { position: None, rotation: None })
    );
    assert_eq!(client.last_received, PersonStateSyncPointLastReceived(1));
    for step in 1..6i16 {
        let current = state(step);
        refresh_sync_point(&mut sp, &mut last, current, FORCE_UPDATE);
        let update = receive(&sp, &mut client).expect("newer update is applied");
        assert_eq!(update.position, Some(current.position));
        assert_eq!(update.rotation, Some(current.rotation));
        assert_eq!(client.velocity.0, current.velocity);
        assert_eq!(client.density.0, current.density);
        assert_eq!(client.pressure.0, current.pressure);
        assert_eq!(client.last_received.0, sp.seq_num);
    }
    assert_eq!(sp.seq_num, 6);
}
