use crowdsim::simulation::{
    advance_frame_and_check_skip, camera_move_direction, collision_chunks, MoveDirection,
    MoveKeys, COLLISION_CHUNK_SIZE,
};

#[test]
fn frame_counter_without_interval_never_skips() {
    let mut frame = 0u32;
    for expected in 1..10u32 {
        assert!(!advance_frame_and_check_skip(&mut frame, None));
        assert_eq!(frame, expected);
    }
}

#[test]
fn frame_counter_skips_multiples_of_interval() {
    let mut frame = 0u32;
    let skipped: Vec<bool> = (0..6).map(|_| advance_frame_and_check_skip(&mut frame, Some(3))).collect();
    assert_eq!(skipped, vec![false, false, true, false, false, true]);
    assert_eq!(frame, 6);
}

#[test]
fn no_people_no_chunks() {
    assert!(collision_chunks(0).is_empty());
}

#[test]
fn chunks_cover_all_people_once() {
    assert_eq!(collision_chunks(1), vec![(0, 1)]);
    assert_eq!(collision_chunks(250), vec![(0, 250)]);
    assert_eq!(collision_chunks(251), vec![(0, 250), (250, 251)]);
    let chunks = collision_chunks(5000);
    assert_eq!(chunks.len(), 20);
    let mut next = 0;
    for (start, end) in chunks {
        assert_eq!(start, next);
        assert!(start < end && end - start <= COLLISION_CHUNK_SIZE);
        next = end;
    }
    assert_eq!(next, 5000);
}

#[test]
fn camera_direction_from_keys() {
    let none = MoveKeys { forward: false, back: false, left: false, right: false, up: false, down: false };
    assert_eq!(camera_move_direction(none), MoveDirection { x: 0, y: 0, z: 0 });
    let forward_right_up = MoveKeys { forward: true, right: true, up: true, ..none };
    assert_eq!(camera_move_direction(forward_right_up), MoveDirection { x: 1, y: 1, z: -1 });
    let all = MoveKeys { forward: true, back: true, left: true, right: true, up: true, down: true };
    assert_eq!(camera_move_direction(all), MoveDirection { x: 0, y: 0, z: 0 });
    let back_left_down = MoveKeys { back: true, left: true, down: true, ..none };
    assert_eq!(camera_move_direction(back_left_down), MoveDirection { x: -1, y: -1, z: 1 });
}
