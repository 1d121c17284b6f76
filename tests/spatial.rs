use bevy_seedling::spatial::{distance_squared, find_closest_listener, Position};

#[test]
fn test_closest() {
    let positions = vec![Position::splat(5), Position::splat(4), Position::splat(6)];
    let emitter = Position::splat(0);
    let closest = find_closest_listener(emitter, &positions).unwrap();

    assert_eq!(closest, positions[1]);
}

#[test]
fn test_empty() {
    let positions = vec![];

    let emitter = Position::splat(0);
    let closest = find_closest_listener(emitter, &positions);

    assert!(closest.is_none());
}

#[test]
fn closest_prefers_first_of_ties_and_handles_extremes() {
    let a = Position { x: 1, y: 0, z: 0 };
    let b = Position { x: -1, y: 0, z: 0 };
    assert_eq!(find_closest_listener(Position::splat(0), &vec![a, b]), Some(a));
    let far = Position::splat(i32::MAX);
    let near = Position::splat(i32::MIN);
    assert_eq!(distance_squared(far, near), 3 * (u32::MAX as u128) * (u32::MAX as u128));
    assert_eq!(find_closest_listener(near, &vec![far, near]), Some(near));
}
