use spark::physics::{elapsed_since, path_steps, path_turns, PhysicsError};

#[test]
fn a_body_without_an_orbit_is_a_stale_reference() {
    assert_eq!(elapsed_since(None, 0), Err(PhysicsError::StaleOrbitReference));
    assert_eq!(
        elapsed_since(None, 5_000_000_000),
        Err(PhysicsError::StaleOrbitReference)
    );
    assert_eq!(
        elapsed_since(None, u128::MAX),
        Err(PhysicsError::StaleOrbitReference)
    );
}

#[test]
fn no_time_has_passed_at_the_epoch() {
    assert_eq!(elapsed_since(Some(0), 0), Ok(0));
    assert_eq!(elapsed_since(Some(1_500_000_000), 1_500_000_000), Ok(0));
    assert_eq!(elapsed_since(Some(u128::MAX), u128::MAX), Ok(0));
}

#[test]
fn elapsed_time_is_the_difference_of_the_readings() {
    assert_eq!(elapsed_since(Some(3), 10), Ok(7));
    assert_eq!(
        elapsed_since(Some(250_000_000), 2_000_000_000),
        Ok(1_750_000_000)
    );
    assert_eq!(elapsed_since(Some(0), 42), Ok(42));
}

#[test]
fn elapsed_time_is_exact_over_the_whole_clock() {
    assert_eq!(elapsed_since(Some(0), u128::MAX), Ok(u128::MAX));
    assert_eq!(elapsed_since(Some(1), u128::MAX), Ok(u128::MAX - 1));
    assert_eq!(
        elapsed_since(Some(u64::MAX as u128), u64::MAX as u128 + 1),
        Ok(1)
    );
}

#[test]
fn one_period_later_the_elapsed_time_is_one_period_more() {
    let epoch = 7_000_000_000;
    let period = 2_297_504_425;
    let now = 9_123_456_789;
    let first = elapsed_since(Some(epoch), now).unwrap();
    let second = elapsed_since(Some(epoch), now + period).unwrap();
    assert_eq!(second - first, period);
}

#[test]
fn fewer_than_two_points_close_no_path() {
    assert_eq!(path_steps(0), None);
    assert_eq!(path_steps(1), None);
}

#[test]
fn a_closed_path_has_one_step_fewer_than_points() {
    assert_eq!(path_steps(2), Some(1));
    assert_eq!(path_steps(3), Some(2));
    assert_eq!(path_steps(128), Some(127));
    assert_eq!(path_steps(u32::MAX), Some(u32::MAX - 1));
}

#[test]
fn the_three_kinds_of_failure_are_distinct() {
    assert_ne!(PhysicsError::DegenerateInput, PhysicsError::UnsupportedOrbitShape);
    assert_ne!(PhysicsError::DegenerateInput, PhysicsError::StaleOrbitReference);
    assert_ne!(
        PhysicsError::UnsupportedOrbitShape,
        PhysicsError::StaleOrbitReference
    );
    let kind = PhysicsError::StaleOrbitReference;
    let copy = kind;
    assert_eq!(kind, copy);
    assert_eq!(format!("{:?}", kind), "StaleOrbitReference");
}

#[test]
fn fewer_than_two_points_plan_no_path() {
    assert_eq!(path_turns(0), Vec::<(u32, u32)>::new());
    assert_eq!(path_turns(1), Vec::<(u32, u32)>::new());
}

#[test]
fn two_points_are_the_start_and_the_full_turn() {
    assert_eq!(path_turns(2), vec![(0, 1), (1, 1)]);
}

#[test]
fn each_point_lies_one_step_beyond_the_one_before() {
    assert_eq!(path_turns(3), vec![(0, 2), (1, 2), (2, 2)]);
    assert_eq!(
        path_turns(5),
        vec![(0, 4), (1, 4), (2, 4), (3, 4), (4, 4)]
    );
}

#[test]
fn the_path_has_as_many_points_as_were_asked_for() {
    for points in 2..200u32 {
        assert_eq!(path_turns(points).len(), points as usize);
    }
}

#[test]
fn the_path_of_a_drawn_orbit_is_closed() {
    let turns = path_turns(128);
    assert_eq!(turns.len(), 128);
    assert_eq!(turns[0], (0, 127));
    assert_eq!(turns[64], (64, 127));
    assert_eq!(turns[127], (127, 127));
    for (i, turn) in turns.iter().enumerate() {
        assert_eq!(*turn, (i as u32, 127));
    }
}

#[test]
fn the_plan_divides_the_turn_by_the_steps_of_the_path() {
    for points in 2..50u32 {
        let steps = path_steps(points).unwrap();
        for turn in path_turns(points) {
            assert_eq!(turn.1, steps);
            assert!(turn.0 <= steps);
        }
    }
}
