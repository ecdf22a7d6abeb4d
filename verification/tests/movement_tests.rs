use interest_management::movement::shared_movement_behaviour;
use interest_management::movement::MOVE_SPEED;
use interest_management::protocol::clamp;
use interest_management::protocol::ActionState;
use interest_management::protocol::Inputs;
use interest_management::protocol::Point;
use interest_management::protocol::Position;

fn holding(actions: &[Inputs]) -> ActionState {
    let mut state = ActionState::default();
    for action in actions {
        state.press(*action);
    }
    state
}

fn step(x: i32, y: i32, actions: &[Inputs]) -> (i32, i32) {
    let mut position = Position(Point { x, y });
    shared_movement_behaviour(&mut position, &holding(actions));
    (position.0.x, position.0.y)
}

#[test]
fn move_speed_is_ten() {
    assert_eq!(MOVE_SPEED, 10);
}

#[test]
fn no_input_no_movement() {
    assert_eq!(step(3, -4, &[]), (3, -4));
}

#[test]
fn each_direction_moves_along_its_axis() {
    assert_eq!(step(0, 0, &[Inputs::Up]), (0, 10));
    assert_eq!(step(0, 0, &[Inputs::Down]), (0, -10));
    assert_eq!(step(0, 0, &[Inputs::Left]), (-10, 0));
    assert_eq!(step(0, 0, &[Inputs::Right]), (10, 0));
}

#[test]
fn diagonal_movement_is_the_sum_and_is_not_normalised() {
    assert_eq!(step(100, 100, &[Inputs::Up, Inputs::Right]), (110, 110));
    assert_eq!(step(100, 100, &[Inputs::Down, Inputs::Left]), (90, 90));
}

#[test]
fn opposite_directions_cancel() {
    assert_eq!(step(7, 7, &[Inputs::Up, Inputs::Down]), (7, 7));
    assert_eq!(step(7, 7, &[Inputs::Left, Inputs::Right]), (7, 7));
    assert_eq!(step(7, 7, &[Inputs::Left, Inputs::Right, Inputs::Up]), (7, 17));
}

#[test]
fn delete_and_spawn_do_not_move() {
    assert_eq!(step(1, 2, &[Inputs::Delete, Inputs::Spawn]), (1, 2));
}

#[test]
fn movement_stops_at_the_ends_of_the_grid() {
    assert_eq!(step(i32::MAX - 3, 0, &[Inputs::Right]), (i32::MAX, 0));
    assert_eq!(step(i32::MIN + 3, 0, &[Inputs::Left]), (i32::MIN, 0));
    assert_eq!(step(0, i32::MAX, &[Inputs::Up]), (0, i32::MAX));
    assert_eq!(step(0, i32::MIN, &[Inputs::Down]), (0, i32::MIN));
    assert_eq!(step(i32::MAX, 0, &[Inputs::Left, Inputs::Right]), (i32::MAX, 0));
}

#[test]
fn clamp_holds_a_value_inside_the_grid() {
    assert_eq!(clamp(0), 0);
    assert_eq!(clamp(-17), -17);
    assert_eq!(clamp(i32::MAX as i64), i32::MAX);
    assert_eq!(clamp(i32::MAX as i64 + 1), i32::MAX);
    assert_eq!(clamp(i32::MIN as i64 - 1), i32::MIN);
    assert_eq!(clamp(i64::MAX), i32::MAX);
    assert_eq!(clamp(i64::MIN), i32::MIN);
}

#[test]
fn positions_add_by_component() {
    let sum = Position(Point { x: 1, y: -2 }).add(Position(Point { x: 30, y: 40 }));
    assert_eq!(sum, Position(Point { x: 31, y: 38 }));
    let held = Position(Point { x: i32::MAX, y: i32::MIN }).add(Position(Point { x: 1, y: -1 }));
    assert_eq!(held, Position(Point { x: i32::MAX, y: i32::MIN }));
}

#[test]
fn press_and_release_change_one_action() {
    let mut state = ActionState::default();
    assert!(!state.pressed(Inputs::Up));
    state.press(Inputs::Up);
    state.press(Inputs::Spawn);
    assert!(state.pressed(Inputs::Up));
    assert!(state.pressed(Inputs::Spawn));
    assert!(!state.pressed(Inputs::Down));
    assert!(!state.pressed(Inputs::Left));
    assert!(!state.pressed(Inputs::Right));
    assert!(!state.pressed(Inputs::Delete));
    state.release(Inputs::Up);
    assert!(!state.pressed(Inputs::Up));
    assert!(state.pressed(Inputs::Spawn));
}
