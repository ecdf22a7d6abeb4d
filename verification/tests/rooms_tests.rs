use interest_management::protocol::Point;
use interest_management::rooms::room_for;
use interest_management::rooms::RoomId;
use interest_management::rooms::RoomManager;
use interest_management::rooms::GRID_SIZE;

fn at(x: i32) -> Point {
    Point { x, y: 0 }
}

#[test]
fn grid_size_is_two_hundred() {
    assert_eq!(GRID_SIZE, 200);
}

#[test]
fn room_for_divides_x_by_the_room_width() {
    assert_eq!(room_for(at(0)), RoomId(0));
    assert_eq!(room_for(at(50)), RoomId(0));
    assert_eq!(room_for(at(199)), RoomId(0));
    assert_eq!(room_for(at(200)), RoomId(1));
    assert_eq!(room_for(at(250)), RoomId(1));
    assert_eq!(room_for(at(1999)), RoomId(9));
}

#[test]
fn room_for_rounds_down_below_zero() {
    assert_eq!(room_for(at(-1)), RoomId(-1));
    assert_eq!(room_for(at(-200)), RoomId(-1));
    assert_eq!(room_for(at(-201)), RoomId(-2));
    assert_eq!(room_for(at(-400)), RoomId(-2));
}

#[test]
fn room_for_ignores_y() {
    assert_eq!(room_for(Point { x: 250, y: -9000 }), RoomId(1));
    assert_eq!(room_for(Point { x: 250, y: 9000 }), RoomId(1));
}

#[test]
fn room_for_at_the_ends_of_the_grid() {
    assert_eq!(room_for(at(i32::MAX)), RoomId(10_737_418));
    assert_eq!(room_for(at(i32::MIN)), RoomId(-10_737_419));
}

#[test]
fn new_room_manager_is_empty() {
    let rooms = RoomManager::new();
    assert!(!rooms.has_client_id(1, RoomId(0)));
    assert!(!rooms.has_entity(1, RoomId(0)));
    assert!(rooms.clients_in(RoomId(0)).is_empty());
    assert!(rooms.entities_in(RoomId(0)).is_empty());
}

#[test]
fn adding_a_client_twice_is_adding_it_once() {
    let mut rooms = RoomManager::new();
    rooms.add_client(7, RoomId(3));
    rooms.add_client(7, RoomId(3));
    assert!(rooms.has_client_id(7, RoomId(3)));
    assert_eq!(rooms.clients_in(RoomId(3)), vec![7]);
    rooms.remove_client(7, RoomId(3));
    assert!(!rooms.has_client_id(7, RoomId(3)));
    assert!(rooms.clients_in(RoomId(3)).is_empty());
}

#[test]
fn removing_a_stranger_changes_nothing() {
    let mut rooms = RoomManager::new();
    rooms.add_client(7, RoomId(3));
    rooms.add_entity(70, RoomId(3));
    rooms.remove_client(8, RoomId(3));
    rooms.remove_client(7, RoomId(4));
    rooms.remove_entity(71, RoomId(3));
    rooms.remove_entity(70, RoomId(4));
    assert_eq!(rooms.clients_in(RoomId(3)), vec![7]);
    assert_eq!(rooms.entities_in(RoomId(3)), vec![70]);
}

#[test]
fn clients_and_entities_are_kept_apart() {
    let mut rooms = RoomManager::new();
    rooms.add_client(5, RoomId(0));
    assert!(rooms.has_client_id(5, RoomId(0)));
    assert!(!rooms.has_entity(5, RoomId(0)));
    rooms.add_entity(6, RoomId(0));
    assert!(rooms.has_entity(6, RoomId(0)));
    assert!(!rooms.has_client_id(6, RoomId(0)));
}

#[test]
fn a_member_may_be_in_several_rooms() {
    let mut rooms = RoomManager::new();
    rooms.add_entity(9, RoomId(0));
    rooms.add_entity(9, RoomId(-1));
    rooms.add_entity(10, RoomId(0));
    assert_eq!(rooms.entities_in(RoomId(0)), vec![9, 10]);
    assert_eq!(rooms.entities_in(RoomId(-1)), vec![9]);
    rooms.entity_despawn(9);
    assert_eq!(rooms.entities_in(RoomId(0)), vec![10]);
    assert!(rooms.entities_in(RoomId(-1)).is_empty());
}

#[test]
fn a_client_that_leaves_is_gone_from_every_room() {
    let mut rooms = RoomManager::new();
    rooms.add_client(1, RoomId(0));
    rooms.add_client(1, RoomId(1));
    rooms.add_client(2, RoomId(1));
    rooms.add_entity(1, RoomId(1));
    rooms.client_disconnect(1);
    assert!(!rooms.has_client_id(1, RoomId(0)));
    assert!(!rooms.has_client_id(1, RoomId(1)));
    assert!(rooms.has_client_id(2, RoomId(1)));
    assert!(rooms.has_entity(1, RoomId(1)));
}
