use interest_management::protocol::ActionState;
use interest_management::protocol::Inputs;
use interest_management::protocol::Message1;
use interest_management::protocol::NetworkRelevanceMode;
use interest_management::protocol::PlayerId;
use interest_management::protocol::PlayerParent;
use interest_management::protocol::Point;
use interest_management::protocol::Position;
use interest_management::relevance::RelevanceEvent;
use interest_management::rooms::RoomId;
use interest_management::server::init;
use interest_management::server::ExampleServerPlugin;
use interest_management::server::Server;

const SECOND: u64 = 1_000_000_000;
const ORIGIN_DOT: u64 = 210;
const NEXT_DOT: u64 = 230;

fn at(x: i32, y: i32) -> Position {
    Position(Point { x, y })
}

fn server_with(client: u64) -> (Server, u64, u64) {
    let mut server = init();
    let (player, text) = server.connect(client).unwrap();
    (server, player, text)
}

fn hold(actions: &[Inputs]) -> ActionState {
    let mut state = ActionState::default();
    for action in actions {
        state.press(*action);
    }
    state
}

fn quiet_tick(server: &mut Server, delta: u64) -> Vec<RelevanceEvent> {
    server.tick(&vec![], &vec![], &vec![], &vec![], delta).events
}

#[test]
fn the_grid_has_four_hundred_dots() {
    let server = init();
    let circles = server.circles();
    assert_eq!(circles.len(), 400);
    assert_eq!(circles[0].entity, 0);
    assert_eq!(circles[0].position, at(-2000, -2000));
    assert_eq!(circles[1].position, at(-2000, -1800));
    assert_eq!(circles[20].position, at(-1800, -2000));
    assert_eq!(circles[210].entity, ORIGIN_DOT);
    assert_eq!(circles[210].position, at(0, 0));
    assert_eq!(circles[230].position, at(200, 0));
    assert_eq!(circles[399].entity, 399);
    assert_eq!(circles[399].position, at(1800, 1800));
    assert!(server.sessions().is_empty());
}

#[test]
fn every_dot_is_a_different_entity_on_a_different_place() {
    let server = init();
    let circles = server.circles();
    for (i, a) in circles.iter().enumerate() {
        assert_eq!(a.entity, i as u64);
        for b in circles.iter().skip(i + 1) {
            assert_ne!(a.position, b.position);
        }
    }
}

#[test]
fn the_plugin_builds_the_server_at_startup() {
    let server = ExampleServerPlugin.build();
    assert_eq!(server.circles().len(), 400);
    assert!(server.sessions().is_empty());
    assert!(server.room_manager().clients_in(RoomId(0)).is_empty());
}

#[test]
fn connect_spawns_two_entities() {
    let mut server = init();
    assert_eq!(server.connect(0xabc), Some((400, 401)));
    assert_eq!(server.sessions().len(), 1);
    let session = server.session(0xabc).unwrap();
    assert_eq!(session.player.entity, 400);
    assert_eq!(session.player.bundle.id, PlayerId(0xabc));
    assert_eq!(session.player.bundle.position, at(0, 0));
    assert_eq!(session.player.bundle.last_position.0, Point { x: 0, y: 0 });
    assert_eq!(session.player.bundle.player_text.0, "Text from PlayerBundle");
    assert_eq!(
        session.player.bundle.replicate.relevance_mode,
        NetworkRelevanceMode::InterestManagement
    );
    assert_eq!(session.text.entity, 401);
    assert_eq!(session.text.bundle.parent, PlayerParent(400));
    assert_eq!(session.text.bundle.player_text.0, "Server should change this...");
    let rooms = server.room_manager();
    assert!(rooms.has_client_id(0xabc, RoomId(0)));
    assert!(rooms.has_entity(400, RoomId(0)));
    assert!(rooms.has_entity(401, RoomId(0)));
    assert_eq!(rooms.clients_in(RoomId(0)), vec![0xabc]);
    assert_eq!(rooms.entities_in(RoomId(0)), vec![400, 401]);
    for timer in [session.player.timer.as_ref(), session.text.timer.as_ref()] {
        let timer = timer.unwrap();
        assert_eq!(timer.duration_nanos(), 5 * SECOND);
        assert_eq!(timer.elapsed_nanos(), 0);
        assert!(!timer.finished());
    }
    assert_eq!(server.client_entity(0xabc), Some(400));
    assert_eq!(server.client_room(0xabc), Some(RoomId(0)));
}

#[test]
fn a_client_connects_only_once() {
    let (mut server, player, _) = server_with(7);
    assert_eq!(server.connect(7), None);
    assert_eq!(server.sessions().len(), 1);
    assert_eq!(server.client_entity(7), Some(player));
    assert_eq!(server.room_manager().entities_in(RoomId(0)).len(), 2);
}

#[test]
fn each_client_gets_entities_of_its_own() {
    let mut server = init();
    assert_eq!(server.connect(1), Some((400, 401)));
    assert_eq!(server.connect(2), Some((402, 403)));
    assert_eq!(server.client_entity(1), Some(400));
    assert_eq!(server.client_entity(2), Some(402));
    assert_eq!(server.client_entity(3), None);
    assert_eq!(server.client_room(3), None);
    assert_eq!(server.room_manager().clients_in(RoomId(0)), vec![1, 2]);
}

#[test]
fn room_crossing() {
    let (mut server, player, text) = server_with(1);
    assert!(server.set_position(1, at(50, 0)));
    server.interest_management();
    assert!(server.room_manager().has_client_id(1, RoomId(0)));
    assert!(server.set_position(1, at(250, 0)));
    server.interest_management();
    let rooms = server.room_manager();
    assert!(!rooms.has_client_id(1, RoomId(0)));
    assert!(rooms.has_client_id(1, RoomId(1)));
    assert_eq!(rooms.clients_in(RoomId(1)), vec![1]);
    assert!(rooms.clients_in(RoomId(0)).is_empty());
    assert!(!rooms.has_entity(player, RoomId(0)));
    assert_eq!(rooms.entities_in(RoomId(1)), vec![player]);
    assert_eq!(rooms.entities_in(RoomId(0)), vec![text]);
    assert_eq!(server.client_room(1), Some(RoomId(1)));
    assert_eq!(server.session(1).unwrap().player.bundle.last_position.0, Point { x: 250, y: 0 });
}

#[test]
fn crossing_back_returns_to_the_first_room() {
    let (mut server, player, _) = server_with(1);
    server.set_position(1, at(250, 0));
    server.interest_management();
    server.set_position(1, at(-1, 0));
    server.interest_management();
    let rooms = server.room_manager();
    assert_eq!(rooms.clients_in(RoomId(-1)), vec![1]);
    assert!(rooms.clients_in(RoomId(1)).is_empty());
    assert!(rooms.clients_in(RoomId(0)).is_empty());
    assert!(rooms.has_entity(player, RoomId(-1)));
}

#[test]
fn the_room_follows_only_when_interest_is_evaluated() {
    let (mut server, _, _) = server_with(1);
    server.set_position(1, at(250, 0));
    assert!(server.room_manager().has_client_id(1, RoomId(0)));
    assert_eq!(server.client_room(1), Some(RoomId(0)));
    server.interest_management();
    assert!(server.room_manager().has_client_id(1, RoomId(1)));
}

#[test]
fn interest_gain_and_loss() {
    let (mut server, _, _) = server_with(1);
    server.set_position(1, at(140, 0));
    server.interest_management();
    assert!(server.relevance_manager().is_relevant(1, ORIGIN_DOT));
    let gained = server.take_relevance_events();
    assert_eq!(
        gained,
        vec![
            RelevanceEvent::Gained { client: 1, entity: ORIGIN_DOT },
            RelevanceEvent::Gained { client: 1, entity: NEXT_DOT },
        ]
    );
    server.set_position(1, at(160, 0));
    server.interest_management();
    assert!(!server.relevance_manager().is_relevant(1, ORIGIN_DOT));
    assert!(server.relevance_manager().is_relevant(1, NEXT_DOT));
    let events = server.take_relevance_events();
    assert_eq!(events, vec![RelevanceEvent::Lost { client: 1, entity: ORIGIN_DOT }]);
    server.set_position(1, at(170, 0));
    server.interest_management();
    assert!(server.take_relevance_events().is_empty());
}

#[test]
fn a_dot_exactly_at_the_radius_is_not_seen() {
    let (mut server, _, _) = server_with(1);
    server.set_position(1, at(150, 0));
    server.interest_management();
    assert!(!server.relevance_manager().is_relevant(1, ORIGIN_DOT));
    assert!(server.relevance_manager().is_relevant(1, NEXT_DOT));
    server.set_position(1, at(149, 0));
    server.interest_management();
    assert!(server.relevance_manager().is_relevant(1, ORIGIN_DOT));
}

#[test]
fn a_player_that_stands_still_causes_no_recomputation() {
    let (mut server, _, _) = server_with(1);
    server.interest_management();
    assert!(server.take_relevance_events().is_empty());
    assert!(!server.relevance_manager().is_relevant(1, ORIGIN_DOT));
    server.set_position(1, at(10, 0));
    server.interest_management();
    assert_eq!(
        server.take_relevance_events(),
        vec![RelevanceEvent::Gained { client: 1, entity: ORIGIN_DOT }]
    );
    for _ in 0..3 {
        server.interest_management();
        assert!(server.take_relevance_events().is_empty());
        assert!(server.relevance_manager().is_relevant(1, ORIGIN_DOT));
        assert_eq!(server.room_manager().clients_in(RoomId(0)), vec![1]);
    }
}

#[test]
fn one_player_moving_does_not_touch_the_other() {
    let mut server = init();
    server.connect(1);
    server.connect(2);
    server.set_position(2, at(10, 0));
    server.interest_management();
    server.take_relevance_events();
    server.set_position(1, at(410, 0));
    server.interest_management();
    let events = server.take_relevance_events();
    assert!(events.iter().all(|e| e.client() == 1));
    assert!(server.relevance_manager().is_relevant(2, ORIGIN_DOT));
    assert_eq!(server.client_room(2), Some(RoomId(0)));
    assert_eq!(server.client_room(1), Some(RoomId(2)));
}

#[test]
fn movement_follows_the_input_snapshot() {
    let (mut server, _, _) = server_with(1);
    assert!(server.set_input(1, hold(&[Inputs::Right, Inputs::Up])));
    assert!(!server.set_input(2, hold(&[Inputs::Left])));
    server.movement();
    server.movement();
    let session = server.session(1).unwrap();
    assert_eq!(session.player.bundle.position, at(20, 20));
    assert_eq!(session.player.bundle.last_position.0, Point { x: 0, y: 0 });
}

#[test]
fn an_unknown_client_cannot_be_moved() {
    let mut server = init();
    assert!(!server.set_position(9, at(1, 1)));
    assert!(server.session(9).is_none());
}

#[test]
fn a_tick_runs_the_stages_in_order() {
    let mut server = init();
    let report = server.tick(
        &vec![1],
        &vec![],
        &vec![(1, hold(&[Inputs::Right]))],
        &vec![Message1(3), Message1(4)],
        SECOND,
    );
    assert_eq!(report.messages_received, 2);
    assert_eq!(report.events, vec![RelevanceEvent::Gained { client: 1, entity: ORIGIN_DOT }]);
    let session = server.session(1).unwrap();
    assert_eq!(session.player.bundle.position, at(10, 0));
    assert_eq!(session.player.bundle.last_position.0, Point { x: 10, y: 0 });
    assert_eq!(session.player.timer.as_ref().unwrap().elapsed_nanos(), SECOND);
    assert!(server.relevance_manager().is_relevant(1, ORIGIN_DOT));
    assert!(server.take_relevance_events().is_empty());
}

#[test]
fn walking_out_of_range_loses_the_dot_on_the_tick_of_the_crossing() {
    let mut server = init();
    server.tick(&vec![1], &vec![], &vec![(1, hold(&[Inputs::Right]))], &vec![], 0);
    let mut losses = Vec::new();
    for step in 2..=20 {
        for event in quiet_tick(&mut server, 0) {
            if event == (RelevanceEvent::Lost { client: 1, entity: ORIGIN_DOT }) {
                losses.push(step * 10);
            }
        }
    }
    assert_eq!(losses, vec![150]);
    assert_eq!(server.session(1).unwrap().player.bundle.position, at(200, 0));
    assert_eq!(server.client_room(1), Some(RoomId(1)));
    assert_eq!(server.room_manager().clients_in(RoomId(1)), vec![1]);
}

#[test]
fn after_every_tick_the_room_is_that_of_the_position() {
    let mut server = init();
    server.tick(&vec![5], &vec![], &vec![(5, hold(&[Inputs::Left]))], &vec![], 0);
    for _ in 0..45 {
        quiet_tick(&mut server, 0);
        let x = server.session(5).unwrap().player.bundle.position.0.x;
        let room = RoomId(x.div_euclid(200) as i64);
        assert_eq!(server.client_room(5), Some(room));
        assert_eq!(server.room_manager().clients_in(room), vec![5]);
        assert!(server.room_manager().has_entity(400, room));
    }
    assert_eq!(server.client_room(5), Some(RoomId(-3)));
}

#[test]
fn timers_fire_once_through_ticks() {
    let (mut server, _, _) = server_with(1);
    for _ in 0..4 {
        quiet_tick(&mut server, SECOND);
    }
    let session = server.session(1).unwrap();
    assert_eq!(session.player.bundle.player_text.0, "Text from PlayerBundle");
    assert_eq!(session.text.bundle.player_text.0, "Server should change this...");
    assert_eq!(session.player.timer.as_ref().unwrap().elapsed_nanos(), 4 * SECOND);
    quiet_tick(&mut server, SECOND);
    let session = server.session(1).unwrap();
    assert_eq!(session.player.bundle.player_text.0, "Server changed");
    assert_eq!(session.text.bundle.player_text.0, "Server changed");
    assert!(session.player.timer.is_none());
    assert!(session.text.timer.is_none());
    for _ in 0..10 {
        quiet_tick(&mut server, 3 * SECOND);
        let session = server.session(1).unwrap();
        assert_eq!(session.player.bundle.player_text.0, "Server changed");
        assert!(session.player.timer.is_none());
        assert!(session.text.timer.is_none());
    }
}

#[test]
fn a_later_client_has_a_later_timer() {
    let mut server = init();
    server.connect(1);
    server.check_timers(3 * SECOND);
    server.connect(2);
    server.check_timers(2 * SECOND);
    assert!(server.session(1).unwrap().player.timer.is_none());
    assert_eq!(
        server.session(2).unwrap().player.timer.as_ref().unwrap().elapsed_nanos(),
        2 * SECOND
    );
    assert_eq!(server.session(2).unwrap().player.bundle.player_text.0, "Text from PlayerBundle");
}

#[test]
fn disconnect_tears_everything_down() {
    let mut server = init();
    server.connect(1);
    server.connect(2);
    server.set_position(1, at(210, 0));
    server.set_position(2, at(0, 0));
    server.set_position(2, at(5, 0));
    server.interest_management();
    assert!(server.relevance_manager().is_relevant(1, NEXT_DOT));
    assert_eq!(server.disconnect(1), Some((400, 401)));
    assert!(server.session(1).is_none());
    assert_eq!(server.sessions().len(), 1);
    assert_eq!(server.client_entity(1), None);
    assert_eq!(server.client_room(1), None);
    let rooms = server.room_manager();
    assert!(rooms.clients_in(RoomId(1)).is_empty());
    assert!(rooms.entities_in(RoomId(1)).is_empty());
    assert_eq!(rooms.clients_in(RoomId(0)), vec![2]);
    assert_eq!(rooms.entities_in(RoomId(0)), vec![402, 403]);
    assert!(!server.relevance_manager().is_relevant(1, NEXT_DOT));
    assert!(server.relevance_manager().is_relevant(2, ORIGIN_DOT));
    let events = server.take_relevance_events();
    assert_eq!(events, vec![RelevanceEvent::Gained { client: 2, entity: ORIGIN_DOT }]);
    assert_eq!(server.disconnect(1), None);
}

#[test]
fn a_client_may_come_back_with_new_entities() {
    let mut server = init();
    server.connect(1);
    server.disconnect(1);
    assert_eq!(server.connect(1), Some((402, 403)));
    assert_eq!(server.room_manager().entities_in(RoomId(0)), vec![402, 403]);
    assert_eq!(server.session(1).unwrap().player.bundle.position, at(0, 0));
}

#[test]
fn queues_are_handled_in_order() {
    let mut server = init();
    server.handle_connections(&vec![3, 4, 3, 5]);
    assert_eq!(server.sessions().len(), 3);
    assert_eq!(server.client_entity(5), Some(404));
    server.handle_disconnections(&vec![4, 9, 4]);
    assert_eq!(server.sessions().len(), 2);
    assert_eq!(server.room_manager().clients_in(RoomId(0)), vec![3, 5]);
    server.set_inputs(&vec![(3, hold(&[Inputs::Up])), (3, hold(&[Inputs::Down])), (4, hold(&[]))]);
    server.movement();
    assert_eq!(server.session(3).unwrap().player.bundle.position, at(0, -10));
    assert_eq!(server.session(5).unwrap().player.bundle.position, at(0, 0));
}

#[test]
fn a_client_that_connects_and_leaves_in_one_tick_is_gone() {
    let mut server = init();
    let report = server.tick(&vec![1], &vec![1], &vec![(1, hold(&[Inputs::Up]))], &vec![], SECOND);
    assert!(report.events.is_empty());
    assert!(server.sessions().is_empty());
    assert!(server.room_manager().entities_in(RoomId(0)).is_empty());
}

#[test]
fn messages_are_counted_and_not_read() {
    let server = init();
    assert_eq!(server.receive_message(&vec![]), 0);
    assert_eq!(server.receive_message(&vec![Message1(usize::MAX), Message1(0), Message1(0)]), 3);
}
