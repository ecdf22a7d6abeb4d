//! The server: the rooms, the relevance table, the connected clients with
//! their entities, and the stages of a tick.

use crate::invariants::lemma_check_timers_wf;
use crate::invariants::lemma_connect_wf;
use crate::invariants::lemma_disconnect_wf;
use crate::invariants::lemma_drained_wf;
use crate::invariants::lemma_interest_of_wf;
use crate::invariants::lemma_interest_upto;
use crate::invariants::lemma_movement_wf;
use crate::invariants::lemma_rooms_follow_last_positions;
use crate::invariants::lemma_initial_wf;
use crate::invariants::lemma_sessions_by_client;
use crate::invariants::lemma_set_input_wf;
use crate::invariants::lemma_set_position_wf;
use crate::protocol::ActionState;
use crate::protocol::ClientId;
use crate::protocol::EntityId;
use crate::protocol::LastPosition;
use crate::protocol::Message1;
use crate::protocol::PlayerBundle;
use crate::protocol::PlayerTextBundle;
use crate::protocol::Point;
use crate::protocol::Position;
use crate::relevance::Candidate;
use crate::relevance::RelevanceEvent;
use crate::relevance::RelevanceManager;
use crate::movement::shared_movement_behaviour;
use crate::rooms::room_for;
use crate::timer::check_timer;
use crate::rooms::RoomId;
use crate::rooms::RoomManager;
use crate::rooms::GRID_SIZE;
use crate::timer::slot_wf;
use crate::timer::TimerComponent;
use crate::world::circle;
use crate::world::circle_grid;
use crate::world::PlayerView;
use crate::world::ServerView;
use crate::world::SessionView;
use crate::world::TextView;
use crate::world::NUM_CIRCLES;
use crate::world::TIMER_SECONDS;
use std::collections::HashMap;
use vstd::prelude::*;

verus! {

broadcast use vstd::std_specs::hash::group_hash_axioms;

/// A player entity: its identifier, its components and the timer that it
/// carries until it fires.
pub struct PlayerEntity {
    pub entity: EntityId,
    pub bundle: PlayerBundle,
    pub timer: Option<TimerComponent>,
}

/// A text entity: its identifier, its components and the timer that it
/// carries until it fires.
pub struct TextEntity {
    pub entity: EntityId,
    pub bundle: PlayerTextBundle,
    pub timer: Option<TimerComponent>,
}

/// What the server holds for one connected client.
pub struct Session {
    pub player: PlayerEntity,
    pub text: TextEntity,
}

impl View for PlayerEntity {
    type V = PlayerView;

    open spec fn view(&self) -> PlayerView {
        PlayerView {
            entity: self.entity,
            client: self.bundle.id.0,
            text: self.bundle.player_text.0@,
            position: self.bundle.position.0,
            last_position: self.bundle.last_position.0,
            replicate: self.bundle.replicate,
            action_state: self.bundle.action_state,
            timer: match self.timer {
                Some(t) => Some(t@),
                None => None,
            },
        }
    }
}

impl View for TextEntity {
    type V = TextView;

    open spec fn view(&self) -> TextView {
        TextView {
            entity: self.entity,
            parent: self.bundle.parent.0,
            text: self.bundle.player_text.0@,
            replicate: self.bundle.replicate,
            timer: match self.timer {
                Some(t) => Some(t@),
                None => None,
            },
        }
    }
}

impl View for Session {
    type V = SessionView;

    open spec fn view(&self) -> SessionView {
        SessionView { player: self.player@, text: self.text@ }
    }
}

impl Session {
    /// The timers that the two entities still carry are running.
    pub open spec fn timers_run(&self) -> bool {
        slot_wf(self.player.timer) && slot_wf(self.text.timer)
    }

    /// Advances the timers of both entities.
    pub fn check_timers(&mut self, delta_nanos: u64)
        requires
            old(self).timers_run(),
        ensures
            final(self).timers_run(),
            final(self)@ == old(self)@.check_timers(delta_nanos as nat),
    {
        check_timer(&mut self.player.bundle.player_text, &mut self.player.timer, delta_nanos);
        check_timer(&mut self.text.bundle.player_text, &mut self.text.timer, delta_nanos);
    }
}

/// The tables that lead from a client to its player entity and to its room.
pub struct Global {
    client_id_to_entity_id: HashMap<ClientId, EntityId>,
    client_id_to_room_id: HashMap<ClientId, RoomId>,
}

/// What one tick hands to the replication layer.
pub struct TickReport {
    /// The relevance changes of the tick, oldest first.
    pub events: Vec<RelevanceEvent>,
    /// How many messages were taken in.
    pub messages_received: usize,
}

/// Builds the server.
#[derive(Clone, Copy, Debug, PartialEq, Eq, Structural)]
pub struct ExampleServerPlugin;

impl ExampleServerPlugin {
    /// The server at startup, ready for its first tick.
    pub fn build(&self) -> (server: Server)
        ensures
            server.wf(),
            server@ == ServerView::initial(),
    {
        init()
    }
}

/// The whole state of the server.
pub struct Server {
    room_manager: RoomManager,
    relevance_manager: RelevanceManager,
    global: Global,
    sessions: Vec<Session>,
    circles: Vec<Candidate>,
    next_entity: EntityId,
}

impl View for Server {
    type V = ServerView;

    closed spec fn view(&self) -> ServerView {
        ServerView {
            room_clients: self.room_manager.clients(),
            room_entities: self.room_manager.entities(),
            relevance: self.relevance_manager@,
            client_to_entity: self.global.client_id_to_entity_id@,
            client_to_room: self.global.client_id_to_room_id@,
            sessions: self.sessions@.map_values(|s: Session| s@),
            circles: self.circles@,
            next_entity: self.next_entity as nat,
        }
    }
}

/// The dots of the grid, in the order of their numbers.
fn spawn_circles() -> (circles: Vec<Candidate>)
    ensures
        circles@ == circle_grid(),
{
    let mut circles: Vec<Candidate> = Vec::new();
    let mut x: i32 = -NUM_CIRCLES;
    while x < NUM_CIRCLES
        invariant
            -NUM_CIRCLES <= x <= NUM_CIRCLES,
            circles@.len() == (x + 10) * 20,
            forall|k: int| 0 <= k < circles@.len() ==> circles@[k] == circle(k),
        decreases NUM_CIRCLES - x,
    {
        let mut y: i32 = -NUM_CIRCLES;
        while y < NUM_CIRCLES
            invariant
                -NUM_CIRCLES <= x < NUM_CIRCLES,
                -NUM_CIRCLES <= y <= NUM_CIRCLES,
                circles@.len() == (x + 10) * 20 + (y + 10),
                forall|k: int| 0 <= k < circles@.len() ==> circles@[k] == circle(k),
            decreases NUM_CIRCLES - y,
        {
            let entity: u64 = circles.len() as u64;
            let dot = Candidate {
                entity,
                position: Position(Point { x: x * GRID_SIZE, y: y * GRID_SIZE }),
            };
            proof {
                let index = circles@.len() as int;
                assert(index / 20 == x + 10 && index % 20 == y + 10);
                assert(dot == circle(index));
            }
            circles.push(dot);
            y += 1;
        }
        x += 1;
    }
    assert(circles@ =~= circle_grid());
    circles
}

/// The server at startup: the grid of dots is spawned and nobody is
/// connected.
pub fn init() -> (server: Server)
    ensures
        server.wf(),
        server@ == ServerView::initial(),
{
    let circles = spawn_circles();
    let next_entity = circles.len() as u64;
    let server = Server {
        room_manager: RoomManager::new(),
        relevance_manager: RelevanceManager::new(),
        global: Global {
            client_id_to_entity_id: HashMap::new(),
            client_id_to_room_id: HashMap::new(),
        },
        sessions: Vec::new(),
        circles,
        next_entity,
    };
    proof {
        lemma_initial_wf();
        assert(server@.sessions =~= Seq::<SessionView>::empty());
    }
    server
}

impl Server {
    /// The parts are sound in themselves: the managers store nothing twice
    /// and every carried timer runs.
    pub closed spec fn sound(&self) -> bool {
        &&& self.room_manager.wf()
        &&& self.relevance_manager.stored_once()
        &&& forall|i: int|
            0 <= i < self.sessions@.len() ==> (#[trigger] self.sessions@[i]).timers_run()
    }

    /// The parts are sound and the state as a value is well formed.
    pub open spec fn wf(&self) -> bool {
        self.sound() && self@.wf()
    }

    /// The index of the session of `client`.
    fn find_session(&self, client: ClientId) -> (found: Option<usize>)
        ensures
            match found {
                Some(i) => i < self.sessions@.len() && self.sessions@[i as int]@.player.client
                    == client,
                None => forall|j: int|
                    0 <= j < self.sessions@.len() ==> (#[trigger] self.sessions@[j])@.player.client
                        != client,
            },
    {
        let mut i: usize = 0;
        while i < self.sessions.len()
            invariant
                i <= self.sessions@.len(),
                forall|j: int|
                    0 <= j < i ==> (#[trigger] self.sessions@[j])@.player.client != client,
            decreases self.sessions@.len() - i,
        {
            if self.sessions[i].player.bundle.id.0 == client {
                return Some(i);
            }
            i += 1;
        }
        None
    }

    /// The index of the session of `client`, which is connected exactly if
    /// there is one.
    fn session_index(&self, client: ClientId) -> (found: Option<usize>)
        requires
            self.wf(),
        ensures
            found is Some == self@.connected(client),
            found matches Some(i) ==> i == self@.session_index(client) && i < self.sessions@.len(),
    {
        proof {
            lemma_sessions_by_client(self@);
        }
        let found = self.find_session(client);
        proof {
            match found {
                Some(i) => {
                    assert(self@.sessions[i as int] == self.sessions@[i as int]@);
                },
                None => {
                    if self@.connected(client) {
                        let j = self@.session_index(client);
                        assert(self@.sessions[j] == self.sessions@[j]@);
                    }
                },
            }
        }
        found
    }

    /// Gives `client` a session: spawns its player and its text entity,
    /// puts both into the lobby with the client, and arms a timer on each.
    /// Returns the two new entities, or nothing if the client is not
    /// admitted.
    pub fn connect(&mut self, client: ClientId) -> (spawned: Option<(EntityId, EntityId)>)
        requires
            old(self).wf(),
        ensures
            final(self).wf(),
            final(self)@ == old(self)@.connect(client),
            spawned == (if old(self)@.admits(client) {
                Some((old(self)@.next_entity as EntityId, (old(self)@.next_entity + 1) as EntityId))
            } else {
                None
            }),
    {
        if self.global.client_id_to_entity_id.contains_key(&client) || self.next_entity > u64::MAX
            - 2 {
            return None;
        }
        let entity = self.next_entity;
        let text_entity = entity + 1;
        let session = Session {
            player: PlayerEntity {
                entity,
                bundle: PlayerBundle::new(client, Point { x: 0, y: 0 }),
                timer: Some(TimerComponent::from_seconds(TIMER_SECONDS)),
            },
            text: TextEntity {
                entity: text_entity,
                bundle: PlayerTextBundle::new(client, entity),
                timer: Some(TimerComponent::from_seconds(TIMER_SECONDS)),
            },
        };
        assert(session@ == SessionView::spawned(client, entity));
        self.sessions.push(session);
        self.room_manager.add_client(client, RoomId(0));
        self.room_manager.add_entity(entity, RoomId(0));
        self.room_manager.add_entity(text_entity, RoomId(0));
        self.global.client_id_to_entity_id.insert(client, entity);
        self.global.client_id_to_room_id.insert(client, RoomId(0));
        self.next_entity = entity + 2;
        proof {
            lemma_connect_wf(old(self)@, client);
            assert(self@.sessions =~= old(self)@.sessions.push(session@));
            assert(self@ == old(self)@.connect(client));
        }
        Some((entity, text_entity))
    }

    /// Replaces the input snapshot of `client`. Says whether the client is
    /// connected.
    pub fn set_input(&mut self, client: ClientId, input: ActionState) -> (known: bool)
        requires
            old(self).wf(),
        ensures
            final(self).wf(),
            final(self)@ == old(self)@.set_input(client, input),
            known == old(self)@.connected(client),
    {
        match self.session_index(client) {
            Some(i) => {
                self.sessions[i].player.bundle.action_state = input;
                proof {
                    lemma_set_input_wf(old(self)@, client, input);
                    assert(self@.sessions =~= old(self)@.set_input(client, input).sessions);
                }
                true
            },
            None => false,
        }
    }

    /// Puts the player of `client` at `position`. Says whether the client
    /// is connected.
    pub fn set_position(&mut self, client: ClientId, position: Position) -> (known: bool)
        requires
            old(self).wf(),
        ensures
            final(self).wf(),
            final(self)@ == old(self)@.set_position(client, position.0),
            known == old(self)@.connected(client),
    {
        match self.session_index(client) {
            Some(i) => {
                self.sessions[i].player.bundle.position = position;
                proof {
                    lemma_set_position_wf(old(self)@, client, position.0);
                    assert(self@.sessions =~= old(self)@.set_position(client, position.0).sessions);
                }
                true
            },
            None => false,
        }
    }

    /// Handles the queued connections, in order.
    pub fn handle_connections(&mut self, connections: &Vec<ClientId>)
        requires
            old(self).wf(),
        ensures
            final(self).wf(),
            final(self)@ == old(self)@.connect_all(connections@),
    {
        let mut i: usize = 0;
        while i < connections.len()
            invariant
                i <= connections@.len(),
                self.wf(),
                self@ == old(self)@.connect_all(connections@.take(i as int)),
            decreases connections@.len() - i,
        {
            assert(connections@.take(i as int + 1).drop_last() == connections@.take(i as int));
            self.connect(connections[i]);
            i += 1;
        }
        assert(connections@.take(i as int) == connections@);
    }

    /// Takes `client` out of the world: its entities are despawned and
    /// leave their rooms, the client leaves its room and the tables, and
    /// nothing is visible to it any more. Returns the two entities that
    /// are gone, or nothing if the client was not connected.
    pub fn disconnect(&mut self, client: ClientId) -> (despawned: Option<(EntityId, EntityId)>)
        requires
            old(self).wf(),
        ensures
            final(self).wf(),
            final(self)@ == old(self)@.disconnect(client),
            despawned == (if old(self)@.connected(client) {
                let session = old(self)@.sessions[old(self)@.session_index(client)];
                Some((session.player.entity, session.text.entity))
            } else {
                None
            }),
    {
        match self.session_index(client) {
            Some(i) => {
                let session = self.sessions.remove(i);
                let entity = session.player.entity;
                let text_entity = session.text.entity;
                let room = room_for(session.player.bundle.last_position.0);
                self.room_manager.remove_client(client, room);
                self.room_manager.remove_entity(entity, room);
                self.room_manager.remove_entity(text_entity, RoomId(0));
                self.relevance_manager.client_disconnect(client);
                self.global.client_id_to_entity_id.remove(&client);
                self.global.client_id_to_room_id.remove(&client);
                proof {
                    lemma_disconnect_wf(old(self)@, client);
                    assert(self@.sessions =~= old(self)@.sessions.remove(i as int));
                    assert(self@ == old(self)@.disconnect(client));
                }
                Some((entity, text_entity))
            },
            None => None,
        }
    }

    /// Handles the queued disconnections, in order.
    pub fn handle_disconnections(&mut self, disconnections: &Vec<ClientId>)
        requires
            old(self).wf(),
        ensures
            final(self).wf(),
            final(self)@ == old(self)@.disconnect_all(disconnections@),
    {
        let mut i: usize = 0;
        while i < disconnections.len()
            invariant
                i <= disconnections@.len(),
                self.wf(),
                self@ == old(self)@.disconnect_all(disconnections@.take(i as int)),
            decreases disconnections@.len() - i,
        {
            assert(disconnections@.take(i as int + 1).drop_last() == disconnections@.take(
                i as int,
            ));
            self.disconnect(disconnections[i]);
            i += 1;
        }
        assert(disconnections@.take(i as int) == disconnections@);
    }

    /// Stores the queued input snapshots, in order.
    pub fn set_inputs(&mut self, inputs: &Vec<(ClientId, ActionState)>)
        requires
            old(self).wf(),
        ensures
            final(self).wf(),
            final(self)@ == old(self)@.set_inputs(inputs@),
    {
        let mut i: usize = 0;
        while i < inputs.len()
            invariant
                i <= inputs@.len(),
                self.wf(),
                self@ == old(self)@.set_inputs(inputs@.take(i as int)),
            decreases inputs@.len() - i,
        {
            assert(inputs@.take(i as int + 1).drop_last() == inputs@.take(i as int));
            let input = inputs[i];
            self.set_input(input.0, input.1);
            i += 1;
        }
        assert(inputs@.take(i as int) == inputs@);
    }

    /// Moves every player by one step under its input snapshot.
    pub fn movement(&mut self)
        requires
            old(self).wf(),
        ensures
            final(self).wf(),
            final(self)@ == old(self)@.movement(),
    {
        let mut i: usize = 0;
        while i < self.sessions.len()
            invariant
                i <= self.sessions@.len(),
                self.sessions@.len() == old(self).sessions@.len(),
                forall|j: int|
                    0 <= j < i ==> (#[trigger] self.sessions@[j])@ == old(
                        self,
                    ).sessions@[j]@.step() && self.sessions@[j].timers_run(),
                forall|j: int|
                    i <= j < self.sessions@.len() ==> (#[trigger] self.sessions@[j]) == old(
                        self,
                    ).sessions@[j],
                old(self).wf(),
                self.room_manager == old(self).room_manager,
                self.relevance_manager == old(self).relevance_manager,
                self.global == old(self).global,
                self.circles == old(self).circles,
                self.next_entity == old(self).next_entity,
            decreases self.sessions@.len() - i,
        {
            let input = self.sessions[i].player.bundle.action_state;
            shared_movement_behaviour(&mut self.sessions[i].player.bundle.position, &input);
            i += 1;
        }
        proof {
            lemma_movement_wf(old(self)@);
            assert(self@.sessions =~= old(self)@.movement().sessions);
        }
    }

    /// Brings rooms and relevance up to date with the positions. A player
    /// that has not moved since the last run costs nothing. For one that
    /// has, client and player entity change rooms if the room has changed,
    /// and every dot is judged against the new position.
    pub fn interest_management(&mut self)
        requires
            old(self).wf(),
        ensures
            final(self).wf(),
            final(self)@ == old(self)@.interest_management(),
    {
        let mut i: usize = 0;
        while i < self.sessions.len()
            invariant
                i <= self.sessions@.len(),
                self.sessions@.len() == old(self).sessions@.len(),
                old(self).wf(),
                self.sound(),
                self@ == old(self)@.interest_upto(i as nat),
            decreases self.sessions@.len() - i,
        {
            proof {
                lemma_interest_upto(old(self)@, i as nat);
                lemma_interest_of_wf(self@, i as int);
                lemma_rooms_follow_last_positions(self@);
                lemma_sessions_by_client(self@);
            }
            let ghost before = self@;
            let client = self.sessions[i].player.bundle.id.0;
            let entity = self.sessions[i].player.entity;
            let position = self.sessions[i].player.bundle.position;
            let last_position = self.sessions[i].player.bundle.last_position;
            assert(before.sessions[i as int] == self.sessions@[i as int]@);
            if position.0 != last_position.0 {
                let last_room = room_for(last_position.0);
                let new_room = room_for(position.0);
                if last_room != new_room {
                    self.room_manager.remove_client(client, last_room);
                    self.room_manager.remove_entity(entity, last_room);
                    self.room_manager.add_client(client, new_room);
                    self.room_manager.add_entity(entity, new_room);
                    self.global.client_id_to_room_id.insert(client, new_room);
                } else {
                    assert(before.room_clients.remove((client, last_room)).insert(
                        (client, new_room),
                    ) =~= before.room_clients);
                    assert(before.room_entities.remove((entity, last_room)).insert(
                        (entity, new_room),
                    ) =~= before.room_entities);
                    assert(before.client_to_room.insert(client, new_room)
                        =~= before.client_to_room);
                }
                self.relevance_manager.evaluate(client, position, &self.circles);
                self.sessions[i].player.bundle.last_position = LastPosition(position.0);
                proof {
                    assert(self@.sessions =~= before.sessions.update(
                        i as int,
                        before.sessions[i as int].synced(),
                    ));
                    assert(self@ == before.interest_of(i as int));
                }
            }
            i += 1;
        }
        proof {
            lemma_interest_upto(old(self)@, old(self)@.sessions.len());
        }
    }

    /// Takes in the messages that clients have sent. Their payload means
    /// nothing to the server; it says how many there were.
    pub fn receive_message(&self, messages: &Vec<Message1>) -> (received: usize)
        ensures
            received == messages@.len(),
    {
        messages.len()
    }

    /// Advances every timer. One that reaches its duration rewrites the
    /// text of its entity and is taken off it.
    pub fn check_timers(&mut self, delta_nanos: u64)
        requires
            old(self).wf(),
        ensures
            final(self).wf(),
            final(self)@ == old(self)@.check_timers(delta_nanos as nat),
    {
        let mut i: usize = 0;
        while i < self.sessions.len()
            invariant
                i <= self.sessions@.len(),
                self.sessions@.len() == old(self).sessions@.len(),
                forall|j: int|
                    0 <= j < i ==> (#[trigger] self.sessions@[j])@ == old(
                        self,
                    ).sessions@[j]@.check_timers(delta_nanos as nat),
                forall|j: int|
                    0 <= j < self.sessions@.len() ==> (#[trigger] self.sessions@[j]).timers_run(),
                forall|j: int|
                    i <= j < self.sessions@.len() ==> (#[trigger] self.sessions@[j]) == old(
                        self,
                    ).sessions@[j],
                self.room_manager == old(self).room_manager,
                self.relevance_manager == old(self).relevance_manager,
                self.global == old(self).global,
                self.circles == old(self).circles,
                self.next_entity == old(self).next_entity,
            decreases self.sessions@.len() - i,
        {
            self.sessions[i].check_timers(delta_nanos);
            i += 1;
        }
        proof {
            lemma_check_timers_wf(old(self)@, delta_nanos as nat);
            assert(self@.sessions =~= old(self)@.check_timers(delta_nanos as nat).sessions);
        }
    }

    /// Hands the waiting relevance events to the replication layer, oldest
    /// first.
    pub fn take_relevance_events(&mut self) -> (events: Vec<RelevanceEvent>)
        requires
            old(self).wf(),
        ensures
            final(self).wf(),
            events@ == old(self)@.relevance.events,
            final(self)@ == old(self)@.drained(),
    {
        proof {
            lemma_drained_wf(self@);
        }
        self.relevance_manager.take_events()
    }

    /// Runs one tick: handles the queued connections and disconnections,
    /// stores the new input snapshots, moves every player, brings rooms
    /// and relevance up to date, takes in the messages, advances the
    /// timers by `delta_nanos`, and hands the relevance changes over.
    pub fn tick(
        &mut self,
        connections: &Vec<ClientId>,
        disconnections: &Vec<ClientId>,
        inputs: &Vec<(ClientId, ActionState)>,
        messages: &Vec<Message1>,
        delta_nanos: u64,
    ) -> (report: TickReport)
        requires
            old(self).wf(),
        ensures
            final(self).wf(),
            final(self)@ == old(self)@.tick(
                connections@,
                disconnections@,
                inputs@,
                delta_nanos as nat,
            ).drained(),
            report.events@ == old(self)@.tick(
                connections@,
                disconnections@,
                inputs@,
                delta_nanos as nat,
            ).relevance.events,
            report.messages_received == messages@.len(),
    {
        self.handle_connections(connections);
        self.handle_disconnections(disconnections);
        self.set_inputs(inputs);
        self.movement();
        self.interest_management();
        let messages_received = self.receive_message(messages);
        self.check_timers(delta_nanos);
        let events = self.take_relevance_events();
        TickReport { events, messages_received }
    }

    /// The sessions, in the order in which their clients connected.
    pub fn sessions(&self) -> (sessions: &Vec<Session>)
        ensures
            sessions@.map_values(|s: Session| s@) == self@.sessions,
    {
        &self.sessions
    }

    /// The session of `client`, if it is connected.
    pub fn session(&self, client: ClientId) -> (session: Option<&Session>)
        requires
            self.wf(),
        ensures
            session is Some == self@.connected(client),
            session matches Some(s) ==> s@ == self@.sessions[self@.session_index(client)],
    {
        match self.session_index(client) {
            Some(i) => Some(&self.sessions[i]),
            None => None,
        }
    }

    /// The static dots.
    pub fn circles(&self) -> (circles: &Vec<Candidate>)
        ensures
            circles@ == self@.circles,
    {
        &self.circles
    }

    /// Who is in which room.
    pub fn room_manager(&self) -> (rooms: &RoomManager)
        ensures
            rooms.clients() == self@.room_clients,
            rooms.entities() == self@.room_entities,
            self.wf() ==> rooms.wf(),
    {
        &self.room_manager
    }

    /// Who sees what, and what the replication layer has yet to be told.
    pub fn relevance_manager(&self) -> (table: &RelevanceManager)
        ensures
            table@ == self@.relevance,
            self.wf() ==> table.wf(),
    {
        &self.relevance_manager
    }

    /// The player entity of `client`, if it is connected.
    pub fn client_entity(&self, client: ClientId) -> (entity: Option<EntityId>)
        ensures
            entity == (if self@.connected(client) {
                Some(self@.client_to_entity[client])
            } else {
                None
            }),
    {
        match self.global.client_id_to_entity_id.get(&client) {
            Some(entity) => Some(*entity),
            None => None,
        }
    }

    /// The room that `client` is recorded in, if it is connected.
    pub fn client_room(&self, client: ClientId) -> (room: Option<RoomId>)
        requires
            self.wf(),
        ensures
            room == (if self@.connected(client) {
                Some(self@.client_to_room[client])
            } else {
                None
            }),
    {
        match self.global.client_id_to_room_id.get(&client) {
            Some(room) => Some(*room),
            None => None,
        }
    }
}

} // verus!
