//! The server's state as a mathematical value, the steps of a tick as
//! functions on it, and what holds of them.

use crate::movement::moved;
use crate::protocol::ActionState;
use crate::protocol::ClientId;
use crate::protocol::EntityId;
use crate::protocol::NetworkRelevanceMode;
use crate::protocol::Point;
use crate::protocol::Position;
use crate::protocol::Replicate;
use crate::protocol::ReplicationGroup;
use crate::protocol::player_bundle_text;
use crate::protocol::player_text_bundle_text;
use crate::relevance::candidate_entities;
use crate::relevance::consistent;
use crate::relevance::Candidate;
use crate::relevance::RelevanceView;
use crate::rooms::room_of;
use crate::rooms::RoomId;
use crate::rooms::GRID_SIZE;
use crate::timer::TimedText;
use crate::timer::TimerView;
use crate::timer::NANOS_PER_SECOND;
use vstd::prelude::*;

verus! {

/// How many dots the grid has along each axis, on each side of the origin.
pub const NUM_CIRCLES: i32 = 10;

/// How many seconds pass between a spawn and the rewriting of the text.
pub const TIMER_SECONDS: u32 = 5;

/// The room that every client and every new entity starts in.
pub open spec fn lobby() -> RoomId {
    RoomId(0)
}

/// Where a player is spawned.
pub open spec fn spawn_point() -> Point {
    Point { x: 0, y: 0 }
}

/// A player entity as a value.
pub struct PlayerView {
    pub entity: EntityId,
    pub client: ClientId,
    pub text: Seq<char>,
    pub position: Point,
    pub last_position: Point,
    pub replicate: Replicate,
    pub action_state: ActionState,
    pub timer: Option<TimerView>,
}

/// A text entity as a value.
pub struct TextView {
    pub entity: EntityId,
    pub parent: EntityId,
    pub text: Seq<char>,
    pub replicate: Replicate,
    pub timer: Option<TimerView>,
}

/// What the server holds for one connected client.
pub struct SessionView {
    pub player: PlayerView,
    pub text: TextView,
}

impl PlayerView {
    /// The player of `client`, just spawned as `entity`.
    pub open spec fn spawned(client: ClientId, entity: EntityId) -> PlayerView {
        PlayerView {
            entity,
            client,
            text: player_bundle_text(),
            position: spawn_point(),
            last_position: spawn_point(),
            replicate: Replicate {
                relevance_mode: NetworkRelevanceMode::InterestManagement,
                ..Replicate::owned_by(client)
            },
            action_state: ActionState::released(),
            timer: Some(TimerView::armed(TIMER_SECONDS as nat * NANOS_PER_SECOND as nat)),
        }
    }

    pub open spec fn timed(self) -> TimedText {
        TimedText { text: self.text, timer: self.timer }
    }

    /// Whether the player has moved since its relevance was last evaluated.
    pub open spec fn has_moved(self) -> bool {
        self.position != self.last_position
    }

    /// The room that the player was last recorded in.
    pub open spec fn room(self) -> RoomId {
        room_of(self.last_position)
    }
}

impl TextView {
    /// The text entity `entity` of `client`'s player `parent`, just spawned.
    pub open spec fn spawned(client: ClientId, entity: EntityId, parent: EntityId) -> TextView {
        TextView {
            entity,
            parent,
            text: player_text_bundle_text(),
            replicate: Replicate { group: ReplicationGroup::Id(parent), ..Replicate::owned_by(client) },
            timer: Some(TimerView::armed(TIMER_SECONDS as nat * NANOS_PER_SECOND as nat)),
        }
    }

    pub open spec fn timed(self) -> TimedText {
        TimedText { text: self.text, timer: self.timer }
    }
}

impl SessionView {
    /// The two entities of `client`, just spawned as `entity` and `entity + 1`.
    pub open spec fn spawned(client: ClientId, entity: EntityId) -> SessionView {
        SessionView {
            player: PlayerView::spawned(client, entity),
            text: TextView::spawned(client, (entity + 1) as EntityId, entity),
        }
    }

    /// The session after one step of movement.
    pub open spec fn step(self) -> SessionView {
        SessionView {
            player: PlayerView {
                position: moved(Position(self.player.position), self.player.action_state).0,
                ..self.player
            },
            ..self
        }
    }

    /// The session with its last position brought up to its position.
    pub open spec fn synced(self) -> SessionView {
        SessionView {
            player: PlayerView { last_position: self.player.position, ..self.player },
            ..self
        }
    }

    /// The session after its timers have run for `delta` more nanoseconds.
    pub open spec fn check_timers(self, delta: nat) -> SessionView {
        SessionView {
            player: PlayerView {
                text: self.player.timed().check(delta).text,
                timer: self.player.timed().check(delta).timer,
                ..self.player
            },
            text: TextView {
                text: self.text.timed().check(delta).text,
                timer: self.text.timed().check(delta).timer,
                ..self.text
            },
        }
    }
}

/// The dot with the given number: dots are numbered column by column, from
/// the lowest x and, in a column, from the lowest y.
pub open spec fn circle(index: int) -> Candidate {
    Candidate {
        entity: index as EntityId,
        position: Position(
            Point {
                x: ((index / (2 * NUM_CIRCLES as int) - NUM_CIRCLES) * GRID_SIZE) as i32,
                y: ((index % (2 * NUM_CIRCLES as int) - NUM_CIRCLES) * GRID_SIZE) as i32,
            },
        ),
    }
}

/// The dots of the grid: one at every multiple of the room width, from
/// `-NUM_CIRCLES` rooms to `NUM_CIRCLES - 1` rooms along both axes.
pub open spec fn circle_grid() -> Seq<Candidate> {
    Seq::new((4 * NUM_CIRCLES * NUM_CIRCLES) as nat, |index: int| circle(index))
}

/// The whole state of the server as a value.
pub struct ServerView {
    /// Which client is in which room.
    pub room_clients: Set<(ClientId, RoomId)>,
    /// Which entity is in which room.
    pub room_entities: Set<(EntityId, RoomId)>,
    /// Which client sees which entity, and what the replication layer has
    /// yet to be told.
    pub relevance: RelevanceView,
    /// The player entity of each connected client.
    pub client_to_entity: Map<ClientId, EntityId>,
    /// The room of each connected client.
    pub client_to_room: Map<ClientId, RoomId>,
    /// The connected clients with their entities, in the order in which
    /// they connected.
    pub sessions: Seq<SessionView>,
    /// The static dots.
    pub circles: Seq<Candidate>,
    /// The identifier that the next new entity gets.
    pub next_entity: nat,
}

impl ServerView {
    /// The connected clients, in the order of their sessions.
    pub open spec fn client_ids(self) -> Seq<ClientId> {
        self.sessions.map_values(|s: SessionView| s.player.client)
    }

    /// For each session, its client and the room it is recorded in.
    pub open spec fn client_memberships(self) -> Seq<(ClientId, RoomId)> {
        self.sessions.map_values(|s: SessionView| (s.player.client, s.player.room()))
    }

    /// For each session, its player entity and the room it is recorded in.
    pub open spec fn player_memberships(self) -> Seq<(EntityId, RoomId)> {
        self.sessions.map_values(|s: SessionView| (s.player.entity, s.player.room()))
    }

    /// For each session, its text entity and the lobby, which it never
    /// leaves.
    pub open spec fn text_memberships(self) -> Seq<(EntityId, RoomId)> {
        self.sessions.map_values(|s: SessionView| (s.text.entity, lobby()))
    }

    pub open spec fn connected(self, client: ClientId) -> bool {
        self.client_to_entity.dom().contains(client)
    }

    /// The position of `client`'s session among the sessions.
    pub open spec fn session_index(self, client: ClientId) -> int {
        self.client_ids().index_of(client)
    }

    /// Identifiers are given out once: every entity's identifier is below
    /// the next one to give out, and no two entities share one.
    pub open spec fn ids_wf(self) -> bool {
        &&& self.next_entity <= u64::MAX
        &&& forall|k: int| 0 <= k < self.circles.len() ==> (#[trigger] self.circles[k]).entity
            < self.next_entity
        &&& forall|i: int|
            0 <= i < self.sessions.len() ==> {
                &&& (#[trigger] self.sessions[i]).player.entity < self.next_entity
                &&& self.sessions[i].text.entity < self.next_entity
                &&& self.sessions[i].text.parent == self.sessions[i].player.entity
            }
        &&& forall|i: int, j: int|
            0 <= i < self.sessions.len() && 0 <= j < self.sessions.len() && i != j ==> {
                &&& (#[trigger] self.sessions[i]).player.client != (
                #[trigger] self.sessions[j]).player.client
                &&& self.sessions[i].player.entity != self.sessions[j].player.entity
                &&& self.sessions[i].text.entity != self.sessions[j].text.entity
            }
        &&& forall|i: int, j: int|
            0 <= i < self.sessions.len() && 0 <= j < self.sessions.len() ==> (
            #[trigger] self.sessions[i]).player.entity != (#[trigger] self.sessions[j]).text.entity
        &&& forall|i: int, k: int|
            0 <= i < self.sessions.len() && 0 <= k < self.circles.len() ==> {
                &&& (#[trigger] self.sessions[i]).player.entity != (
                #[trigger] self.circles[k]).entity
                &&& self.sessions[i].text.entity != self.circles[k].entity
            }
        &&& forall|k: int, l: int|
            0 <= k < self.circles.len() && 0 <= l < self.circles.len() && k != l ==> (
            #[trigger] self.circles[k]).entity != (#[trigger] self.circles[l]).entity
    }

    /// The rooms hold exactly the connected clients and their entities:
    /// each client and its player entity in the room of the player's last
    /// position, each text entity in the lobby.
    pub open spec fn rooms_wf(self) -> bool {
        &&& self.room_clients == self.client_memberships().to_set()
        &&& self.room_entities == self.player_memberships().to_set()
            + self.text_memberships().to_set()
    }

    /// The two tables list exactly the connected clients, each with its
    /// player entity and with the room it is recorded in.
    pub open spec fn tables_wf(self) -> bool {
        &&& self.client_to_entity.dom() == self.client_ids().to_set()
        &&& self.client_to_room.dom() == self.client_ids().to_set()
        &&& forall|i: int|
            0 <= i < self.sessions.len() ==> {
                &&& self.client_to_entity[(#[trigger] self.sessions[i]).player.client]
                    == self.sessions[i].player.entity
                &&& self.client_to_room[self.sessions[i].player.client]
                    == self.sessions[i].player.room()
            }
    }

    /// Only connected clients see anything, they see only dots, and every
    /// waiting event was a real change.
    pub open spec fn relevance_wf(self) -> bool {
        &&& forall|c: ClientId, e: EntityId| #[trigger]
            self.relevance.visible.contains((c, e)) ==> self.client_ids().contains(c)
                && candidate_entities(self.circles).contains(e)
        &&& consistent(self.relevance.events, self.relevance.visible)
    }

    /// Every timer that is still carried is running.
    pub open spec fn timers_wf(self) -> bool {
        forall|i: int|
            0 <= i < self.sessions.len() ==> (#[trigger] self.sessions[i]).player.timed().wf()
                && self.sessions[i].text.timed().wf()
    }

    pub open spec fn wf(self) -> bool {
        &&& self.ids_wf()
        &&& self.rooms_wf()
        &&& self.tables_wf()
        &&& self.relevance_wf()
        &&& self.timers_wf()
    }

    /// The server at startup: the grid of dots and nobody connected.
    pub open spec fn initial() -> ServerView {
        ServerView {
            room_clients: Set::empty(),
            room_entities: Set::empty(),
            relevance: RelevanceView { visible: Set::empty(), events: Seq::empty() },
            client_to_entity: Map::empty(),
            client_to_room: Map::empty(),
            sessions: Seq::empty(),
            circles: circle_grid(),
            next_entity: circle_grid().len(),
        }
    }

    /// Whether `client` can be given a session: it has none yet, and two
    /// more identifiers are left.
    pub open spec fn admits(self, client: ClientId) -> bool {
        !self.connected(client) && self.next_entity + 2 <= u64::MAX
    }

    /// The server after `client` has connected: its player and its text
    /// entity are spawned, both are in the lobby with the client, and each
    /// carries an armed timer. A client that is not admitted changes nothing.
    pub open spec fn connect(self, client: ClientId) -> ServerView {
        if self.admits(client) {
            let entity = self.next_entity as EntityId;
            let session = SessionView::spawned(client, entity);
            ServerView {
                room_clients: self.room_clients.insert((client, lobby())),
                room_entities: self.room_entities.insert((entity, lobby())).insert(
                    (session.text.entity, lobby()),
                ),
                client_to_entity: self.client_to_entity.insert(client, entity),
                client_to_room: self.client_to_room.insert(client, lobby()),
                sessions: self.sessions.push(session),
                next_entity: self.next_entity + 2,
                ..self
            }
        } else {
            self
        }
    }

    /// The server after `client` has left: its entities are gone from the
    /// world and from their rooms, the client is gone from its room and
    /// from the tables, and nothing is visible to it any more. A client
    /// that is not connected changes nothing.
    pub open spec fn disconnect(self, client: ClientId) -> ServerView {
        if self.connected(client) {
            let i = self.session_index(client);
            let session = self.sessions[i];
            ServerView {
                room_clients: self.room_clients.remove((client, session.player.room())),
                room_entities: self.room_entities.remove(
                    (session.player.entity, session.player.room()),
                ).remove((session.text.entity, lobby())),
                relevance: self.relevance.forget(client),
                client_to_entity: self.client_to_entity.remove(client),
                client_to_room: self.client_to_room.remove(client),
                sessions: self.sessions.remove(i),
                ..self
            }
        } else {
            self
        }
    }

    /// The server after `client`'s input snapshot is replaced.
    pub open spec fn set_input(self, client: ClientId, input: ActionState) -> ServerView {
        if self.connected(client) {
            let i = self.session_index(client);
            let session = self.sessions[i];
            ServerView {
                sessions: self.sessions.update(
                    i,
                    SessionView {
                        player: PlayerView { action_state: input, ..session.player },
                        ..session
                    },
                ),
                ..self
            }
        } else {
            self
        }
    }

    /// The server after `client`'s player is put at `position`.
    pub open spec fn set_position(self, client: ClientId, position: Point) -> ServerView {
        if self.connected(client) {
            let i = self.session_index(client);
            let session = self.sessions[i];
            ServerView {
                sessions: self.sessions.update(
                    i,
                    SessionView { player: PlayerView { position, ..session.player }, ..session },
                ),
                ..self
            }
        } else {
            self
        }
    }

    /// The server after every player has moved by one step under its
    /// input snapshot.
    pub open spec fn movement(self) -> ServerView {
        ServerView { sessions: self.sessions.map_values(|s: SessionView| s.step()), ..self }
    }

    /// The server after the interest of session `i` is brought up to date.
    /// A player that has not moved costs nothing. For one that has, client
    /// and player entity change rooms if the room has changed, both at
    /// once, every dot is judged against the new position, and the last
    /// position is brought up to the position.
    pub open spec fn interest_of(self, i: int) -> ServerView {
        let session = self.sessions[i];
        let player = session.player;
        if player.has_moved() {
            let last_room = room_of(player.last_position);
            let new_room = room_of(player.position);
            ServerView {
                room_clients: self.room_clients.remove((player.client, last_room)).insert(
                    (player.client, new_room),
                ),
                room_entities: self.room_entities.remove((player.entity, last_room)).insert(
                    (player.entity, new_room),
                ),
                relevance: self.relevance.evaluate(player.client, player.position, self.circles),
                client_to_room: self.client_to_room.insert(player.client, new_room),
                sessions: self.sessions.update(i, session.synced()),
                ..self
            }
        } else {
            self
        }
    }

    /// The server after the interest of the first `n` sessions is brought
    /// up to date, in order.
    pub open spec fn interest_upto(self, n: nat) -> ServerView
        decreases n,
    {
        if n == 0 {
            self
        } else {
            self.interest_upto((n - 1) as nat).interest_of(n - 1)
        }
    }

    /// The server after interest management has run over every session.
    pub open spec fn interest_management(self) -> ServerView {
        self.interest_upto(self.sessions.len())
    }

    /// The server after every timer has run for `delta` more nanoseconds.
    pub open spec fn check_timers(self, delta: nat) -> ServerView {
        ServerView {
            sessions: self.sessions.map_values(|s: SessionView| s.check_timers(delta)),
            ..self
        }
    }

    /// The server after the given clients have connected, in order.
    pub open spec fn connect_all(self, clients: Seq<ClientId>) -> ServerView
        decreases clients.len(),
    {
        if clients.len() == 0 {
            self
        } else {
            self.connect_all(clients.drop_last()).connect(clients.last())
        }
    }

    /// The server after the given clients have left, in order.
    pub open spec fn disconnect_all(self, clients: Seq<ClientId>) -> ServerView
        decreases clients.len(),
    {
        if clients.len() == 0 {
            self
        } else {
            self.disconnect_all(clients.drop_last()).disconnect(clients.last())
        }
    }

    /// The server after the given input snapshots have arrived, in order.
    pub open spec fn set_inputs(self, inputs: Seq<(ClientId, ActionState)>) -> ServerView
        decreases inputs.len(),
    {
        if inputs.len() == 0 {
            self
        } else {
            self.set_inputs(inputs.drop_last()).set_input(inputs.last().0, inputs.last().1)
        }
    }

    /// The server after one tick, before the replication layer takes the
    /// waiting events: the queued connections and disconnections are
    /// handled, the new input snapshots are stored, every player moves,
    /// interest management runs, and the timers advance by `delta`
    /// nanoseconds.
    pub open spec fn tick(
        self,
        connections: Seq<ClientId>,
        disconnections: Seq<ClientId>,
        inputs: Seq<(ClientId, ActionState)>,
        delta: nat,
    ) -> ServerView {
        self.connect_all(connections).disconnect_all(disconnections).set_inputs(
            inputs,
        ).movement().interest_management().check_timers(delta)
    }

    /// The server after the replication layer has taken the waiting events.
    pub open spec fn drained(self) -> ServerView {
        ServerView {
            relevance: RelevanceView { visible: self.relevance.visible, events: Seq::empty() },
            ..self
        }
    }
}

} // verus!
