//! The coarse partition of the world into rooms, and who is in which room.

use crate::pair_set::Key;
use crate::pair_set::PairSet;
use crate::protocol::ClientId;
use crate::protocol::EntityId;
use crate::protocol::Point;
use vstd::prelude::*;

verus! {

/// The width of a room, in grid units.
pub const GRID_SIZE: i32 = 200;

/// Identifies a room: the number of its band along the x axis.
#[derive(Clone, Copy, Debug, PartialEq, Eq, Structural)]
pub struct RoomId(pub i64);

impl Key for RoomId {
    fn same(&self, other: &Self) -> (equal: bool) {
        self.0 == other.0
    }
}

/// The room that holds a position: its x coordinate divided by the room
/// width, rounded down.
pub open spec fn room_of(position: Point) -> RoomId {
    RoomId((position.x as int / GRID_SIZE as int) as i64)
}

pub fn room_for(position: Point) -> (room: RoomId)
    ensures
        room == room_of(position),
{
    let x: i64 = position.x as i64;
    if x >= 0 {
        RoomId(x / 200)
    } else {
        RoomId(-((199 - x) / 200))
    }
}

/// Which clients and which entities are in which rooms.
pub struct RoomManager {
    clients: PairSet<ClientId, RoomId>,
    entities: PairSet<EntityId, RoomId>,
}

impl RoomManager {
    /// The pairs of a client and a room that it is in.
    pub closed spec fn clients(&self) -> Set<(ClientId, RoomId)> {
        self.clients@
    }

    /// The pairs of an entity and a room that it is in.
    pub closed spec fn entities(&self) -> Set<(EntityId, RoomId)> {
        self.entities@
    }

    pub closed spec fn wf(&self) -> bool {
        self.clients.wf() && self.entities.wf()
    }

    pub fn new() -> (rooms: Self)
        ensures
            rooms.wf(),
            rooms.clients() == Set::<(ClientId, RoomId)>::empty(),
            rooms.entities() == Set::<(EntityId, RoomId)>::empty(),
    {
        RoomManager { clients: PairSet::new(), entities: PairSet::new() }
    }

    pub fn add_client(&mut self, client: ClientId, room: RoomId)
        requires
            old(self).wf(),
        ensures
            final(self).wf(),
            final(self).clients() == old(self).clients().insert((client, room)),
            final(self).entities() == old(self).entities(),
    {
        self.clients.insert(client, room);
    }

    pub fn remove_client(&mut self, client: ClientId, room: RoomId)
        requires
            old(self).wf(),
        ensures
            final(self).wf(),
            final(self).clients() == old(self).clients().remove((client, room)),
            final(self).entities() == old(self).entities(),
    {
        self.clients.remove(client, room);
    }

    pub fn add_entity(&mut self, entity: EntityId, room: RoomId)
        requires
            old(self).wf(),
        ensures
            final(self).wf(),
            final(self).entities() == old(self).entities().insert((entity, room)),
            final(self).clients() == old(self).clients(),
    {
        self.entities.insert(entity, room);
    }

    pub fn remove_entity(&mut self, entity: EntityId, room: RoomId)
        requires
            old(self).wf(),
        ensures
            final(self).wf(),
            final(self).entities() == old(self).entities().remove((entity, room)),
            final(self).clients() == old(self).clients(),
    {
        self.entities.remove(entity, room);
    }

    /// Takes a client that has left out of every room.
    pub fn client_disconnect(&mut self, client: ClientId)
        requires
            old(self).wf(),
        ensures
            final(self).wf(),
            final(self).clients() == old(self).clients().filter(
                |p: (ClientId, RoomId)| p.0 != client,
            ),
            final(self).entities() == old(self).entities(),
    {
        self.clients.remove_left(client);
    }

    /// Takes an entity that is gone out of every room.
    pub fn entity_despawn(&mut self, entity: EntityId)
        requires
            old(self).wf(),
        ensures
            final(self).wf(),
            final(self).entities() == old(self).entities().filter(
                |p: (EntityId, RoomId)| p.0 != entity,
            ),
            final(self).clients() == old(self).clients(),
    {
        self.entities.remove_left(entity);
    }

    pub fn has_client_id(&self, client: ClientId, room: RoomId) -> (held: bool)
        ensures
            held == self.clients().contains((client, room)),
    {
        self.clients.contains(client, room)
    }

    pub fn has_entity(&self, entity: EntityId, room: RoomId) -> (held: bool)
        ensures
            held == self.entities().contains((entity, room)),
    {
        self.entities.contains(entity, room)
    }

    /// The clients in a room, each once.
    pub fn clients_in(&self, room: RoomId) -> (members: Vec<ClientId>)
        requires
            self.wf(),
        ensures
            members@.no_duplicates(),
            forall|c: ClientId| #[trigger]
                members@.contains(c) <==> self.clients().contains((c, room)),
    {
        self.clients.lefts_of(room)
    }

    /// The entities in a room, each once.
    pub fn entities_in(&self, room: RoomId) -> (members: Vec<EntityId>)
        requires
            self.wf(),
        ensures
            members@.no_duplicates(),
            forall|e: EntityId| #[trigger]
                members@.contains(e) <==> self.entities().contains((e, room)),
    {
        self.entities.lefts_of(room)
    }
}

} // verus!
