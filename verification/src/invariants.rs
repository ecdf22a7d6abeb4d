//! Proofs that every step of a tick keeps the server's state well formed,
//! and what follows from a well-formed state.

use crate::pair_set::lemma_remove_no_duplicates;
use crate::pair_set::lemma_update_no_duplicates;
use crate::protocol::ActionState;
use crate::protocol::ClientId;
use crate::protocol::EntityId;
use crate::protocol::Point;
use crate::relevance::candidate_entities;
use crate::relevance::events_of;
use crate::relevance::lemma_evaluate_events;
use crate::relevance::in_range;
use crate::relevance::lemma_evaluate_frame;
use crate::relevance::lemma_evaluate_visible;
use crate::relevance::lemma_forget_consistent;
use crate::rooms::room_of;
use crate::rooms::RoomId;
use crate::world::circle;
use crate::world::lobby;
use crate::world::spawn_point;
use crate::world::ServerView;
use crate::world::SessionView;
use vstd::prelude::*;

verus! {

/// In a well-formed state the sessions are told apart by their clients:
/// a client is connected exactly if some session is its own, and then its
/// index is that session's.
pub proof fn lemma_sessions_by_client(view: ServerView)
    requires
        view.ids_wf(),
        view.tables_wf(),
    ensures
        view.client_ids().no_duplicates(),
        view.client_memberships().no_duplicates(),
        view.player_memberships().no_duplicates(),
        view.text_memberships().no_duplicates(),
        forall|i: int|
            0 <= i < view.sessions.len() ==> view.connected(
                (#[trigger] view.sessions[i]).player.client,
            ) && view.session_index(view.sessions[i].player.client) == i,
        forall|c: ClientId| #[trigger]
            view.connected(c) ==> 0 <= view.session_index(c) < view.sessions.len()
                && view.sessions[view.session_index(c)].player.client == c,
{
    let ids = view.client_ids();
    assert forall|i: int| 0 <= i < view.sessions.len() implies view.connected(
        (#[trigger] view.sessions[i]).player.client,
    ) && view.session_index(view.sessions[i].player.client) == i by {
        let c = view.sessions[i].player.client;
        assert(ids[i] == c);
        assert(ids.contains(c));
        let j = ids.index_of(c);
        assert(0 <= j < ids.len() && ids[j] == c);
        assert(view.sessions[j].player.client == c);
    }
    assert forall|c: ClientId| #[trigger] view.connected(c) implies 0 <= view.session_index(c)
        < view.sessions.len() && view.sessions[view.session_index(c)].player.client == c by {
        assert(ids.to_set().contains(c));
        assert(ids.contains(c));
        let j = ids.index_of(c);
        assert(0 <= j < ids.len() && ids[j] == c);
    }
}

/// The state at startup is well formed.
pub proof fn lemma_initial_wf()
    ensures
        ServerView::initial().wf(),
{
    let view = ServerView::initial();
    assert(view.client_ids() =~= Seq::<ClientId>::empty());
    assert(view.client_memberships() =~= Seq::<(ClientId, RoomId)>::empty());
    assert(view.player_memberships() =~= Seq::<(EntityId, RoomId)>::empty());
    assert(view.text_memberships() =~= Seq::<(EntityId, RoomId)>::empty());
    assert(Seq::<ClientId>::empty().to_set() =~= Set::<ClientId>::empty());
    assert(Seq::<(ClientId, RoomId)>::empty().to_set() =~= Set::<(ClientId, RoomId)>::empty());
    assert(Seq::<(EntityId, RoomId)>::empty().to_set() + Seq::<(EntityId, RoomId)>::empty().to_set()
        =~= Set::<(EntityId, RoomId)>::empty());
    assert(view.client_to_entity.dom() =~= Set::<ClientId>::empty());
    assert(view.client_to_room.dom() =~= Set::<ClientId>::empty());
    assert forall|k: int| 0 <= k < view.circles.len() implies (#[trigger] view.circles[k]).entity
        == k by {
        assert(view.circles[k] == circle(k));
    }
}

/// Connecting keeps the state well formed.
pub proof fn lemma_connect_wf(view: ServerView, client: ClientId)
    requires
        view.wf(),
    ensures
        view.connect(client).wf(),
{
    if view.admits(client) {
        let after = view.connect(client);
        let entity = view.next_entity as EntityId;
        let session = SessionView::spawned(client, entity);
        let n = view.sessions.len() as int;
        lemma_sessions_by_client(view);
        assert(room_of(spawn_point()) == lobby());
        assert(session.player.room() == lobby());
        assert forall|i: int| 0 <= i < n implies (#[trigger] view.sessions[i]).player.client
            != client by {}
        assert(after.ids_wf());
        assert(after.client_ids() =~= view.client_ids().push(client));
        assert(after.client_memberships() =~= view.client_memberships().push((client, lobby())));
        assert(after.player_memberships() =~= view.player_memberships().push((entity, lobby())));
        assert(after.text_memberships() =~= view.text_memberships().push(
            (session.text.entity, lobby()),
        ));
        view.client_ids().lemma_push_to_set_commute(client);
        view.client_memberships().lemma_push_to_set_commute((client, lobby()));
        view.player_memberships().lemma_push_to_set_commute((entity, lobby()));
        view.text_memberships().lemma_push_to_set_commute((session.text.entity, lobby()));
        assert(after.room_entities =~= after.player_memberships().to_set()
            + after.text_memberships().to_set());
        assert(after.rooms_wf());
        assert(after.client_to_entity.dom() =~= after.client_ids().to_set());
        assert(after.client_to_room.dom() =~= after.client_ids().to_set());
        assert(after.tables_wf());
        assert forall|c: ClientId, e: EntityId| #[trigger]
            after.relevance.visible.contains((c, e)) implies after.client_ids().contains(c)
            && candidate_entities(after.circles).contains(e) by {
            assert(view.client_ids().contains(c));
            let j = choose|j: int| 0 <= j < view.client_ids().len() && view.client_ids()[j] == c;
            assert(after.client_ids()[j] == c);
        }
        assert(after.timers_wf());
    }
}

/// Replacing an input snapshot keeps the state well formed.
pub proof fn lemma_set_input_wf(view: ServerView, client: ClientId, input: ActionState)
    requires
        view.wf(),
    ensures
        view.set_input(client, input).wf(),
{
    if view.connected(client) {
        let after = view.set_input(client, input);
        lemma_sessions_by_client(view);
        assert(after.client_ids() =~= view.client_ids());
        assert(after.client_memberships() =~= view.client_memberships());
        assert(after.player_memberships() =~= view.player_memberships());
        assert(after.text_memberships() =~= view.text_memberships());
        assert(after.ids_wf());
        assert(after.tables_wf());
        assert(after.timers_wf());
    }
}

/// Putting a player somewhere keeps the state well formed: its recorded
/// room follows only when its interest is next brought up to date.
pub proof fn lemma_set_position_wf(view: ServerView, client: ClientId, position: Point)
    requires
        view.wf(),
    ensures
        view.set_position(client, position).wf(),
{
    if view.connected(client) {
        let after = view.set_position(client, position);
        lemma_sessions_by_client(view);
        assert(after.client_ids() =~= view.client_ids());
        assert(after.client_memberships() =~= view.client_memberships());
        assert(after.player_memberships() =~= view.player_memberships());
        assert(after.text_memberships() =~= view.text_memberships());
        assert(after.ids_wf());
        assert(after.tables_wf());
        assert(after.timers_wf());
    }
}

/// Movement keeps the state well formed.
pub proof fn lemma_movement_wf(view: ServerView)
    requires
        view.wf(),
    ensures
        view.movement().wf(),
{
    let after = view.movement();
    assert(after.client_ids() =~= view.client_ids());
    assert(after.client_memberships() =~= view.client_memberships());
    assert(after.player_memberships() =~= view.player_memberships());
    assert(after.text_memberships() =~= view.text_memberships());
    assert forall|i: int| 0 <= i < after.sessions.len() implies (#[trigger] after.sessions[i])
        == view.sessions[i].step() by {}
    assert(after.ids_wf());
    assert(after.tables_wf());
    assert(after.timers_wf());
}

/// Running the timers keeps the state well formed.
pub proof fn lemma_check_timers_wf(view: ServerView, delta: nat)
    requires
        view.wf(),
    ensures
        view.check_timers(delta).wf(),
{
    let after = view.check_timers(delta);
    assert(after.client_ids() =~= view.client_ids());
    assert(after.client_memberships() =~= view.client_memberships());
    assert(after.player_memberships() =~= view.player_memberships());
    assert(after.text_memberships() =~= view.text_memberships());
    assert forall|i: int| 0 <= i < after.sessions.len() implies (#[trigger] after.sessions[i])
        == view.sessions[i].check_timers(delta) by {}
    assert(after.ids_wf());
    assert(after.tables_wf());
    assert(after.timers_wf());
}

/// Handing the waiting events over keeps the state well formed.
pub proof fn lemma_drained_wf(view: ServerView)
    requires
        view.wf(),
    ensures
        view.drained().wf(),
{
    let after = view.drained();
    assert(after.client_ids() =~= view.client_ids());
    assert(after.client_memberships() =~= view.client_memberships());
    assert(after.player_memberships() =~= view.player_memberships());
    assert(after.text_memberships() =~= view.text_memberships());
}

/// Disconnecting keeps the state well formed.
pub proof fn lemma_disconnect_wf(view: ServerView, client: ClientId)
    requires
        view.wf(),
    ensures
        view.disconnect(client).wf(),
{
    if view.connected(client) {
        let after = view.disconnect(client);
        let i = view.session_index(client);
        let session = view.sessions[i];
        lemma_sessions_by_client(view);
        assert forall|j: int| 0 <= j < after.sessions.len() implies (#[trigger] after.sessions[j])
            == view.sessions[if j < i {
            j
        } else {
            j + 1
        }] by {}
        assert(after.ids_wf());
        let ids = view.client_ids();
        let cm = view.client_memberships();
        let pm = view.player_memberships();
        let tm = view.text_memberships();
        assert(after.client_ids() =~= ids.remove(i));
        assert(after.client_memberships() =~= cm.remove(i));
        assert(after.player_memberships() =~= pm.remove(i));
        assert(after.text_memberships() =~= tm.remove(i));
        lemma_remove_no_duplicates(ids, i);
        lemma_remove_no_duplicates(cm, i);
        lemma_remove_no_duplicates(pm, i);
        lemma_remove_no_duplicates(tm, i);
        assert(!tm.contains(pm[i])) by {
            if tm.contains(pm[i]) {
                let j = choose|j: int| 0 <= j < tm.len() && tm[j] == pm[i];
                assert(view.sessions[j].text.entity == view.sessions[i].player.entity);
            }
        }
        assert(!pm.contains(tm[i])) by {
            if pm.contains(tm[i]) {
                let j = choose|j: int| 0 <= j < pm.len() && pm[j] == tm[i];
                assert(view.sessions[j].player.entity == view.sessions[i].text.entity);
            }
        }
        assert(after.room_entities =~= after.player_memberships().to_set()
            + after.text_memberships().to_set());
        assert(after.rooms_wf());
        assert(after.client_to_entity.dom() =~= after.client_ids().to_set());
        assert(after.client_to_room.dom() =~= after.client_ids().to_set());
        assert(after.tables_wf());
        lemma_forget_consistent(view.relevance, client);
        assert forall|c: ClientId, e: EntityId| #[trigger]
            after.relevance.visible.contains((c, e)) implies after.client_ids().contains(c)
            && candidate_entities(after.circles).contains(e) by {
            assert(view.relevance.visible.contains((c, e)));
            assert(ids.to_set().remove(client).contains(c));
        }
        assert(after.timers_wf());
    }
}

/// Bringing the interest of one session up to date keeps the state well
/// formed, and touches no session but that one.
pub proof fn lemma_interest_of_wf(view: ServerView, i: int)
    requires
        view.wf(),
        0 <= i < view.sessions.len(),
    ensures
        view.interest_of(i).wf(),
        view.interest_of(i).sessions == view.sessions.update(i, view.sessions[i].synced()),
        view.interest_of(i).circles == view.circles,
        view.interest_of(i).next_entity == view.next_entity,
        view.interest_of(i).client_to_entity == view.client_to_entity,
{
    let session = view.sessions[i];
    let player = session.player;
    let after = view.interest_of(i);
    if player.has_moved() {
        let last_room = room_of(player.last_position);
        let new_room = room_of(player.position);
        lemma_sessions_by_client(view);
        assert forall|j: int| 0 <= j < after.sessions.len() implies (#[trigger] after.sessions[j])
            == (if j == i {
            session.synced()
        } else {
            view.sessions[j]
        }) by {}
        assert(after.ids_wf());
        let cm = view.client_memberships();
        let pm = view.player_memberships();
        let tm = view.text_memberships();
        assert(after.client_ids() =~= view.client_ids());
        assert(after.client_memberships() =~= cm.update(i, (player.client, new_room)));
        assert(after.player_memberships() =~= pm.update(i, (player.entity, new_room)));
        assert(after.text_memberships() =~= tm);
        assert(!cm.contains((player.client, new_room)) || cm[i] == (player.client, new_room)) by {
            if cm.contains((player.client, new_room)) {
                let j = choose|j: int| 0 <= j < cm.len() && cm[j] == (player.client, new_room);
                assert(view.sessions[j].player.client == view.sessions[i].player.client);
            }
        }
        assert(!pm.contains((player.entity, new_room)) || pm[i] == (player.entity, new_room)) by {
            if pm.contains((player.entity, new_room)) {
                let j = choose|j: int| 0 <= j < pm.len() && pm[j] == (player.entity, new_room);
                assert(view.sessions[j].player.entity == view.sessions[i].player.entity);
            }
        }
        lemma_update_no_duplicates(cm, i, (player.client, new_room));
        lemma_update_no_duplicates(pm, i, (player.entity, new_room));
        assert(!tm.contains(pm[i])) by {
            if tm.contains(pm[i]) {
                let j = choose|j: int| 0 <= j < tm.len() && tm[j] == pm[i];
                assert(view.sessions[j].text.entity == view.sessions[i].player.entity);
            }
        }
        assert(after.room_entities =~= after.player_memberships().to_set()
            + after.text_memberships().to_set());
        assert(after.rooms_wf());
        assert(after.client_to_room.dom() =~= view.client_to_room.dom());
        assert(after.tables_wf());
        lemma_evaluate_frame(view.relevance, player.client, player.position, view.circles);
        assert(view.client_ids()[i] == player.client);
        assert(after.relevance_wf());
        assert(after.timers_wf());
    } else {
        assert(session.synced() == session);
        assert(view.sessions.update(i, session) =~= view.sessions);
    }
}

/// Bringing the interest of the first `n` sessions up to date keeps the
/// state well formed, brings the last position of each of them up to its
/// position, and leaves the other sessions, the dots and the table of
/// player entities as they were.
pub proof fn lemma_interest_upto(view: ServerView, n: nat)
    requires
        view.wf(),
        n <= view.sessions.len(),
    ensures
        view.interest_upto(n).wf(),
        view.interest_upto(n).sessions.len() == view.sessions.len(),
        forall|j: int|
            0 <= j < view.sessions.len() ==> (#[trigger] view.interest_upto(n).sessions[j]) == (if j
                < n {
                view.sessions[j].synced()
            } else {
                view.sessions[j]
            }),
        view.interest_upto(n).circles == view.circles,
        view.interest_upto(n).next_entity == view.next_entity,
        view.interest_upto(n).client_to_entity == view.client_to_entity,
    decreases n,
{
    if n > 0 {
        lemma_interest_upto(view, (n - 1) as nat);
        lemma_interest_of_wf(view.interest_upto((n - 1) as nat), n - 1);
    }
}

/// In a well-formed state every client, and its player entity, is
/// recorded in the room of its player's last position and in no other,
/// and every text entity in the lobby and in no other room.
pub proof fn lemma_rooms_follow_last_positions(view: ServerView)
    requires
        view.wf(),
    ensures
        forall|i: int, room: RoomId|
            0 <= i < view.sessions.len() ==> (#[trigger] view.room_clients.contains(
                (view.sessions[i].player.client, room),
            ) <==> room == room_of(view.sessions[i].player.last_position)),
        forall|i: int, room: RoomId|
            0 <= i < view.sessions.len() ==> (#[trigger] view.room_entities.contains(
                (view.sessions[i].player.entity, room),
            ) <==> room == room_of(view.sessions[i].player.last_position)),
        forall|i: int, room: RoomId|
            0 <= i < view.sessions.len() ==> (#[trigger] view.room_entities.contains(
                (view.sessions[i].text.entity, room),
            ) <==> room == lobby()),
{
    let cm = view.client_memberships();
    let pm = view.player_memberships();
    let tm = view.text_memberships();
    assert forall|i: int, room: RoomId| 0 <= i < view.sessions.len() implies (
    #[trigger] view.room_clients.contains((view.sessions[i].player.client, room)) <==> room
        == room_of(view.sessions[i].player.last_position)) by {
        let pair = (view.sessions[i].player.client, room);
        if cm.contains(pair) {
            let j = choose|j: int| 0 <= j < cm.len() && cm[j] == pair;
            assert(view.sessions[j].player.client == view.sessions[i].player.client);
        }
        if room == room_of(view.sessions[i].player.last_position) {
            assert(cm[i] == pair);
        }
    }
    assert forall|i: int, room: RoomId| 0 <= i < view.sessions.len() implies (
    #[trigger] view.room_entities.contains((view.sessions[i].player.entity, room)) <==> room
        == room_of(view.sessions[i].player.last_position)) by {
        let pair = (view.sessions[i].player.entity, room);
        if pm.contains(pair) {
            let j = choose|j: int| 0 <= j < pm.len() && pm[j] == pair;
            assert(view.sessions[j].player.entity == view.sessions[i].player.entity);
        }
        if tm.contains(pair) {
            let j = choose|j: int| 0 <= j < tm.len() && tm[j] == pair;
            assert(view.sessions[j].text.entity == view.sessions[i].player.entity);
        }
        if room == room_of(view.sessions[i].player.last_position) {
            assert(pm[i] == pair);
        }
    }
    assert forall|i: int, room: RoomId| 0 <= i < view.sessions.len() implies (
    #[trigger] view.room_entities.contains((view.sessions[i].text.entity, room)) <==> room
        == lobby()) by {
        let pair = (view.sessions[i].text.entity, room);
        if pm.contains(pair) {
            let j = choose|j: int| 0 <= j < pm.len() && pm[j] == pair;
            assert(view.sessions[j].player.entity == view.sessions[i].text.entity);
        }
        if tm.contains(pair) {
            let j = choose|j: int| 0 <= j < tm.len() && tm[j] == pair;
            assert(view.sessions[j].text.entity == view.sessions[i].text.entity);
        }
        if room == lobby() {
            assert(tm[i] == pair);
        }
    }
}

/// After interest management the state is well formed, nobody's position
/// has changed, and every client and every player entity is recorded in
/// the room of its player's position and in no other: no membership is
/// stale.
pub proof fn lemma_rooms_follow_positions(view: ServerView)
    requires
        view.wf(),
    ensures
        view.interest_management().wf(),
        view.interest_management().sessions == view.sessions.map_values(
            |s: SessionView| s.synced(),
        ),
        forall|i: int, room: RoomId|
            0 <= i < view.sessions.len() ==> (#[trigger] view.interest_management().room_clients.contains(
                (view.sessions[i].player.client, room),
            ) <==> room == room_of(view.sessions[i].player.position)),
        forall|i: int, room: RoomId|
            0 <= i < view.sessions.len() ==> (#[trigger] view.interest_management().room_entities.contains(
                (view.sessions[i].player.entity, room),
            ) <==> room == room_of(view.sessions[i].player.position)),
{
    let after = view.interest_management();
    lemma_interest_upto(view, view.sessions.len());
    lemma_rooms_follow_last_positions(after);
    assert(after.sessions =~= view.sessions.map_values(|s: SessionView| s.synced()));
    assert forall|i: int, room: RoomId| 0 <= i < view.sessions.len() implies (
    #[trigger] after.room_clients.contains((view.sessions[i].player.client, room)) <==> room
        == room_of(view.sessions[i].player.position)) by {
        assert(after.sessions[i] == view.sessions[i].synced());
    }
    assert forall|i: int, room: RoomId| 0 <= i < view.sessions.len() implies (
    #[trigger] after.room_entities.contains((view.sessions[i].player.entity, room)) <==> room
        == room_of(view.sessions[i].player.position)) by {
        assert(after.sessions[i] == view.sessions[i].synced());
    }
}

/// Handling a queue of connections keeps the state well formed.
pub proof fn lemma_connect_all_wf(view: ServerView, clients: Seq<ClientId>)
    requires
        view.wf(),
    ensures
        view.connect_all(clients).wf(),
    decreases clients.len(),
{
    if clients.len() > 0 {
        lemma_connect_all_wf(view, clients.drop_last());
        lemma_connect_wf(view.connect_all(clients.drop_last()), clients.last());
    }
}

/// Handling a queue of disconnections keeps the state well formed.
pub proof fn lemma_disconnect_all_wf(view: ServerView, clients: Seq<ClientId>)
    requires
        view.wf(),
    ensures
        view.disconnect_all(clients).wf(),
    decreases clients.len(),
{
    if clients.len() > 0 {
        lemma_disconnect_all_wf(view, clients.drop_last());
        lemma_disconnect_wf(view.disconnect_all(clients.drop_last()), clients.last());
    }
}

/// Storing a queue of input snapshots keeps the state well formed.
pub proof fn lemma_set_inputs_wf(view: ServerView, inputs: Seq<(ClientId, ActionState)>)
    requires
        view.wf(),
    ensures
        view.set_inputs(inputs).wf(),
    decreases inputs.len(),
{
    if inputs.len() > 0 {
        lemma_set_inputs_wf(view, inputs.drop_last());
        lemma_set_input_wf(view.set_inputs(inputs.drop_last()), inputs.last().0, inputs.last().1);
    }
}

/// What interest management leaves alone for a player that has not moved,
/// after the first `n` sessions.
pub open spec fn untouched(view: ServerView, after: ServerView, i: int) -> bool {
    let player = view.sessions[i].player;
    &&& after.sessions[i] == view.sessions[i]
    &&& after.client_to_room[player.client] == view.client_to_room[player.client]
    &&& forall|room: RoomId| #[trigger]
        after.room_clients.contains((player.client, room)) == view.room_clients.contains(
            (player.client, room),
        )
    &&& forall|room: RoomId| #[trigger]
        after.room_entities.contains((player.entity, room)) == view.room_entities.contains(
            (player.entity, room),
        )
    &&& forall|e: EntityId| #[trigger]
        after.relevance.visible.contains((player.client, e)) == view.relevance.visible.contains(
            (player.client, e),
        )
    &&& events_of(after.relevance.events, player.client) == events_of(
        view.relevance.events,
        player.client,
    )
}

proof fn lemma_unmoved_upto(view: ServerView, i: int, n: nat)
    requires
        view.wf(),
        0 <= i < view.sessions.len(),
        n <= view.sessions.len(),
        !view.sessions[i].player.has_moved(),
    ensures
        untouched(view, view.interest_upto(n), i),
    decreases n,
{
    if n > 0 {
        let before = view.interest_upto((n - 1) as nat);
        let after = view.interest_upto(n);
        let j = n - 1;
        lemma_unmoved_upto(view, i, (n - 1) as nat);
        lemma_interest_upto(view, (n - 1) as nat);
        lemma_interest_upto(view, n);
        assert(before.sessions[j] == view.sessions[j]);
        assert(before.sessions[i] == view.sessions[i]);
        let mover = before.sessions[j].player;
        let player = view.sessions[i].player;
        if j != i && mover.has_moved() {
            assert(mover.client != player.client);
            assert(mover.entity != player.entity);
            lemma_evaluate_frame(before.relevance, mover.client, mover.position, before.circles);
            lemma_evaluate_events(
                before.relevance,
                mover.client,
                mover.position,
                before.circles,
                player.client,
            );
        }
    }
}

/// A player that has not moved since its interest was last brought up to
/// date causes no recomputation: interest management leaves its session,
/// the rooms of its client and of its entity, what its client sees, and
/// what the replication layer is told about its client as they were.
pub proof fn lemma_unmoved_is_untouched(view: ServerView, i: int)
    requires
        view.wf(),
        0 <= i < view.sessions.len(),
        !view.sessions[i].player.has_moved(),
    ensures
        untouched(view, view.interest_management(), i),
{
    lemma_unmoved_upto(view, i, view.sessions.len());
}

/// When nobody has moved, interest management changes nothing at all.
pub proof fn lemma_nobody_moved(view: ServerView, n: nat)
    requires
        n <= view.sessions.len(),
        forall|i: int| 0 <= i < view.sessions.len() ==> !(#[trigger] view.sessions[i]).player.has_moved(),
    ensures
        view.interest_upto(n) == view,
    decreases n,
{
    if n > 0 {
        lemma_nobody_moved(view, (n - 1) as nat);
    }
}

proof fn lemma_moved_upto(view: ServerView, i: int, n: nat)
    requires
        view.wf(),
        0 <= i < n <= view.sessions.len(),
        view.sessions[i].player.has_moved(),
    ensures
        forall|k: int|
            0 <= k < view.circles.len() ==> (view.interest_upto(n).relevance.visible.contains(
                (view.sessions[i].player.client, #[trigger] view.circles[k].entity),
            ) <==> in_range(view.sessions[i].player.position, view.circles[k].position.0)),
    decreases n,
{
    let before = view.interest_upto((n - 1) as nat);
    let j = n - 1;
    lemma_interest_upto(view, (n - 1) as nat);
    assert(before.sessions[j] == view.sessions[j]);
    let mover = before.sessions[j].player;
    let player = view.sessions[i].player;
    if j == i {
        assert(candidate_entities(view.circles).no_duplicates());
        lemma_evaluate_visible(before.relevance, mover.client, mover.position, view.circles);
    } else {
        lemma_moved_upto(view, i, (n - 1) as nat);
        if mover.has_moved() {
            assert(mover.client != player.client);
            lemma_evaluate_frame(before.relevance, mover.client, mover.position, before.circles);
        }
    }
}

/// After interest management the client of a player that has moved sees
/// exactly the dots that are closer to the player than the interest
/// radius: a dot exactly at the radius is hidden.
pub proof fn lemma_moved_sees_dots_in_range(view: ServerView, i: int)
    requires
        view.wf(),
        0 <= i < view.sessions.len(),
        view.sessions[i].player.has_moved(),
    ensures
        forall|k: int|
            0 <= k < view.circles.len() ==> (view.interest_management().relevance.visible.contains(
                (view.sessions[i].player.client, #[trigger] view.circles[k].entity),
            ) <==> in_range(view.sessions[i].player.position, view.circles[k].position.0)),
{
    lemma_moved_upto(view, i, view.sessions.len());
}

/// A tick keeps the state well formed, and after it no room membership is
/// stale: every client and every player entity is recorded in the room of
/// its player's position and in no other.
pub proof fn lemma_tick_rooms_follow_positions(
    view: ServerView,
    connections: Seq<ClientId>,
    disconnections: Seq<ClientId>,
    inputs: Seq<(ClientId, ActionState)>,
    delta: nat,
)
    requires
        view.wf(),
    ensures
        view.tick(connections, disconnections, inputs, delta).wf(),
        view.tick(connections, disconnections, inputs, delta).drained().wf(),
        forall|i: int, room: RoomId|
            0 <= i < view.tick(connections, disconnections, inputs, delta).sessions.len() ==> (
            #[trigger] view.tick(connections, disconnections, inputs, delta).room_clients.contains(
                (view.tick(connections, disconnections, inputs, delta).sessions[i].player.client, room),
            ) <==> room == room_of(
                view.tick(connections, disconnections, inputs, delta).sessions[i].player.position,
            )),
        forall|i: int, room: RoomId|
            0 <= i < view.tick(connections, disconnections, inputs, delta).sessions.len() ==> (
            #[trigger] view.tick(connections, disconnections, inputs, delta).room_entities.contains(
                (view.tick(connections, disconnections, inputs, delta).sessions[i].player.entity, room),
            ) <==> room == room_of(
                view.tick(connections, disconnections, inputs, delta).sessions[i].player.position,
            )),
{
    let connected = view.connect_all(connections);
    lemma_connect_all_wf(view, connections);
    let left = connected.disconnect_all(disconnections);
    lemma_disconnect_all_wf(connected, disconnections);
    let stored = left.set_inputs(inputs);
    lemma_set_inputs_wf(left, inputs);
    let moved = stored.movement();
    lemma_movement_wf(stored);
    let judged = moved.interest_management();
    lemma_rooms_follow_positions(moved);
    let after = judged.check_timers(delta);
    lemma_check_timers_wf(judged, delta);
    lemma_drained_wf(after);
    assert(after == view.tick(connections, disconnections, inputs, delta));
    assert forall|i: int| 0 <= i < after.sessions.len() implies (#[trigger] after.sessions[i])
        == moved.sessions[i].synced().check_timers(delta) by {
        assert(judged.sessions[i] == moved.sessions[i].synced());
    }
}

} // verus!
