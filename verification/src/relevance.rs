//! The table of which client sees which entity, and the distance rule that
//! fills it.

use crate::pair_set::PairSet;
use crate::protocol::ClientId;
use crate::protocol::EntityId;
use crate::protocol::Point;
use crate::protocol::Position;
use vstd::prelude::*;

verus! {

/// A client sees the candidates that are closer to its player than this.
pub const INTEREST_RADIUS: i32 = 150;

/// The square of the Euclidean distance between two points.
pub open spec fn distance_squared(a: Point, b: Point) -> int {
    (a.x - b.x) * (a.x - b.x) + (a.y - b.y) * (a.y - b.y)
}

/// Whether two points are closer than the interest radius. A point exactly
/// at the radius is not.
pub open spec fn in_range(a: Point, b: Point) -> bool {
    distance_squared(a, b) < INTEREST_RADIUS * INTEREST_RADIUS
}

pub fn within_interest_radius(a: Point, b: Point) -> (near: bool)
    ensures
        near == in_range(a, b),
{
    let dx: i128 = a.x as i128 - b.x as i128;
    let dy: i128 = a.y as i128 - b.y as i128;
    assert(0 <= dx * dx <= 0x1_0000_0000_0000_0000) by (nonlinear_arith)
        requires
            -0x1_0000_0000 <= dx <= 0x1_0000_0000,
    ;
    assert(0 <= dy * dy <= 0x1_0000_0000_0000_0000) by (nonlinear_arith)
        requires
            -0x1_0000_0000 <= dy <= 0x1_0000_0000,
    ;
    dx * dx + dy * dy < 22500
}

/// What the replication layer is told.
#[derive(Clone, Copy, Debug, PartialEq, Eq, Structural)]
pub enum RelevanceEvent {
    /// Start synchronising the entity to the client.
    Gained { client: ClientId, entity: EntityId },
    /// Stop synchronising the entity to the client.
    Lost { client: ClientId, entity: EntityId },
}

impl RelevanceEvent {
    pub open spec fn client_spec(self) -> ClientId {
        match self {
            RelevanceEvent::Gained { client, .. } => client,
            RelevanceEvent::Lost { client, .. } => client,
        }
    }

    pub fn client(&self) -> (client: ClientId)
        ensures
            client == self.client_spec(),
    {
        match self {
            RelevanceEvent::Gained { client, .. } => *client,
            RelevanceEvent::Lost { client, .. } => *client,
        }
    }
}

/// An entity that clients may come to see, and where it is.
#[derive(Clone, Copy, Debug, PartialEq, Eq, Structural)]
pub struct Candidate {
    pub entity: EntityId,
    pub position: Position,
}

/// The relevance table as a value: the visible pairs, and the events that
/// wait for the replication layer, oldest first.
pub struct RelevanceView {
    pub visible: Set<(ClientId, EntityId)>,
    pub events: Seq<RelevanceEvent>,
}

/// Every waiting event was a real change: read backwards from `visible`,
/// each gain finds its pair visible and each loss finds it hidden.
pub open spec fn consistent(events: Seq<RelevanceEvent>, visible: Set<(ClientId, EntityId)>) -> bool
    decreases events.len(),
{
    if events.len() == 0 {
        true
    } else {
        match events.last() {
            RelevanceEvent::Gained { client, entity } => visible.contains((client, entity))
                && consistent(events.drop_last(), visible.remove((client, entity))),
            RelevanceEvent::Lost { client, entity } => !visible.contains((client, entity))
                && consistent(events.drop_last(), visible.insert((client, entity))),
        }
    }
}

impl RelevanceView {
    /// The table after `entity` is made visible to `client`.
    pub open spec fn gain(self, client: ClientId, entity: EntityId) -> RelevanceView {
        if self.visible.contains((client, entity)) {
            self
        } else {
            RelevanceView {
                visible: self.visible.insert((client, entity)),
                events: self.events.push(RelevanceEvent::Gained { client, entity }),
            }
        }
    }

    /// The table after `entity` is hidden from `client`.
    pub open spec fn lose(self, client: ClientId, entity: EntityId) -> RelevanceView {
        if self.visible.contains((client, entity)) {
            RelevanceView {
                visible: self.visible.remove((client, entity)),
                events: self.events.push(RelevanceEvent::Lost { client, entity }),
            }
        } else {
            self
        }
    }

    /// The table after each candidate, in turn, is made visible to `client`
    /// if it is in range of `origin` and hidden from it if not.
    pub open spec fn evaluate(
        self,
        client: ClientId,
        origin: Point,
        candidates: Seq<Candidate>,
    ) -> RelevanceView
        decreases candidates.len(),
    {
        if candidates.len() == 0 {
            self
        } else {
            let before = self.evaluate(client, origin, candidates.drop_last());
            let last = candidates.last();
            if in_range(origin, last.position.0) {
                before.gain(client, last.entity)
            } else {
                before.lose(client, last.entity)
            }
        }
    }

    /// The table after `client` has left: its pairs and its waiting events
    /// are gone.
    pub open spec fn forget(self, client: ClientId) -> RelevanceView {
        RelevanceView {
            visible: self.visible.filter(|p: (ClientId, EntityId)| p.0 != client),
            events: self.events.filter(|ev: RelevanceEvent| ev.client_spec() != client),
        }
    }
}

/// The events that concern `client`, in order.
pub open spec fn events_of(events: Seq<RelevanceEvent>, client: ClientId) -> Seq<RelevanceEvent> {
    events.filter(|ev: RelevanceEvent| ev.client_spec() == client)
}

/// The entities of the candidates, in order.
pub open spec fn candidate_entities(candidates: Seq<Candidate>) -> Seq<EntityId> {
    candidates.map_values(|c: Candidate| c.entity)
}

/// Evaluation touches only the pairs of the given client with the
/// candidates, and keeps the events consistent.
pub proof fn lemma_evaluate_frame(
    view: RelevanceView,
    client: ClientId,
    origin: Point,
    candidates: Seq<Candidate>,
)
    ensures
        forall|c: ClientId, e: EntityId|
            c != client || !candidate_entities(candidates).contains(e) ==> (#[trigger] view.evaluate(
                client,
                origin,
                candidates,
            ).visible.contains((c, e)) <==> view.visible.contains((c, e))),
        consistent(view.events, view.visible) ==> consistent(
            view.evaluate(client, origin, candidates).events,
            view.evaluate(client, origin, candidates).visible,
        ),
    decreases candidates.len(),
{
    if candidates.len() > 0 {
        let rest = candidates.drop_last();
        let last = candidates.last();
        let before = view.evaluate(client, origin, rest);
        lemma_evaluate_frame(view, client, origin, rest);
        assert forall|c: ClientId, e: EntityId|
            c != client || !candidate_entities(candidates).contains(e) implies (
        #[trigger] view.evaluate(client, origin, candidates).visible.contains((c, e))
            <==> view.visible.contains((c, e))) by {
            if c == client {
                assert(candidate_entities(candidates)[candidates.len() - 1] == last.entity);
                assert(e != last.entity);
                if candidate_entities(rest).contains(e) {
                    let j = choose|j: int|
                        0 <= j < rest.len() && candidate_entities(rest)[j] == e;
                    assert(candidate_entities(candidates)[j] == e);
                }
            }
        }
        if consistent(view.events, view.visible) {
            let pair = (client, last.entity);
            if in_range(origin, last.position.0) {
                if !before.visible.contains(pair) {
                    assert(before.visible.insert(pair).remove(pair) =~= before.visible);
                    assert(before.events.push(
                        RelevanceEvent::Gained { client, entity: last.entity },
                    ).drop_last() =~= before.events);
                }
            } else {
                if before.visible.contains(pair) {
                    assert(before.visible.remove(pair).insert(pair) =~= before.visible);
                    assert(before.events.push(
                        RelevanceEvent::Lost { client, entity: last.entity },
                    ).drop_last() =~= before.events);
                }
            }
        }
    }
}

/// An evaluation for one client tells the replication layer nothing about
/// another.
pub proof fn lemma_evaluate_events(
    view: RelevanceView,
    client: ClientId,
    origin: Point,
    candidates: Seq<Candidate>,
    other: ClientId,
)
    requires
        other != client,
    ensures
        events_of(view.evaluate(client, origin, candidates).events, other) == events_of(
            view.events,
            other,
        ),
    decreases candidates.len(),
{
    if candidates.len() > 0 {
        let rest = candidates.drop_last();
        let last = candidates.last();
        let before = view.evaluate(client, origin, rest);
        let concerns = |ev: RelevanceEvent| ev.client_spec() == other;
        lemma_evaluate_events(view, client, origin, rest, other);
        before.events.lemma_filter_push(
            RelevanceEvent::Gained { client, entity: last.entity },
            concerns,
        );
        before.events.lemma_filter_push(
            RelevanceEvent::Lost { client, entity: last.entity },
            concerns,
        );
    }
}

/// After an evaluation over candidates that are all different entities, the
/// client sees exactly the candidates in range.
pub proof fn lemma_evaluate_visible(
    view: RelevanceView,
    client: ClientId,
    origin: Point,
    candidates: Seq<Candidate>,
)
    requires
        candidate_entities(candidates).no_duplicates(),
    ensures
        forall|k: int|
            0 <= k < candidates.len() ==> (view.evaluate(
                client,
                origin,
                candidates,
            ).visible.contains((client, #[trigger] candidates[k].entity)) <==> in_range(
                origin,
                candidates[k].position.0,
            )),
    decreases candidates.len(),
{
    if candidates.len() > 0 {
        let rest = candidates.drop_last();
        let last = candidates.last();
        let n = candidates.len() - 1;
        assert(candidate_entities(rest) =~= candidate_entities(candidates).drop_last());
        lemma_evaluate_visible(view, client, origin, rest);
        assert forall|k: int| 0 <= k < candidates.len() implies (view.evaluate(
            client,
            origin,
            candidates,
        ).visible.contains((client, #[trigger] candidates[k].entity)) <==> in_range(
            origin,
            candidates[k].position.0,
        )) by {
            if k < n {
                assert(rest[k] == candidates[k]);
                assert(candidate_entities(candidates)[k] != candidate_entities(candidates)[n]);
            }
        }
    }
}

/// Forgetting a client keeps the waiting events consistent.
pub proof fn lemma_forget_consistent(view: RelevanceView, client: ClientId)
    requires
        consistent(view.events, view.visible),
    ensures
        consistent(view.forget(client).events, view.forget(client).visible),
    decreases view.events.len(),
{
    let keep_event = |ev: RelevanceEvent| ev.client_spec() != client;
    let keep_pair = |p: (ClientId, EntityId)| p.0 != client;
    if view.events.len() == 0 {
        assert(view.events.filter(keep_event).len() <= view.events.len()) by {
            view.events.lemma_filter_len(keep_event);
        }
    } else {
        let last = view.events.last();
        let rest = view.events.drop_last();
        assert(view.events =~= rest.push(last));
        rest.lemma_filter_push(last, keep_event);
        let pair = match last {
            RelevanceEvent::Gained { client: c, entity: e } => (c, e),
            RelevanceEvent::Lost { client: c, entity: e } => (c, e),
        };
        let before = RelevanceView {
            visible: match last {
                RelevanceEvent::Gained { .. } => view.visible.remove(pair),
                RelevanceEvent::Lost { .. } => view.visible.insert(pair),
            },
            events: rest,
        };
        lemma_forget_consistent(before, client);
        let kept = rest.filter(keep_event);
        assert(view.forget(client).events == view.events.filter(keep_event));
        assert(view.forget(client).visible == view.visible.filter(keep_pair));
        assert(before.forget(client).events == kept);
        assert(before.forget(client).visible == before.visible.filter(keep_pair));
        if pair.0 == client {
            assert(view.events.filter(keep_event) == kept);
            assert(view.visible.filter(keep_pair) =~= before.visible.filter(keep_pair));
        } else {
            assert(view.events.filter(keep_event) == kept.push(last));
            assert(kept.push(last).drop_last() =~= kept);
            assert(kept.push(last).last() == last);
            match last {
                RelevanceEvent::Gained { .. } => {
                    assert(view.visible.filter(keep_pair).contains(pair));
                    assert(view.visible.filter(keep_pair).remove(pair)
                        =~= before.visible.filter(keep_pair));
                },
                RelevanceEvent::Lost { .. } => {
                    assert(!view.visible.filter(keep_pair).contains(pair));
                    assert(view.visible.filter(keep_pair).insert(pair)
                        =~= before.visible.filter(keep_pair));
                },
            }
            assert(consistent(kept.push(last), view.visible.filter(keep_pair)));
        }
    }
}

/// Making a pair visible twice in a row is the same as making it visible
/// once: the table is the same and the replication layer is told nothing
/// more.
pub proof fn lemma_gain_idempotent(view: RelevanceView, client: ClientId, entity: EntityId)
    ensures
        view.gain(client, entity).gain(client, entity) == view.gain(client, entity),
{
}

/// Hiding a pair twice in a row is the same as hiding it once.
pub proof fn lemma_lose_idempotent(view: RelevanceView, client: ClientId, entity: EntityId)
    ensures
        view.lose(client, entity).lose(client, entity) == view.lose(client, entity),
{
}

/// A candidate exactly at the interest radius is hidden by an evaluation,
/// and one that is closer is made visible.
pub proof fn lemma_strict_threshold(
    view: RelevanceView,
    client: ClientId,
    origin: Point,
    candidates: Seq<Candidate>,
    k: int,
)
    requires
        candidate_entities(candidates).no_duplicates(),
        0 <= k < candidates.len(),
    ensures
        distance_squared(origin, candidates[k].position.0) == INTEREST_RADIUS * INTEREST_RADIUS
            ==> !view.evaluate(client, origin, candidates).visible.contains(
            (client, candidates[k].entity),
        ),
        distance_squared(origin, candidates[k].position.0) < INTEREST_RADIUS * INTEREST_RADIUS
            ==> view.evaluate(client, origin, candidates).visible.contains(
            (client, candidates[k].entity),
        ),
{
    lemma_evaluate_visible(view, client, origin, candidates);
}

/// The table of visible pairs, with the events that the replication layer
/// has not taken yet.
pub struct RelevanceManager {
    visible: PairSet<ClientId, EntityId>,
    events: Vec<RelevanceEvent>,
}

impl View for RelevanceManager {
    type V = RelevanceView;

    closed spec fn view(&self) -> RelevanceView {
        RelevanceView { visible: self.visible@, events: self.events@ }
    }
}

impl RelevanceManager {
    /// No pair is stored twice.
    pub closed spec fn stored_once(&self) -> bool {
        self.visible.wf()
    }

    /// No pair is stored twice, and every waiting event was a real change.
    pub open spec fn wf(&self) -> bool {
        self.stored_once() && consistent(self@.events, self@.visible)
    }

    pub fn new() -> (table: Self)
        ensures
            table.wf(),
            table@.visible == Set::<(ClientId, EntityId)>::empty(),
            table@.events == Seq::<RelevanceEvent>::empty(),
    {
        RelevanceManager { visible: PairSet::new(), events: Vec::new() }
    }

    /// Makes `entity` visible to `client`. The replication layer is told
    /// only if it was hidden.
    pub fn gain_relevance(&mut self, client: ClientId, entity: EntityId)
        requires
            old(self).wf(),
        ensures
            final(self).wf(),
            final(self)@ == old(self)@.gain(client, entity),
    {
        if self.visible.insert(client, entity) {
            self.events.push(RelevanceEvent::Gained { client, entity });
            assert(self@.visible.remove((client, entity)) =~= old(self)@.visible);
            assert(self@.events.drop_last() =~= old(self)@.events);
        } else {
            assert(self.visible@ =~= old(self).visible@);
        }
    }

    /// Hides `entity` from `client`. The replication layer is told only if
    /// it was visible.
    pub fn lose_relevance(&mut self, client: ClientId, entity: EntityId)
        requires
            old(self).wf(),
        ensures
            final(self).wf(),
            final(self)@ == old(self)@.lose(client, entity),
    {
        if self.visible.remove(client, entity) {
            self.events.push(RelevanceEvent::Lost { client, entity });
            assert(self@.visible.insert((client, entity)) =~= old(self)@.visible);
            assert(self@.events.drop_last() =~= old(self)@.events);
        } else {
            assert(self.visible@ =~= old(self).visible@);
        }
    }

    pub fn is_relevant(&self, client: ClientId, entity: EntityId) -> (seen: bool)
        ensures
            seen == self@.visible.contains((client, entity)),
    {
        self.visible.contains(client, entity)
    }

    /// Judges every candidate against the position of `client`'s player.
    pub fn evaluate(&mut self, client: ClientId, origin: Position, candidates: &Vec<Candidate>)
        requires
            old(self).wf(),
        ensures
            final(self).wf(),
            final(self)@ == old(self)@.evaluate(client, origin.0, candidates@),
    {
        let mut i: usize = 0;
        while i < candidates.len()
            invariant
                i <= candidates.len(),
                self.wf(),
                self@ == old(self)@.evaluate(client, origin.0, candidates@.take(i as int)),
            decreases candidates.len() - i,
        {
            let candidate = candidates[i];
            assert(candidates@.take(i as int + 1).drop_last() == candidates@.take(i as int));
            assert(candidates@.take(i as int + 1).last() == candidate);
            if within_interest_radius(origin.0, candidate.position.0) {
                self.gain_relevance(client, candidate.entity);
            } else {
                self.lose_relevance(client, candidate.entity);
            }
            i += 1;
        }
        assert(candidates@.take(i as int) == candidates@);
    }

    /// Hands over the waiting events, oldest first, and forgets them.
    pub fn take_events(&mut self) -> (events: Vec<RelevanceEvent>)
        requires
            old(self).wf(),
        ensures
            final(self).wf(),
            events@ == old(self)@.events,
            final(self)@.events == Seq::<RelevanceEvent>::empty(),
            final(self)@.visible == old(self)@.visible,
    {
        let mut events: Vec<RelevanceEvent> = Vec::new();
        std::mem::swap(&mut events, &mut self.events);
        events
    }

    /// Forgets a client that has left.
    pub fn client_disconnect(&mut self, client: ClientId)
        requires
            old(self).wf(),
        ensures
            final(self).wf(),
            final(self)@ == old(self)@.forget(client),
    {
        proof {
            lemma_forget_consistent(self@, client);
        }
        self.visible.remove_left(client);
        let mut kept: Vec<RelevanceEvent> = Vec::new();
        let mut i: usize = 0;
        while i < self.events.len()
            invariant
                i <= self.events.len(),
                self.events == old(self).events,
                self.visible@ == old(self).visible@.filter(|p: (ClientId, EntityId)| p.0 != client),
                self.visible.wf(),
                kept@ == self.events@.take(i as int).filter(
                    |ev: RelevanceEvent| ev.client_spec() != client,
                ),
            decreases self.events.len() - i,
        {
            let event = self.events[i];
            proof {
                assert(self.events@.take(i as int + 1) == self.events@.take(i as int).push(event));
                self.events@.take(i as int).lemma_filter_push(
                    event,
                    |ev: RelevanceEvent| ev.client_spec() != client,
                );
            }
            if event.client() != client {
                kept.push(event);
            }
            i += 1;
        }
        assert(self.events@.take(i as int) == self.events@);
        self.events = kept;
    }
}

} // verus!
