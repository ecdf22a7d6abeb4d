//! The data that is synchronised between server and clients, and the table
//! that says how each kind of it is synchronised.

use vstd::prelude::*;

verus! {

/// Identifies a connected participant.
pub type ClientId = u64;

/// Identifies a simulated object.
pub type EntityId = u64;

/// A point of the integer world grid.
#[derive(Clone, Copy, Debug, PartialEq, Eq, Structural)]
pub struct Point {
    pub x: i32,
    pub y: i32,
}

/// The coordinate closest to `v` that fits the grid.
pub open spec fn clamp_coord(v: int) -> int {
    if v < i32::MIN {
        i32::MIN as int
    } else if v > i32::MAX {
        i32::MAX as int
    } else {
        v
    }
}

pub fn clamp(v: i64) -> (c: i32)
    ensures
        c == clamp_coord(v as int),
{
    if v < i32::MIN as i64 {
        i32::MIN
    } else if v > i32::MAX as i64 {
        i32::MAX
    } else {
        v as i32
    }
}

/// The entity that a dependent entity belongs to.
#[derive(Clone, Copy, Debug, PartialEq, Eq, Structural)]
pub struct PlayerParent(pub EntityId);

impl PlayerParent {
    /// Re-points the reference at the entity that the receiving world knows
    /// the parent as.
    pub fn map_entities(&mut self, mapped: EntityId)
        ensures
            final(self).0 == mapped,
    {
        self.0 = mapped;
    }
}

/// The client that controls a player entity.
#[derive(Clone, Copy, Debug, PartialEq, Eq, Structural)]
pub struct PlayerId(pub ClientId);

/// Where an entity is now.
#[derive(Clone, Copy, Debug, PartialEq, Eq, Structural)]
pub struct Position(pub Point);

/// Where an entity was when its relevance was last evaluated.
#[derive(Clone, Copy, Debug, PartialEq, Eq, Structural)]
pub struct LastPosition(pub Point);

/// A line of text shown with a player.
#[derive(Clone, Debug, PartialEq, Eq)]
pub struct PlayerText(pub String);

impl Position {
    /// The component-wise sum of two positions, held inside the grid.
    pub open spec fn add_spec(self, rhs: Position) -> Position {
        Position(
            Point {
                x: clamp_coord(self.0.x + rhs.0.x) as i32,
                y: clamp_coord(self.0.y + rhs.0.y) as i32,
            },
        )
    }

    pub fn add(self, rhs: Position) -> (sum: Position)
        ensures
            sum == self.add_spec(rhs),
    {
        Position(
            Point {
                x: clamp(self.0.x as i64 + rhs.0.x as i64),
                y: clamp(self.0.y as i64 + rhs.0.y as i64),
            },
        )
    }
}

/// Marks the static dots of the grid.
#[derive(Clone, Copy, Debug, PartialEq, Eq, Structural)]
pub struct CircleMarker;

/// The one channel of the protocol.
#[derive(Clone, Copy, Debug, PartialEq, Eq, Structural)]
pub struct Channel1;

/// A diagnostic message; its number means nothing to the server.
#[derive(Clone, Copy, Debug, PartialEq, Eq, Structural)]
pub struct Message1(pub usize);

/// What a client can ask of its player entity.
#[derive(Clone, Copy, Debug, PartialEq, Eq, Hash, Structural)]
pub enum Inputs {
    Up,
    Down,
    Left,
    Right,
    Delete,
    Spawn,
}

/// The keys that the default bindings use.
#[derive(Clone, Copy, Debug, PartialEq, Eq, Structural)]
pub enum KeyCode {
    ArrowRight,
    KeyD,
    ArrowLeft,
    KeyA,
    ArrowUp,
    KeyW,
    ArrowDown,
    KeyS,
    Backspace,
    Space,
}

/// The most recent input snapshot of one client: which actions are held.
#[derive(Clone, Copy, Debug, PartialEq, Eq, Structural)]
pub struct ActionState {
    pub up: bool,
    pub down: bool,
    pub left: bool,
    pub right: bool,
    pub delete: bool,
    pub spawn: bool,
}

impl ActionState {
    pub open spec fn is_pressed(self, action: Inputs) -> bool {
        match action {
            Inputs::Up => self.up,
            Inputs::Down => self.down,
            Inputs::Left => self.left,
            Inputs::Right => self.right,
            Inputs::Delete => self.delete,
            Inputs::Spawn => self.spawn,
        }
    }

    /// The snapshot in which nothing is held.
    pub open spec fn released() -> ActionState {
        ActionState {
            up: false,
            down: false,
            left: false,
            right: false,
            delete: false,
            spawn: false,
        }
    }

    /// The snapshot with `action` held or let go and the rest as before.
    pub open spec fn with(self, action: Inputs, held: bool) -> ActionState {
        match action {
            Inputs::Up => ActionState { up: held, ..self },
            Inputs::Down => ActionState { down: held, ..self },
            Inputs::Left => ActionState { left: held, ..self },
            Inputs::Right => ActionState { right: held, ..self },
            Inputs::Delete => ActionState { delete: held, ..self },
            Inputs::Spawn => ActionState { spawn: held, ..self },
        }
    }

    pub fn pressed(&self, action: Inputs) -> (held: bool)
        ensures
            held == self.is_pressed(action),
    {
        match action {
            Inputs::Up => self.up,
            Inputs::Down => self.down,
            Inputs::Left => self.left,
            Inputs::Right => self.right,
            Inputs::Delete => self.delete,
            Inputs::Spawn => self.spawn,
        }
    }

    pub fn press(&mut self, action: Inputs)
        ensures
            *final(self) == old(self).with(action, true),
    {
        self.set(action, true);
    }

    pub fn release(&mut self, action: Inputs)
        ensures
            *final(self) == old(self).with(action, false),
    {
        self.set(action, false);
    }

    fn set(&mut self, action: Inputs, held: bool)
        ensures
            *final(self) == old(self).with(action, held),
    {
        match action {
            Inputs::Up => self.up = held,
            Inputs::Down => self.down = held,
            Inputs::Left => self.left = held,
            Inputs::Right => self.right = held,
            Inputs::Delete => self.delete = held,
            Inputs::Spawn => self.spawn = held,
        }
    }
}

impl Default for ActionState {
    fn default() -> (state: ActionState)
        ensures
            state == ActionState::released(),
    {
        ActionState { up: false, down: false, left: false, right: false, delete: false, spawn: false }
    }
}

/// A set of clients, named by rule.
#[derive(Clone, Copy, Debug, PartialEq, Eq, Structural)]
pub enum NetworkTarget {
    Nobody,
    Single(ClientId),
    AllExceptSingle(ClientId),
    All,
}

impl NetworkTarget {
    /// Whether `client` belongs to the set.
    pub open spec fn targets_spec(self, client: ClientId) -> bool {
        match self {
            NetworkTarget::Nobody => false,
            NetworkTarget::Single(c) => c == client,
            NetworkTarget::AllExceptSingle(c) => c != client,
            NetworkTarget::All => true,
        }
    }

    pub fn targets(&self, client: ClientId) -> (hit: bool)
        ensures
            hit == self.targets_spec(client),
    {
        match self {
            NetworkTarget::Nobody => false,
            NetworkTarget::Single(c) => *c == client,
            NetworkTarget::AllExceptSingle(c) => *c != client,
            NetworkTarget::All => true,
        }
    }
}

/// Which clients predict an entity and which interpolate it.
#[derive(Clone, Copy, Debug, PartialEq, Eq, Structural)]
pub struct SyncTarget {
    pub prediction: NetworkTarget,
    pub interpolation: NetworkTarget,
}

/// Which clients own an entity.
#[derive(Clone, Copy, Debug, PartialEq, Eq, Structural)]
pub struct ControlledBy {
    pub target: NetworkTarget,
}

/// How entities are grouped into one replication message.
#[derive(Clone, Copy, Debug, PartialEq, Eq, Structural)]
pub enum ReplicationGroup {
    /// A group of its own, numbered after the entity.
    FromEntity,
    /// The group with the given number.
    Id(u64),
}

/// Whether every client sees an entity or only those it is relevant to.
#[derive(Clone, Copy, Debug, PartialEq, Eq, Structural)]
pub enum NetworkRelevanceMode {
    All,
    InterestManagement,
}

/// How one entity is replicated.
#[derive(Clone, Copy, Debug, PartialEq, Eq, Structural)]
pub struct Replicate {
    pub target: NetworkTarget,
    pub sync: SyncTarget,
    pub controlled_by: ControlledBy,
    pub group: ReplicationGroup,
    pub relevance_mode: NetworkRelevanceMode,
}

impl Replicate {
    /// Replication to everybody, predicted and owned by nobody.
    pub open spec fn default_spec() -> Replicate {
        Replicate {
            target: NetworkTarget::All,
            sync: SyncTarget {
                prediction: NetworkTarget::Nobody,
                interpolation: NetworkTarget::Nobody,
            },
            controlled_by: ControlledBy { target: NetworkTarget::Nobody },
            group: ReplicationGroup::FromEntity,
            relevance_mode: NetworkRelevanceMode::All,
        }
    }

    /// The policy of an entity that `id` owns and predicts and that the
    /// other clients interpolate.
    pub open spec fn owned_by(id: ClientId) -> Replicate {
        Replicate {
            sync: SyncTarget {
                prediction: NetworkTarget::Single(id),
                interpolation: NetworkTarget::AllExceptSingle(id),
            },
            controlled_by: ControlledBy { target: NetworkTarget::Single(id) },
            ..Replicate::default_spec()
        }
    }
}

impl Default for Replicate {
    fn default() -> (replicate: Replicate)
        ensures
            replicate == Replicate::default_spec(),
    {
        Replicate {
            target: NetworkTarget::All,
            sync: SyncTarget {
                prediction: NetworkTarget::Nobody,
                interpolation: NetworkTarget::Nobody,
            },
            controlled_by: ControlledBy { target: NetworkTarget::Nobody },
            group: ReplicationGroup::FromEntity,
            relevance_mode: NetworkRelevanceMode::All,
        }
    }
}

/// The components of a player entity.
#[derive(Clone, Debug)]
pub struct PlayerBundle {
    pub id: PlayerId,
    pub player_text: PlayerText,
    pub position: Position,
    pub last_position: LastPosition,
    pub replicate: Replicate,
    pub action_state: ActionState,
}

/// The components of the text entity that hangs on a player entity.
#[derive(Clone, Debug)]
pub struct PlayerTextBundle {
    pub parent: PlayerParent,
    pub replicate: Replicate,
    pub player_text: PlayerText,
}

/// The text that a player entity starts with.
pub open spec fn player_bundle_text() -> Seq<char> {
    "Text from PlayerBundle"@
}

/// The text that a text entity starts with.
pub open spec fn player_text_bundle_text() -> Seq<char> {
    "Server should change this..."@
}

impl PlayerBundle {
    /// A player of client `id` at `position`: seen only by the clients it is
    /// relevant to, in a replication group of its own, with no input held and
    /// its last position equal to its position.
    pub fn new(id: ClientId, position: Point) -> (bundle: Self)
        ensures
            bundle.id == PlayerId(id),
            bundle.player_text.0@ == player_bundle_text(),
            bundle.position == Position(position),
            bundle.last_position == LastPosition(position),
            bundle.replicate == (Replicate {
                relevance_mode: NetworkRelevanceMode::InterestManagement,
                ..Replicate::owned_by(id)
            }),
            bundle.action_state == ActionState::released(),
    {
        let player_text = PlayerText(String::from_str("Text from PlayerBundle"));
        let replicate = Replicate {
            sync: SyncTarget {
                prediction: NetworkTarget::Single(id),
                interpolation: NetworkTarget::AllExceptSingle(id),
            },
            controlled_by: ControlledBy { target: NetworkTarget::Single(id) },
            group: ReplicationGroup::FromEntity,
            relevance_mode: NetworkRelevanceMode::InterestManagement,
            ..Replicate::default()
        };
        PlayerBundle {
            id: PlayerId(id),
            player_text,
            position: Position(position),
            last_position: LastPosition(position),
            replicate,
            action_state: ActionState::default(),
        }
    }

    /// The default key bindings, in the order in which they are registered.
    pub open spec fn input_bindings() -> Seq<(Inputs, KeyCode)> {
        seq![
            (Inputs::Right, KeyCode::ArrowRight),
            (Inputs::Right, KeyCode::KeyD),
            (Inputs::Left, KeyCode::ArrowLeft),
            (Inputs::Left, KeyCode::KeyA),
            (Inputs::Up, KeyCode::ArrowUp),
            (Inputs::Up, KeyCode::KeyW),
            (Inputs::Down, KeyCode::ArrowDown),
            (Inputs::Down, KeyCode::KeyS),
            (Inputs::Delete, KeyCode::Backspace),
            (Inputs::Spawn, KeyCode::Space),
        ]
    }

    pub fn get_input_map() -> (bindings: Vec<(Inputs, KeyCode)>)
        ensures
            bindings@ == Self::input_bindings(),
    {
        let bindings = vec![
            (Inputs::Right, KeyCode::ArrowRight),
            (Inputs::Right, KeyCode::KeyD),
            (Inputs::Left, KeyCode::ArrowLeft),
            (Inputs::Left, KeyCode::KeyA),
            (Inputs::Up, KeyCode::ArrowUp),
            (Inputs::Up, KeyCode::KeyW),
            (Inputs::Down, KeyCode::ArrowDown),
            (Inputs::Down, KeyCode::KeyS),
            (Inputs::Delete, KeyCode::Backspace),
            (Inputs::Spawn, KeyCode::Space),
        ];
        assert(bindings@ =~= Self::input_bindings());
        bindings
    }
}

impl PlayerTextBundle {
    /// The text entity of client `id`'s player `parent`: replicated to
    /// everybody, in the replication group of its parent.
    pub fn new(id: ClientId, parent: EntityId) -> (bundle: Self)
        ensures
            bundle.parent == PlayerParent(parent),
            bundle.player_text.0@ == player_text_bundle_text(),
            bundle.replicate == (Replicate {
                group: ReplicationGroup::Id(parent),
                ..Replicate::owned_by(id)
            }),
    {
        let player_text = PlayerText(String::from_str("Server should change this..."));
        PlayerTextBundle {
            parent: PlayerParent(parent),
            player_text,
            replicate: Replicate {
                sync: SyncTarget {
                    prediction: NetworkTarget::Single(id),
                    interpolation: NetworkTarget::AllExceptSingle(id),
                },
                controlled_by: ControlledBy { target: NetworkTarget::Single(id) },
                group: ReplicationGroup::Id(parent),
                ..Replicate::default()
            },
        }
    }
}

/// Which way data of some kind flows.
#[derive(Clone, Copy, Debug, PartialEq, Eq, Structural)]
pub enum ChannelDirection {
    ClientToServer,
    ServerToClient,
    Bidirectional,
}

/// How a component of a predicted or interpolated entity follows the
/// server's copy.
#[derive(Clone, Copy, Debug, PartialEq, Eq, Structural)]
pub enum ComponentSyncMode {
    /// Every change, with the history that is needed to roll back.
    Full,
    /// Every change, without history.
    Simple,
    /// Only the first value.
    Once,
}

/// The kinds of component that are synchronised.
#[derive(Clone, Copy, Debug, PartialEq, Eq, Structural)]
pub enum ComponentKind {
    PlayerId,
    Position,
    PlayerColor,
    PlayerText,
    CircleMarker,
    PlayerParent,
}

/// How one kind of component is synchronised.
#[derive(Clone, Copy, Debug, PartialEq, Eq, Structural)]
pub struct ComponentRegistration {
    pub kind: ComponentKind,
    pub direction: ChannelDirection,
    pub prediction: ComponentSyncMode,
    pub interpolation: ComponentSyncMode,
    /// Whether values between two updates are interpolated linearly.
    pub linear_interpolation: bool,
    /// Whether the entities that the component names are mapped to those of
    /// the receiving world.
    pub map_entities: bool,
}

/// What a channel promises about the messages that it carries.
#[derive(Clone, Copy, Debug, PartialEq, Eq, Structural)]
pub enum ChannelMode {
    UnorderedUnreliable,
    UnorderedReliable,
    OrderedReliable,
}

/// The protocol as a value.
pub struct ProtocolView {
    pub components: Seq<ComponentRegistration>,
    pub message_direction: ChannelDirection,
    pub channel_mode: ChannelMode,
}

/// The table that says how each kind of data is synchronised.
pub struct Protocol {
    components: Vec<ComponentRegistration>,
    message_direction: ChannelDirection,
    channel_mode: ChannelMode,
}

impl View for Protocol {
    type V = ProtocolView;

    closed spec fn view(&self) -> ProtocolView {
        ProtocolView {
            components: self.components@,
            message_direction: self.message_direction,
            channel_mode: self.channel_mode,
        }
    }
}

/// A component that goes from the server to the clients and is copied
/// once, when the entity is first predicted or interpolated.
pub open spec fn sent_once(kind: ComponentKind) -> ComponentRegistration {
    ComponentRegistration {
        kind,
        direction: ChannelDirection::ServerToClient,
        prediction: ComponentSyncMode::Once,
        interpolation: ComponentSyncMode::Once,
        linear_interpolation: false,
        map_entities: false,
    }
}

impl ProtocolView {
    /// The protocol of this server.
    pub open spec fn standard() -> ProtocolView {
        ProtocolView {
            components: seq![
                sent_once(ComponentKind::PlayerId),
                ComponentRegistration {
                    kind: ComponentKind::Position,
                    direction: ChannelDirection::Bidirectional,
                    prediction: ComponentSyncMode::Full,
                    interpolation: ComponentSyncMode::Full,
                    linear_interpolation: true,
                    map_entities: false,
                },
                sent_once(ComponentKind::PlayerColor),
                ComponentRegistration {
                    kind: ComponentKind::PlayerText,
                    direction: ChannelDirection::ServerToClient,
                    prediction: ComponentSyncMode::Simple,
                    interpolation: ComponentSyncMode::Simple,
                    linear_interpolation: false,
                    map_entities: false,
                },
                sent_once(ComponentKind::CircleMarker),
                ComponentRegistration { map_entities: true, ..sent_once(ComponentKind::PlayerParent) },
            ],
            message_direction: ChannelDirection::Bidirectional,
            channel_mode: ChannelMode::OrderedReliable,
        }
    }

    /// Whether `index` is the first registration of `kind`.
    pub open spec fn first_of(self, kind: ComponentKind, index: int) -> bool {
        &&& 0 <= index < self.components.len()
        &&& self.components[index].kind == kind
        &&& forall|j: int| 0 <= j < index ==> (#[trigger] self.components[j]).kind != kind
    }
}

fn once(kind: ComponentKind) -> (registration: ComponentRegistration)
    ensures
        registration == sent_once(kind),
{
    ComponentRegistration {
        kind,
        direction: ChannelDirection::ServerToClient,
        prediction: ComponentSyncMode::Once,
        interpolation: ComponentSyncMode::Once,
        linear_interpolation: false,
        map_entities: false,
    }
}

/// Builds the protocol.
#[derive(Clone, Copy, Debug, PartialEq, Eq, Structural)]
pub struct ProtocolPlugin;

impl ProtocolPlugin {
    /// The protocol of this server: one message that goes both ways, six
    /// kinds of component, and one channel that is ordered and reliable.
    pub fn build(&self) -> (protocol: Protocol)
        ensures
            protocol@ == ProtocolView::standard(),
    {
        let mut parent = once(ComponentKind::PlayerParent);
        parent.map_entities = true;
        let components = vec![
            once(ComponentKind::PlayerId),
            ComponentRegistration {
                kind: ComponentKind::Position,
                direction: ChannelDirection::Bidirectional,
                prediction: ComponentSyncMode::Full,
                interpolation: ComponentSyncMode::Full,
                linear_interpolation: true,
                map_entities: false,
            },
            once(ComponentKind::PlayerColor),
            ComponentRegistration {
                kind: ComponentKind::PlayerText,
                direction: ChannelDirection::ServerToClient,
                prediction: ComponentSyncMode::Simple,
                interpolation: ComponentSyncMode::Simple,
                linear_interpolation: false,
                map_entities: false,
            },
            once(ComponentKind::CircleMarker),
            parent,
        ];
        let protocol = Protocol {
            components,
            message_direction: ChannelDirection::Bidirectional,
            channel_mode: ChannelMode::OrderedReliable,
        };
        assert(protocol@.components =~= ProtocolView::standard().components);
        protocol
    }
}

impl Protocol {
    /// How `kind` is synchronised: its first registration, if it has one.
    pub fn registration(&self, kind: ComponentKind) -> (found: Option<ComponentRegistration>)
        ensures
            match found {
                Some(registration) => exists|index: int| #[trigger]
                    self@.first_of(kind, index) && self@.components[index] == registration,
                None => forall|j: int|
                    0 <= j < self@.components.len() ==> (#[trigger] self@.components[j]).kind
                        != kind,
            },
    {
        let mut i: usize = 0;
        while i < self.components.len()
            invariant
                i <= self.components@.len(),
                forall|j: int| 0 <= j < i ==> (#[trigger] self.components@[j]).kind != kind,
            decreases self.components@.len() - i,
        {
            let registration = self.components[i];
            if registration.kind == kind {
                assert(self@.first_of(kind, i as int));
                return Some(registration);
            }
            i += 1;
        }
        None
    }

    /// The registrations, in the order in which they were made.
    pub fn components(&self) -> (components: &Vec<ComponentRegistration>)
        ensures
            components@ == self@.components,
    {
        &self.components
    }

    /// Which way the diagnostic message flows.
    pub fn message_direction(&self) -> (direction: ChannelDirection)
        ensures
            direction == self@.message_direction,
    {
        self.message_direction
    }

    /// What the one channel promises.
    pub fn channel_mode(&self) -> (mode: ChannelMode)
        ensures
            mode == self@.channel_mode,
    {
        self.channel_mode
    }
}

} // verus!
