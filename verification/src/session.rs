//! The per-connection session: handshake, movement validation and the
//! streaming of the chunk window, as a state machine that takes one event
//! and says what to send.

use crate::coords::Coords;
use crate::entity::Entity;
use crate::entity::EntityType;
use crate::entity::EntityView;
use crate::entity::SPEED_PER_TICK;
use crate::map::WorldMap;
use crate::message::views;
use crate::message::Message;
use crate::message::MessageView;
use crate::registry::Registry;
use crate::window::append_window;
use crate::window::is_window;
use crate::window::slot;
use crate::window::needed_top_left;
use crate::window::spec_diff;
use crate::window::spec_needed_top_left;
use crate::window::spec_stream;
use crate::window::window_diff;
use crate::wire::decode_spec;
use std::ops::Index;
use vstd::prelude::*;

verus! {

/// Where a session stands in its life.
#[derive(Clone, Copy, Debug, PartialEq, Eq, Structural)]
pub enum SessionState {
    /// Connected, not yet admitted: only the handshake is accepted.
    Handshaking,
    /// Admitted: the session owns an entity of the registry.
    Active,
    /// Over. Nothing is processed any more.
    Closed,
}

/// What the server has to report of an event, besides what it sends.
#[derive(Clone, Copy, Debug, PartialEq, Eq, Structural)]
pub enum Notice {
    /// Nothing to report.
    Quiet,
    /// The handshake succeeded and the player entered the world.
    Connected,
    /// A message other than the handshake came before admission.
    NotAdmitted,
    /// The random source gave no id, so the handshake could not be served.
    NoRandomId,
    /// The client tried to move an entity that is not its own.
    UnownedMove,
    /// The proposed move broke the collision or the speed rule.
    MoveRejected,
    /// The session's entity is not in the registry.
    UnknownEntity,
    /// The reply to a latency probe came after so many milliseconds.
    PingElapsed(u64),
    /// A message that the server does not expect from an admitted client.
    Unexpected,
    /// The frame was no message of the protocol.
    Undecodable,
    /// The session ended and its entity left the world.
    Disconnected,
    /// The event came after the session had ended.
    AlreadyClosed,
}

/// What a session answers to one event.
#[derive(Debug, PartialEq)]
pub struct Reply {
    /// The messages to put on the connection's outbound queue, in order.
    pub outbound: Vec<Message>,
    /// What to report.
    pub notice: Notice,
}

/// The state of one connection.
pub struct Session {
    state: SessionState,
    entity_id: u64,
    loaded_chunks_top_left: (u64, u64),
    waiting_ping: Option<u64>,
}

/// What a session holds, as plain values.
pub struct SessionView {
    pub state: SessionState,
    /// The id of the session's entity, once it is active.
    pub entity_id: u64,
    /// The top-left corner of the chunk window streamed to the client.
    pub window: (u64, u64),
    /// When the pending latency probe was started, in milliseconds.
    pub waiting_ping: Option<u64>,
}

/// The whole effect of one event: the session and the registry after it,
/// what is sent and what is reported.
pub struct Outcome {
    pub session: SessionView,
    pub registry: Map<u64, EntityView>,
    pub outbound: Seq<MessageView>,
    pub notice: Notice,
}

/// The outcome of an event that changes nothing and sends nothing.
pub open spec fn ignored(
    session: SessionView,
    registry: Map<u64, EntityView>,
    notice: Notice,
) -> Outcome {
    Outcome { session, registry, outbound: Seq::empty(), notice }
}

/// Holds when none of the four blocks that an entity at `at` covers is
/// solid: the block it stands on, the next one to the right, and the two
/// above those.
pub open spec fn footprint_is_free(world: &WorldMap, at: Coords) -> bool {
    &&& at.x.main < u64::MAX
    &&& at.y.main > 0
    &&& !world.block_at(at.x.main, at.y.main).spec_is_solid()
    &&& !world.block_at((at.x.main + 1) as u64, at.y.main).spec_is_solid()
    &&& !world.block_at(at.x.main, (at.y.main - 1) as u64).spec_is_solid()
    &&& !world.block_at((at.x.main + 1) as u64, (at.y.main - 1) as u64).spec_is_solid()
}

/// Holds when an entity at `current` may move to `proposed`: the target is
/// a normalized position, its footprint is free, and it lies within one
/// tick's speed.
pub open spec fn move_is_valid(world: &WorldMap, current: Coords, proposed: Coords) -> bool {
    &&& proposed.x.is_normalized()
    &&& proposed.y.is_normalized()
    &&& footprint_is_free(world, proposed)
    &&& current.within(proposed, SPEED_PER_TICK as int)
}

/// The outcome of the handshake with the new player's `entity`.
pub open spec fn welcome_outcome(
    session: SessionView,
    entity: EntityView,
    world: &WorldMap,
    registry: Map<u64, EntityView>,
) -> Outcome {
    match session.state {
        SessionState::Handshaking => {
            let window = spec_needed_top_left(entity.coords);
            Outcome {
                session: SessionView {
                    state: SessionState::Active,
                    entity_id: entity.id,
                    window,
                    waiting_ping: session.waiting_ping,
                },
                registry: registry.insert(entity.id, entity),
                outbound: seq![
                    MessageView::CreateEntity(entity),
                    MessageView::InitClient { id: entity.id },
                ] + spec_stream(world, window),
                notice: Notice::Connected,
            }
        },
        SessionState::Active => ignored(session, registry, Notice::Unexpected),
        SessionState::Closed => ignored(session, registry, Notice::AlreadyClosed),
    }
}

/// The outcome of a proposed move of the entity `id` to `proposed`, for an
/// active session.
pub open spec fn move_outcome(
    session: SessionView,
    id: u64,
    proposed: Coords,
    world: &WorldMap,
    registry: Map<u64, EntityView>,
) -> Outcome {
    if id != session.entity_id {
        ignored(session, registry, Notice::UnownedMove)
    } else if !registry.contains_key(id) {
        ignored(session, registry, Notice::UnknownEntity)
    } else if move_is_valid(world, registry[id].coords, proposed) {
        let needed = spec_needed_top_left(proposed);
        Outcome {
            session: SessionView { window: needed, ..session },
            registry: registry.insert(id, EntityView { coords: proposed, ..registry[id] }),
            outbound: spec_diff(world, session.window, needed),
            notice: Notice::Quiet,
        }
    } else {
        Outcome {
            session,
            registry,
            outbound: seq![MessageView::TpEntity { id, coords: registry[id].coords }],
            notice: Notice::MoveRejected,
        }
    }
}

/// The outcome of a latency probe that arrives at time `now`, for an active
/// session.
pub open spec fn ping_outcome(
    session: SessionView,
    now: u64,
    registry: Map<u64, EntityView>,
) -> Outcome {
    match session.waiting_ping {
        None => Outcome {
            session: SessionView { waiting_ping: Some(now), ..session },
            registry,
            outbound: seq![MessageView::Ping],
            notice: Notice::Quiet,
        },
        Some(started) => Outcome {
            session: SessionView { waiting_ping: None, ..session },
            registry,
            outbound: Seq::empty(),
            notice: Notice::PingElapsed(
                if now >= started {
                    (now - started) as u64
                } else {
                    0
                },
            ),
        },
    }
}

/// Holds when `message` is the client's handshake.
pub open spec fn is_handshake(message: MessageView) -> bool {
    message is InitServer
}

/// The player that the handshake `message` asks for, under the id `id`.
pub open spec fn new_player(message: MessageView, id: u64) -> EntityView {
    EntityView {
        coords: Entity::spawn_point(),
        id,
        name: message->username,
        entity_type: EntityType::Player,
    }
}

/// The outcome of one inbound message that arrives at time `now`. The
/// handshake of a session that is not admitted yet is left out: its outcome
/// depends on the id that the random source gives.
pub open spec fn message_outcome(
    session: SessionView,
    message: MessageView,
    now: u64,
    world: &WorldMap,
    registry: Map<u64, EntityView>,
) -> Outcome {
    match session.state {
        SessionState::Closed => ignored(session, registry, Notice::AlreadyClosed),
        SessionState::Handshaking => ignored(session, registry, Notice::NotAdmitted),
        SessionState::Active => match message {
            MessageView::TpEntity { id, coords } => move_outcome(
                session,
                id,
                coords,
                world,
                registry,
            ),
            MessageView::Ping => ping_outcome(session, now, registry),
            _ => ignored(session, registry, Notice::Unexpected),
        },
    }
}

/// Holds when `outcome` is what one inbound message, arriving at time
/// `now`, may bring about.
///
/// Before admission the handshake is served with an id from the random
/// source: the new player is welcomed under some id, or, where the source
/// fails, nothing changes. Every other case is `message_outcome`.
pub open spec fn is_message_outcome(
    session: SessionView,
    message: MessageView,
    now: u64,
    world: &WorldMap,
    registry: Map<u64, EntityView>,
    outcome: Outcome,
) -> bool {
    if session.state == SessionState::Handshaking && is_handshake(message) {
        ||| exists|id: u64|
            outcome == welcome_outcome(session, new_player(message, id), world, registry)
        ||| outcome == ignored(session, registry, Notice::NoRandomId)
    } else {
        outcome == message_outcome(session, message, now, world, registry)
    }
}

/// Holds when `outcome` is what one inbound frame, arriving at time `now`,
/// may bring about: nothing but a report for a session that is over or a
/// frame that is no message, and otherwise what the message it writes
/// brings about.
pub open spec fn is_frame_outcome(
    session: SessionView,
    frame: Seq<char>,
    now: u64,
    world: &WorldMap,
    registry: Map<u64, EntityView>,
    outcome: Outcome,
) -> bool {
    if session.state == SessionState::Closed {
        outcome == ignored(session, registry, Notice::AlreadyClosed)
    } else {
        match decode_spec(frame) {
            Ok(message) => is_message_outcome(session, message, now, world, registry, outcome),
            Err(_) => outcome == ignored(session, registry, Notice::Undecodable),
        }
    }
}

/// The outcome of throwing the client out for the given reason.
pub open spec fn kick_outcome(
    session: SessionView,
    reason: Seq<char>,
    registry: Map<u64, EntityView>,
) -> Outcome {
    match session.state {
        SessionState::Closed => ignored(session, registry, Notice::AlreadyClosed),
        _ => Outcome {
            outbound: seq![MessageView::Kick(reason)],
            ..close_outcome(session, registry)
        },
    }
}

/// The outcome of the end of the connection.
pub open spec fn close_outcome(session: SessionView, registry: Map<u64, EntityView>) -> Outcome {
    match session.state {
        SessionState::Closed => ignored(session, registry, Notice::AlreadyClosed),
        SessionState::Handshaking => ignored(
            SessionView { state: SessionState::Closed, ..session },
            registry,
            Notice::Disconnected,
        ),
        SessionState::Active => ignored(
            SessionView { state: SessionState::Closed, ..session },
            registry.remove(session.entity_id),
            Notice::Disconnected,
        ),
    }
}

/// The outcome of a move that is turned down: the client is sent the
/// entity's unchanged position, and nothing else happens.
pub open spec fn rejection(session: SessionView, id: u64, registry: Map<u64, EntityView>) -> Outcome {
    Outcome {
        session,
        registry,
        outbound: seq![MessageView::TpEntity { id, coords: registry[id].coords }],
        notice: Notice::MoveRejected,
    }
}

/// A move of the session's own entity onto a place where one of the four
/// blocks that it would cover is solid is turned down: the client gets the
/// entity's position back, and the registry keeps it.
pub proof fn lemma_solid_target_rejects(
    session: SessionView,
    proposed: Coords,
    world: &WorldMap,
    registry: Map<u64, EntityView>,
)
    requires
        registry.contains_key(session.entity_id),
        !footprint_is_free(world, proposed),
    ensures
        move_outcome(session, session.entity_id, proposed, world, registry) == rejection(
            session,
            session.entity_id,
            registry,
        ),
        move_outcome(session, session.entity_id, proposed, world, registry).registry == registry,
{
}

/// A wall on the very block that a move aims at is enough to have it turned
/// down.
pub proof fn lemma_wall_ahead_rejects(
    session: SessionView,
    proposed: Coords,
    world: &WorldMap,
    registry: Map<u64, EntityView>,
)
    requires
        registry.contains_key(session.entity_id),
        world.block_at(proposed.x.main, proposed.y.main).spec_is_solid(),
    ensures
        move_outcome(session, session.entity_id, proposed, world, registry) == rejection(
            session,
            session.entity_id,
            registry,
        ),
{
    lemma_solid_target_rejects(session, proposed, world, registry);
}

/// A move of the session's own entity that is longer than one tick's speed
/// is turned down, whatever the terrain at the target.
pub proof fn lemma_speed_cap(
    session: SessionView,
    proposed: Coords,
    world: &WorldMap,
    registry: Map<u64, EntityView>,
)
    requires
        registry.contains_key(session.entity_id),
        !registry[session.entity_id].coords.within(proposed, SPEED_PER_TICK as int),
    ensures
        move_outcome(session, session.entity_id, proposed, world, registry) == rejection(
            session,
            session.entity_id,
            registry,
        ),
{
}

/// Once an active session is closed, its entity is in the registry no more,
/// and whatever message the closed session is handed afterwards leaves the
/// registry as it is and sends nothing.
pub proof fn lemma_closed_entity_is_gone(
    session: SessionView,
    registry: Map<u64, EntityView>,
    later: MessageView,
    now: u64,
    world: &WorldMap,
)
    requires
        session.state == SessionState::Active,
    ensures
        close_outcome(session, registry).session.state == SessionState::Closed,
        !close_outcome(session, registry).registry.contains_key(session.entity_id),
        message_outcome(
            close_outcome(session, registry).session,
            later,
            now,
            world,
            close_outcome(session, registry).registry,
        ) == ignored(
            close_outcome(session, registry).session,
            close_outcome(session, registry).registry,
            Notice::AlreadyClosed,
        ),
        close_outcome(
            close_outcome(session, registry).session,
            close_outcome(session, registry).registry,
        ).registry == close_outcome(session, registry).registry,
{
}

/// A handshake is answered with the announcement of the new entity, then
/// the client's id, then exactly one `Chunk` for each of the 32 chunks of
/// the window round the player, and the entity is in the registry
/// afterwards.
pub proof fn lemma_welcome_sends_window(
    session: SessionView,
    entity: EntityView,
    world: &WorldMap,
    registry: Map<u64, EntityView>,
)
    requires
        session.state == SessionState::Handshaking,
    ensures
        welcome_outcome(session, entity, world, registry).outbound.len() == 34,
        welcome_outcome(session, entity, world, registry).outbound[0] == MessageView::CreateEntity(
            entity,
        ),
        welcome_outcome(session, entity, world, registry).outbound[1] == (MessageView::InitClient {
            id: entity.id,
        }),
        forall|k: int|
            0 <= k < 32 ==> #[trigger] welcome_outcome(session, entity, world, registry).outbound[k
                + 2] == MessageView::Chunk(
                world.spec_chunk(
                    slot(spec_needed_top_left(entity.coords), k).0,
                    slot(spec_needed_top_left(entity.coords), k).1,
                ),
            ),
        welcome_outcome(session, entity, world, registry).registry.contains_key(entity.id),
        welcome_outcome(session, entity, world, registry).registry[entity.id] == entity,
        welcome_outcome(session, entity, world, registry).session.state == SessionState::Active,
{
}

impl Reply {
    /// A reply that sends nothing.
    fn silent(notice: Notice) -> (r: Reply)
        ensures
            r.outbound@.len() == 0,
            views(r.outbound@) == Seq::<MessageView>::empty(),
            r.notice == notice,
    {
        let r = Reply { outbound: Vec::new(), notice };
        assert(views(r.outbound@) =~= Seq::<MessageView>::empty());
        r
    }
}

impl View for Session {
    type V = SessionView;

    closed spec fn view(&self) -> SessionView {
        SessionView {
            state: self.state,
            entity_id: self.entity_id,
            window: self.loaded_chunks_top_left,
            waiting_ping: self.waiting_ping,
        }
    }
}

/// Tells whether none of the four blocks that an entity at `at` covers is
/// solid.
pub fn is_footprint_free(world: &WorldMap, at: &Coords) -> (r: bool)
    ensures
        r == footprint_is_free(world, *at),
{
    let x = at.x.main;
    let y = at.y.main;
    if x == u64::MAX || y == 0 {
        return false;
    }
    !world.index((x, y)).is_solid() && !world.index((x + 1, y)).is_solid() && !world.index(
        (x, y - 1),
    ).is_solid() && !world.index((x + 1, y - 1)).is_solid()
}

/// Tells whether an entity at `current` may move to `proposed`.
pub fn is_move_valid(world: &WorldMap, current: &Coords, proposed: &Coords) -> (r: bool)
    ensures
        r == move_is_valid(world, *current, *proposed),
{
    proposed.x.get_additionnal() < 40 && proposed.y.get_additionnal() < 40 && is_footprint_free(
        world,
        proposed,
    ) && current.is_within(proposed, SPEED_PER_TICK)
}

impl Session {
    /// The chunk window of a session is always anchored on a chunk, with
    /// the whole window in the world.
    #[verifier::type_invariant]
    pub closed spec fn wf(&self) -> bool {
        is_window(self.loaded_chunks_top_left)
    }

    /// The outcome that this call had, from the session's and the
    /// registry's new values and the reply.
    pub open spec fn outcome(&self, registry: &Registry, reply: &Reply) -> Outcome {
        Outcome {
            session: self@,
            registry: registry@,
            outbound: views(reply.outbound@),
            notice: reply.notice,
        }
    }

    /// The session of a connection that was just accepted.
    pub fn new() -> (r: Self)
        ensures
            r@ == (SessionView {
                state: SessionState::Handshaking,
                entity_id: 0,
                window: spec_needed_top_left(Entity::spawn_point()),
                waiting_ping: None,
            }),
    {
        Session {
            state: SessionState::Handshaking,
            entity_id: 0,
            loaded_chunks_top_left: needed_top_left(&Coords::default()),
            waiting_ping: None,
        }
    }

    /// Where the session stands in its life.
    pub fn get_state(&self) -> (r: SessionState)
        ensures
            r == self@.state,
    {
        self.state
    }

    /// The id of the session's entity. It means something once the session
    /// is active.
    pub fn get_entity_id(&self) -> (r: u64)
        ensures
            r == self@.entity_id,
    {
        self.entity_id
    }

    /// The top-left corner of the chunk window streamed to the client.
    pub fn get_window(&self) -> (r: (u64, u64))
        ensures
            r == self@.window,
            is_window(r),
    {
        proof {
            use_type_invariant(self);
        }
        self.loaded_chunks_top_left
    }

    /// Admits the player `entity`: files it in the registry, announces it
    /// to the client, tells the client its id, streams the chunk window
    /// round it and makes the session active. A session that is past the
    /// handshake changes nothing.
    pub fn welcome(&mut self, entity: Entity, world: &WorldMap, registry: &mut Registry) -> (reply:
        Reply)
        ensures
            final(self).outcome(final(registry), &reply) == welcome_outcome(
                old(self)@,
                entity@,
                world,
                old(registry)@,
            ),
    {
        proof {
            use_type_invariant(&*self);
        }
        match self.state {
            SessionState::Handshaking => {
                let id = entity.get_id();
                let window = needed_top_left(&entity.get_coords());
                let mut outbound: Vec<Message> = Vec::new();
                outbound.push(Message::CreateEntity(entity.clone()));
                outbound.push(Message::InitClient { id });
                assert(views(outbound@) =~= seq![
                    MessageView::CreateEntity(entity@),
                    MessageView::InitClient { id },
                ]);
                append_window(&mut outbound, world, window);
                registry.insert(entity);
                self.state = SessionState::Active;
                self.entity_id = id;
                self.loaded_chunks_top_left = window;
                Reply { outbound, notice: Notice::Connected }
            },
            SessionState::Active => Reply::silent(Notice::Unexpected),
            SessionState::Closed => Reply::silent(Notice::AlreadyClosed),
        }
    }

    /// Handles a proposed move of the entity `id` to `proposed`. A valid
    /// move of the session's own entity is committed and answered with what
    /// the moved chunk window needs; an invalid one is answered with the
    /// entity's unchanged position.
    fn move_entity(&mut self, id: u64, proposed: Coords, world: &WorldMap, registry: &mut Registry) -> (reply:
        Reply)
        ensures
            final(self).outcome(final(registry), &reply) == move_outcome(
                old(self)@,
                id,
                proposed,
                world,
                old(registry)@,
            ),
    {
        proof {
            use_type_invariant(&*self);
        }
        if id != self.entity_id {
            return Reply::silent(Notice::UnownedMove);
        }
        let current = match registry.get(id) {
            Some(entity) => entity.get_coords(),
            None => {
                return Reply::silent(Notice::UnknownEntity);
            },
        };
        if is_move_valid(world, &current, &proposed) {
            let needed = needed_top_left(&proposed);
            let outbound = window_diff(world, self.loaded_chunks_top_left, needed);
            let _ = registry.update(id, proposed);
            self.loaded_chunks_top_left = needed;
            Reply { outbound, notice: Notice::Quiet }
        } else {
            let mut outbound: Vec<Message> = Vec::new();
            outbound.push(Message::TpEntity { id, coords: current });
            assert(views(outbound@) =~= seq![MessageView::TpEntity { id, coords: current }]);
            Reply { outbound, notice: Notice::MoveRejected }
        }
    }

    /// Handles a latency probe that arrives at time `now`: the first one is
    /// echoed and starts the timer, the next one stops it.
    fn ping(&mut self, now: u64, registry: &Registry) -> (reply: Reply)
        ensures
            final(self).outcome(registry, &reply) == ping_outcome(old(self)@, now, registry@),
    {
        proof {
            use_type_invariant(&*self);
        }
        match self.waiting_ping {
            None => {
                self.waiting_ping = Some(now);
                let mut outbound: Vec<Message> = Vec::new();
                outbound.push(Message::Ping);
                assert(views(outbound@) =~= seq![MessageView::Ping]);
                Reply { outbound, notice: Notice::Quiet }
            },
            Some(started) => {
                self.waiting_ping = None;
                let elapsed = if now >= started {
                    now - started
                } else {
                    0
                };
                Reply::silent(Notice::PingElapsed(elapsed))
            },
        }
    }

    /// Handles one inbound frame that arrives at time `now`, in
    /// milliseconds. A frame that is no message is reported and dropped;
    /// the connection stays open.
    pub fn on_frame(
        &mut self,
        frame: String,
        now: u64,
        world: &WorldMap,
        registry: &mut Registry,
    ) -> (reply: Reply)
        ensures
            is_frame_outcome(
                old(self)@,
                frame@,
                now,
                world,
                old(registry)@,
                final(self).outcome(final(registry), &reply),
            ),
    {
        match self.state {
            SessionState::Closed => Reply::silent(Notice::AlreadyClosed),
            _ => match Message::decode(frame) {
                Ok(message) => self.on_message(message, now, world, registry),
                Err(_) => Reply::silent(Notice::Undecodable),
            },
        }
    }

    /// Handles one inbound message that arrives at time `now`, in
    /// milliseconds.
    ///
    /// Before admission only the handshake is served: the new player gets
    /// an id from the random source and is welcomed, or, where the source
    /// fails, nothing changes. Every other case is `message_outcome`.
    pub fn on_message(
        &mut self,
        message: Message,
        now: u64,
        world: &WorldMap,
        registry: &mut Registry,
    ) -> (reply: Reply)
        ensures
            is_message_outcome(
                old(self)@,
                message@,
                now,
                world,
                old(registry)@,
                final(self).outcome(final(registry), &reply),
            ),
    {
        match self.state {
            SessionState::Closed => Reply::silent(Notice::AlreadyClosed),
            SessionState::Handshaking => match message {
                Message::InitServer { username, screen_width: _, screen_height: _, password: _ } => {
                    match Entity::spawn_player(username) {
                        Ok(entity) => {
                            let ghost player = entity@;
                            let reply = self.welcome(entity, world, registry);
                            assert(player == new_player(message@, player.id));
                            reply
                        },
                        Err(_) => Reply::silent(Notice::NoRandomId),
                    }
                },
                _ => Reply::silent(Notice::NotAdmitted),
            },
            SessionState::Active => match message {
                Message::TpEntity { id, coords } => self.move_entity(id, coords, world, registry),
                Message::Ping => self.ping(now, registry),
                _ => Reply::silent(Notice::Unexpected),
            },
        }
    }

    /// Ends the session: on a close frame, a read error or a failed send.
    /// The entity of an active session leaves the registry. Closing twice
    /// changes nothing the second time.
    pub fn close(&mut self, registry: &mut Registry) -> (reply: Reply)
        ensures
            final(self).outcome(final(registry), &reply) == close_outcome(
                old(self)@,
                old(registry)@,
            ),
            final(self)@.state == SessionState::Closed,
            old(self)@.state == SessionState::Active ==> !final(registry)@.contains_key(
                old(self)@.entity_id,
            ),
    {
        proof {
            use_type_invariant(&*self);
        }
        match self.state {
            SessionState::Closed => Reply::silent(Notice::AlreadyClosed),
            SessionState::Handshaking => {
                self.state = SessionState::Closed;
                Reply::silent(Notice::Disconnected)
            },
            SessionState::Active => {
                self.state = SessionState::Closed;
                let _ = registry.remove(self.entity_id);
                Reply::silent(Notice::Disconnected)
            },
        }
    }

    /// Throws the client out: it is sent the reason, and the session ends as
    /// by `close`. The connection is to be shut once the reason is sent.
    pub fn kick(&mut self, reason: String, registry: &mut Registry) -> (reply: Reply)
        ensures
            final(self).outcome(final(registry), &reply) == kick_outcome(
                old(self)@,
                reason@,
                old(registry)@,
            ),
    {
        match self.state {
            SessionState::Closed => Reply::silent(Notice::AlreadyClosed),
            _ => {
                let closed = self.close(registry);
                let mut outbound: Vec<Message> = Vec::new();
                outbound.push(Message::Kick(reason));
                assert(views(outbound@) =~= seq![MessageView::Kick(reason@)]);
                Reply { outbound, notice: closed.notice }
            },
        }
    }

    /// The heartbeat for this session: a `Tick` while it is active, nothing
    /// otherwise.
    pub fn tick(&self) -> (r: Option<Message>)
        ensures
            match r {
                Some(message) => self@.state == SessionState::Active && message@
                    == MessageView::Tick,
                None => self@.state != SessionState::Active,
            },
    {
        match self.state {
            SessionState::Active => Some(Message::Tick),
            _ => None,
        }
    }
}

} // verus!
