//! The messages that clients and the server exchange.

use crate::block::Chunk;
use crate::block::Orientation;
use crate::coords::Coords;
use crate::entity::Entity;
use crate::entity::EntityView;
use vstd::prelude::*;

verus! {

/// One message of the protocol. Each frame on the wire carries exactly one.
#[derive(Debug, PartialEq)]
pub enum Message {
    /// Chat relay, either direction.
    ChatMessage { sender_id: u64, receiver_id: u64, message: String },
    /// World data for one chunk, server to client.
    Chunk(Chunk),
    /// Tells the client to drop the chunk that starts at `(x, y)`.
    UnloadChunk { x: u64, y: u64 },
    /// Announces an entity, the client's own included.
    CreateEntity(Entity),
    /// The client's handshake.
    InitServer { username: String, screen_width: u32, screen_height: u32, password: Option<String> },
    /// Assigns the client its entity id.
    InitClient { id: u64 },
    /// Pacing heartbeat, server to client.
    Tick,
    /// Relative move; superseded by `TpEntity`.
    MoveEntity { id: u64, direction: Orientation },
    /// A proposed position from the client, or the authoritative one from
    /// the server.
    TpEntity { id: u64, coords: Coords },
    /// Latency probe, either direction.
    Ping,
    /// Forces the client to disconnect, with the reason.
    Kick(String),
}

/// What a message holds, as plain values.
pub enum MessageView {
    ChatMessage { sender_id: u64, receiver_id: u64, message: Seq<char> },
    Chunk(Chunk),
    UnloadChunk { x: u64, y: u64 },
    CreateEntity(EntityView),
    InitServer {
        username: Seq<char>,
        screen_width: u32,
        screen_height: u32,
        password: Option<Seq<char>>,
    },
    InitClient { id: u64 },
    Tick,
    MoveEntity { id: u64, direction: Orientation },
    TpEntity { id: u64, coords: Coords },
    Ping,
    Kick(Seq<char>),
}

impl View for Message {
    type V = MessageView;

    open spec fn view(&self) -> MessageView {
        match *self {
            Message::ChatMessage { sender_id, receiver_id, message } => MessageView::ChatMessage {
                sender_id,
                receiver_id,
                message: message@,
            },
            Message::Chunk(chunk) => MessageView::Chunk(chunk),
            Message::UnloadChunk { x, y } => MessageView::UnloadChunk { x, y },
            Message::CreateEntity(entity) => MessageView::CreateEntity(entity@),
            Message::InitServer {
                username,
                screen_width,
                screen_height,
                password,
            } => MessageView::InitServer {
                username: username@,
                screen_width,
                screen_height,
                password: match password {
                    Some(p) => Some(p@),
                    None => None,
                },
            },
            Message::InitClient { id } => MessageView::InitClient { id },
            Message::Tick => MessageView::Tick,
            Message::MoveEntity { id, direction } => MessageView::MoveEntity { id, direction },
            Message::TpEntity { id, coords } => MessageView::TpEntity { id, coords },
            Message::Ping => MessageView::Ping,
            Message::Kick(reason) => MessageView::Kick(reason@),
        }
    }
}

/// The views of a sequence of messages, in the same order.
pub open spec fn views(messages: Seq<Message>) -> Seq<MessageView> {
    messages.map_values(|m: Message| m@)
}

} // verus!
