use vstd::prelude::*;
use bevy_math::Vec2;

verus! {

/// What a client sends to the server.
#[derive(Debug, Clone, Copy)]
pub enum ClientMessage {
    PositionUpdate { position: Vec2 },
    MouseUpdate { position: Vec2 },
    Shoot,
}

/// A client message tagged with the id the server gave its sender.
#[derive(Debug, Clone, Copy)]
pub struct ClientObject {
    pub id: u32,
    pub client_message: ClientMessage,
}

/// What the server sends to the clients.
#[derive(Debug, Clone, Copy)]
pub enum ServerMessage {
    NotifyId { id: u32 },
    PlayerMoved { id: u32, position: Vec2 },
    PlayerMouseMoved { id: u32, position: Vec2 },
    PlayerJoined { id: u32 },
    PlayerLeft { id: u32 },
    PlayerShot { id: u32 },
    PlayerHealthChange { id: u32, health: u32 },
}

impl ServerMessage {
    /// The player a message announces as gone, if it is such a message; the
    /// server then forgets that player's address.
    pub fn departed(&self) -> (id: Option<u32>)
        ensures
            id == (match *self {
                ServerMessage::PlayerLeft { id } => Some(id),
                _ => None,
            }),
    {
        match self {
            ServerMessage::PlayerLeft { id } => Some(*id),
            _ => None,
        }
    }
}

} // verus!
