//! Game logic of a small networked 2D platformer: the shared message types,
//! the server's authoritative player table, and the client's bookkeeping of
//! remote players.
pub mod clock;
pub mod connections;
pub mod constants;
pub mod defs;
pub mod headless;
pub mod messages;
pub mod network;
pub mod server;
pub mod vector;
