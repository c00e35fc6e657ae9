//! A multi-player snake-draft game: a lobby that registers rooms, and a
//! per-room state machine that enforces join rules, turn order and the
//! transfer of items from a shared pool to the players.
pub mod arena;
pub mod draft_room;
pub mod gateway;
pub mod hex;
pub mod identity;
pub mod ids;
pub mod lobby;

pub use arena::{LiveDraftArena, LiveDraftArenaError, Operation};
pub use draft_room::{DraftItem, DraftRoom, DraftRoomError, DraftRoomOperation, DraftStatus};
pub use ids::{ChainId, Owner};
pub use lobby::{
    ContractParameters, DraftRoomMetadata, Lobby, LobbyError, LobbyOperation, RoomStatus,
};
