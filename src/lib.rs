//! Framed binary wire protocol for a card game: a fixed 12-byte header,
//! an incremental frame codec, and the game's card, deck and player model.

pub mod buffer;
pub mod cards;
pub mod codec;
pub mod config;
pub mod dealer;
pub mod deck;
pub mod deck_loader;
pub mod error;
pub mod header;
pub mod message;
pub mod player;
pub mod players;
pub mod protocol;
pub mod score;
mod text;

pub use codec::{Frame, FrameCodec};
pub use error::{HeaderError, ProtoError};
pub use header::{Header, Kind, MAGIC, VERSION};
