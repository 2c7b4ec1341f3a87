//! Pulls torrent metadata out of a torrent client into a flat-file store and
//! pushes it back into another client.

pub mod deluge;
pub mod error;
pub mod hash;
pub mod options;
pub mod pull;
pub mod push;
pub mod qbittorrent;
pub mod schema;
pub mod torrent;

pub use error::Error;
pub use hash::InfoHash;
pub use options::{Client, Options, Software};
pub use torrent::{State, Torrent};
