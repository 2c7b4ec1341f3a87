//! Records in the shape that the store keeps for Deluge torrents.

pub mod torrent;
