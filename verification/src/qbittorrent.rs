//! What the library reads of a qBittorrent Web API reply and writes into a
//! request.

use vstd::prelude::*;

verus! {

/// State of a torrent as qBittorrent reports it.
#[derive(Clone, Copy, Debug, PartialEq, Eq, Structural)]
pub enum QBittorrentState {
    Error,
    MissingFiles,
    Uploading,
    PausedUP,
    StoppedUP,
    QueuedUP,
    StalledUP,
    CheckingUP,
    ForcedUP,
    Allocating,
    Downloading,
    MetaDL,
    PausedDL,
    StoppedDL,
    QueuedDL,
    StalledDL,
    CheckingDL,
    ForcedDL,
    CheckingResumeData,
    Moving,
    Unknown,
}

/// A torrent as listed by qBittorrent's `/torrents/info`.
#[derive(Debug)]
pub struct QBittorrentTorrent {
    /// Info hash in hexadecimal.
    pub hash: String,
    pub name: String,
    pub category: String,
    pub state: QBittorrentState,
    /// Bit pattern of the IEEE 754 binary64 fraction of the torrent that is
    /// complete.
    pub progress: u64,
    pub save_path: String,
}

/// Filter of a qBittorrent torrent listing; every filter left out matches all.
#[derive(Debug)]
pub struct QBittorrentFilterOptions {
    /// Category of the torrents to list.
    pub category: Option<String>,
}

/// The options of a qBittorrent `/torrents/add` request that the library
/// sets; every other option is left unset.
#[derive(Debug, PartialEq, Eq)]
pub struct AddTorrentOptions {
    /// Folder the torrent's content is stored in.
    pub save_path: Option<String>,
    pub category: Option<String>,
    /// Skip hash checking.
    pub skip_checking: Option<bool>,
    /// Add the torrent paused.
    pub paused: Option<bool>,
}

} // verus!
