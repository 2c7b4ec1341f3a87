//! What the library reads of a Deluge Web API reply and writes into a request.

use vstd::prelude::*;

verus! {

/// State of a torrent as Deluge reports it.
#[derive(Clone, Copy, Debug, PartialEq, Eq, Structural)]
pub enum DelugeState {
    Downloading,
    Seeding,
    Paused,
    Error,
    Queued,
    Checking,
}

/// A torrent as listed by Deluge's `web.update_ui`.
#[derive(Debug)]
pub struct DelugeTorrent {
    pub label: String,
    pub name: String,
    /// Bit pattern of the IEEE 754 binary64 fraction of the torrent that is
    /// complete.
    pub progress: u64,
    pub save_path: String,
    pub state: DelugeState,
    pub total_remaining: u64,
}

/// Filter of a Deluge torrent listing; every filter left out matches all.
#[derive(Debug)]
pub struct DelugeFilterOptions {
    /// Labels of the torrents to list.
    pub label: Option<Vec<String>>,
}

} // verus!
