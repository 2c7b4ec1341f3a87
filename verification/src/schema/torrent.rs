use vstd::prelude::*;

use crate::deluge::{DelugeState, DelugeTorrent};
use crate::hash::InfoHash;

verus! {

/// A Deluge torrent as the store keeps it.
#[derive(Debug)]
pub struct Torrent {
    pub id: InfoHash,
    pub label: String,
    pub name: String,
    /// Bit pattern of the IEEE 754 binary64 fraction of the torrent that is
    /// complete.
    pub progress: u64,
    pub save_path: String,
    pub state: State,
    pub total_remaining: u64,
}

/// State of a Deluge torrent as the store keeps it.
#[derive(Debug, PartialEq, Eq, Structural)]
pub enum State {
    Downloading,
    Seeding,
    Paused,
    Error,
    Queued,
    Checking,
}

/// The stored state for a Deluge state: the state of the same name.
pub open spec fn stored_state(state: DelugeState) -> State {
    match state {
        DelugeState::Downloading => State::Downloading,
        DelugeState::Seeding => State::Seeding,
        DelugeState::Paused => State::Paused,
        DelugeState::Error => State::Error,
        DelugeState::Queued => State::Queued,
        DelugeState::Checking => State::Checking,
    }
}

impl Torrent {
    /// The stored record of a Deluge listing entry, under the id `id`.
    pub fn from_deluge(deluge_torrent: &DelugeTorrent, id: InfoHash) -> (res: Torrent)
        ensures
            res.id == id,
            res.label == deluge_torrent.label,
            res.name == deluge_torrent.name,
            res.progress == deluge_torrent.progress,
            res.save_path == deluge_torrent.save_path,
            res.state == stored_state(deluge_torrent.state),
            res.total_remaining == deluge_torrent.total_remaining,
    {
        Torrent {
            id,
            label: deluge_torrent.label.clone(),
            name: deluge_torrent.name.clone(),
            progress: deluge_torrent.progress,
            save_path: deluge_torrent.save_path.clone(),
            state: State::from_deluge(&deluge_torrent.state),
            total_remaining: deluge_torrent.total_remaining,
        }
    }
}

impl State {
    /// The stored state for a Deluge state.
    pub fn from_deluge(deluge_state: &DelugeState) -> (res: State)
        ensures
            res == stored_state(*deluge_state),
    {
        match deluge_state {
            DelugeState::Downloading => State::Downloading,
            DelugeState::Seeding => State::Seeding,
            DelugeState::Paused => State::Paused,
            DelugeState::Error => State::Error,
            DelugeState::Queued => State::Queued,
            DelugeState::Checking => State::Checking,
        }
    }
}

} // verus!
