use vstd::prelude::*;

use crate::deluge::{DelugeState, DelugeTorrent};
use crate::hash::InfoHash;
use crate::qbittorrent::{AddTorrentOptions, QBittorrentState, QBittorrentTorrent};

verus! {

/// State of a torrent, whichever client it came from.
#[derive(Debug)]
pub enum State {
    Downloading,
    Seeding,
    Paused,
    Error,
    Queued,
    Checking,
    Moving,
    Unknown,
    Other(String),
}

impl Clone for State {
    fn clone(&self) -> (res: Self)
        ensures
            res == *self,
    {
        match self {
            State::Downloading => State::Downloading,
            State::Seeding => State::Seeding,
            State::Paused => State::Paused,
            State::Error => State::Error,
            State::Queued => State::Queued,
            State::Checking => State::Checking,
            State::Moving => State::Moving,
            State::Unknown => State::Unknown,
            State::Other(s) => State::Other(s.clone()),
        }
    }
}

impl PartialEq for State {
    fn eq(&self, other: &Self) -> (res: bool) {
        match (self, other) {
            (State::Downloading, State::Downloading) => true,
            (State::Seeding, State::Seeding) => true,
            (State::Paused, State::Paused) => true,
            (State::Error, State::Error) => true,
            (State::Queued, State::Queued) => true,
            (State::Checking, State::Checking) => true,
            (State::Moving, State::Moving) => true,
            (State::Unknown, State::Unknown) => true,
            (State::Other(a), State::Other(b)) => a.eq(b),
            _ => false,
        }
    }
}

impl Eq for State {
}

impl vstd::std_specs::cmp::PartialEqSpecImpl for State {
    open spec fn obeys_eq_spec() -> bool {
        true
    }

    open spec fn eq_spec(&self, other: &State) -> bool {
        match (self, other) {
            (State::Other(a), State::Other(b)) => a@ == b@,
            (State::Other(_), _) => false,
            (_, State::Other(_)) => false,
            _ => self == other,
        }
    }
}

/// A torrent as the library stores it.
#[derive(Debug)]
pub struct Torrent {
    pub id: InfoHash,
    pub name: String,
    pub category: String,
    pub state: State,
    /// Bit pattern of the IEEE 754 binary64 fraction of the torrent that is
    /// complete.
    pub progress: u64,
    pub save_path: String,
}

impl Clone for Torrent {
    fn clone(&self) -> (res: Self)
        ensures
            res == *self,
    {
        Torrent {
            id: self.id,
            name: self.name.clone(),
            category: self.category.clone(),
            state: self.state.clone(),
            progress: self.progress,
            save_path: self.save_path.clone(),
        }
    }
}

/// The state that a Deluge state stands for.
pub open spec fn state_from_deluge(state: DelugeState) -> State {
    match state {
        DelugeState::Downloading => State::Downloading,
        DelugeState::Seeding => State::Seeding,
        DelugeState::Paused => State::Paused,
        DelugeState::Error => State::Error,
        DelugeState::Queued => State::Queued,
        DelugeState::Checking => State::Checking,
    }
}

/// The state that a qBittorrent state stands for.
pub open spec fn state_from_qbittorrent(state: QBittorrentState) -> State {
    match state {
        QBittorrentState::Error | QBittorrentState::MissingFiles => State::Error,
        QBittorrentState::Uploading | QBittorrentState::StalledUP | QBittorrentState::ForcedUP => {
            State::Seeding
        },
        QBittorrentState::PausedUP
        | QBittorrentState::StoppedUP
        | QBittorrentState::PausedDL
        | QBittorrentState::StoppedDL => State::Paused,
        QBittorrentState::QueuedUP | QBittorrentState::QueuedDL => State::Queued,
        QBittorrentState::CheckingUP
        | QBittorrentState::CheckingDL
        | QBittorrentState::CheckingResumeData => State::Checking,
        QBittorrentState::Allocating
        | QBittorrentState::Downloading
        | QBittorrentState::MetaDL
        | QBittorrentState::StalledDL
        | QBittorrentState::ForcedDL => State::Downloading,
        QBittorrentState::Moving => State::Moving,
        QBittorrentState::Unknown => State::Unknown,
    }
}

/// The options with which a torrent is added to qBittorrent: into its own save
/// path and category, without a hash check, and paused unless it is seeding.
pub open spec fn add_options_for(torrent: Torrent) -> AddTorrentOptions {
    AddTorrentOptions {
        save_path: Some(torrent.save_path),
        category: Some(torrent.category),
        skip_checking: Some(true),
        paused: Some(!(torrent.state is Seeding)),
    }
}

impl Torrent {
    /// The torrent that a Deluge listing entry describes, under the id `id`.
    ///
    /// Its category is the Deluge label.
    pub fn from_deluge(torrent: &DelugeTorrent, id: InfoHash) -> (res: Torrent)
        ensures
            res.id == id,
            res.name == torrent.name,
            res.category == torrent.label,
            res.state == state_from_deluge(torrent.state),
            res.progress == torrent.progress,
            res.save_path == torrent.save_path,
    {
        Torrent {
            id,
            name: torrent.name.clone(),
            category: torrent.label.clone(),
            state: State::from_deluge(&torrent.state),
            progress: torrent.progress,
            save_path: torrent.save_path.clone(),
        }
    }

    /// The torrent that a qBittorrent listing entry describes, under the id
    /// `id`.
    pub fn from_qbittorrent(torrent: &QBittorrentTorrent, id: InfoHash) -> (res: Torrent)
        ensures
            res.id == id,
            res.name == torrent.name,
            res.category == torrent.category,
            res.state == state_from_qbittorrent(torrent.state),
            res.progress == torrent.progress,
            res.save_path == torrent.save_path,
    {
        Torrent {
            id,
            name: torrent.name.clone(),
            category: torrent.category.clone(),
            state: State::from_qbittorrent(&torrent.state),
            progress: torrent.progress,
            save_path: torrent.save_path.clone(),
        }
    }

    /// The options to add this torrent to qBittorrent with.
    pub fn to_qbittorrent_add_options(self) -> (res: AddTorrentOptions)
        ensures
            res == add_options_for(self),
    {
        let paused = match self.state {
            State::Seeding => false,
            _ => true,
        };
        AddTorrentOptions {
            save_path: Some(self.save_path),
            category: Some(self.category),
            skip_checking: Some(true),
            paused: Some(paused),
        }
    }
}

impl State {
    /// The state that a Deluge state stands for.
    pub fn from_deluge(state: &DelugeState) -> (res: State)
        ensures
            res == state_from_deluge(*state),
    {
        match state {
            DelugeState::Downloading => State::Downloading,
            DelugeState::Seeding => State::Seeding,
            DelugeState::Paused => State::Paused,
            DelugeState::Error => State::Error,
            DelugeState::Queued => State::Queued,
            DelugeState::Checking => State::Checking,
        }
    }

    /// The state that a qBittorrent state stands for.
    pub fn from_qbittorrent(state: &QBittorrentState) -> (res: State)
        ensures
            res == state_from_qbittorrent(*state),
    {
        match state {
            QBittorrentState::Error => State::Error,
            QBittorrentState::MissingFiles => State::Error,
            QBittorrentState::Uploading => State::Seeding,
            QBittorrentState::PausedUP => State::Paused,
            QBittorrentState::StoppedUP => State::Paused,
            QBittorrentState::QueuedUP => State::Queued,
            QBittorrentState::StalledUP => State::Seeding,
            QBittorrentState::CheckingUP => State::Checking,
            QBittorrentState::ForcedUP => State::Seeding,
            QBittorrentState::Allocating => State::Downloading,
            QBittorrentState::Downloading => State::Downloading,
            QBittorrentState::MetaDL => State::Downloading,
            QBittorrentState::PausedDL => State::Paused,
            QBittorrentState::StoppedDL => State::Paused,
            QBittorrentState::QueuedDL => State::Queued,
            QBittorrentState::StalledDL => State::Downloading,
            QBittorrentState::CheckingDL => State::Checking,
            QBittorrentState::ForcedDL => State::Downloading,
            QBittorrentState::CheckingResumeData => State::Checking,
            QBittorrentState::Moving => State::Moving,
            QBittorrentState::Unknown => State::Unknown,
        }
    }
}

} // verus!
