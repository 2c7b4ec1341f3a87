use rogue_tremolo::deluge::{DelugeState, DelugeTorrent};
use rogue_tremolo::qbittorrent::{AddTorrentOptions, QBittorrentState, QBittorrentTorrent};
use rogue_tremolo::schema::torrent as schema;
use rogue_tremolo::{InfoHash, State, Torrent};

fn id() -> InfoHash {
    InfoHash { bytes: [9; 20] }
}

fn deluge(state: DelugeState) -> DelugeTorrent {
    DelugeTorrent {
        label: "linux".to_owned(),
        name: "ubuntu.iso".to_owned(),
        progress: 0.5f64.to_bits(),
        save_path: "/data".to_owned(),
        state,
        total_remaining: 1234,
    }
}

fn qbittorrent(state: QBittorrentState) -> QBittorrentTorrent {
    QBittorrentTorrent {
        hash: "09".repeat(20),
        name: "debian.iso".to_owned(),
        category: "distros".to_owned(),
        state,
        progress: 1.0f64.to_bits(),
        save_path: "/downloads".to_owned(),
    }
}

fn torrent(state: State) -> Torrent {
    Torrent {
        id: id(),
        name: "n".to_owned(),
        category: "c".to_owned(),
        state,
        progress: 0.25f64.to_bits(),
        save_path: "/p".to_owned(),
    }
}

#[test]
fn state_from_deluge_keeps_names() {
    assert_eq!(State::from_deluge(&DelugeState::Downloading), State::Downloading);
    assert_eq!(State::from_deluge(&DelugeState::Seeding), State::Seeding);
    assert_eq!(State::from_deluge(&DelugeState::Paused), State::Paused);
    assert_eq!(State::from_deluge(&DelugeState::Error), State::Error);
    assert_eq!(State::from_deluge(&DelugeState::Queued), State::Queued);
    assert_eq!(State::from_deluge(&DelugeState::Checking), State::Checking);
}

#[test]
fn state_from_qbittorrent_groups_states() {
    let cases = [
        (QBittorrentState::Error, State::Error),
        (QBittorrentState::MissingFiles, State::Error),
        (QBittorrentState::Uploading, State::Seeding),
        (QBittorrentState::PausedUP, State::Paused),
        (QBittorrentState::StoppedUP, State::Paused),
        (QBittorrentState::QueuedUP, State::Queued),
        (QBittorrentState::StalledUP, State::Seeding),
        (QBittorrentState::CheckingUP, State::Checking),
        (QBittorrentState::ForcedUP, State::Seeding),
        (QBittorrentState::Allocating, State::Downloading),
        (QBittorrentState::Downloading, State::Downloading),
        (QBittorrentState::MetaDL, State::Downloading),
        (QBittorrentState::PausedDL, State::Paused),
        (QBittorrentState::StoppedDL, State::Paused),
        (QBittorrentState::QueuedDL, State::Queued),
        (QBittorrentState::StalledDL, State::Downloading),
        (QBittorrentState::CheckingDL, State::Checking),
        (QBittorrentState::ForcedDL, State::Downloading),
        (QBittorrentState::CheckingResumeData, State::Checking),
        (QBittorrentState::Moving, State::Moving),
        (QBittorrentState::Unknown, State::Unknown),
    ];
    for (from, to) in cases {
        assert_eq!(State::from_qbittorrent(&from), to, "{from:?}");
    }
}

#[test]
fn state_equality_compares_other_text() {
    assert_eq!(State::Other("x".to_owned()), State::Other("x".to_owned()));
    assert_ne!(State::Other("x".to_owned()), State::Other("y".to_owned()));
    assert_ne!(State::Other("Seeding".to_owned()), State::Seeding);
    assert_ne!(State::Paused, State::Seeding);
}

#[test]
fn torrent_from_deluge_uses_label_as_category() {
    let t = Torrent::from_deluge(&deluge(DelugeState::Seeding), id());
    assert_eq!(t.id, id());
    assert_eq!(t.name, "ubuntu.iso");
    assert_eq!(t.category, "linux");
    assert_eq!(t.state, State::Seeding);
    assert_eq!(f64::from_bits(t.progress), 0.5);
    assert_eq!(t.save_path, "/data");
}

#[test]
fn torrent_from_qbittorrent_keeps_fields() {
    let t = Torrent::from_qbittorrent(&qbittorrent(QBittorrentState::StalledDL), id());
    assert_eq!(t.id, id());
    assert_eq!(t.name, "debian.iso");
    assert_eq!(t.category, "distros");
    assert_eq!(t.state, State::Downloading);
    assert_eq!(f64::from_bits(t.progress), 1.0);
    assert_eq!(t.save_path, "/downloads");
}

#[test]
fn seeding_torrent_is_added_unpaused() {
    let options = torrent(State::Seeding).to_qbittorrent_add_options();
    assert_eq!(
        options,
        AddTorrentOptions {
            save_path: Some("/p".to_owned()),
            category: Some("c".to_owned()),
            skip_checking: Some(true),
            paused: Some(false),
        }
    );
}

#[test]
fn other_torrents_are_added_paused() {
    for state in [
        State::Downloading,
        State::Paused,
        State::Error,
        State::Queued,
        State::Checking,
        State::Moving,
        State::Unknown,
        State::Other("Seeding".to_owned()),
    ] {
        let options = torrent(state).to_qbittorrent_add_options();
        assert_eq!(options.paused, Some(true));
        assert_eq!(options.skip_checking, Some(true));
    }
}

#[test]
fn qbittorrent_seeding_torrent_pushed_unpaused() {
    let t = Torrent::from_qbittorrent(&qbittorrent(QBittorrentState::ForcedUP), id());
    assert_eq!(t.to_qbittorrent_add_options().paused, Some(false));
    let t = Torrent::from_qbittorrent(&qbittorrent(QBittorrentState::PausedUP), id());
    assert_eq!(t.to_qbittorrent_add_options().paused, Some(true));
}

#[test]
fn cloned_torrent_keeps_fields() {
    let t = torrent(State::Other("odd".to_owned()));
    let c = t.clone();
    assert_eq!(c.id, t.id);
    assert_eq!(c.name, t.name);
    assert_eq!(c.state, t.state);
    assert_eq!(c.progress, t.progress);
}

#[test]
fn schema_torrent_from_deluge_keeps_fields() {
    let t = schema::Torrent::from_deluge(&deluge(DelugeState::Queued), id());
    assert_eq!(t.id, id());
    assert_eq!(t.label, "linux");
    assert_eq!(t.name, "ubuntu.iso");
    assert_eq!(f64::from_bits(t.progress), 0.5);
    assert_eq!(t.save_path, "/data");
    assert_eq!(t.state, schema::State::Queued);
    assert_eq!(t.total_remaining, 1234);
}

#[test]
fn schema_state_from_deluge_keeps_names() {
    assert_eq!(schema::State::from_deluge(&DelugeState::Downloading), schema::State::Downloading);
    assert_eq!(schema::State::from_deluge(&DelugeState::Seeding), schema::State::Seeding);
    assert_eq!(schema::State::from_deluge(&DelugeState::Paused), schema::State::Paused);
    assert_eq!(schema::State::from_deluge(&DelugeState::Error), schema::State::Error);
    assert_eq!(schema::State::from_deluge(&DelugeState::Queued), schema::State::Queued);
    assert_eq!(schema::State::from_deluge(&DelugeState::Checking), schema::State::Checking);
}
