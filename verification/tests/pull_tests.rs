use rogue_tremolo::deluge::{DelugeState, DelugeTorrent};
use rogue_tremolo::error::Error;
use rogue_tremolo::options::Credentials;
use rogue_tremolo::pull::{
    index_deluge_listing, index_qbittorrent_listing, PullAction, PullEvent, PullSession, PullStage,
};
use rogue_tremolo::qbittorrent::{QBittorrentState, QBittorrentTorrent};
use rogue_tremolo::{Client, Software, State, Torrent};

fn client(software: Software) -> Client {
    Client {
        id: "c".to_owned(),
        software,
        host: "http://host".to_owned(),
        username: Some("user".to_owned()),
        password: "pw".to_owned(),
        torrents: "/t".to_owned(),
        categories: Vec::new(),
    }
}

fn hex(b: u8) -> String {
    format!("{b:02x}").repeat(20)
}

fn deluge(name: &str, state: DelugeState) -> DelugeTorrent {
    DelugeTorrent {
        label: "linux".to_owned(),
        name: name.to_owned(),
        progress: 0.0f64.to_bits(),
        save_path: "/data".to_owned(),
        state,
        total_remaining: 0,
    }
}

fn qbittorrent(hash: String, name: &str) -> QBittorrentTorrent {
    QBittorrentTorrent {
        hash,
        name: name.to_owned(),
        category: "distros".to_owned(),
        state: QBittorrentState::Uploading,
        progress: 1.0f64.to_bits(),
        save_path: "/downloads".to_owned(),
    }
}

fn sorted_names(torrents: &[Torrent]) -> Vec<(u8, String)> {
    let mut names: Vec<(u8, String)> = torrents.iter().map(|t| (t.id.bytes[0], t.name.clone())).collect();
    names.sort();
    names
}

#[test]
fn deluge_pull_logs_in_then_lists_by_label() {
    let mut session = PullSession::new(&client(Software::Deluge), Some("linux".to_owned()));
    match session.step(PullEvent::Begin) {
        PullAction::Login(credentials) => assert_eq!(
            credentials,
            Credentials { host: "http://host".to_owned(), username: None, password: "pw".to_owned() }
        ),
        other => panic!("unexpected {other:?}"),
    }
    assert_eq!(session.stage, PullStage::LoggingIn);
    match session.step(PullEvent::LoginReply { accepted: true }) {
        PullAction::ListDeluge(filter) => assert_eq!(filter.label, Some(vec!["linux".to_owned()])),
        other => panic!("unexpected {other:?}"),
    }
    assert_eq!(session.stage, PullStage::Listing);
    let listing = vec![(hex(1), deluge("one", DelugeState::Seeding)), (hex(2), deluge("two", DelugeState::Paused))];
    match session.step(PullEvent::DelugeListing(listing)) {
        PullAction::Store(torrents) => {
            assert_eq!(sorted_names(&torrents), vec![(1, "one".to_owned()), (2, "two".to_owned())]);
            for t in &torrents {
                assert_eq!(t.category, "linux");
            }
        },
        other => panic!("unexpected {other:?}"),
    }
    assert_eq!(session.stage, PullStage::Finished);
}

#[test]
fn deluge_pull_without_category_lists_all() {
    let mut session = PullSession::new(&client(Software::Deluge), None);
    session.step(PullEvent::Begin);
    match session.step(PullEvent::LoginReply { accepted: true }) {
        PullAction::ListDeluge(filter) => assert_eq!(filter.label, None),
        other => panic!("unexpected {other:?}"),
    }
}

#[test]
fn qbittorrent_pull_lists_by_category() {
    let mut session = PullSession::new(&client(Software::QBittorrent), Some("distros".to_owned()));
    match session.step(PullEvent::Begin) {
        PullAction::Login(credentials) => assert_eq!(credentials.username, Some("user".to_owned())),
        other => panic!("unexpected {other:?}"),
    }
    match session.step(PullEvent::LoginReply { accepted: true }) {
        PullAction::ListQBittorrent(filter) => assert_eq!(filter.category, Some("distros".to_owned())),
        other => panic!("unexpected {other:?}"),
    }
    match session.step(PullEvent::QBittorrentListing(vec![qbittorrent(hex(3), "three")])) {
        PullAction::Store(torrents) => {
            assert_eq!(torrents.len(), 1);
            assert_eq!(torrents[0].id.bytes, [3; 20]);
            assert_eq!(torrents[0].state, State::Seeding);
        },
        other => panic!("unexpected {other:?}"),
    }
}

#[test]
fn refused_login_fails_pull() {
    let mut session = PullSession::new(&client(Software::QBittorrent), None);
    session.step(PullEvent::Begin);
    match session.step(PullEvent::LoginReply { accepted: false }) {
        PullAction::Fail(Error::LoginFailed { software }) => assert_eq!(software, Software::QBittorrent),
        other => panic!("unexpected {other:?}"),
    }
    assert_eq!(session.stage, PullStage::Finished);
}

#[test]
fn later_entry_with_same_hash_is_kept() {
    let listing = vec![
        (hex(5), deluge("first", DelugeState::Paused)),
        (hex(6), deluge("other", DelugeState::Paused)),
        (hex(5).to_uppercase(), deluge("second", DelugeState::Seeding)),
    ];
    let torrents = index_deluge_listing(listing).expect("listing should index");
    assert_eq!(sorted_names(&torrents), vec![(5, "second".to_owned()), (6, "other".to_owned())]);
}

#[test]
fn qbittorrent_duplicates_keep_last() {
    let listing = vec![
        qbittorrent(hex(7), "a"),
        qbittorrent(hex(7), "b"),
        qbittorrent(hex(7), "c"),
    ];
    let torrents = index_qbittorrent_listing(listing).expect("listing should index");
    assert_eq!(sorted_names(&torrents), vec![(7, "c".to_owned())]);
}

#[test]
fn empty_listing_stores_nothing() {
    assert!(index_deluge_listing(Vec::new()).expect("empty listing").is_empty());
    assert!(index_qbittorrent_listing(Vec::new()).expect("empty listing").is_empty());
}

#[test]
fn invalid_hash_stops_pull() {
    let listing = vec![
        (hex(1), deluge("ok", DelugeState::Paused)),
        ("nothex".to_owned(), deluge("bad", DelugeState::Paused)),
        ("alsobad".to_owned(), deluge("bad2", DelugeState::Paused)),
    ];
    assert_eq!(index_deluge_listing(listing).err(), Some("nothex".to_owned()));
    let mut session = PullSession::new(&client(Software::QBittorrent), None);
    session.step(PullEvent::Begin);
    session.step(PullEvent::LoginReply { accepted: true });
    match session.step(PullEvent::QBittorrentListing(vec![qbittorrent("zz".to_owned(), "x")])) {
        PullAction::InvalidHash(key) => assert_eq!(key, "zz"),
        other => panic!("unexpected {other:?}"),
    }
}
