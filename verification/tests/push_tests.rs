use rogue_tremolo::error::Error;
use rogue_tremolo::push::{filter_by_category, PushAction, PushEvent, PushSession, PushStage};
use rogue_tremolo::{Client, InfoHash, Software, State, Torrent};

fn client(software: Software) -> Client {
    Client {
        id: "c".to_owned(),
        software,
        host: "http://host".to_owned(),
        username: None,
        password: "pw".to_owned(),
        torrents: "/t".to_owned(),
        categories: Vec::new(),
    }
}

fn torrent(n: u8, category: &str, state: State) -> Torrent {
    Torrent {
        id: InfoHash { bytes: [n; 20] },
        name: format!("t{n}"),
        category: category.to_owned(),
        state,
        progress: 0,
        save_path: format!("/save/{n}"),
    }
}

#[test]
fn filter_keeps_category_in_order() {
    let torrents = vec![
        torrent(1, "a", State::Seeding),
        torrent(2, "b", State::Seeding),
        torrent(3, "a", State::Paused),
    ];
    let kept = filter_by_category(&torrents, &Some("a".to_owned()));
    let names: Vec<String> = kept.iter().map(|t| t.name.clone()).collect();
    assert_eq!(names, vec!["t1".to_owned(), "t3".to_owned()]);
}

#[test]
fn filter_without_category_keeps_all() {
    let torrents = vec![torrent(1, "a", State::Seeding), torrent(2, "b", State::Seeding)];
    assert_eq!(filter_by_category(&torrents, &None).len(), 2);
    assert!(filter_by_category(&torrents, &Some("z".to_owned())).is_empty());
}

#[test]
fn deluge_push_is_not_implemented() {
    let mut session = PushSession::new(&client(Software::Deluge), vec![("/f".to_owned(), torrent(1, "a", State::Seeding))]);
    match session.step(PushEvent::Begin) {
        PushAction::Fail(Error::PushNotImplemented { software }) => assert_eq!(software, Software::Deluge),
        other => panic!("unexpected {other:?}"),
    }
    assert_eq!(session.stage, PushStage::Finished);
}

#[test]
fn qbittorrent_push_counts_confirmed_adds() {
    let torrents = vec![
        ("/f1".to_owned(), torrent(1, "a", State::Seeding)),
        ("/f2".to_owned(), torrent(2, "a", State::Paused)),
        ("/f3".to_owned(), torrent(3, "a", State::Seeding)),
    ];
    let mut session = PushSession::new(&client(Software::QBittorrent), torrents);
    match session.step(PushEvent::Begin) {
        PushAction::Login(credentials) => assert_eq!(credentials.username, Some(String::new())),
        other => panic!("unexpected {other:?}"),
    }
    match session.step(PushEvent::LoginReply { accepted: true }) {
        PushAction::Add { options, path } => {
            assert_eq!(path, "/f1");
            assert_eq!(options.paused, Some(false));
            assert_eq!(options.save_path, Some("/save/1".to_owned()));
        },
        other => panic!("unexpected {other:?}"),
    }
    match session.step(PushEvent::AddReply { result: Some(true) }) {
        PushAction::Add { options, path } => {
            assert_eq!(path, "/f2");
            assert_eq!(options.paused, Some(true));
        },
        other => panic!("unexpected {other:?}"),
    }
    match session.step(PushEvent::AddReply { result: None }) {
        PushAction::Add { path, .. } => assert_eq!(path, "/f3"),
        other => panic!("unexpected {other:?}"),
    }
    match session.step(PushEvent::AddReply { result: Some(true) }) {
        PushAction::Done { added } => assert_eq!(added, 2),
        other => panic!("unexpected {other:?}"),
    }
    assert_eq!(session.stage, PushStage::Finished);
}

#[test]
fn failed_add_is_not_counted() {
    let mut session = PushSession::new(&client(Software::QBittorrent), vec![("/f".to_owned(), torrent(1, "a", State::Seeding))]);
    session.step(PushEvent::Begin);
    session.step(PushEvent::LoginReply { accepted: true });
    match session.step(PushEvent::AddReply { result: Some(false) }) {
        PushAction::Done { added } => assert_eq!(added, 0),
        other => panic!("unexpected {other:?}"),
    }
}

#[test]
fn nothing_to_push_is_done_after_login() {
    let mut session = PushSession::new(&client(Software::QBittorrent), Vec::new());
    session.step(PushEvent::Begin);
    match session.step(PushEvent::LoginReply { accepted: true }) {
        PushAction::Done { added } => assert_eq!(added, 0),
        other => panic!("unexpected {other:?}"),
    }
}

#[test]
fn refused_login_fails_push() {
    let mut session = PushSession::new(&client(Software::QBittorrent), Vec::new());
    session.step(PushEvent::Begin);
    match session.step(PushEvent::LoginReply { accepted: false }) {
        PushAction::Fail(Error::LoginFailed { software }) => assert_eq!(software, Software::QBittorrent),
        other => panic!("unexpected {other:?}"),
    }
}
