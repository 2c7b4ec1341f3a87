//! Pulling the torrents of a client: the decisions between the requests.

use vstd::prelude::*;

use crate::deluge::{DelugeFilterOptions, DelugeTorrent};
use crate::hash::{all_ascii, hash_from_hex, hash_to_hex, InfoHash};
use crate::qbittorrent::{QBittorrentFilterOptions, QBittorrentTorrent};
use crate::error::Error;
use crate::options::{logs_in_with, Client, Credentials, Software};
use crate::torrent::{state_from_deluge, state_from_qbittorrent, Torrent};

verus! {

/// Position `j` of `s` holds the last torrent with its id.
pub open spec fn is_last_at(s: Seq<Torrent>, j: int) -> bool {
    forall|k: int| j < k < s.len() ==> #[trigger] s[k].id.bytes@ != s[j].id.bytes@
}

/// Some torrent of `s` has the id `id`.
pub open spec fn has_id(s: Seq<Torrent>, id: Seq<u8>) -> bool {
    exists|i: int| 0 <= i < s.len() && #[trigger] s[i].id.bytes@ == id
}

/// No two torrents of `s` have the same id.
pub open spec fn distinct_ids(s: Seq<Torrent>) -> bool {
    forall|i: int, j: int| 0 <= i < s.len() && 0 <= j < s.len() && i != j ==> #[trigger] s[i].id.bytes@ != #[trigger] s[j].id.bytes@
}

/// `t` is the last torrent of `s` with its id.
pub open spec fn is_last_of(s: Seq<Torrent>, t: Torrent) -> bool {
    exists|j: int| 0 <= j < s.len() && is_last_at(s, j) && s[j] == t
}

/// `out` holds, for every id in `s`, the last torrent of `s` with that id,
/// and nothing else: what collecting `s` into a map by id keeps.
pub open spec fn keeps_last_per_id(s: Seq<Torrent>, out: Seq<Torrent>) -> bool {
    &&& distinct_ids(out)
    &&& forall|i: int| 0 <= i < out.len() ==> is_last_of(s, #[trigger] out[i])
    &&& forall|j: int| 0 <= j < s.len() ==> has_id(out, #[trigger] s[j].id.bytes@)
}

/// Position in `out` of a torrent with the id `id`, if any.
fn position_of(out: &Vec<Torrent>, id: &InfoHash) -> (res: Option<usize>)
    ensures
        match res {
            Some(p) => p < out.len() && out@[p as int].id.bytes@ == id.bytes@,
            None => !has_id(out@, id.bytes@),
        },
{
    let n = out.len();
    let mut p: usize = 0;
    while p < n
        invariant
            n == out.len(),
            p <= n,
            forall|q: int| 0 <= q < p ==> out@[q].id.bytes@ != id.bytes@,
        decreases n - p,
    {
        let mut same = true;
        let mut k: usize = 0;
        while k < 20
            invariant
                k <= 20,
                p < n,
                n == out.len(),
                same <==> forall|m: int| 0 <= m < k ==> out@[p as int].id.bytes@[m] == id.bytes@[m],
            decreases 20 - k,
        {
            if out[p].id.bytes[k] != id.bytes[k] {
                same = false;
            }
            k += 1;
        }
        if same {
            assert(out@[p as int].id.bytes@ =~= id.bytes@);
            return Some(p);
        }
        p += 1;
    }
    None
}

/// Keep, for each id, the last of the torrents with that id.
fn keep_last_per_id(listed: Vec<Torrent>) -> (out: Vec<Torrent>)
    ensures
        keeps_last_per_id(listed@, out@),
{
    let mut conv = listed;
    let ghost orig = conv@;
    let ghost n = conv@.len() as int;
    let mut out: Vec<Torrent> = Vec::new();
    let ghost mut from: Seq<int> = Seq::empty();
    while conv.len() > 0
        invariant
            n == orig.len(),
            conv@ == orig.take(conv@.len() as int),
            conv@.len() <= n,
            from.len() == out@.len(),
            distinct_ids(out@),
            forall|i: int|
                0 <= i < out@.len() ==> conv@.len() <= #[trigger] from[i] < n && is_last_at(orig, from[i])
                    && out@[i] == orig[from[i]],
            forall|j: int| conv@.len() <= j < n ==> has_id(out@, #[trigger] orig[j].id.bytes@),
            forall|i: int| 0 <= i < out@.len() ==> has_id(orig.skip(conv@.len() as int), #[trigger] out@[i].id.bytes@),
        decreases conv@.len(),
    {
        let ghost m = conv@.len() as int;
        let t = conv.pop().unwrap();
        let tid = t.id;
        assert(t == orig[m - 1]);
        match position_of(&out, &t.id) {
            Some(p) => {
                assert(has_id(out@, tid.bytes@)) by {
                    assert(out@[p as int].id.bytes@ == tid.bytes@);
                }
            },
            None => {
                proof {
                    assert forall|k: int| m - 1 < k < n implies #[trigger] orig[k].id.bytes@ != orig[m - 1].id.bytes@ by {
                        if orig[k].id.bytes@ == orig[m - 1].id.bytes@ {
                            assert(has_id(out@, orig[k].id.bytes@));
                        }
                    }
                }
                let ghost old_out = out@;
                out.push(t);
                proof {
                    from = from.push(m - 1);
                    assert forall|i: int, j: int|
                        0 <= i < out@.len() && 0 <= j < out@.len() && i != j implies #[trigger] out@[i].id.bytes@
                        != #[trigger] out@[j].id.bytes@ by {
                        if i < old_out.len() && j < old_out.len() {
                        } else if i == old_out.len() {
                            assert(old_out[j] == out@[j]);
                        } else {
                            assert(old_out[i] == out@[i]);
                        }
                    }
                    assert(out@[out@.len() - 1].id.bytes@ == tid.bytes@);
                    assert(has_id(out@, tid.bytes@));
                    assert forall|j: int| m <= j < n implies has_id(out@, #[trigger] orig[j].id.bytes@) by {
                        assert(has_id(old_out, orig[j].id.bytes@));
                        let w = choose|w: int| 0 <= w < old_out.len() && #[trigger] old_out[w].id.bytes@ == orig[j].id.bytes@;
                        assert(out@[w] == old_out[w]);
                    }
                }
            },
        }
        proof {
            assert forall|j: int| conv@.len() <= j < n implies has_id(out@, #[trigger] orig[j].id.bytes@) by {
                if j == m - 1 {
                    assert(orig[j].id.bytes@ == tid.bytes@);
                }
            }
            assert forall|i: int| 0 <= i < out@.len() implies has_id(orig.skip(conv@.len() as int), #[trigger] out@[i].id.bytes@) by {
                let f = from[i];
                assert(orig.skip(conv@.len() as int)[f - conv@.len()] == orig[f]);
            }
        }
    }
    proof {
        assert(orig.skip(0) =~= orig);
        assert(listed@ == orig);
        assert(distinct_ids(out@));
        assert(forall|j: int| 0 <= j < orig.len() ==> has_id(out@, #[trigger] orig[j].id.bytes@));
        assert forall|i: int| 0 <= i < out@.len() implies is_last_of(orig, #[trigger] out@[i]) by {
            assert(is_last_at(orig, from[i]) && out@[i] == orig[from[i]]);
        }
        assert(keeps_last_per_id(orig, out@));
    }
    out
}

/// `key` is the text of an info hash: forty ASCII characters that make twenty
/// base 16 numbers.
pub open spec fn is_hash_text(key: Seq<char>) -> bool {
    all_ascii(key) && hash_from_hex(key) is Some
}

/// `t` is what the store keeps of the Deluge listing entry `d` under `key`.
pub open spec fn stored_from_deluge(t: Torrent, key: Seq<char>, d: DelugeTorrent) -> bool {
    &&& hash_from_hex(key) == Some(t.id.bytes@)
    &&& t.name == d.name
    &&& t.category == d.label
    &&& t.state == state_from_deluge(d.state)
    &&& t.progress == d.progress
    &&& t.save_path == d.save_path
}

/// `t` is what the store keeps of the qBittorrent listing entry `q`.
pub open spec fn stored_from_qbittorrent(t: Torrent, q: QBittorrentTorrent) -> bool {
    &&& hash_from_hex(q.hash@) == Some(t.id.bytes@)
    &&& t.name == q.name
    &&& t.category == q.category
    &&& t.state == state_from_qbittorrent(q.state)
    &&& t.progress == q.progress
    &&& t.save_path == q.save_path
}

/// `out` is what the store keeps of the Deluge listing `listing`: every entry
/// is listed under an info hash, and `out` holds, for each hash, what the
/// store keeps of the last entry listed under it.
pub open spec fn stores_deluge_listing(listing: Seq<(String, DelugeTorrent)>, out: Seq<Torrent>) -> bool {
    &&& forall|j: int| 0 <= j < listing.len() ==> is_hash_text(#[trigger] listing[j].0@)
    &&& exists|conv: Seq<Torrent>|
        {
            &&& conv.len() == listing.len()
            &&& forall|j: int|
                0 <= j < listing.len() ==> stored_from_deluge(#[trigger] conv[j], listing[j].0@, listing[j].1)
            &&& #[trigger] keeps_last_per_id(conv, out)
        }
}

/// `out` is what the store keeps of the qBittorrent listing `listing`: every
/// entry has an info hash, and `out` holds, for each hash, what the store
/// keeps of the last entry with it.
pub open spec fn stores_qbittorrent_listing(listing: Seq<QBittorrentTorrent>, out: Seq<Torrent>) -> bool {
    &&& forall|j: int| 0 <= j < listing.len() ==> is_hash_text(#[trigger] listing[j].hash@)
    &&& exists|conv: Seq<Torrent>|
        {
            &&& conv.len() == listing.len()
            &&& forall|j: int| 0 <= j < listing.len() ==> stored_from_qbittorrent(#[trigger] conv[j], listing[j])
            &&& #[trigger] keeps_last_per_id(conv, out)
        }
}

/// The key of the first entry of a Deluge listing that is no info hash.
pub open spec fn first_bad_deluge_key(listing: Seq<(String, DelugeTorrent)>, key: String) -> bool {
    exists|j: int|
        0 <= j < listing.len() && listing[j].0 == key && !is_hash_text(key@) && forall|i: int|
            0 <= i < j ==> is_hash_text(#[trigger] listing[i].0@)
}

/// The hash text of the first entry of a qBittorrent listing that is no info
/// hash.
pub open spec fn first_bad_qbittorrent_hash(listing: Seq<QBittorrentTorrent>, key: String) -> bool {
    exists|j: int|
        0 <= j < listing.len() && listing[j].hash == key && !is_hash_text(key@) && forall|i: int|
            0 <= i < j ==> is_hash_text(#[trigger] listing[i].hash@)
}

/// The torrents to store for a Deluge listing, by the info hash each entry is
/// listed under.
///
/// When an entry is listed under text that is no info hash, that text of the
/// first such entry is returned as the error. Otherwise each entry gives one
/// torrent ([`Torrent::from_deluge`]), and when two entries have one hash the
/// later one is kept.
pub fn index_deluge_listing(listing: Vec<(String, DelugeTorrent)>) -> (res: Result<Vec<Torrent>, String>)
    ensures
        match res {
            Err(key) => first_bad_deluge_key(listing@, key),
            Ok(out) => stores_deluge_listing(listing@, out@),
        },
{
    let n = listing.len();
    let mut conv: Vec<Torrent> = Vec::new();
    let mut i: usize = 0;
    while i < n
        invariant
            n == listing@.len(),
            i <= n,
            conv@.len() == i,
            forall|j: int| 0 <= j < i ==> is_hash_text(#[trigger] listing@[j].0@),
            forall|j: int|
                0 <= j < i ==> stored_from_deluge(#[trigger] conv@[j], listing@[j].0@, listing@[j].1),
        decreases n - i,
    {
        let entry = &listing[i];
        match InfoHash::from_hex(entry.0.as_str()) {
            Some(id) => {
                conv.push(Torrent::from_deluge(&entry.1, id));
            },
            None => {
                let key = entry.0.clone();
                assert(listing@[i as int].0 == key);
                assert(!is_hash_text(key@));
                assert(first_bad_deluge_key(listing@, key)) by {
                    assert(listing@[i as int].0 == key && !is_hash_text(key@) && forall|k: int|
                        0 <= k < i ==> is_hash_text(#[trigger] listing@[k].0@));
                }
                return Err(key);
            },
        }
        i += 1;
    }
    let ghost all = conv@;
    let out = keep_last_per_id(conv);
    assert(keeps_last_per_id(all, out@));
    Ok(out)
}

/// The torrents to store for a qBittorrent listing, by the info hash of each
/// entry.
///
/// When an entry's hash is no info hash, that text of the first such entry is
/// returned as the error. Otherwise each entry gives one torrent
/// ([`Torrent::from_qbittorrent`]), and when two entries have one hash the
/// later one is kept.
pub fn index_qbittorrent_listing(listing: Vec<QBittorrentTorrent>) -> (res: Result<Vec<Torrent>, String>)
    ensures
        match res {
            Err(key) => first_bad_qbittorrent_hash(listing@, key),
            Ok(out) => stores_qbittorrent_listing(listing@, out@),
        },
{
    let n = listing.len();
    let mut conv: Vec<Torrent> = Vec::new();
    let mut i: usize = 0;
    while i < n
        invariant
            n == listing@.len(),
            i <= n,
            conv@.len() == i,
            forall|j: int| 0 <= j < i ==> is_hash_text(#[trigger] listing@[j].hash@),
            forall|j: int| 0 <= j < i ==> stored_from_qbittorrent(#[trigger] conv@[j], listing@[j]),
        decreases n - i,
    {
        let entry = &listing[i];
        match InfoHash::from_hex(entry.hash.as_str()) {
            Some(id) => {
                conv.push(Torrent::from_qbittorrent(entry, id));
            },
            None => {
                let key = entry.hash.clone();
                assert(listing@[i as int].hash == key);
                assert(!is_hash_text(key@));
                assert(first_bad_qbittorrent_hash(listing@, key)) by {
                    assert(listing@[i as int].hash == key && !is_hash_text(key@) && forall|k: int|
                        0 <= k < i ==> is_hash_text(#[trigger] listing@[k].hash@));
                }
                return Err(key);
            },
        }
        i += 1;
    }
    let ghost all = conv@;
    let out = keep_last_per_id(conv);
    assert(keeps_last_per_id(all, out@));
    Ok(out)
}

/// Where a pull is.
#[derive(Clone, Copy, Debug, PartialEq, Eq, Structural)]
pub enum PullStage {
    /// Nothing sent yet.
    Start,
    /// Waiting for the reply to the login.
    LoggingIn,
    /// Waiting for the torrent listing.
    Listing,
    /// Done, one way or the other.
    Finished,
}

/// A pull of the torrents of one client.
#[derive(Debug)]
pub struct PullSession {
    pub software: Software,
    pub credentials: Credentials,
    /// Only torrents of this category (Deluge: label) are pulled.
    pub category: Option<String>,
    pub stage: PullStage,
}

/// What the client answered, or the signal to start.
#[derive(Debug)]
pub enum PullEvent {
    Begin,
    /// Whether the client accepted the login.
    LoginReply { accepted: bool },
    /// Deluge's listing: each torrent under the text of its info hash.
    DelugeListing(Vec<(String, DelugeTorrent)>),
    /// qBittorrent's listing.
    QBittorrentListing(Vec<QBittorrentTorrent>),
}

/// What to do next.
#[derive(Debug)]
pub enum PullAction {
    /// Log in to the client.
    Login(Credentials),
    /// Ask Deluge for its torrents.
    ListDeluge(DelugeFilterOptions),
    /// Ask qBittorrent for its torrents.
    ListQBittorrent(QBittorrentFilterOptions),
    /// Store these torrents; no two have the same id.
    Store(Vec<Torrent>),
    /// The listing names a torrent by this text, which is no info hash; the
    /// pull cannot go on.
    InvalidHash(String),
    /// Stop with this error.
    Fail(Error),
}

/// The Deluge filter for `category`: all torrents, or those labelled with it.
pub open spec fn deluge_filter_for(category: Option<String>, filter: DelugeFilterOptions) -> bool {
    match category {
        Some(c) => filter.label matches Some(labels) && labels@ == seq![c],
        None => filter.label is None,
    }
}

/// `event` can come next in a pull from `software` at `stage`.
pub open spec fn pull_accepts(software: Software, stage: PullStage, event: PullEvent) -> bool {
    match (stage, event) {
        (PullStage::Start, PullEvent::Begin) => true,
        (PullStage::LoggingIn, PullEvent::LoginReply { .. }) => true,
        (PullStage::Listing, PullEvent::DelugeListing(_)) => software == Software::Deluge,
        (PullStage::Listing, PullEvent::QBittorrentListing(_)) => software == Software::QBittorrent,
        _ => false,
    }
}

/// Where a pull at `stage` is after `event`.
pub open spec fn pull_next_stage(stage: PullStage, event: PullEvent) -> PullStage {
    match event {
        PullEvent::Begin => PullStage::LoggingIn,
        PullEvent::LoginReply { accepted } => if accepted {
            PullStage::Listing
        } else {
            PullStage::Finished
        },
        PullEvent::DelugeListing(_) => PullStage::Finished,
        PullEvent::QBittorrentListing(_) => PullStage::Finished,
    }
}

/// Each of `events` can come when it comes, in a pull from `software` that is
/// at `stage`.
pub open spec fn pull_run_accepted(software: Software, stage: PullStage, events: Seq<PullEvent>) -> bool
    decreases events.len(),
{
    events.len() == 0 || (pull_accepts(software, stage, events[0]) && pull_run_accepted(
        software,
        pull_next_stage(stage, events[0]),
        events.drop_first(),
    ))
}

/// Some event of `events` reports an accepted login.
pub open spec fn login_accepted(events: Seq<PullEvent>) -> bool {
    exists|j: int| 0 <= j < events.len() && #[trigger] events[j] == (PullEvent::LoginReply { accepted: true })
}

/// A pull lists torrents only after a login was accepted: in any run of a
/// pull from its start, a listing (which alone gives torrents to store) comes
/// after a reply that accepted the login.
pub proof fn lemma_listing_only_after_accepted_login(software: Software, events: Seq<PullEvent>, k: int)
    requires
        pull_run_accepted(software, PullStage::Start, events),
        0 <= k < events.len(),
        events[k] is DelugeListing || events[k] is QBittorrentListing,
    ensures
        login_accepted(events.take(k)),
{
    lemma_stage_tracks_login(software, PullStage::Start, events, k);
}

/// Along an accepted run, the stage before event `k` is `Listing` only if the
/// run started there or a login was accepted on the way.
proof fn lemma_stage_tracks_login(software: Software, stage: PullStage, events: Seq<PullEvent>, k: int)
    requires
        pull_run_accepted(software, stage, events),
        0 <= k < events.len(),
        stage != PullStage::Listing,
        events[k] is DelugeListing || events[k] is QBittorrentListing,
    ensures
        login_accepted(events.take(k)),
    decreases k,
{
    let e = events[0];
    let rest = events.drop_first();
    let next = pull_next_stage(stage, e);
    if k == 0 {
        assert(false);
    } else if next == PullStage::Listing {
        assert(e == (PullEvent::LoginReply { accepted: true }));
        assert(events.take(k)[0] == e);
    } else {
        lemma_stage_tracks_login(software, next, rest, k - 1);
        let j = choose|j: int| 0 <= j < rest.take(k - 1).len() && #[trigger] rest.take(k - 1)[j] == (PullEvent::LoginReply { accepted: true });
        assert(events.take(k)[j + 1] == rest.take(k - 1)[j]);
    }
}

impl PullSession {
    /// A pull of the torrents of `client`, of the category `category` or of
    /// all categories.
    pub fn new(client: &Client, category: Option<String>) -> (res: PullSession)
        ensures
            res.software == client.software,
            logs_in_with(*client, res.credentials),
            res.category == category,
            res.stage == PullStage::Start,
    {
        PullSession {
            software: client.software,
            credentials: client.credentials(),
            category,
            stage: PullStage::Start,
        }
    }

    /// `event` is one that can come next.
    pub open spec fn accepts(&self, event: &PullEvent) -> bool {
        pull_accepts(self.software, self.stage, *event)
    }

    /// Take in what came and say what to do next.
    ///
    /// Once started the client is logged in to; a refused login ends the pull
    /// with [`Error::LoginFailed`]. After a login the client is asked for
    /// its torrents of the category, and its listing is turned into the
    /// torrents to store, one per info hash, the last one listed under it.
    pub fn step(&mut self, event: PullEvent) -> (action: PullAction)
        requires
            old(self).accepts(&event),
        ensures
            final(self).software == old(self).software,
            final(self).credentials == old(self).credentials,
            final(self).category == old(self).category,
            final(self).stage == pull_next_stage(old(self).stage, event),
            match event {
                PullEvent::Begin => {
                    &&& final(self).stage == PullStage::LoggingIn
                    &&& action == PullAction::Login(old(self).credentials)
                },
                PullEvent::LoginReply { accepted } => if !accepted {
                    &&& final(self).stage == PullStage::Finished
                    &&& action == PullAction::Fail(Error::LoginFailed { software: old(self).software })
                } else {
                    &&& final(self).stage == PullStage::Listing
                    &&& match old(self).software {
                        Software::Deluge => action matches PullAction::ListDeluge(f) && deluge_filter_for(
                            old(self).category,
                            f,
                        ),
                        Software::QBittorrent => action matches PullAction::ListQBittorrent(f)
                            && f.category == old(self).category,
                    }
                },
                PullEvent::DelugeListing(listing) => {
                    &&& final(self).stage == PullStage::Finished
                    &&& match action {
                        PullAction::Store(out) => stores_deluge_listing(listing@, out@),
                        PullAction::InvalidHash(key) => first_bad_deluge_key(listing@, key),
                        _ => false,
                    }
                },
                PullEvent::QBittorrentListing(listing) => {
                    &&& final(self).stage == PullStage::Finished
                    &&& match action {
                        PullAction::Store(out) => stores_qbittorrent_listing(listing@, out@),
                        PullAction::InvalidHash(key) => first_bad_qbittorrent_hash(listing@, key),
                        _ => false,
                    }
                },
            },
    {
        match event {
            PullEvent::Begin => {
                self.stage = PullStage::LoggingIn;
                PullAction::Login(self.credentials.clone())
            },
            PullEvent::LoginReply { accepted } => {
                if !accepted {
                    self.stage = PullStage::Finished;
                    return PullAction::Fail(Error::LoginFailed { software: self.software });
                }
                self.stage = PullStage::Listing;
                let category = match &self.category {
                    Some(c) => Some(c.clone()),
                    None => None,
                };
                match self.software {
                    Software::Deluge => {
                        let label = match category {
                            Some(c) => {
                                let mut labels: Vec<String> = Vec::new();
                                labels.push(c);
                                Some(labels)
                            },
                            None => None,
                        };
                        PullAction::ListDeluge(DelugeFilterOptions { label })
                    },
                    Software::QBittorrent => PullAction::ListQBittorrent(
                        QBittorrentFilterOptions { category },
                    ),
                }
            },
            PullEvent::DelugeListing(listing) => {
                self.stage = PullStage::Finished;
                match index_deluge_listing(listing) {
                    Ok(out) => PullAction::Store(out),
                    Err(key) => PullAction::InvalidHash(key),
                }
            },
            PullEvent::QBittorrentListing(listing) => {
                self.stage = PullStage::Finished;
                match index_qbittorrent_listing(listing) {
                    Ok(out) => PullAction::Store(out),
                    Err(key) => PullAction::InvalidHash(key),
                }
            },
        }
    }
}

/// Appends `tail` to `s` with `String::push_str`, which std documents as
/// appending the given string slice onto the end of the `String`.
#[verifier::external_body]
fn push_str(s: &mut String, tail: &str)
    ensures
        final(s)@ == old(s)@ + tail@,
{
    s.push_str(tail);
}

/// Name of the `.torrent` file of the torrent with the hash `id` in a client's
/// torrent directory: the hash in lower case hexadecimal and `.torrent`.
pub fn torrent_file_name(id: &InfoHash) -> (res: String)
    ensures
        res@ == hash_to_hex(id.bytes@) + ".torrent"@,
{
    let mut name = id.to_hex();
    push_str(&mut name, ".torrent");
    name
}

} // verus!
