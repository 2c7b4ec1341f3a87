//! Pushing stored torrents into a client: the decisions between the requests.

use vstd::prelude::*;

use crate::error::Error;
use crate::options::{logs_in_with, Client, Credentials, Software};
use crate::qbittorrent::AddTorrentOptions;
use crate::deluge::{DelugeState, DelugeTorrent};
use crate::pull::{stored_from_deluge, stored_from_qbittorrent};
use crate::qbittorrent::{QBittorrentState, QBittorrentTorrent};
use crate::torrent::{add_options_for, Torrent};

verus! {

broadcast use vstd::seq_lib::group_seq_properties;

/// `torrent` is to be pushed when pushing `category`: any torrent when no
/// category is given, otherwise those of that category.
pub open spec fn in_category(torrent: Torrent, category: Option<String>) -> bool {
    match category {
        Some(c) => c@ == torrent.category@,
        None => true,
    }
}

/// Filtering by a predicate that holds of everything keeps everything.
proof fn lemma_filter_keeps_all(s: Seq<Torrent>, pred: spec_fn(Torrent) -> bool)
    requires
        forall|t: Torrent| #[trigger] pred(t),
    ensures
        s.filter(pred) == s,
    decreases s.len(),
{
    reveal(Seq::filter);
    if s.len() > 0 {
        lemma_filter_keeps_all(s.drop_last(), pred);
        assert(s.drop_last().push(s.last()) =~= s);
    }
}

/// The torrents of `torrents` that a push for `category` selects, in order.
pub open spec fn category_selection(torrents: Seq<Torrent>, category: Option<String>) -> Seq<Torrent> {
    torrents.filter(|t: Torrent| in_category(t, category))
}

/// Selecting by category keeps a torrent exactly when its category is the one
/// asked for: each kept torrent is one of the given torrents and, when a
/// category is asked for, has exactly that category; each given torrent of
/// that category is kept; and when no category is asked for, all torrents are
/// kept as they are.
pub proof fn lemma_filter_by_category(torrents: Seq<Torrent>, category: Option<String>)
    ensures
        forall|i: int|
            0 <= i < category_selection(torrents, category).len() ==> torrents.contains(
                #[trigger] category_selection(torrents, category)[i],
            ),
        category matches Some(c) ==> forall|i: int|
            0 <= i < category_selection(torrents, category).len() ==> (#[trigger] category_selection(
                torrents,
                category,
            )[i]).category@ == c@,
        category matches Some(c) ==> forall|j: int|
            0 <= j < torrents.len() && (#[trigger] torrents[j]).category@ == c@ ==> category_selection(
                torrents,
                category,
            ).contains(torrents[j]),
        category is None ==> category_selection(torrents, category) == torrents,
{
    broadcast use vstd::seq_lib::group_filter_ensures;

    let pred = |t: Torrent| in_category(t, category);
    let res = torrents.filter(pred);
    assert(res == category_selection(torrents, category));
    assert forall|i: int| 0 <= i < res.len() implies torrents.contains(#[trigger] res[i]) by {
        torrents.lemma_filter_contains_rev(pred, res[i]);
    }
    if let Some(c) = category {
        assert forall|i: int| 0 <= i < res.len() implies (#[trigger] res[i]).category@ == c@ by {
            torrents.lemma_filter_pred(pred, i);
        }
        assert forall|j: int| 0 <= j < torrents.len() && (#[trigger] torrents[j]).category@ == c@ implies res.contains(
            torrents[j],
        ) by {
            torrents.lemma_filter_contains(pred, j);
        }
    } else {
        lemma_filter_keeps_all(torrents, pred);
    }
}

/// The stored torrents to push for `category`, in their order.
pub fn filter_by_category(torrents: &Vec<Torrent>, category: &Option<String>) -> (res: Vec<Torrent>)
    ensures
        res@ == torrents@.filter(|t: Torrent| in_category(t, *category)),
        res@ == category_selection(torrents@, *category),
        forall|i: int| 0 <= i < res@.len() ==> torrents@.contains(#[trigger] res@[i]),
        category matches Some(c) ==> forall|i: int|
            0 <= i < res@.len() ==> (#[trigger] res@[i]).category@ == c@,
        category matches Some(c) ==> forall|j: int|
            0 <= j < torrents@.len() && (#[trigger] torrents@[j]).category@ == c@ ==> res@.contains(
                torrents@[j],
            ),
        category is None ==> res@ == torrents@,
{
    proof {
        lemma_filter_by_category(torrents@, *category);
    }
    let ghost pred = |t: Torrent| in_category(t, *category);
    let mut res: Vec<Torrent> = Vec::new();
    let n = torrents.len();
    let mut i: usize = 0;
    while i < n
        invariant
            n == torrents@.len(),
            i <= n,
            pred == (|t: Torrent| in_category(t, *category)),
            res@ == torrents@.take(i as int).filter(pred),
        decreases n - i,
    {
        let keep = match category {
            Some(c) => c.eq(&torrents[i].category),
            None => true,
        };
        proof {
            assert(torrents@.take(i + 1) =~= torrents@.take(i as int).push(torrents@[i as int]));
            torrents@.take(i as int).lemma_filter_push(torrents@[i as int], pred);
        }
        if keep {
            res.push(torrents[i].clone());
        }
        i += 1;
    }
    assert(torrents@.take(n as int) =~= torrents@);
    res
}

/// Where a push is.
#[derive(Clone, Copy, Debug, PartialEq, Eq, Structural)]
pub enum PushStage {
    /// Nothing sent yet.
    Start,
    /// Waiting for the reply to the login.
    LoggingIn,
    /// Waiting for the reply to adding a torrent.
    Adding,
    /// Done, one way or the other.
    Finished,
}

/// A push of stored torrents into one client.
#[derive(Debug)]
pub struct PushSession {
    pub software: Software,
    pub credentials: Credentials,
    /// Torrents not offered yet, each with the path of its `.torrent` file.
    pub pending: Vec<(String, Torrent)>,
    /// How many torrents the client has confirmed adding.
    pub added: usize,
    pub stage: PushStage,
}

/// What a [`PushSession`] holds, as plain mathematical values.
pub struct PushView {
    pub software: Software,
    pub credentials: Credentials,
    pub pending: Seq<(String, Torrent)>,
    pub added: nat,
    pub stage: PushStage,
}

impl View for PushSession {
    type V = PushView;

    open spec fn view(&self) -> PushView {
        PushView {
            software: self.software,
            credentials: self.credentials,
            pending: self.pending@,
            added: self.added as nat,
            stage: self.stage,
        }
    }
}

/// What the client answered, or the signal to start.
#[derive(Debug)]
pub enum PushEvent {
    Begin,
    /// Whether the client accepted the login.
    LoginReply { accepted: bool },
    /// The result that the client reported for adding a torrent.
    AddReply { result: Option<bool> },
}

/// What to do next.
#[derive(Debug)]
pub enum PushAction {
    /// Log in to the client.
    Login(Credentials),
    /// Add the torrent of the `.torrent` file at `path` with `options`.
    Add { options: AddTorrentOptions, path: String },
    /// All torrents were offered; the client confirmed adding `added` of them.
    Done { added: usize },
    /// Stop with this error.
    Fail(Error),
}

/// `event` is one that can come next in a push at `view`.
pub open spec fn push_accepts(view: PushView, event: PushEvent) -> bool {
    match (view.stage, event) {
        (PushStage::Start, PushEvent::Begin) => true,
        (PushStage::LoggingIn, PushEvent::LoginReply { .. }) => true,
        (PushStage::Adding, PushEvent::AddReply { .. }) => true,
        _ => false,
    }
}

/// Offer the next pending torrent, having counted `added` confirmed adds, or
/// report the count when none is left.
pub open spec fn offer_next(view: PushView, added: nat) -> (PushView, PushAction) {
    if view.pending.len() == 0 {
        (
            PushView { added, stage: PushStage::Finished, ..view },
            PushAction::Done { added: added as usize },
        )
    } else {
        let (path, torrent) = view.pending[0];
        (
            PushView { pending: view.pending.drop_first(), added, stage: PushStage::Adding, ..view },
            PushAction::Add { options: add_options_for(torrent), path },
        )
    }
}

/// The next state of a push at `view` after `event`, and what to do.
///
/// Deluge is turned down at once with [`Error::PushNotImplemented`]. With
/// qBittorrent the client is logged in to, a refused login ends the push with
/// [`Error::LoginFailed`], and then the pending torrents are added one by one;
/// a reply that reports `Some(true)` counts as a confirmed add.
pub open spec fn push_next(view: PushView, event: PushEvent) -> (PushView, PushAction) {
    match event {
        PushEvent::Begin => match view.software {
            Software::Deluge => (
                PushView { stage: PushStage::Finished, ..view },
                PushAction::Fail(Error::PushNotImplemented { software: Software::Deluge }),
            ),
            Software::QBittorrent => (
                PushView { stage: PushStage::LoggingIn, ..view },
                PushAction::Login(view.credentials),
            ),
        },
        PushEvent::LoginReply { accepted } => if accepted {
            offer_next(view, view.added)
        } else {
            (
                PushView { stage: PushStage::Finished, ..view },
                PushAction::Fail(Error::LoginFailed { software: view.software }),
            )
        },
        PushEvent::AddReply { result } => offer_next(
            view,
            if result == Some(true) {
                view.added + 1
            } else {
                view.added
            },
        ),
    }
}

impl PushSession {
    /// The adds in flight and still to come fit the count.
    pub open spec fn wf(&self) -> bool {
        self.added + self.pending@.len() + (if self.stage == PushStage::Adding {
            1int
        } else {
            0
        }) <= usize::MAX
    }

    /// A push of `torrents`, each with the path of its `.torrent` file, into
    /// `client`.
    pub fn new(client: &Client, torrents: Vec<(String, Torrent)>) -> (res: PushSession)
        ensures
            res.software == client.software,
            logs_in_with(*client, res.credentials),
            res.pending@ == torrents@,
            res.added == 0,
            res.stage == PushStage::Start,
            res.wf(),
    {
        assert(torrents@.len() == torrents.len());
        PushSession {
            software: client.software,
            credentials: client.credentials(),
            pending: torrents,
            added: 0,
            stage: PushStage::Start,
        }
    }

    /// Offer the first pending torrent, or report the count when none is
    /// left.
    fn offer(&mut self) -> (action: PushAction)
        requires
            old(self).added + old(self).pending@.len() <= usize::MAX,
        ensures
            (final(self)@, action) == offer_next(old(self)@, old(self)@.added),
            final(self).wf(),
    {
        if self.pending.len() == 0 {
            self.stage = PushStage::Finished;
            PushAction::Done { added: self.added }
        } else {
            let (path, torrent) = self.pending.remove(0);
            self.stage = PushStage::Adding;
            PushAction::Add { options: torrent.to_qbittorrent_add_options(), path }
        }
    }

    /// Take in what came and say what to do next: see [`push_next`].
    pub fn step(&mut self, event: PushEvent) -> (action: PushAction)
        requires
            old(self).wf(),
            push_accepts(old(self)@, event),
        ensures
            (final(self)@, action) == push_next(old(self)@, event),
            final(self).wf(),
    {
        match event {
            PushEvent::Begin => match self.software {
                Software::Deluge => {
                    self.stage = PushStage::Finished;
                    PushAction::Fail(Error::PushNotImplemented { software: Software::Deluge })
                },
                Software::QBittorrent => {
                    self.stage = PushStage::LoggingIn;
                    PushAction::Login(self.credentials.clone())
                },
            },
            PushEvent::LoginReply { accepted } => {
                if accepted {
                    self.offer()
                } else {
                    self.stage = PushStage::Finished;
                    PushAction::Fail(Error::LoginFailed { software: self.software })
                }
            },
            PushEvent::AddReply { result } => {
                let confirmed = match result {
                    Some(b) => b,
                    None => false,
                };
                if confirmed {
                    self.added = self.added + 1;
                }
                self.offer()
            },
        }
    }
}

/// The adds in flight and still to come in a push at `view` fit the count.
pub open spec fn push_view_wf(view: PushView) -> bool {
    view.added + view.pending.len() + (if view.stage == PushStage::Adding {
        1int
    } else {
        0
    }) <= usize::MAX
}

/// The state after taking in `events` in turn from `view`, and the actions
/// issued on the way.
pub open spec fn push_run(view: PushView, events: Seq<PushEvent>) -> (PushView, Seq<PushAction>)
    decreases events.len(),
{
    if events.len() == 0 {
        (view, Seq::empty())
    } else {
        let (next, action) = push_next(view, events[0]);
        let (last, actions) = push_run(next, events.drop_first());
        (last, seq![action] + actions)
    }
}

/// Each of `events` can come when it comes, starting at `view`.
pub open spec fn push_run_accepted(view: PushView, events: Seq<PushEvent>) -> bool
    decreases events.len(),
{
    events.len() == 0 || (push_accepts(view, events[0]) && push_run_accepted(
        push_next(view, events[0]).0,
        events.drop_first(),
    ))
}

/// `event` reports a confirmed add.
pub open spec fn is_confirmed_add(event: PushEvent) -> bool {
    event matches PushEvent::AddReply { result: Some(true) }
}

/// How many of `events` report a confirmed add.
pub open spec fn confirmed_adds(events: Seq<PushEvent>) -> nat
    decreases events.len(),
{
    if events.len() == 0 {
        0
    } else {
        (if is_confirmed_add(events[0]) {
            1nat
        } else {
            0nat
        }) + confirmed_adds(events.drop_first())
    }
}

/// The add requests among `actions`, each as its options and path.
pub open spec fn offered(actions: Seq<PushAction>) -> Seq<(AddTorrentOptions, String)>
    decreases actions.len(),
{
    if actions.len() == 0 {
        Seq::empty()
    } else {
        (match actions[0] {
            PushAction::Add { options, path } => seq![(options, path)],
            _ => Seq::empty(),
        }) + offered(actions.drop_first())
    }
}

/// The add request for a pending torrent.
pub open spec fn add_request(entry: (String, Torrent)) -> (AddTorrentOptions, String) {
    (add_options_for(entry.1), entry.0)
}

/// A step of a push keeps its count in bounds.
proof fn lemma_push_next_wf(view: PushView, event: PushEvent)
    requires
        push_view_wf(view),
        push_accepts(view, event),
    ensures
        push_view_wf(push_next(view, event).0),
{
}

/// The count of a push is the number of confirmed adds: after any events that
/// a push takes in, its count has grown by the number of replies that report
/// an add, and each `Done` reports the count of the replies up to it.
pub proof fn lemma_push_counts_confirmed_adds(view: PushView, events: Seq<PushEvent>)
    requires
        push_view_wf(view),
        push_run_accepted(view, events),
    ensures
        push_view_wf(push_run(view, events).0),
        push_run(view, events).0.added == view.added + confirmed_adds(events),
        push_run(view, events).1.len() == events.len(),
        forall|k: int|
            0 <= k < events.len() ==> (#[trigger] push_run(view, events).1[k] matches PushAction::Done { added }
                ==> added == view.added + confirmed_adds(events.take(k + 1))),
    decreases events.len(),
{
    if events.len() > 0 {
        let e = events[0];
        let rest = events.drop_first();
        let (next, action) = push_next(view, e);
        lemma_push_next_wf(view, e);
        lemma_push_counts_confirmed_adds(next, rest);
        let actions = push_run(view, events).1;
        assert(actions == seq![action] + push_run(next, rest).1);
        assert(events.take(1).drop_first() =~= Seq::<PushEvent>::empty());
        assert(confirmed_adds(events.take(1).drop_first()) == 0);
        assert(events.take(1)[0] == e);
        assert(next.added == view.added + confirmed_adds(events.take(1)));
        assert forall|k: int|
            0 <= k < events.len() implies (#[trigger] push_run(view, events).1[k] matches PushAction::Done { added }
                ==> added == view.added + confirmed_adds(events.take(k + 1))) by {
            if k > 0 {
                assert(events.take(k + 1).drop_first() =~= rest.take(k));
                assert(actions[k] == push_run(next, rest).1[k - 1]);
            } else {
                assert(events.take(1)[0] == e);
            }
        }
    }
}

/// A push offers its torrents once each, in order: the add requests issued
/// while taking in any events, followed by those of the torrents still
/// pending, are the add requests of the torrents pending at the start.
pub proof fn lemma_push_offers_pending_in_order(view: PushView, events: Seq<PushEvent>)
    requires
        push_run_accepted(view, events),
    ensures
        offered(push_run(view, events).1) + push_run(view, events).0.pending.map_values(
            |e: (String, Torrent)| add_request(e),
        ) == view.pending.map_values(|e: (String, Torrent)| add_request(e)),
    decreases events.len(),
{
    if events.len() > 0 {
        let e = events[0];
        let rest = events.drop_first();
        let (next, action) = push_next(view, e);
        lemma_push_offers_pending_in_order(next, rest);
        let actions = push_run(view, events).1;
        assert(actions == seq![action] + push_run(next, rest).1);
        assert(actions.drop_first() =~= push_run(next, rest).1);
        let f = |e: (String, Torrent)| add_request(e);
        if next.pending.len() < view.pending.len() {
            assert(view.pending.map_values(f) =~= seq![add_request(view.pending[0])] + next.pending.map_values(f));
        } else {
            assert(next.pending == view.pending);
        }
    }
}

/// When a push ends with `Done`, every torrent pending at the start was
/// offered, once and in order.
pub proof fn lemma_push_done_offered_all(view: PushView, events: Seq<PushEvent>)
    requires
        push_run_accepted(view, events),
        events.len() > 0,
        push_run(view, events).1.last() is Done,
    ensures
        offered(push_run(view, events).1) == view.pending.map_values(|e: (String, Torrent)| add_request(e)),
    decreases events.len(),
{
    lemma_push_offers_pending_in_order(view, events);
    lemma_done_is_last_with_nothing_pending(view, events);
    assert(push_run(view, events).0.pending.map_values(|e: (String, Torrent)| add_request(e)) =~= Seq::<(AddTorrentOptions, String)>::empty());
    assert(offered(push_run(view, events).1) + Seq::<(AddTorrentOptions, String)>::empty() =~= offered(push_run(view, events).1));
}

/// A run whose last action is `Done` ends with nothing pending.
proof fn lemma_done_is_last_with_nothing_pending(view: PushView, events: Seq<PushEvent>)
    requires
        push_run_accepted(view, events),
        events.len() > 0,
        push_run(view, events).1.last() is Done,
    ensures
        push_run(view, events).0.pending.len() == 0,
    decreases events.len(),
{
    let e = events[0];
    let rest = events.drop_first();
    let (next, action) = push_next(view, e);
    if rest.len() == 0 {
        assert(push_run(view, events).1 == seq![action] + Seq::<PushAction>::empty());
        assert(push_run(next, rest).0 == next);
    } else {
        let actions = push_run(view, events).1;
        assert(actions == seq![action] + push_run(next, rest).1);
        assert(push_run(next, rest).1.len() > 0) by {
            lemma_run_len(next, rest);
        }
        assert(actions.last() == push_run(next, rest).1.last());
        lemma_done_is_last_with_nothing_pending(next, rest);
    }
}

/// A run issues one action per event.
proof fn lemma_run_len(view: PushView, events: Seq<PushEvent>)
    ensures
        push_run(view, events).1.len() == events.len(),
    decreases events.len(),
{
    if events.len() > 0 {
        lemma_run_len(push_next(view, events[0]).0, events.drop_first());
    }
}

/// qBittorrent states in which a torrent is seeding.
pub open spec fn qbittorrent_seeds(state: QBittorrentState) -> bool {
    state is Uploading || state is StalledUP || state is ForcedUP
}

/// A torrent pulled from qBittorrent is pushed back into the save path and
/// category it had there, without a hash check, and unpaused exactly when it
/// was seeding there.
pub proof fn lemma_qbittorrent_torrent_pushed_as_pulled(t: Torrent, listed: QBittorrentTorrent)
    requires
        stored_from_qbittorrent(t, listed),
    ensures
        add_options_for(t) == (AddTorrentOptions {
            save_path: Some(listed.save_path),
            category: Some(listed.category),
            skip_checking: Some(true),
            paused: Some(!qbittorrent_seeds(listed.state)),
        }),
{
}

/// A torrent pulled from Deluge is pushed into the save path it had there,
/// with its label as category, without a hash check, and unpaused exactly
/// when it was seeding there.
pub proof fn lemma_deluge_torrent_pushed_as_pulled(t: Torrent, key: Seq<char>, listed: DelugeTorrent)
    requires
        stored_from_deluge(t, key, listed),
    ensures
        add_options_for(t) == (AddTorrentOptions {
            save_path: Some(listed.save_path),
            category: Some(listed.label),
            skip_checking: Some(true),
            paused: Some(listed.state != DelugeState::Seeding),
        }),
{
}

/// The add request issued for a pending torrent: add it from its path with
/// its add options.
pub open spec fn add_action(entry: (String, Torrent)) -> PushAction {
    PushAction::Add { options: add_options_for(entry.1), path: entry.0 }
}

/// A reply to an add, whatever it reports, is answered while torrents are
/// pending by adding the next pending torrent; the push goes on.
pub proof fn lemma_add_reply_offers_next(view: PushView, result: Option<bool>)
    requires
        view.stage == PushStage::Adding,
        view.pending.len() > 0,
    ensures
        push_next(view, PushEvent::AddReply { result }).1 == add_action(view.pending[0]),
        push_next(view, PushEvent::AddReply { result }).0.stage == PushStage::Adding,
        push_next(view, PushEvent::AddReply { result }).0.pending == view.pending.drop_first(),
{
}

/// While adding, replies to adds are answered by adding the pending torrents
/// in turn, whatever the replies report, and once none is pending by `Done`.
proof fn lemma_adding_run(view: PushView, events: Seq<PushEvent>)
    requires
        view.stage == PushStage::Adding,
        forall|i: int| 0 <= i < events.len() ==> (#[trigger] events[i]) is AddReply,
        events.len() <= view.pending.len() + 1,
    ensures
        push_run_accepted(view, events),
        push_run(view, events).1.len() == events.len(),
        forall|j: int|
            0 <= j < events.len() && j < view.pending.len() ==> #[trigger] push_run(view, events).1[j]
                == add_action(view.pending[j]),
        events.len() == view.pending.len() + 1 ==> push_run(view, events).1[view.pending.len() as int] is Done,
    decreases events.len(),
{
    if events.len() > 0 {
        let e = events[0];
        let rest = events.drop_first();
        let (next, action) = push_next(view, e);
        assert(e is AddReply);
        let actions = push_run(view, events).1;
        if view.pending.len() == 0 {
            assert(rest.len() == 0);
            assert(push_run(next, rest) == (next, Seq::<PushAction>::empty()));
            assert(actions == seq![action] + push_run(next, rest).1);
            assert(actions =~= seq![action]);
            assert(push_run_accepted(next, rest));
        } else {
            assert forall|i: int| 0 <= i < rest.len() implies (#[trigger] rest[i]) is AddReply by {
                assert(rest[i] == events[i + 1]);
            }
            lemma_adding_run(next, rest);
            assert(actions == seq![action] + push_run(next, rest).1);
            assert(next.pending == view.pending.drop_first());
            assert forall|j: int|
                0 <= j < events.len() && j < view.pending.len() implies #[trigger] push_run(view, events).1[j]
                    == add_action(view.pending[j]) by {
                if j > 0 {
                    assert(actions[j] == push_run(next, rest).1[j - 1]);
                    assert(next.pending[j - 1] == view.pending[j]);
                }
            }
            if events.len() == view.pending.len() + 1 {
                assert(actions[view.pending.len() as int] == push_run(next, rest).1[next.pending.len() as int]);
            }
        }
    }
}

/// After a push logs in, every pending torrent is offered, whatever the add
/// replies report: after an accepted login and `k` replies to adds, with `n`
/// torrents pending before the login, the push has issued an add of the first
/// `k + 1` pending torrents in order when `k < n` (nothing else, in particular
/// no failure), and when `k == n` it has added all `n` and then reports `Done`.
pub proof fn lemma_push_adds_every_pending(view: PushView, replies: Seq<PushEvent>)
    requires
        view.stage == PushStage::LoggingIn,
        forall|i: int| 0 <= i < replies.len() ==> (#[trigger] replies[i]) is AddReply,
        replies.len() <= view.pending.len(),
    ensures
        push_run_accepted(view, seq![PushEvent::LoginReply { accepted: true }] + replies),
        push_run(view, seq![PushEvent::LoginReply { accepted: true }] + replies).1.len() == replies.len() + 1,
        forall|j: int|
            0 <= j <= replies.len() && j < view.pending.len() ==> #[trigger] push_run(
                view,
                seq![PushEvent::LoginReply { accepted: true }] + replies,
            ).1[j] == add_action(view.pending[j]),
        replies.len() == view.pending.len() ==> push_run(
            view,
            seq![PushEvent::LoginReply { accepted: true }] + replies,
        ).1[replies.len() as int] is Done,
{
    let login = PushEvent::LoginReply { accepted: true };
    let events = seq![login] + replies;
    assert(events[0] == login);
    assert(events.drop_first() =~= replies);
    let (next, action) = push_next(view, login);
    let actions = push_run(view, events).1;
    if view.pending.len() == 0 {
        assert(replies.len() == 0);
        assert(push_run(next, replies) == (next, Seq::<PushAction>::empty()));
        assert(actions == seq![action] + push_run(next, replies).1);
        assert(actions =~= seq![action]);
        assert(push_run_accepted(next, replies));
    } else {
        lemma_adding_run(next, replies);
        assert(actions == seq![action] + push_run(next, replies).1);
        assert forall|j: int|
            0 <= j <= replies.len() && j < view.pending.len() implies #[trigger] push_run(view, events).1[j]
                == add_action(view.pending[j]) by {
            if j > 0 {
                assert(actions[j] == push_run(next, replies).1[j - 1]);
                assert(next.pending[j - 1] == view.pending[j]);
            }
        }
        if replies.len() == view.pending.len() {
            assert(actions[replies.len() as int] == push_run(next, replies).1[next.pending.len() as int]);
        }
    }
}

} // verus!
