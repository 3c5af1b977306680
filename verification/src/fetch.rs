//! Retrieval of a release catalog, page by page.
//!
//! The catalog is read through a transport that this crate does not own. The rules
//! that decide after each page whether another one is asked for are written here
//! as a state machine: the caller asks [`next_request`] which page to get, performs
//! the request, and reports what came back to [`advance`]. Once the state is no
//! longer [`FetchState::Fetching`], [`outcome`] yields the releases or the error.

use vstd::prelude::*;

use crate::endpoint::{format_latest_releases, releases_url, GITHUB_PER_PAGE};
use crate::release::{GitHubRelease, ReleaseView};

verus! {

/// Why a retrieval failed as a whole.
#[derive(Clone, Copy, Debug, PartialEq, Eq, Structural)]
pub enum FetchError {
    /// The request did not complete: no connection, no name, no secure channel.
    Unreachable,
    /// The answer's body was not a list of releases.
    Malformed,
}

/// Which rule ended a retrieval that succeeded.
#[derive(Clone, Copy, Debug, PartialEq, Eq, Structural)]
pub enum StopReason {
    /// The catalog answered with a status other than success.
    HttpStatus,
    /// The page held no release.
    EmptyPage,
    /// The page held the release with the fallback tag.
    FallbackReached,
    /// The page held fewer releases than were asked for.
    ShortPage,
    /// The page number cannot grow any further.
    PageLimit,
}

/// What one page request produced.
#[derive(Debug)]
pub enum PageReply {
    /// The request did not complete.
    Unreachable,
    /// The catalog answered with success, but not with a list of releases.
    Malformed,
    /// The catalog answered with this status and, under a success status, with
    /// these releases. Under any other status the releases are not looked at.
    Answered { status: u16, releases: Vec<GitHubRelease> },
}

/// The mathematical value of a [`PageReply`].
pub enum ReplyView {
    Unreachable,
    Malformed,
    Answered { status: u16, releases: Seq<ReleaseView> },
}

impl View for PageReply {
    type V = ReplyView;

    open spec fn view(&self) -> ReplyView {
        match *self {
            PageReply::Unreachable => ReplyView::Unreachable,
            PageReply::Malformed => ReplyView::Malformed,
            PageReply::Answered { status, releases } => ReplyView::Answered {
                status,
                releases: releases.deep_view(),
            },
        }
    }
}

impl DeepView for PageReply {
    type V = ReplyView;

    open spec fn deep_view(&self) -> ReplyView {
        self@
    }
}

/// Where a retrieval stands.
#[derive(Debug)]
pub enum FetchState {
    /// Page `page` is to be requested next; `releases` holds what the pages before
    /// it gave, in the order in which they came.
    Fetching { page: u32, releases: Vec<GitHubRelease> },
    /// The retrieval is over and gave `releases`.
    Done { releases: Vec<GitHubRelease>, reason: StopReason },
    /// The retrieval is over and gave nothing.
    Failed { error: FetchError },
}

/// The mathematical value of a [`FetchState`].
pub enum StateView {
    Fetching { page: u32, releases: Seq<ReleaseView> },
    Done { releases: Seq<ReleaseView>, reason: StopReason },
    Failed { error: FetchError },
}

impl View for FetchState {
    type V = StateView;

    open spec fn view(&self) -> StateView {
        match *self {
            FetchState::Fetching { page, releases } => StateView::Fetching {
                page,
                releases: releases.deep_view(),
            },
            FetchState::Done { releases, reason } => StateView::Done {
                releases: releases.deep_view(),
                reason,
            },
            FetchState::Failed { error } => StateView::Failed { error },
        }
    }
}

/// A status in the range that HTTP reserves for success.
pub open spec fn is_success(status: u16) -> bool {
    200 <= status < 300
}

/// Some release of the page carries exactly this tag.
pub open spec fn holds_tag(releases: Seq<ReleaseView>, tag: Seq<char>) -> bool {
    exists|i: int| 0 <= i < releases.len() && (#[trigger] releases[i]).tag_name == tag
}

/// A fallback tag is set and the page holds it.
pub open spec fn reaches_fallback(releases: Seq<ReleaseView>, fallback: Option<Seq<char>>) -> bool {
    match fallback {
        Some(tag) => holds_tag(releases, tag),
        None => false,
    }
}

/// The state of a retrieval before its first request.
pub open spec fn initial_state() -> StateView {
    StateView::Fetching { page: 0, releases: Seq::empty() }
}

/// The state that follows `state` once the pending request has produced `reply`.
///
/// The rules are tried in this order. A failed transport or a malformed body fails
/// the retrieval, and what was gathered is dropped. A status other than success
/// ends it with what was gathered. An empty page ends it. A page with the fallback
/// tag ends it, and so does a page shorter than was asked for; both are kept whole.
/// Any other page is kept and the next page is due. A retrieval that is over stays
/// as it is.
pub open spec fn after_reply(
    state: StateView,
    fallback: Option<Seq<char>>,
    reply: ReplyView,
) -> StateView {
    match state {
        StateView::Fetching { page, releases } => match reply {
            ReplyView::Unreachable => StateView::Failed { error: FetchError::Unreachable },
            ReplyView::Malformed => StateView::Failed { error: FetchError::Malformed },
            ReplyView::Answered { status, releases: found } => {
                if !is_success(status) {
                    StateView::Done { releases, reason: StopReason::HttpStatus }
                } else if found.len() == 0 {
                    StateView::Done { releases, reason: StopReason::EmptyPage }
                } else if reaches_fallback(found, fallback) {
                    StateView::Done { releases: releases + found, reason: StopReason::FallbackReached }
                } else if found.len() < GITHUB_PER_PAGE {
                    StateView::Done { releases: releases + found, reason: StopReason::ShortPage }
                } else if page == u32::MAX {
                    StateView::Done { releases: releases + found, reason: StopReason::PageLimit }
                } else {
                    StateView::Fetching { page: (page + 1) as u32, releases: releases + found }
                }
            },
        },
        _ => state,
    }
}

/// The views of two lists, one after the other, are the views of the joined list.
proof fn lemma_deep_view_of_joined(
    first: Seq<GitHubRelease>,
    second: Seq<GitHubRelease>,
)
    ensures
        Seq::new((first + second).len(), |i: int| (first + second)[i].deep_view()) == Seq::new(
            first.len(),
            |i: int| first[i].deep_view(),
        ) + Seq::new(second.len(), |i: int| second[i].deep_view()),
{
    let joined = Seq::new((first + second).len(), |i: int| (first + second)[i].deep_view());
    let parts = Seq::new(first.len(), |i: int| first[i].deep_view()) + Seq::new(
        second.len(),
        |i: int| second[i].deep_view(),
    );
    assert(joined =~= parts);
}

/// Tells whether a status is one of success.
pub fn is_success_status(status: u16) -> (success: bool)
    ensures
        success == is_success(status),
{
    200 <= status && status < 300
}

/// Tells whether a page holds a release with exactly this tag.
pub fn page_holds_tag(releases: &Vec<GitHubRelease>, tag: &String) -> (held: bool)
    ensures
        held == holds_tag(releases.deep_view(), tag@),
{
    let mut i: usize = 0;
    while i < releases.len()
        invariant
            i <= releases.len(),
            forall|k: int| 0 <= k < i ==> (#[trigger] releases.deep_view()[k]).tag_name != tag@,
        decreases releases.len() - i,
    {
        if releases[i].tag_name == *tag {
            assert(releases.deep_view()[i as int].tag_name == tag@);
            return true;
        }
        i += 1;
    }
    false
}

/// Tells whether a fallback tag is set and the page holds it.
pub fn page_reaches_fallback(
    releases: &Vec<GitHubRelease>,
    fallback_tag: &Option<String>,
) -> (reached: bool)
    ensures
        reached == reaches_fallback(releases.deep_view(), fallback_tag.deep_view()),
{
    match fallback_tag {
        Some(tag) => page_holds_tag(releases, tag),
        None => false,
    }
}

/// The state of a retrieval before its first request: page 0 is due and nothing
/// has been gathered.
pub fn start() -> (state: FetchState)
    ensures
        state@ == initial_state(),
{
    let releases: Vec<GitHubRelease> = Vec::new();
    assert(releases.deep_view() =~= Seq::<ReleaseView>::empty());
    FetchState::Fetching { page: 0, releases }
}

/// The address of the page that is due, or `None` once the retrieval is over.
pub fn next_request(owner: &str, repo: &str, state: &FetchState) -> (url: Option<String>)
    ensures
        url.deep_view() == match state@ {
            StateView::Fetching { page, .. } => Some(releases_url(owner@, repo@, page as nat)),
            _ => None,
        },
{
    match state {
        FetchState::Fetching { page, .. } => Some(
            format_latest_releases(owner.to_owned(), repo.to_owned(), *page),
        ),
        _ => None,
    }
}

/// Takes in what the pending request produced and decides how the retrieval goes
/// on. A retrieval that is already over is handed back unchanged.
pub fn advance(state: FetchState, fallback_tag: &Option<String>, reply: PageReply) -> (next:
    FetchState)
    ensures
        next@ == after_reply(state@, fallback_tag.deep_view(), reply@),
{
    match state {
        FetchState::Fetching { page, releases } => match reply {
            PageReply::Unreachable => FetchState::Failed { error: FetchError::Unreachable },
            PageReply::Malformed => FetchState::Failed { error: FetchError::Malformed },
            PageReply::Answered { status, releases: found } => {
                if !is_success_status(status) {
                    FetchState::Done { releases, reason: StopReason::HttpStatus }
                } else if found.len() == 0 {
                    FetchState::Done { releases, reason: StopReason::EmptyPage }
                } else {
                    let reached = page_reaches_fallback(&found, fallback_tag);
                    let short = found.len() < GITHUB_PER_PAGE as usize;
                    let mut releases = releases;
                    let mut found = found;
                    proof {
                        lemma_deep_view_of_joined(releases@, found@);
                    }
                    releases.append(&mut found);
                    if reached {
                        FetchState::Done { releases, reason: StopReason::FallbackReached }
                    } else if short {
                        FetchState::Done { releases, reason: StopReason::ShortPage }
                    } else if page == u32::MAX {
                        FetchState::Done { releases, reason: StopReason::PageLimit }
                    } else {
                        FetchState::Fetching { page: page + 1, releases }
                    }
                }
            },
        },
        FetchState::Done { releases, reason } => FetchState::Done { releases, reason },
        FetchState::Failed { error } => FetchState::Failed { error },
    }
}

/// What a retrieval that is over has to show: the releases in the order in which
/// the catalog listed them, or the error. `None` while a page is still due.
pub fn outcome(state: FetchState) -> (result: Option<Result<Vec<GitHubRelease>, FetchError>>)
    ensures
        match state@ {
            StateView::Fetching { .. } => result is None,
            StateView::Done { releases, .. } => result matches Some(Ok(found))
                && found.deep_view() == releases,
            StateView::Failed { error } => result == Some(
                Err::<Vec<GitHubRelease>, FetchError>(error),
            ),
        },
{
    match state {
        FetchState::Fetching { .. } => None,
        FetchState::Done { releases, .. } => Some(Ok(releases)),
        FetchState::Failed { error } => Some(Err(error)),
    }
}

/// A retrieval played against replies that were recorded beforehand.
#[derive(Debug)]
pub struct FetchRun {
    /// Where the retrieval stood when it was over or the replies ran out.
    pub state: FetchState,
    /// How many page requests were made.
    pub requests: usize,
}

/// Where a retrieval in `state` ends when its requests are answered by `replies`, one
/// after the other, and how many of them it asks for. No request is made once the
/// retrieval is over, however many replies are left.
pub open spec fn run_from(
    state: StateView,
    fallback: Option<Seq<char>>,
    replies: Seq<ReplyView>,
) -> (StateView, nat)
    decreases replies.len(),
{
    if replies.len() == 0 || !(state is Fetching) {
        (state, 0)
    } else {
        let rest = run_from(after_reply(state, fallback, replies[0]), fallback, replies.drop_first());
        (rest.0, rest.1 + 1)
    }
}

/// Tells whether a page is still due.
pub fn is_fetching(state: &FetchState) -> (fetching: bool)
    ensures
        fetching == (state@ is Fetching),
{
    match state {
        FetchState::Fetching { .. } => true,
        _ => false,
    }
}

/// Runs a whole retrieval against a transport whose replies are known beforehand:
/// the first reply answers the request for page 0, the second the next request,
/// and so on. Replies that no request asks for are left unused.
pub fn replay(fallback_tag: &Option<String>, replies: Vec<PageReply>) -> (run: FetchRun)
    ensures
        (run.state@, run.requests as nat) == run_from(
            initial_state(),
            fallback_tag.deep_view(),
            replies.deep_view(),
        ),
{
    let ghost all = replies.deep_view();
    let ghost fallback = fallback_tag.deep_view();
    let mut state = start();
    let mut requests: usize = 0;
    let offered = replies.len();
    assert(all.skip(0) =~= all);
    for reply in it: replies
        invariant
            it.seq().len() == all.len(),
            all.len() == offered,
            forall|k: int| 0 <= k < all.len() ==> (#[trigger] it.seq()[k])@ == all[k],
            fallback == fallback_tag.deep_view(),
            requests <= it.index(),
            run_from(initial_state(), fallback, all).0 == run_from(
                state@,
                fallback,
                all.skip(it.index() as int),
            ).0,
            run_from(initial_state(), fallback, all).1 == requests + run_from(
                state@,
                fallback,
                all.skip(it.index() as int),
            ).1,
    {
        proof {
            let left = all.skip(it.index() as int);
            assert(left.drop_first() =~= all.skip(it.index() + 1));
            assert(left[0] == reply@);
            if !(state@ is Fetching) {
                lemma_finished_run_asks_nothing(state@, fallback, left.drop_first());
            }
        }
        if is_fetching(&state) {
            requests += 1;
        }
        state = advance(state, fallback_tag, reply);
    }
    FetchRun { state, requests }
}

/// A retrieval that is over asks for nothing more and stays as it is.
pub proof fn lemma_finished_run_asks_nothing(
    state: StateView,
    fallback: Option<Seq<char>>,
    replies: Seq<ReplyView>,
)
    requires
        !(state is Fetching),
    ensures
        run_from(state, fallback, replies) == (state, 0nat),
{
}

/// A reply after which the next page is due: a success with a full page that does
/// not hold the fallback tag.
pub open spec fn asks_for_more(reply: ReplyView, fallback: Option<Seq<char>>) -> bool {
    match reply {
        ReplyView::Answered { status, releases } => is_success(status) && releases.len()
            >= GITHUB_PER_PAGE && !reaches_fallback(releases, fallback),
        _ => false,
    }
}

/// The releases that a reply adds to what was gathered.
pub open spec fn releases_of(reply: ReplyView) -> Seq<ReleaseView> {
    match reply {
        ReplyView::Answered { status, releases } => if is_success(status) {
            releases
        } else {
            Seq::empty()
        },
        _ => Seq::empty(),
    }
}

/// The releases of some replies, joined in the order of the replies.
pub open spec fn gathered(replies: Seq<ReplyView>) -> Seq<ReleaseView>
    decreases replies.len(),
{
    if replies.len() == 0 {
        Seq::empty()
    } else {
        releases_of(replies[0]) + gathered(replies.drop_first())
    }
}

/// How a retrieval ends that is over with the reply at `stop`, given what the
/// replies up to that one held.
pub open spec fn final_state(
    fallback: Option<Seq<char>>,
    replies: Seq<ReplyView>,
    stop: int,
) -> StateView {
    match replies[stop] {
        ReplyView::Unreachable => StateView::Failed { error: FetchError::Unreachable },
        ReplyView::Malformed => StateView::Failed { error: FetchError::Malformed },
        ReplyView::Answered { status, releases } => StateView::Done {
            releases: gathered(replies.take(stop + 1)),
            reason: if !is_success(status) {
                StopReason::HttpStatus
            } else if releases.len() == 0 {
                StopReason::EmptyPage
            } else if reaches_fallback(releases, fallback) {
                StopReason::FallbackReached
            } else {
                StopReason::ShortPage
            },
        },
    }
}

/// A state with some releases put before those that it holds.
pub open spec fn with_earlier(earlier: Seq<ReleaseView>, state: StateView) -> StateView {
    match state {
        StateView::Fetching { page, releases } => StateView::Fetching {
            page,
            releases: earlier + releases,
        },
        StateView::Done { releases, reason } => StateView::Done {
            releases: earlier + releases,
            reason,
        },
        StateView::Failed { error } => StateView::Failed { error },
    }
}

proof fn lemma_run_from_page(
    page: u32,
    releases: Seq<ReleaseView>,
    fallback: Option<Seq<char>>,
    replies: Seq<ReplyView>,
    stop: int,
)
    requires
        0 <= stop < replies.len(),
        page + stop <= u32::MAX,
        forall|i: int| 0 <= i < stop ==> asks_for_more(#[trigger] replies[i], fallback),
        !asks_for_more(replies[stop], fallback),
    ensures
        run_from(StateView::Fetching { page, releases }, fallback, replies) == (
            with_earlier(releases, final_state(fallback, replies, stop)),
            (stop + 1) as nat,
        ),
    decreases stop,
{
    let state = StateView::Fetching { page, releases };
    let next = after_reply(state, fallback, replies[0]);
    let rest = replies.drop_first();
    if stop == 0 {
        lemma_finished_run_asks_nothing(next, fallback, rest);
        assert(replies.take(1).drop_first() =~= Seq::<ReplyView>::empty());
        assert(gathered(replies.take(1)) =~= releases_of(replies[0])) by {
            reveal_with_fuel(gathered, 2);
        }
        assert(releases + Seq::<ReleaseView>::empty() =~= releases);
    } else {
        assert(asks_for_more(replies[0], fallback));
        let found = releases_of(replies[0]);
        assert(next == StateView::Fetching { page: (page + 1) as u32, releases: releases + found });
        assert forall|i: int| 0 <= i < stop - 1 implies asks_for_more(
            #[trigger] rest[i],
            fallback,
        ) by {
            assert(rest[i] == replies[i + 1]);
        }
        lemma_run_from_page((page + 1) as u32, releases + found, fallback, rest, stop - 1);
        assert(replies.take(stop + 1).drop_first() =~= rest.take(stop));
        assert(gathered(replies.take(stop + 1)) == found + gathered(rest.take(stop)));
        assert((releases + found) + gathered(rest.take(stop)) =~= releases + gathered(
            replies.take(stop + 1),
        ));
        assert(rest[stop - 1] == replies[stop]);
    }
}

/// A retrieval makes one request after the other until a reply ends it, and none
/// after that. If the reply at `stop` is the first that does not ask for more, the
/// retrieval makes `stop + 1` requests. It then fails if that reply is a failure
/// of the transport or a malformed body, and otherwise gives the releases of all
/// the replies up to and with that one, in their order.
pub proof fn lemma_run_ends_at_first_final_reply(
    fallback: Option<Seq<char>>,
    replies: Seq<ReplyView>,
    stop: int,
)
    requires
        0 <= stop < replies.len(),
        stop <= u32::MAX,
        forall|i: int| 0 <= i < stop ==> asks_for_more(#[trigger] replies[i], fallback),
        !asks_for_more(replies[stop], fallback),
    ensures
        run_from(initial_state(), fallback, replies) == (
            final_state(fallback, replies, stop),
            (stop + 1) as nat,
        ),
{
    lemma_run_from_page(0, Seq::empty(), fallback, replies, stop);
    let found = gathered(replies.take(stop + 1));
    assert(Seq::<ReleaseView>::empty() + found =~= found);
}

proof fn lemma_run_through_page(
    page: u32,
    releases: Seq<ReleaseView>,
    fallback: Option<Seq<char>>,
    replies: Seq<ReplyView>,
)
    requires
        page + replies.len() <= u32::MAX,
        forall|i: int| 0 <= i < replies.len() ==> asks_for_more(#[trigger] replies[i], fallback),
    ensures
        run_from(StateView::Fetching { page, releases }, fallback, replies) == (
            StateView::Fetching {
                page: (page + replies.len()) as u32,
                releases: releases + gathered(replies),
            },
            replies.len(),
        ),
    decreases replies.len(),
{
    if replies.len() == 0 {
        assert(releases + gathered(replies) =~= releases);
    } else {
        let rest = replies.drop_first();
        let found = releases_of(replies[0]);
        assert(asks_for_more(replies[0], fallback));
        assert forall|i: int| 0 <= i < rest.len() implies asks_for_more(
            #[trigger] rest[i],
            fallback,
        ) by {
            assert(rest[i] == replies[i + 1]);
        }
        lemma_run_through_page((page + 1) as u32, releases + found, fallback, rest);
        assert((releases + found) + gathered(rest) =~= releases + gathered(replies));
    }
}

/// While every reply asks for more, the retrieval goes on: after as many requests
/// as there are replies the next page is due, and all the releases of the replies
/// are gathered in their order.
pub proof fn lemma_run_goes_on_while_asked_for_more(
    fallback: Option<Seq<char>>,
    replies: Seq<ReplyView>,
)
    requires
        replies.len() <= u32::MAX,
        forall|i: int| 0 <= i < replies.len() ==> asks_for_more(#[trigger] replies[i], fallback),
    ensures
        run_from(initial_state(), fallback, replies) == (
            StateView::Fetching { page: replies.len() as u32, releases: gathered(replies) },
            replies.len(),
        ),
{
    lemma_run_through_page(0, Seq::empty(), fallback, replies);
    assert(Seq::<ReleaseView>::empty() + gathered(replies) =~= gathered(replies));
}

} // verus!
