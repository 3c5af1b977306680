use patch_releases::fetch::{
    advance, is_fetching, is_success_status, next_request, outcome, page_holds_tag,
    page_reaches_fallback, replay, start, FetchError, FetchState, PageReply, StopReason,
};
use patch_releases::release::GitHubRelease;
use patch_releases::timestamp::Timestamp;

fn release(number: usize) -> GitHubRelease {
    GitHubRelease {
        tag_name: format!("v1.0.{}", number),
        name: format!("release {}", number),
        published_at: Timestamp { secs: 1_700_000_000 - number as i64, nanos: 0 },
        draft: false,
        prerelease: false,
    }
}

/// A page of `count` releases numbered from `first`.
fn page(first: usize, count: usize) -> Vec<GitHubRelease> {
    (first..first + count).map(release).collect()
}

fn ok(releases: Vec<GitHubRelease>) -> PageReply {
    PageReply::Answered { status: 200, releases }
}

fn tags(releases: &[GitHubRelease]) -> Vec<String> {
    releases.iter().map(|r| r.tag_name.clone()).collect()
}

fn done(state: FetchState) -> (Vec<GitHubRelease>, StopReason) {
    match state {
        FetchState::Done { releases, reason } => (releases, reason),
        other => panic!("not done: {:?}", other),
    }
}

#[test]
fn three_pages_of_100_100_40_take_three_requests_and_give_240_releases() {
    let replies = vec![ok(page(0, 100)), ok(page(100, 100)), ok(page(200, 40)), ok(page(240, 100))];
    let run = replay(&None, replies);
    assert_eq!(run.requests, 3);
    let (releases, reason) = done(run.state);
    assert_eq!(reason, StopReason::ShortPage);
    assert_eq!(releases.len(), 240);
    assert_eq!(tags(&releases), tags(&page(0, 240)));
}

#[test]
fn a_page_with_the_fallback_tag_is_the_last_one_requested() {
    let fallback = Some("v1.0.150".to_string());
    let replies = vec![ok(page(0, 100)), ok(page(100, 100)), ok(page(200, 100))];
    let run = replay(&fallback, replies);
    assert_eq!(run.requests, 2);
    let (releases, reason) = done(run.state);
    assert_eq!(reason, StopReason::FallbackReached);
    assert_eq!(tags(&releases), tags(&page(0, 200)));
}

#[test]
fn the_fallback_tag_on_the_first_page_ends_the_retrieval_after_one_request() {
    let fallback = Some("v1.0.0".to_string());
    let run = replay(&fallback, vec![ok(page(0, 100)), ok(page(100, 100))]);
    assert_eq!(run.requests, 1);
    let (releases, reason) = done(run.state);
    assert_eq!(reason, StopReason::FallbackReached);
    assert_eq!(tags(&releases), tags(&page(0, 100)));
}

#[test]
fn the_fallback_tag_must_match_exactly() {
    let fallback = Some("v1.0.15".to_string());
    let mut first = page(100, 100);
    first[3].tag_name = "v1.0.15 ".to_string();
    first[4].tag_name = "V1.0.15".to_string();
    first[5].tag_name = "1.0.15".to_string();
    let run = replay(&fallback, vec![ok(first), ok(page(200, 3))]);
    assert_eq!(run.requests, 2);
    let (releases, reason) = done(run.state);
    assert_eq!(reason, StopReason::ShortPage);
    assert_eq!(releases.len(), 103);
}

#[test]
fn a_status_other_than_success_ends_the_retrieval_with_what_was_gathered() {
    let replies = vec![
        ok(page(0, 100)),
        PageReply::Answered { status: 403, releases: page(100, 100) },
        ok(page(200, 100)),
    ];
    let run = replay(&None, replies);
    assert_eq!(run.requests, 2);
    let (releases, reason) = done(run.state);
    assert_eq!(reason, StopReason::HttpStatus);
    assert_eq!(tags(&releases), tags(&page(0, 100)));
}

#[test]
fn a_status_other_than_success_on_the_first_page_gives_no_release_and_no_error() {
    let run = replay(&None, vec![PageReply::Answered { status: 500, releases: Vec::new() }]);
    assert_eq!(run.requests, 1);
    let result = outcome(run.state);
    assert_eq!(result.map(|r| r.map(|found| found.len())), Some(Ok(0)));
}

#[test]
fn an_empty_page_ends_the_retrieval() {
    let run = replay(&None, vec![ok(page(0, 100)), ok(Vec::new()), ok(page(100, 100))]);
    assert_eq!(run.requests, 2);
    let (releases, reason) = done(run.state);
    assert_eq!(reason, StopReason::EmptyPage);
    assert_eq!(tags(&releases), tags(&page(0, 100)));
}

#[test]
fn a_failed_transport_fails_the_retrieval_and_drops_what_was_gathered() {
    let replies = vec![ok(page(0, 100)), ok(page(100, 100)), PageReply::Unreachable, ok(page(0, 1))];
    let run = replay(&None, replies);
    assert_eq!(run.requests, 3);
    match &run.state {
        FetchState::Failed { error } => assert_eq!(*error, FetchError::Unreachable),
        other => panic!("not failed: {:?}", other),
    }
    assert_eq!(outcome(run.state).map(|r| r.map(|found| found.len())), Some(Err(FetchError::Unreachable)));
}

#[test]
fn a_malformed_body_fails_the_retrieval() {
    let run = replay(&None, vec![ok(page(0, 100)), PageReply::Malformed]);
    assert_eq!(run.requests, 2);
    assert_eq!(
        outcome(run.state).map(|r| r.map(|found| found.len())),
        Some(Err(FetchError::Malformed))
    );
}

#[test]
fn a_retrieval_without_a_final_reply_is_still_fetching() {
    let run = replay(&None, vec![ok(page(0, 100)), ok(page(100, 100))]);
    assert_eq!(run.requests, 2);
    assert!(is_fetching(&run.state));
    match &run.state {
        FetchState::Fetching { page, releases } => {
            assert_eq!(*page, 2);
            assert_eq!(releases.len(), 200);
        }
        other => panic!("not fetching: {:?}", other),
    }
    assert!(outcome(run.state).is_none());
}

#[test]
fn a_retrieval_without_replies_makes_no_request() {
    let run = replay(&None, Vec::new());
    assert_eq!(run.requests, 0);
    match run.state {
        FetchState::Fetching { page, releases } => {
            assert_eq!(page, 0);
            assert!(releases.is_empty());
        }
        other => panic!("not fetching: {:?}", other),
    }
}

#[test]
fn a_page_longer_than_asked_for_counts_as_full() {
    let run = replay(&None, vec![ok(page(0, 101)), ok(page(101, 1))]);
    assert_eq!(run.requests, 2);
    let (releases, reason) = done(run.state);
    assert_eq!(reason, StopReason::ShortPage);
    assert_eq!(releases.len(), 102);
}

#[test]
fn a_page_of_99_is_short_and_a_page_of_100_is_not() {
    let short = advance(start(), &None, ok(page(0, 99)));
    assert!(!is_fetching(&short));
    let full = advance(start(), &None, ok(page(0, 100)));
    assert!(is_fetching(&full));
}

#[test]
fn start_is_due_for_page_zero() {
    let state = start();
    assert!(is_fetching(&state));
    assert_eq!(
        next_request("wasmCloud", "wasmCloud", &state),
        Some("https://api.github.com/repos/wasmCloud/wasmCloud/releases?page=0&per_page=100".to_string())
    );
}

#[test]
fn next_request_counts_the_pages_up() {
    let mut state = start();
    for number in 0..3usize {
        assert_eq!(
            next_request("wasmCloud", "wadm", &state),
            Some(format!(
                "https://api.github.com/repos/wasmCloud/wadm/releases?page={}&per_page=100",
                number
            ))
        );
        state = advance(state, &None, ok(page(number * 100, 100)));
    }
    state = advance(state, &None, ok(page(300, 1)));
    assert_eq!(next_request("wasmCloud", "wadm", &state), None);
    let failed = advance(start(), &None, PageReply::Unreachable);
    assert_eq!(next_request("wasmCloud", "wadm", &failed), None);
}

#[test]
fn a_retrieval_that_is_over_ignores_further_replies() {
    let over = advance(start(), &None, ok(page(0, 5)));
    let again = advance(over, &None, ok(page(5, 100)));
    let (releases, reason) = done(again);
    assert_eq!(reason, StopReason::ShortPage);
    assert_eq!(releases.len(), 5);

    let failed = advance(start(), &None, PageReply::Malformed);
    let again = advance(failed, &None, ok(page(0, 5)));
    assert_eq!(outcome(again).map(|r| r.map(|found| found.len())), Some(Err(FetchError::Malformed)));
}

#[test]
fn the_last_page_number_ends_the_retrieval() {
    let state = FetchState::Fetching { page: u32::MAX, releases: page(0, 2) };
    assert_eq!(
        next_request("o", "r", &state),
        Some("https://api.github.com/repos/o/r/releases?page=4294967295&per_page=100".to_string())
    );
    let (releases, reason) = done(advance(state, &None, ok(page(2, 100))));
    assert_eq!(reason, StopReason::PageLimit);
    assert_eq!(releases.len(), 102);
}

#[test]
fn the_rules_are_tried_in_order() {
    let fallback = Some("v1.0.0".to_string());
    // A status other than success wins over everything that the page holds.
    let (_, reason) =
        done(advance(start(), &fallback, PageReply::Answered { status: 404, releases: page(0, 3) }));
    assert_eq!(reason, StopReason::HttpStatus);
    // The fallback tag wins over the page being short.
    let (releases, reason) = done(advance(start(), &fallback, ok(page(0, 3))));
    assert_eq!(reason, StopReason::FallbackReached);
    assert_eq!(releases.len(), 3);
}

#[test]
fn success_is_a_status_from_200_to_299() {
    assert!(!is_success_status(0));
    assert!(!is_success_status(199));
    assert!(is_success_status(200));
    assert!(is_success_status(204));
    assert!(is_success_status(299));
    assert!(!is_success_status(300));
    assert!(!is_success_status(404));
    assert!(!is_success_status(u16::MAX));
}

#[test]
fn page_holds_tag_looks_at_every_release() {
    let releases = page(0, 10);
    assert!(page_holds_tag(&releases, &"v1.0.0".to_string()));
    assert!(page_holds_tag(&releases, &"v1.0.9".to_string()));
    assert!(!page_holds_tag(&releases, &"v1.0.10".to_string()));
    assert!(!page_holds_tag(&Vec::new(), &"v1.0.0".to_string()));
    assert!(page_reaches_fallback(&releases, &Some("v1.0.4".to_string())));
    assert!(!page_reaches_fallback(&releases, &Some("v9.9.9".to_string())));
    assert!(!page_reaches_fallback(&releases, &None));
}
