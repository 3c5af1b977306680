//! Selection of the patch release to upgrade to.

use vstd::prelude::*;

use crate::fetch::FetchError;
use crate::normalize::{normalize, normalized};
use crate::release::{GitHubRelease, ReleaseView};
use crate::version::{tag_version, ParsedVersion, VersionView};

verus! {

/// `found` is a patch of `current`: same major and minor number, greater patch
/// number. Pre-release and build texts play no part.
pub open spec fn is_patch_of(current: VersionView, found: VersionView) -> bool {
    found.major == current.major && found.minor == current.minor && found.patch > current.patch
}

/// What was read from a tag is a version, and a patch of `current`.
pub open spec fn is_candidate(current: VersionView, parsed: Option<VersionView>) -> bool {
    match parsed {
        Some(found) => is_patch_of(current, found),
        None => false,
    }
}

/// The release's tag stands for a patch of `current`.
pub open spec fn release_is_candidate(current: VersionView, release: ReleaseView) -> bool {
    is_candidate(current, tag_version(release.tag_name))
}

/// The first `count` releases are candidates, and the one after them, if there is
/// one, is not: `count` is the length of the run of candidates that the list
/// starts with.
pub open spec fn is_leading_run(
    current: VersionView,
    releases: Seq<ReleaseView>,
    count: int,
) -> bool {
    &&& 0 <= count <= releases.len()
    &&& forall|i: int| 0 <= i < count ==> release_is_candidate(current, #[trigger] releases[i])
    &&& count < releases.len() ==> !release_is_candidate(current, releases[count])
}

/// The release to upgrade to: the first of the list if it is a candidate, and none
/// otherwise. A candidate further down the list, behind a release that is none, is
/// never chosen.
pub open spec fn patch_resolution(current: VersionView, releases: Seq<ReleaseView>) -> Option<
    ReleaseView,
> {
    if releases.len() > 0 && release_is_candidate(current, releases[0]) {
        Some(releases[0])
    } else {
        None
    }
}

/// Tells whether what was read from a tag is a patch of the current version.
pub fn is_patch_candidate(current: &ParsedVersion, parsed: &Option<ParsedVersion>) -> (candidate:
    bool)
    ensures
        candidate == is_candidate(current@, parsed.deep_view()),
{
    match parsed {
        Some(found) => found.major == current.major && found.minor == current.minor && found.patch
            > current.patch,
        None => false,
    }
}

/// Tells whether a release's tag stands for a patch of the current version.
pub fn is_patch_release(current: &ParsedVersion, release: &GitHubRelease) -> (candidate: bool)
    ensures
        candidate == release_is_candidate(current@, release@),
{
    let parsed = release.is_main_release();
    is_patch_candidate(current, &parsed)
}

/// Walks the list from its start and keeps the releases up to, and without, the
/// first that is no candidate.
pub fn leading_candidates(current: &ParsedVersion, releases: Vec<GitHubRelease>) -> (run: Vec<
    GitHubRelease,
>)
    ensures
        is_leading_run(current@, releases.deep_view(), run.len() as int),
        run.deep_view() == releases.deep_view().take(run.len() as int),
{
    let ghost all = releases.deep_view();
    let offered = releases.len();
    let mut run: Vec<GitHubRelease> = Vec::new();
    let mut stopped = false;
    for release in it: releases
        invariant
            it.seq().len() == all.len(),
            all.len() == offered,
            forall|k: int| 0 <= k < all.len() ==> (#[trigger] it.seq()[k])@ == all[k],
            run.len() <= it.index(),
            !stopped ==> run.len() == it.index(),
            stopped ==> run.len() < all.len() && !release_is_candidate(
                current@,
                all[run.len() as int],
            ),
            forall|i: int| 0 <= i < run.len() ==> release_is_candidate(current@, #[trigger] all[i]),
            run.deep_view() == all.take(run.len() as int),
    {
        if !stopped {
            assert(release@ == all[it.index() as int]);
            if is_patch_release(current, &release) {
                let ghost before = run.deep_view();
                run.push(release);
                assert(run.deep_view() =~= before.push(release@));
                assert(run.deep_view() =~= all.take(run.len() as int));
            } else {
                stopped = true;
            }
        }
    }
    run
}

/// Finds the patch release to upgrade to in a list that is in ascending order of
/// publication.
///
/// The list is walked from its start, and the walk ends at the first release that
/// is no patch of `current`: one of another major or minor line, one that is not
/// newer, or one whose tag is no version. The result is the first release of the
/// walk, or `None` if the walk ends before it has seen one.
pub fn resolve_patch(current: &ParsedVersion, releases: Vec<GitHubRelease>) -> (newest: Option<
    GitHubRelease,
>)
    ensures
        newest.deep_view() == patch_resolution(current@, releases.deep_view()),
{
    let mut run = leading_candidates(current, releases);
    let ghost found = run.deep_view();
    if run.len() > 0 {
        let first = run.remove(0);
        assert(first@ == found[0]);
        assert(found[0] == releases.deep_view()[0]);
        Some(first)
    } else {
        None
    }
}

/// Finds the patch releases to upgrade to for two projects at once, each from its
/// own current version and its own list of releases.
pub fn get_newest_patch_releases(
    current_wadm_version: ParsedVersion,
    wadm_releases: Vec<GitHubRelease>,
    current_wasmcloud_version: ParsedVersion,
    wasmcloud_releases: Vec<GitHubRelease>,
) -> (newest: (Option<GitHubRelease>, Option<GitHubRelease>))
    ensures
        newest.0.deep_view() == patch_resolution(
            current_wadm_version@,
            wadm_releases.deep_view(),
        ),
        newest.1.deep_view() == patch_resolution(
            current_wasmcloud_version@,
            wasmcloud_releases.deep_view(),
        ),
{
    let newest_wadm = resolve_patch(&current_wadm_version, wadm_releases);
    let newest_wasmcloud = resolve_patch(&current_wasmcloud_version, wasmcloud_releases);
    (newest_wadm, newest_wasmcloud)
}

/// A list without a candidate yields no release to upgrade to.
pub proof fn lemma_no_candidate_no_patch(current: VersionView, releases: Seq<ReleaseView>)
    requires
        forall|i: int|
            0 <= i < releases.len() ==> !release_is_candidate(current, #[trigger] releases[i]),
    ensures
        patch_resolution(current, releases) is None,
{
}

/// The release to upgrade to is the first of the run of candidates that the list
/// starts with, and there is none exactly if that run is empty.
pub proof fn lemma_patch_is_first_of_leading_run(
    current: VersionView,
    releases: Seq<ReleaseView>,
    count: int,
)
    requires
        is_leading_run(current, releases, count),
    ensures
        patch_resolution(current, releases) == if count > 0 {
            Some(releases[0])
        } else {
            None
        },
{
    if count > 0 {
        assert(release_is_candidate(current, releases[0]));
    }
}

/// The walk ends at the first release that is no candidate: what stands behind
/// that release changes nothing, whether it holds candidates or not.
pub proof fn lemma_walk_ends_at_first_non_candidate(
    current: VersionView,
    releases: Seq<ReleaseView>,
    stop: int,
    behind: Seq<ReleaseView>,
)
    requires
        0 <= stop < releases.len(),
        !release_is_candidate(current, releases[stop]),
    ensures
        patch_resolution(current, releases.take(stop + 1) + behind) == patch_resolution(
            current,
            releases,
        ),
        stop == 0 ==> patch_resolution(current, releases) is None,
{
    let changed = releases.take(stop + 1) + behind;
    assert(changed[0] == releases[0]);
}

/// A release that is chosen is a candidate, and the first of the list.
pub proof fn lemma_resolved_patch_is_first_candidate(
    current: VersionView,
    releases: Seq<ReleaseView>,
)
    ensures
        patch_resolution(current, releases) matches Some(chosen) ==> {
            &&& releases.len() > 0
            &&& chosen == releases[0]
            &&& tag_version(chosen.tag_name) matches Some(found)
            &&& found.major == current.major
            &&& found.minor == current.minor
            &&& found.patch > current.patch
        },
{
}

/// What is resolved for two projects together: for each what is resolved for it
/// alone.
pub open spec fn patch_resolutions(
    first_current: VersionView,
    first_releases: Seq<ReleaseView>,
    second_current: VersionView,
    second_releases: Seq<ReleaseView>,
) -> (Option<ReleaseView>, Option<ReleaseView>) {
    (
        patch_resolution(first_current, first_releases),
        patch_resolution(second_current, second_releases),
    )
}

/// Two projects are resolved independently of each other: what is found for one
/// does not change with the version or the releases of the other, and handing the
/// projects in in the other order hands the results back in the other order.
pub proof fn lemma_projects_resolve_independently(
    first_current: VersionView,
    first_releases: Seq<ReleaseView>,
    second_current: VersionView,
    second_releases: Seq<ReleaseView>,
    other_current: VersionView,
    other_releases: Seq<ReleaseView>,
)
    ensures
        patch_resolutions(first_current, first_releases, second_current, second_releases).0
            == patch_resolutions(first_current, first_releases, other_current, other_releases).0,
        patch_resolutions(first_current, first_releases, second_current, second_releases).1
            == patch_resolutions(other_current, other_releases, second_current, second_releases).1,
        patch_resolutions(second_current, second_releases, first_current, first_releases) == (
            patch_resolutions(first_current, first_releases, second_current, second_releases).1,
            patch_resolutions(first_current, first_releases, second_current, second_releases).0,
        ),
{
}

/// A project whose releases are watched: where its catalog is, the tag at which
/// the retrieval of the catalog may stop, and the version that is in use.
#[derive(Debug)]
pub struct TrackedProject {
    pub owner: String,
    pub repo: String,
    pub fallback_tag: Option<String>,
    pub current: ParsedVersion,
}

/// What the check of one project gives: the patch release to upgrade to, if there
/// is one, or the error that kept the catalog from being read.
pub open spec fn project_resolution(
    current: VersionView,
    fetched: Result<Seq<ReleaseView>, FetchError>,
) -> Result<Option<ReleaseView>, FetchError> {
    match fetched {
        Ok(releases) => Ok(patch_resolution(current, normalized(releases))),
        Err(error) => Err(error),
    }
}

/// The mathematical value of what a retrieval gave.
pub open spec fn fetched_view(fetched: Result<Vec<GitHubRelease>, FetchError>) -> Result<
    Seq<ReleaseView>,
    FetchError,
> {
    match fetched {
        Ok(releases) => Ok(releases.deep_view()),
        Err(error) => Err(error),
    }
}

/// The mathematical value of what a check gave.
pub open spec fn resolved_view(resolved: Result<Option<GitHubRelease>, FetchError>) -> Result<
    Option<ReleaseView>,
    FetchError,
> {
    match resolved {
        Ok(newest) => Ok(newest.deep_view()),
        Err(error) => Err(error),
    }
}

/// Checks one project for a newer patch release, given what the retrieval of its
/// catalog gave: the releases are filtered and put in order, and the patch to
/// upgrade to is looked for among them. A failed retrieval is handed on as it is.
pub fn resolve_project(
    project: &TrackedProject,
    fetched: Result<Vec<GitHubRelease>, FetchError>,
) -> (resolved: Result<Option<GitHubRelease>, FetchError>)
    ensures
        resolved_view(resolved) == project_resolution(project.current@, fetched_view(fetched)),
{
    match fetched {
        Ok(releases) => {
            let sorted = normalize(releases);
            Ok(resolve_patch(&project.current, sorted))
        },
        Err(error) => Err(error),
    }
}

/// Checks two projects for newer patch releases. Each is checked on its own: a
/// failed retrieval for one leaves the result for the other as it would be.
pub fn resolve_updates(
    project_a: &TrackedProject,
    fetched_a: Result<Vec<GitHubRelease>, FetchError>,
    project_b: &TrackedProject,
    fetched_b: Result<Vec<GitHubRelease>, FetchError>,
) -> (resolved: (
    Result<Option<GitHubRelease>, FetchError>,
    Result<Option<GitHubRelease>, FetchError>,
))
    ensures
        resolved_view(resolved.0) == project_resolution(project_a.current@, fetched_view(fetched_a)),
        resolved_view(resolved.1) == project_resolution(project_b.current@, fetched_view(fetched_b)),
{
    let resolved_a = resolve_project(project_a, fetched_a);
    let resolved_b = resolve_project(project_b, fetched_b);
    (resolved_a, resolved_b)
}

} // verus!
