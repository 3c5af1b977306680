//! One release of a project, as its catalog publishes it.

use vstd::prelude::*;
use vstd::std_specs::cmp::PartialEqSpecImpl;

use crate::timestamp::Timestamp;
use crate::version::{parse, tag_version, ParsedVersion};

verus! {

/// A release of a project: the fields of a catalog entry that decide whether a
/// newer patch is on offer.
///
/// The tag is the release's identity: two records with the same tag compare equal
/// with `==`, whatever their other fields hold. A tag need not be a version; a
/// catalog can hold the releases of several components side by side.
#[derive(Debug)]
pub struct GitHubRelease {
    pub tag_name: String,
    pub name: String,
    pub published_at: Timestamp,
    pub draft: bool,
    pub prerelease: bool,
}

/// The mathematical value of a [`GitHubRelease`].
pub struct ReleaseView {
    pub tag_name: Seq<char>,
    pub name: Seq<char>,
    pub published_at: Timestamp,
    pub draft: bool,
    pub prerelease: bool,
}

impl ReleaseView {
    /// Neither a draft nor a pre-release.
    pub open spec fn is_published(self) -> bool {
        !self.draft && !self.prerelease
    }
}

impl View for GitHubRelease {
    type V = ReleaseView;

    open spec fn view(&self) -> ReleaseView {
        ReleaseView {
            tag_name: self.tag_name@,
            name: self.name@,
            published_at: self.published_at,
            draft: self.draft,
            prerelease: self.prerelease,
        }
    }
}

impl DeepView for GitHubRelease {
    type V = ReleaseView;

    open spec fn deep_view(&self) -> ReleaseView {
        self@
    }
}

impl Clone for GitHubRelease {
    fn clone(&self) -> (copy: Self)
        ensures
            copy@ == self@,
    {
        GitHubRelease {
            tag_name: self.tag_name.clone(),
            name: self.name.clone(),
            published_at: self.published_at,
            draft: self.draft,
            prerelease: self.prerelease,
        }
    }
}

impl PartialEq for GitHubRelease {
    fn eq(&self, other: &Self) -> (same: bool) {
        self.tag_name == other.tag_name
    }
}

impl PartialEqSpecImpl for GitHubRelease {
    open spec fn obeys_eq_spec() -> bool {
        true
    }

    open spec fn eq_spec(&self, other: &Self) -> bool {
        self.tag_name@ == other.tag_name@
    }
}

impl GitHubRelease {
    /// Tells whether the release is final: neither a draft nor a pre-release.
    pub fn is_not_draft_or_pre_release(&self) -> (published: bool)
        ensures
            published == self@.is_published(),
    {
        !self.draft && !self.prerelease
    }

    /// The version that the release's tag stands for, if the tag is one of the
    /// project's own version tags.
    pub fn is_main_release(&self) -> (version: Option<ParsedVersion>)
        ensures
            version.deep_view() == tag_version(self.tag_name@),
    {
        parse(self.tag_name.as_str())
    }
}

} // verus!
