//! Semantic versions read from release tags.

use vstd::prelude::*;
use vstd::string::*;

verus! {

/// A semantic version, as far as this crate reads one: the numeric triple and the
/// text of the pre-release and build parts (empty where the version has none).
#[derive(Debug, PartialEq, Eq)]
pub struct ParsedVersion {
    pub major: u64,
    pub minor: u64,
    pub patch: u64,
    pub pre: String,
    pub build: String,
}

/// The mathematical value of a [`ParsedVersion`].
pub struct VersionView {
    pub major: u64,
    pub minor: u64,
    pub patch: u64,
    pub pre: Seq<char>,
    pub build: Seq<char>,
}

impl View for ParsedVersion {
    type V = VersionView;

    open spec fn view(&self) -> VersionView {
        VersionView {
            major: self.major,
            minor: self.minor,
            patch: self.patch,
            pre: self.pre@,
            build: self.build@,
        }
    }
}

impl DeepView for ParsedVersion {
    type V = VersionView;

    open spec fn deep_view(&self) -> VersionView {
        self@
    }
}

impl Clone for ParsedVersion {
    fn clone(&self) -> (copy: Self)
        ensures
            copy@ == self@,
    {
        ParsedVersion {
            major: self.major,
            minor: self.minor,
            patch: self.patch,
            pre: self.pre.clone(),
            build: self.build.clone(),
        }
    }
}

/// What `semver::Version::parse` makes of a text: the version it reads, or `None`
/// where it reports an error.
pub uninterp spec fn semver_parse(text: Seq<char>) -> Option<VersionView>;

/// Calls `semver::Version::parse` and copies the fields of the version it returns.
/// The contract claims only that the outcome is a function of the text; nothing is
/// claimed about which texts are versions.
#[verifier::external_body]
pub(crate) fn parse_semver(text: &str) -> (parsed: Option<ParsedVersion>)
    ensures
        parsed.deep_view() == semver_parse(text@),
{
    match semver::Version::parse(text) {
        Ok(v) => Some(
            ParsedVersion {
                major: v.major,
                minor: v.minor,
                patch: v.patch,
                pre: v.pre.as_str().to_string(),
                build: v.build.as_str().to_string(),
            },
        ),
        Err(_) => None,
    }
}

/// The tag without its first character if that character is `v`, else the tag.
pub open spec fn strip_v(tag: Seq<char>) -> Seq<char> {
    if tag.len() > 0 && tag[0] == 'v' {
        tag.subrange(1, tag.len() as int)
    } else {
        tag
    }
}

/// A text is a valid version when the semantic-version parser accepts it.
pub open spec fn is_valid_version(text: Seq<char>) -> bool {
    semver_parse(text) is Some
}

/// The version that a release tag stands for, if any.
pub open spec fn tag_version(tag: Seq<char>) -> Option<VersionView> {
    semver_parse(strip_v(tag))
}

/// Removes exactly one leading `v` from a tag, if there is one.
pub fn strip_leading_v(tag: &str) -> (rest: &str)
    ensures
        rest@ == strip_v(tag@),
{
    let len = tag.unicode_len();
    if len > 0 && tag.get_char(0) == 'v' {
        tag.substring_char(1, len)
    } else {
        tag
    }
}

/// Reads the version out of a release tag.
///
/// One leading `v` is dropped; no other prefix is. The rest must be a semantic
/// version as a whole, otherwise the tag has no version.
pub fn parse(tag: &str) -> (parsed: Option<ParsedVersion>)
    ensures
        parsed.deep_view() == tag_version(tag@),
        parsed is None <==> !is_valid_version(strip_v(tag@)),
{
    parse_semver(strip_leading_v(tag))
}

} // verus!
