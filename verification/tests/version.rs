use patch_releases::version::{parse, strip_leading_v, ParsedVersion};

fn plain(major: u64, minor: u64, patch: u64) -> ParsedVersion {
    ParsedVersion { major, minor, patch, pre: String::new(), build: String::new() }
}

#[test]
fn parse_reads_a_tag_with_a_leading_v() {
    assert_eq!(parse("v1.2.3"), Some(plain(1, 2, 3)));
}

#[test]
fn parse_reads_a_tag_without_a_leading_v() {
    assert_eq!(parse("1.2.3"), Some(plain(1, 2, 3)));
}

#[test]
fn parse_refuses_any_other_prefix() {
    assert_eq!(parse("widget-v1.2.3"), None);
    assert_eq!(parse("washboard-ui-v0.4.0"), None);
    assert_eq!(parse("V1.2.3"), None);
    assert_eq!(parse("vv1.2.3"), None);
    assert_eq!(parse(" v1.2.3"), None);
}

#[test]
fn parse_keeps_prerelease_and_build() {
    assert_eq!(
        parse("v1.0.0-rc.1+build.5"),
        Some(ParsedVersion {
            major: 1,
            minor: 0,
            patch: 0,
            pre: "rc.1".to_string(),
            build: "build.5".to_string(),
        })
    );
}

#[test]
fn parse_refuses_what_is_no_version() {
    assert_eq!(parse(""), None);
    assert_eq!(parse("v"), None);
    assert_eq!(parse("v1.2"), None);
    assert_eq!(parse("v1.2.03"), None);
    assert_eq!(parse("v1.2.3-"), None);
    assert_eq!(parse("v1.2.3 "), None);
    assert_eq!(parse("latest"), None);
    assert_eq!(parse("v23456789999999999999.0.0"), None);
}

#[test]
fn parse_agrees_with_the_semver_parser_on_the_stripped_tag() {
    let tags = ["v0.4.0", "0.4.0", "v1.2.3-alpha", "vx", "v1", "1.0.0+7", "v-1.0.0", "v1.0.0.0"];
    for tag in tags {
        let stripped = tag.strip_prefix("v").unwrap_or(tag);
        let expected = semver::Version::parse(stripped).ok();
        let found = parse(tag);
        assert_eq!(found.is_none(), expected.is_none());
        if let (Some(found), Some(expected)) = (found, expected) {
            assert_eq!(found.major, expected.major);
            assert_eq!(found.minor, expected.minor);
            assert_eq!(found.patch, expected.patch);
            assert_eq!(found.pre, expected.pre.as_str());
            assert_eq!(found.build, expected.build.as_str());
        }
    }
}

#[test]
fn strip_leading_v_drops_one_v_only() {
    assert_eq!(strip_leading_v("v1.0.0"), "1.0.0");
    assert_eq!(strip_leading_v("vv1.0.0"), "v1.0.0");
    assert_eq!(strip_leading_v("1.0.0"), "1.0.0");
    assert_eq!(strip_leading_v(""), "");
    assert_eq!(strip_leading_v("v"), "");
    assert_eq!(strip_leading_v("V1.0.0"), "V1.0.0");
    assert_eq!(strip_leading_v("vé1"), "é1");
}

#[test]
fn a_cloned_version_equals_the_one_it_was_made_from() {
    let version = ParsedVersion {
        major: 3,
        minor: 1,
        patch: 4,
        pre: "beta".to_string(),
        build: "x".to_string(),
    };
    assert_eq!(version.clone(), version);
}
