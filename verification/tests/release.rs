use chrono::{NaiveDate, Utc};
use patch_releases::github_date_format::deserialize;
use patch_releases::release::GitHubRelease;
use patch_releases::timestamp::Timestamp;
use patch_releases::version::ParsedVersion;

fn now() -> Timestamp {
    let now = Utc::now();
    Timestamp { secs: now.timestamp(), nanos: now.timestamp_subsec_nanos() }
}

fn same_version(found: &ParsedVersion, expected: &semver::Version) -> bool {
    found.major == expected.major
        && found.minor == expected.minor
        && found.patch == expected.patch
        && found.pre == expected.pre.as_str()
        && found.build == expected.build.as_str()
}

const RAW_RELEASE: &str = r#####"
        {
            "url": "https://api.github.com/repos/wasmCloud/wasmCloud/releases/165886656",
            "assets_url": "https://api.github.com/repos/wasmCloud/wasmCloud/releases/165886656/assets",
            "upload_url": "https://uploads.github.com/repos/wasmCloud/wasmCloud/releases/165886656/assets{?name,label}",
            "html_url": "https://github.com/wasmCloud/wasmCloud/releases/tag/washboard-ui-v0.4.0",
            "id": 165886656,
            "node_id": "RE_kwDOEiTU7M4J4zrA",
            "tag_name": "washboard-ui-v0.4.0",
            "target_commitish": "main",
            "name": "washboard-ui-v0.4.0",
            "draft": false,
            "prerelease": false,
            "created_at": "2024-07-17T14:47:54Z",
            "published_at": "2024-07-17T16:15:15Z",
            "tarball_url": "https://api.github.com/repos/wasmCloud/wasmCloud/tarball/washboard-ui-v0.4.0",
            "zipball_url": "https://api.github.com/repos/wasmCloud/wasmCloud/zipball/washboard-ui-v0.4.0",
            "mentions_count": 5
        }
        "#####;

/// Reads a release out of a JSON object field by field, the date by the
/// library's own reader.
fn release_from_json(raw: &str) -> Result<GitHubRelease, String> {
    let value: serde_json::Value = serde_json::from_str(raw).map_err(|e| e.to_string())?;
    let text = |key: &str| -> Result<String, String> {
        value.get(key).and_then(|v| v.as_str()).map(str::to_string).ok_or(key.to_string())
    };
    let flag = |key: &str| -> Result<bool, String> {
        value.get(key).and_then(|v| v.as_bool()).ok_or(key.to_string())
    };
    Ok(GitHubRelease {
        tag_name: text("tag_name")?,
        name: text("name")?,
        published_at: deserialize(&text("published_at")?).map_err(|e| e.cause.to_string())?,
        draft: flag("draft")?,
        prerelease: flag("prerelease")?,
    })
}

#[test]
fn api_test_github_release_is_parsed_correctly() {
    let release = release_from_json(RAW_RELEASE);
    assert!(release.is_ok());
    let release = release.unwrap();
    assert_eq!(release.tag_name, "washboard-ui-v0.4.0");
    assert_eq!(release.name, "washboard-ui-v0.4.0");

    let expected_date = NaiveDate::from_ymd_opt(2024, 07, 17)
        .unwrap()
        .and_hms_opt(16, 15, 15)
        .unwrap()
        .and_utc();
    assert_eq!(
        release.published_at,
        Timestamp {
            secs: expected_date.timestamp(),
            nanos: expected_date.timestamp_subsec_nanos()
        }
    );
    assert_eq!(release.draft, false);
    assert_eq!(release.prerelease, false);
}

#[test]
fn spec_test_github_release_is_parsed_correctly() {
    let release = release_from_json(RAW_RELEASE);
    assert!(release.is_ok());
    let release = release.unwrap();
    assert_eq!(release.tag_name, "washboard-ui-v0.4.0");
    assert_eq!(release.name, "washboard-ui-v0.4.0");

    let expected_date = NaiveDate::from_ymd_opt(2024, 07, 17)
        .unwrap()
        .and_hms_opt(16, 15, 15)
        .unwrap()
        .and_utc();
    assert_eq!(release.published_at.secs, expected_date.timestamp());
    assert_eq!(release.published_at.nanos, expected_date.timestamp_subsec_nanos());
    assert_eq!(release.draft, false);
    assert_eq!(release.prerelease, false);
}

#[test]
fn api_test_github_release_is_not_draft_or_pre_release() {
    let release = GitHubRelease {
        tag_name: "v0.4.0".to_string(),
        name: "v0.4.0".to_string(),
        published_at: now(),
        draft: false,
        prerelease: false,
    };
    assert!(release.is_not_draft_or_pre_release());
}

#[test]
fn spec_test_github_release_is_not_draft_or_pre_release() {
    let release = GitHubRelease {
        tag_name: "v0.4.0".to_string(),
        name: "v0.4.0".to_string(),
        published_at: now(),
        draft: false,
        prerelease: false,
    };
    assert!(release.is_not_draft_or_pre_release());
}

#[test]
fn api_test_semver_without_prefix() {
    let release = GitHubRelease {
        tag_name: "v0.4.0".to_string(),
        name: "v0.4.0".to_string(),
        published_at: now(),
        draft: false,
        prerelease: false,
    };
    let version = release.is_main_release();
    assert!(version.is_some());
    assert!(same_version(&version.unwrap(), &semver::Version::parse("0.4.0").unwrap()));

    let release_with_prefix = GitHubRelease {
        tag_name: "washboard-ui-v0.4.0".to_string(),
        name: "washboard-ui-v0.4.0".to_string(),
        published_at: now(),
        draft: false,
        prerelease: false,
    };
    let version = release_with_prefix.is_main_release();
    assert!(version.is_none());
}

#[test]
fn spec_test_semver_without_prefix() {
    let release = GitHubRelease {
        tag_name: "v0.4.0".to_string(),
        name: "v0.4.0".to_string(),
        published_at: now(),
        draft: false,
        prerelease: false,
    };
    let version = release.is_main_release();
    assert!(version.is_some());
    let expected = semver::Version::parse("0.4.0").unwrap();
    assert_eq!(
        version.unwrap(),
        ParsedVersion {
            major: expected.major,
            minor: expected.minor,
            patch: expected.patch,
            pre: expected.pre.as_str().to_string(),
            build: expected.build.as_str().to_string(),
        }
    );

    let release_with_prefix = GitHubRelease {
        tag_name: "washboard-ui-v0.4.0".to_string(),
        name: "washboard-ui-v0.4.0".to_string(),
        published_at: now(),
        draft: false,
        prerelease: false,
    };
    let version = release_with_prefix.is_main_release();
    assert!(version.is_none());
}

#[test]
fn drafts_and_prereleases_are_not_final() {
    let at = Timestamp { secs: 0, nanos: 0 };
    for (draft, prerelease, expected) in
        [(false, false, true), (true, false, false), (false, true, false), (true, true, false)]
    {
        let release = GitHubRelease {
            tag_name: "v1.0.0".to_string(),
            name: "one".to_string(),
            published_at: at,
            draft,
            prerelease,
        };
        assert_eq!(release.is_not_draft_or_pre_release(), expected);
    }
}

#[test]
fn releases_are_equal_when_their_tags_are() {
    let first = GitHubRelease {
        tag_name: "v1.0.0".to_string(),
        name: "first".to_string(),
        published_at: Timestamp { secs: 1, nanos: 0 },
        draft: false,
        prerelease: false,
    };
    let same_tag = GitHubRelease {
        tag_name: "v1.0.0".to_string(),
        name: "second".to_string(),
        published_at: Timestamp { secs: 2, nanos: 5 },
        draft: true,
        prerelease: true,
    };
    let other_tag = GitHubRelease {
        tag_name: "v1.0.1".to_string(),
        name: "first".to_string(),
        published_at: Timestamp { secs: 1, nanos: 0 },
        draft: false,
        prerelease: false,
    };
    assert!(first == same_tag);
    assert!(first != other_tag);
}

#[test]
fn cloned_release_keeps_every_field() {
    let release = GitHubRelease {
        tag_name: "v1.0.0".to_string(),
        name: "first".to_string(),
        published_at: Timestamp { secs: 7, nanos: 9 },
        draft: true,
        prerelease: false,
    };
    let copy = release.clone();
    assert_eq!(copy.tag_name, "v1.0.0");
    assert_eq!(copy.name, "first");
    assert_eq!(copy.published_at, Timestamp { secs: 7, nanos: 9 });
    assert_eq!(copy.draft, true);
    assert_eq!(copy.prerelease, false);
}
