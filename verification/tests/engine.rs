use relnotify::Release;
use relnotify::notifier::check_version_in;
use relnotify::notifier::latest_release_in;
use relnotify::resolver::find_release_by_version;
use relnotify::resolver::is_version_older;
use relnotify::resolver::normalize_tag;
use relnotify::selector::filter_drafts;
use relnotify::selector::latest_including_prerelease;
use relnotify::selector::latest_prerelease_only;
use relnotify::selector::latest_stable;

fn release(tag: &str, prerelease: bool, draft: bool, published_at: Option<i64>) -> Release {
    Release {
        tag_name: tag.to_string(),
        name: Some(format!("Release {}", tag)),
        body: Some("notes".to_string()),
        prerelease,
        draft,
        html_url: format!("https://example.com/releases/tag/{}", tag),
        published_at,
    }
}

// The scenario list: a stable release, a newer prerelease, an old stable
// release, and a draft that is newer than everything.
fn scenario() -> Vec<Release> {
    vec![
        release("v2.0.0", false, false, Some(1710496800000)), // 2024-03-15T10:00:00Z
        release("v2.1.0-beta.1", true, false, Some(1710928800000)), // 2024-03-20T10:00:00Z
        release("v1.0.0", false, false, Some(1704103200000)), // 2024-01-01T10:00:00Z
        release("v3.0.0-draft", false, true, Some(1711965600000)), // 2024-04-01T10:00:00Z
    ]
}

#[test]
fn test_latest_stable_scenario() {
    let releases = scenario();
    let latest = latest_stable(&releases).expect("a stable release exists");
    assert_eq!(latest.tag_name, "v2.0.0");
    assert!(!latest.prerelease);
    assert!(!latest.draft);
}

#[test]
fn test_latest_including_prerelease_scenario() {
    let releases = scenario();
    let latest = latest_including_prerelease(&releases).expect("a release exists");
    assert_eq!(latest.tag_name, "v2.1.0-beta.1");
}

#[test]
fn test_latest_prerelease_only_scenario() {
    let releases = scenario();
    let latest = latest_prerelease_only(&releases).expect("a prerelease exists");
    assert_eq!(latest.tag_name, "v2.1.0-beta.1");
    assert!(latest.prerelease);
}

#[test]
fn test_no_selector_returns_draft() {
    let releases = scenario();
    assert_ne!(latest_stable(&releases).unwrap().tag_name, "v3.0.0-draft");
    assert_ne!(
        latest_including_prerelease(&releases).unwrap().tag_name,
        "v3.0.0-draft"
    );
    assert_ne!(
        latest_prerelease_only(&releases).unwrap().tag_name,
        "v3.0.0-draft"
    );
}

#[test]
fn test_filter_drafts_excludes_drafts() {
    let releases = scenario();
    let filtered = filter_drafts(&releases);
    assert_eq!(filtered.len(), 3);
    for r in &filtered {
        assert!(!r.draft);
    }
    // order of the survivors is kept
    assert_eq!(filtered[0].tag_name, "v2.0.0");
    assert_eq!(filtered[1].tag_name, "v2.1.0-beta.1");
    assert_eq!(filtered[2].tag_name, "v1.0.0");
}

#[test]
fn test_normalize_tag() {
    assert_eq!(normalize_tag("v1.2.3"), "1.2.3");
    assert_eq!(normalize_tag("1.2.3"), "1.2.3");
    assert_eq!(normalize_tag("V1.2.3"), "1.2.3");
    // only one leading marker is stripped, and only at the front
    assert_eq!(normalize_tag("vv1"), "v1");
    assert_eq!(normalize_tag("1v"), "1v");
    assert_eq!(normalize_tag(""), "");
}

#[test]
fn test_find_release_by_version() {
    let releases = scenario();
    let found = find_release_by_version("v1.0.0", &releases).expect("present");
    assert_eq!(found.tag_name, "v1.0.0");
    // a missing leading 'v' still matches
    let found = find_release_by_version("2.0.0", &releases).expect("present");
    assert_eq!(found.tag_name, "v2.0.0");
    assert!(find_release_by_version("999.0.0", &releases).is_none());
}

#[test]
fn test_find_release_returns_first_match() {
    let releases = vec![
        release("v1.0.0", false, false, Some(100)),
        release("1.0.0", false, false, Some(200)),
    ];
    let found = find_release_by_version("1.0.0", &releases).expect("present");
    assert_eq!(found.published_at, Some(100));
}

#[test]
fn test_is_older_scenario() {
    let releases = scenario();
    let latest = latest_stable(&releases).unwrap();
    assert!(is_version_older("v1.0.0", &latest, &releases));
    assert!(!is_version_older("999.0.0", &latest, &releases));
    assert!(!is_version_older("v2.0.0", &latest, &releases));
}

#[test]
fn test_is_older_missing_timestamps() {
    let dated = release("v2.0.0", false, false, Some(200));
    let undated = release("v1.0.0", false, false, None);
    let releases = vec![dated.clone(), undated.clone()];
    // the current version has no date: not provably older
    assert!(!is_version_older("v1.0.0", &dated, &releases));
    // the latest has no date: not provably older either
    assert!(!is_version_older("v2.0.0", &undated, &releases));
}

#[test]
fn test_undated_release_never_beats_dated() {
    let releases = vec![
        release("v1.0.0", false, false, None),
        release("v0.1.0", false, false, Some(1)),
    ];
    let latest = latest_stable(&releases).unwrap();
    assert_eq!(latest.tag_name, "v0.1.0");
}

#[test]
fn test_timestamp_tie_later_entry_wins() {
    let releases = vec![
        release("v1.0.0", false, false, Some(100)),
        release("v1.0.1", false, false, Some(100)),
    ];
    let latest = latest_stable(&releases).unwrap();
    assert_eq!(latest.tag_name, "v1.0.1");
}

#[test]
fn test_check_version_scenario() {
    let releases = scenario();
    let result = check_version_in(&releases, "v1.0.0", false);
    assert!(result.update_available);
    assert_eq!(result.latest_release.unwrap().tag_name, "v2.0.0");

    let result = check_version_in(&releases, "v2.0.0", false);
    assert!(!result.update_available);

    let result = check_version_in(&releases, "999.0.0", false);
    assert!(!result.update_available);

    let result = check_version_in(&releases, "v2.0.0", true);
    assert!(result.update_available);
    assert_eq!(result.latest_release.unwrap().tag_name, "v2.1.0-beta.1");
}

#[test]
fn test_check_version_empty_list() {
    let releases: Vec<Release> = Vec::new();
    let result = check_version_in(&releases, "v1.0.0", false);
    assert!(!result.update_available);
    assert!(result.latest_release.is_none());
}

#[test]
fn test_no_prereleases() {
    let releases = vec![release("v1.0.0", false, false, Some(1704103200000))];
    assert!(latest_prerelease_only(&releases).is_none());
    let result = check_version_in(&releases, "v1.0.0", true);
    assert!(!result.update_available);
    assert!(result.latest_release.is_none());
}

#[test]
fn test_latest_release_in_flag() {
    let releases = scenario();
    assert_eq!(
        latest_release_in(&releases, false).unwrap().tag_name,
        "v2.0.0"
    );
    assert_eq!(
        latest_release_in(&releases, true).unwrap().tag_name,
        "v2.1.0-beta.1"
    );
}
