use blightmud::net::check_version::{is_newer, run, LatestVersionInfo};

#[test]
fn test_check() {
    let latest = Some(LatestVersionInfo {
        version: "v10.0.0".to_string(),
        url: "https://example.com".to_string(),
    });
    let events = run("v1.0.0", latest);
    assert_eq!(events.len(), 2);
    assert_eq!(
        events[0],
        "There is a newer version of Blightmud available. (current: v1.0.0, new: v10.0.0)"
            .to_string()
    );
    assert_eq!(
        events[1],
        "Visit https://example.com to upgrade to latest version".to_string()
    );
}

#[test]
fn test_no_new_version() {
    let latest = Some(LatestVersionInfo {
        version: "v1.0.0".to_string(),
        url: "https://example.com".to_string(),
    });
    let events = run("v1.0.0", latest);
    assert!(events.is_empty());
}

#[test]
fn test_no_data() {
    let events = run("v1.0.0", None);
    assert!(events.is_empty());
}

#[test]
fn versions_compare_number_by_number() {
    assert!(is_newer("v10.0.0", "v1.0.0"));
    assert!(is_newer("v10.0.0", "v9.0.0"));
    assert!(!is_newer("v9.0.0", "v10.0.0"));
    assert!(!is_newer("v1.0.0", "v1.0.0"));
    assert!(!is_newer("v0.9.0", "v1.0.0"));
    assert!(is_newer("v1.10.0", "v1.9.3"));
    assert!(is_newer("v1.0.1", "v1.0"));
    assert!(!is_newer("v01.0.0", "v1.0.0"));
}

#[test]
fn an_older_release_reported_as_latest_gives_no_notice() {
    let latest = Some(LatestVersionInfo {
        version: "v9.0.0".to_string(),
        url: "https://example.com".to_string(),
    });
    assert!(run("v10.0.0", latest).is_empty());
}
