use relnotify::ReleaseNotifierConfig;
use relnotify::ReleaseNotifierError;
use relnotify::validate::is_valid_repo_format;
use relnotify::validate::validate_config;

#[test]
fn test_invalid_repo_format() {
    let invalid_repos = [
        "invalid-repo",     // no slash
        "too/many/slashes", // multiple slashes
        "/repo",            // empty owner
        "owner/",           // empty repo
        "-owner/repo",      // owner starts with hyphen
        "owner-/repo",      // owner ends with hyphen
        "owner/repo name",  // space in repo
        "own er/repo",      // space in owner
        "owner//repo",      // double slash (empty repo)
    ];

    for repo in invalid_repos {
        let config = ReleaseNotifierConfig::new(repo);
        let result = validate_config(&config);
        assert!(result.is_err(), "Expected '{}' to be invalid", repo);
    }
}

#[test]
fn test_invalid_repo_format_owner_too_long() {
    let long_owner = "a".repeat(40);
    let repo = format!("{}/repo", long_owner);
    let config = ReleaseNotifierConfig::new(&repo);
    let result = validate_config(&config);
    assert!(result.is_err());
}

#[test]
fn test_valid_repo_format() {
    let valid_repos = [
        "owner/repo",
        "my-org/my-repo",
        "owner/repo.js",
        "owner/repo_name",
        "Owner123/Repo456",
    ];

    for repo in valid_repos {
        let config = ReleaseNotifierConfig::new(repo);
        let result = validate_config(&config);
        assert!(result.is_ok(), "Expected '{}' to be valid", repo);
    }
}

#[test]
fn test_config_builder() {
    let config = ReleaseNotifierConfig::new("owner/repo")
        .check_interval(60000)
        .cache_file_path("/tmp/cache.json")
        .token("test-token");

    assert_eq!(config.repo, "owner/repo");
    assert_eq!(config.check_interval, 60000);
    assert_eq!(config.cache_file_path, Some("/tmp/cache.json".to_string()));
    assert_eq!(config.token, Some("test-token".to_string()));
}

#[test]
fn test_invalid_base_url() {
    let config = ReleaseNotifierConfig::new("owner/repo").base_url("not-a-valid-url");
    let result = validate_config(&config);
    assert!(result.is_err());

    let Err(ReleaseNotifierError::InvalidBaseUrl(url)) = result else {
        panic!("Expected InvalidBaseUrl error");
    };
    assert_eq!(url, "not-a-valid-url");
}

#[test]
fn test_valid_base_url() {
    let config = ReleaseNotifierConfig::new("owner/repo").base_url("https://github.example.com/api");
    let result = validate_config(&config);
    assert!(result.is_ok());
}

#[test]
fn test_invalid_repo_reports_the_repo() {
    let config = ReleaseNotifierConfig::new("no-slash-here");
    let Err(ReleaseNotifierError::InvalidRepo(repo)) = validate_config(&config) else {
        panic!("Expected InvalidRepo error");
    };
    assert_eq!(repo, "no-slash-here");
}

#[test]
fn test_config_defaults() {
    let config = ReleaseNotifierConfig::new("owner/repo");
    assert_eq!(config.check_interval, 3600000);
    assert_eq!(config.base_url, "https://api.github.com");
    assert!(config.cache_file_path.is_none());
    assert!(config.token.is_none());
}

#[test]
fn test_repo_format_function() {
    assert!(is_valid_repo_format("owner/repo"));
    assert!(!is_valid_repo_format("owner/repo/extra"));
    assert!(!is_valid_repo_format(""));
    // exactly at the length limits
    let owner39 = "a".repeat(39);
    assert!(is_valid_repo_format(&format!("{}/r", owner39)));
    let name100 = "b".repeat(100);
    assert!(is_valid_repo_format(&format!("o/{}", name100)));
    let name101 = "b".repeat(101);
    assert!(!is_valid_repo_format(&format!("o/{}", name101)));
}
