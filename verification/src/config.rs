//! Configuration for the release notifier, built up by chained setters.

use vstd::prelude::*;
use vstd::string::StringExecFns;

verus! {

/// Configuration for the release notifier.
pub struct ReleaseNotifierConfig {
    /// The repository in "owner/repo" format.
    pub repo: String,
    /// The interval in milliseconds between checks; zero disables caching.
    pub check_interval: u64,
    /// Optional path to a file for persisting the cache to disk.
    pub cache_file_path: Option<String>,
    /// Optional API token for authentication.
    pub token: Option<String>,
    /// Base URL of the release source's API.
    pub base_url: String,
}

impl ReleaseNotifierConfig {
    /// Creates a new config with the given repository, an hour-long check
    /// interval, no cache file, no token, and the default base URL.
    pub fn new(repo: &str) -> (c: Self)
        ensures
            c.repo@ == repo@,
            c.check_interval == 3600000u64,
            c.cache_file_path is None,
            c.token is None,
            c.base_url@ == "https://api.github.com"@,
    {
        Self {
            repo: repo.to_owned(),
            check_interval: 3600000,
            cache_file_path: Option::None,
            token: Option::None,
            base_url: String::from_str("https://api.github.com"),
        }
    }

    /// Sets a custom base URL.
    pub fn base_url(self, url: &str) -> (c: Self)
        ensures
            c.base_url@ == url@,
            c.repo == self.repo,
            c.check_interval == self.check_interval,
            c.cache_file_path == self.cache_file_path,
            c.token == self.token,
    {
        Self { base_url: url.to_owned(), ..self }
    }

    /// Sets the check interval in milliseconds.
    pub fn check_interval(self, interval: u64) -> (c: Self)
        ensures
            c.check_interval == interval,
            c.repo == self.repo,
            c.cache_file_path == self.cache_file_path,
            c.token == self.token,
            c.base_url == self.base_url,
    {
        Self { check_interval: interval, ..self }
    }

    /// Sets the cache file path.
    pub fn cache_file_path(self, path: &str) -> (c: Self)
        ensures
            c.cache_file_path matches Some(p) && p@ == path@,
            c.repo == self.repo,
            c.check_interval == self.check_interval,
            c.token == self.token,
            c.base_url == self.base_url,
    {
        Self { cache_file_path: Option::Some(path.to_owned()), ..self }
    }

    /// Sets the API token.
    pub fn token(self, token: &str) -> (c: Self)
        ensures
            c.token matches Some(t) && t@ == token@,
            c.repo == self.repo,
            c.check_interval == self.check_interval,
            c.cache_file_path == self.cache_file_path,
            c.base_url == self.base_url,
    {
        Self { token: Option::Some(token.to_owned()), ..self }
    }
}

} // verus!
