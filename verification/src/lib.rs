//! Release update notifier: a verified release cache and version-resolution
//! engine. Given a list of published releases, it filters drafts, ranks by
//! publish timestamp, normalizes version tags, and decides whether a caller's
//! current version is older than the latest one; a cache with a freshness
//! policy bounds how often the remote source is consulted, and a byte codec
//! persists snapshots across restarts.

pub mod cache;
pub mod codec;
pub mod config;
pub mod error;
pub mod notifier;
pub mod release;
pub mod resolver;
pub mod selector;
pub mod validate;

pub use cache::CacheSnapshot;
pub use cache::FetchDecision;
pub use cache::ReleaseCache;
pub use config::ReleaseNotifierConfig;
pub use error::ReleaseNotifierError;
pub use release::Release;
pub use release::ReleaseView;
pub use release::VersionCheckResult;
