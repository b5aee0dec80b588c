//! The release data model: one immutable record per published release, its
//! mathematical view, and the ordering on optional publish timestamps that
//! every selection and comparison in this crate goes by.

use vstd::prelude::*;

verus! {

/// One release as published by the remote source.
///
/// `tag_name` is the only stable identity of a release; `published_at` is an
/// epoch-millisecond timestamp, absent for unpublished edge-case entries.
pub struct Release {
    /// The release tag name (e.g., "v1.0.0").
    pub tag_name: String,
    /// The release name/title.
    pub name: Option<String>,
    /// The release body/description.
    pub body: Option<String>,
    /// Whether this is a prerelease.
    pub prerelease: bool,
    /// Whether this is a draft release.
    pub draft: bool,
    /// The URL to the release page.
    pub html_url: String,
    /// When the release was published, in milliseconds since the epoch.
    pub published_at: Option<i64>,
}

/// The mathematical value of a `Release`: every string as a sequence of
/// characters, everything else as itself.
pub struct ReleaseView {
    pub tag_name: Seq<char>,
    pub name: Option<Seq<char>>,
    pub body: Option<Seq<char>>,
    pub prerelease: bool,
    pub draft: bool,
    pub html_url: Seq<char>,
    pub published_at: Option<i64>,
}

impl DeepView for Release {
    type V = ReleaseView;

    open spec fn deep_view(&self) -> ReleaseView {
        ReleaseView {
            tag_name: self.tag_name.deep_view(),
            name: self.name.deep_view(),
            body: self.body.deep_view(),
            prerelease: self.prerelease,
            draft: self.draft,
            html_url: self.html_url.deep_view(),
            published_at: self.published_at,
        }
    }
}

impl Clone for Release {
    fn clone(&self) -> (r: Self)
        ensures
            r == *self,
    {
        Release {
            tag_name: self.tag_name.clone(),
            name: self.name.clone(),
            body: self.body.clone(),
            prerelease: self.prerelease,
            draft: self.draft,
            html_url: self.html_url.clone(),
            published_at: self.published_at,
        }
    }
}

/// The result of a version check: whether a newer release exists, and which
/// release is the latest on the requested channel.
pub struct VersionCheckResult {
    /// Whether an update is available.
    pub update_available: bool,
    /// The latest release, if any.
    pub latest_release: Option<Release>,
}

/// Ordering on optional publish timestamps: an absent timestamp sorts below
/// every present one, so a dateless release is never preferred to a dated one.
pub open spec fn date_le(a: Option<i64>, b: Option<i64>) -> bool {
    match (a, b) {
        (Option::None, _) => true,
        (Option::Some(_), Option::None) => false,
        (Option::Some(x), Option::Some(y)) => x <= y,
    }
}

/// Strict form of [`date_le`]: both timestamps present and the first smaller.
pub open spec fn date_lt(a: Option<i64>, b: Option<i64>) -> bool {
    a is Some && b is Some && a->0 < b->0
}

/// Executable comparison matching [`date_le`].
pub fn date_le_exec(a: Option<i64>, b: Option<i64>) -> (r: bool)
    ensures
        r == date_le(a, b),
{
    match (a, b) {
        (Option::None, _) => true,
        (Option::Some(_), Option::None) => false,
        (Option::Some(x), Option::Some(y)) => x <= y,
    }
}

} // verus!
