//! The notifier facade's decision core: given the full release list that the
//! cache or the fetch collaborator produced, pick the latest release of the
//! requested channel and judge whether the caller's current version is older.

use vstd::prelude::*;
use crate::release::Release;
use crate::release::ReleaseView;
use crate::release::VersionCheckResult;
use crate::resolver::is_older_spec;
use crate::resolver::is_version_older;
use crate::selector::latest_including_prerelease;
use crate::selector::latest_including_prerelease_spec;
use crate::selector::latest_prerelease_only;
use crate::selector::latest_prerelease_only_spec;
use crate::selector::latest_stable;
use crate::selector::latest_stable_spec;

verus! {

/// The latest release a version check on the given channel compares against:
/// prereleases on the prerelease channel, stable releases otherwise.
pub open spec fn channel_latest_spec(s: Seq<ReleaseView>, is_prerelease: bool) -> Option<
    ReleaseView,
> {
    if is_prerelease {
        latest_prerelease_only_spec(s)
    } else {
        latest_stable_spec(s)
    }
}

/// What a version check returns: no update when the channel has no latest
/// release, else the latest release together with whether the list shows the
/// current version to be strictly older.
pub open spec fn check_version_spec(
    s: Seq<ReleaseView>,
    current: Seq<char>,
    is_prerelease: bool,
) -> (bool, Option<ReleaseView>) {
    match channel_latest_spec(s, is_prerelease) {
        Option::None => (false, Option::None),
        Option::Some(latest) => (is_older_spec(current, latest, s), Option::Some(latest)),
    }
}

/// The latest non-draft release of the list, including prereleases only when
/// asked to.
pub fn latest_release_in(releases: &Vec<Release>, include_prerelease: bool) -> (r: Option<Release>)
    ensures
        include_prerelease ==> r.deep_view() == latest_including_prerelease_spec(
            releases.deep_view(),
        ),
        !include_prerelease ==> r.deep_view() == latest_stable_spec(releases.deep_view()),
{
    if include_prerelease {
        latest_including_prerelease(releases)
    } else {
        latest_stable(releases)
    }
}

/// Checks the caller's current version against the latest release of the
/// requested channel within the given list.
pub fn check_version_in(
    releases: &Vec<Release>,
    current_version: &str,
    is_prerelease: bool,
) -> (r: VersionCheckResult)
    ensures
        r.update_available == check_version_spec(
            releases.deep_view(),
            current_version@,
            is_prerelease,
        ).0,
        r.latest_release.deep_view() == check_version_spec(
            releases.deep_view(),
            current_version@,
            is_prerelease,
        ).1,
{
    let latest = if is_prerelease {
        latest_prerelease_only(releases)
    } else {
        latest_stable(releases)
    };
    match latest {
        Option::None => VersionCheckResult { update_available: false, latest_release: Option::None },
        Option::Some(latest) => {
            let update_available = is_version_older(current_version, &latest, releases);
            VersionCheckResult { update_available, latest_release: Option::Some(latest) }
        },
    }
}

} // verus!
