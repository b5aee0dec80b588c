//! The version resolver: tag normalization and the "is the current version
//! older than the latest" decision. Versions are compared by publish
//! timestamp, never by parsing the tag, because release tags are not
//! guaranteed to follow any versioning scheme.

use vstd::prelude::*;
use vstd::string::StrSliceExecFns;
use crate::release::Release;
use crate::release::ReleaseView;
use crate::release::date_lt;

verus! {

/// A tag with at most one leading 'v' or 'V' stripped; used for equality
/// comparison only, never stored.
pub open spec fn normalize_spec(s: Seq<char>) -> Seq<char> {
    if s.len() > 0 && (s[0] == 'v' || s[0] == 'V') {
        s.skip(1)
    } else {
        s
    }
}

/// The first release of the list whose normalized tag equals the normalized
/// version string, if any.
pub open spec fn find_by_version_spec(s: Seq<ReleaseView>, version: Seq<char>) -> Option<ReleaseView>
    decreases s.len(),
{
    if s.len() == 0 {
        Option::None
    } else if normalize_spec(s[0].tag_name) == normalize_spec(version) {
        Option::Some(s[0])
    } else {
        find_by_version_spec(s.drop_first(), version)
    }
}

/// Whether the release list shows the current version to be strictly older
/// than `latest`: the current version's release must stand in the list and
/// both publish timestamps must be present, else the answer is no.
pub open spec fn is_older_spec(current: Seq<char>, latest: ReleaseView, s: Seq<ReleaseView>) -> bool {
    match find_by_version_spec(s, current) {
        Option::None => false,
        Option::Some(c) => date_lt(c.published_at, latest.published_at),
    }
}

/// Strips at most one leading 'v' or 'V' from a tag; otherwise returns the
/// tag unchanged.
pub fn normalize_tag(tag: &str) -> (r: String)
    ensures
        r@ == normalize_spec(tag@),
{
    let n = tag.unicode_len();
    if n > 0 {
        let c = tag.get_char(0);
        if c == 'v' || c == 'V' {
            let rest = tag.substring_char(1, n);
            proof {
                assert(rest@ =~= tag@.skip(1));
            }
            return rest.to_owned();
        }
    }
    tag.to_owned()
}

/// Finds the first release whose normalized tag equals the normalized version
/// string, handling version strings with or without a leading 'v'.
pub fn find_release_by_version(version: &str, releases: &Vec<Release>) -> (r: Option<Release>)
    ensures
        r.deep_view() == find_by_version_spec(releases.deep_view(), version@),
{
    let ghost all: Seq<ReleaseView> = releases.deep_view();
    let normalized_version = normalize_tag(version);
    let mut i: usize = 0;
    proof {
        assert(all.skip(0) =~= all);
    }
    while i < releases.len()
        invariant
            0 <= i <= releases.len(),
            all == releases.deep_view(),
            normalized_version@ == normalize_spec(version@),
            find_by_version_spec(all, version@) == find_by_version_spec(
                all.skip(i as int),
                version@,
            ),
        decreases releases.len() - i,
    {
        let normalized_tag = normalize_tag(releases[i].tag_name.as_str());
        proof {
            assert(all.skip(i as int).len() > 0);
            assert(all.skip(i as int)[0] == all[i as int]);
            assert(all.skip(i as int).drop_first() =~= all.skip(i + 1));
        }
        if normalized_tag == normalized_version {
            return Option::Some(releases[i].clone());
        }
        i = i + 1;
    }
    proof {
        assert(all.skip(releases.len() as int) =~= Seq::<ReleaseView>::empty());
    }
    Option::None
}

/// Whether the current version is strictly older than `latest`, judged by
/// publish timestamps. An unrecognized current version is never reported as
/// older, and a missing timestamp on either side yields no.
pub fn is_version_older(current_version: &str, latest: &Release, releases: &Vec<Release>) -> (r:
    bool)
    ensures
        r == is_older_spec(current_version@, latest.deep_view(), releases.deep_view()),
{
    match find_release_by_version(current_version, releases) {
        Option::None => false,
        Option::Some(current) => match (current.published_at, latest.published_at) {
            (Option::Some(current_date), Option::Some(latest_date)) => current_date < latest_date,
            _ => false,
        },
    }
}

/// A version whose normalized tag stands nowhere in the list is never judged
/// older than any release, whatever the timestamps say.
pub proof fn lemma_unknown_version_not_older(
    current: Seq<char>,
    latest: ReleaseView,
    s: Seq<ReleaseView>,
)
    requires
        forall|i: int|
            0 <= i < s.len() ==> normalize_spec((#[trigger] s[i]).tag_name) != normalize_spec(
                current,
            ),
    ensures
        !is_older_spec(current, latest, s),
    decreases s.len(),
{
    if s.len() > 0 {
        assert(s.drop_first().len() == s.len() - 1);
        assert forall|i: int| 0 <= i < s.drop_first().len() implies normalize_spec(
            (#[trigger] s.drop_first()[i]).tag_name,
        ) != normalize_spec(current) by {
            assert(s.drop_first()[i] == s[i + 1]);
        }
        lemma_unknown_version_not_older(current, latest, s.drop_first());
    }
}

} // verus!
