//! The release selector: pure filtering and ranking over a release list.
//! Drafts are always excluded; the remaining releases are ranked by publish
//! timestamp, where an absent timestamp sorts below every present one and,
//! among releases sharing the maximal timestamp, the one latest in the input
//! order wins (the deterministic tie-break rule of this crate).

use vstd::prelude::*;
use crate::release::Release;
use crate::release::ReleaseView;
use crate::release::date_le;
use crate::release::date_le_exec;

verus! {

/// Which releases a selection keeps, besides always dropping drafts.
#[derive(Clone, Copy, PartialEq, Eq, Structural)]
pub enum Channel {
    /// Non-draft, non-prerelease releases only.
    Stable,
    /// Every non-draft release, prereleases included.
    IncludingPrerelease,
    /// Non-draft prereleases only.
    PrereleaseOnly,
}

/// Whether a release is a candidate on the given channel.
pub open spec fn keeps(ch: Channel, r: ReleaseView) -> bool {
    match ch {
        Channel::Stable => !r.draft && !r.prerelease,
        Channel::IncludingPrerelease => !r.draft,
        Channel::PrereleaseOnly => !r.draft && r.prerelease,
    }
}

/// The candidate with the maximal publish timestamp on the given channel,
/// scanning left to right and preferring the later entry on a timestamp tie.
pub open spec fn select_latest(s: Seq<ReleaseView>, ch: Channel) -> Option<ReleaseView>
    decreases s.len(),
{
    if s.len() == 0 {
        Option::None
    } else {
        let rest = select_latest(s.drop_last(), ch);
        let last = s.last();
        if !keeps(ch, last) {
            rest
        } else {
            match rest {
                Option::None => Option::Some(last),
                Option::Some(b) => if date_le(b.published_at, last.published_at) {
                    Option::Some(last)
                } else {
                    Option::Some(b)
                },
            }
        }
    }
}

/// What `latest_stable` returns, as a function of the list's value.
pub open spec fn latest_stable_spec(s: Seq<ReleaseView>) -> Option<ReleaseView> {
    select_latest(s, Channel::Stable)
}

/// What `latest_including_prerelease` returns, as a function of the list's value.
pub open spec fn latest_including_prerelease_spec(s: Seq<ReleaseView>) -> Option<ReleaseView> {
    select_latest(s, Channel::IncludingPrerelease)
}

/// What `latest_prerelease_only` returns, as a function of the list's value.
pub open spec fn latest_prerelease_only_spec(s: Seq<ReleaseView>) -> Option<ReleaseView> {
    select_latest(s, Channel::PrereleaseOnly)
}

/// The non-draft releases of a list, in their original order.
pub open spec fn drafts_removed(s: Seq<ReleaseView>) -> Seq<ReleaseView> {
    s.filter(|r: ReleaseView| !r.draft)
}

/// Executable candidate test matching [`keeps`].
fn keeps_exec(ch: Channel, r: &Release) -> (b: bool)
    ensures
        b == keeps(ch, r.deep_view()),
{
    match ch {
        Channel::Stable => !r.draft && !r.prerelease,
        Channel::IncludingPrerelease => !r.draft,
        Channel::PrereleaseOnly => !r.draft && r.prerelease,
    }
}

/// One scan that implements every channel's selection.
fn select_channel(releases: &Vec<Release>, ch: Channel) -> (r: Option<Release>)
    ensures
        r.deep_view() == select_latest(releases.deep_view(), ch),
{
    let ghost all: Seq<ReleaseView> = releases.deep_view();
    let mut best: Option<Release> = Option::None;
    let mut i: usize = 0;
    while i < releases.len()
        invariant
            0 <= i <= releases.len(),
            all == releases.deep_view(),
            best.deep_view() == select_latest(all.take(i as int), ch),
        decreases releases.len() - i,
    {
        let cand = &releases[i];
        if keeps_exec(ch, cand) {
            let replace = match &best {
                Option::None => true,
                Option::Some(b) => date_le_exec(b.published_at, cand.published_at),
            };
            if replace {
                best = Option::Some(cand.clone());
            }
        }
        proof {
            assert(all.take(i + 1).drop_last() =~= all.take(i as int));
            assert(all.take(i + 1).last() == all[i as int]);
        }
        i = i + 1;
    }
    proof {
        assert(all.take(releases.len() as int) =~= all);
    }
    best
}

/// From the non-draft releases, excluding prereleases, the one with the
/// maximal publish timestamp; the later entry wins a timestamp tie.
pub fn latest_stable(releases: &Vec<Release>) -> (r: Option<Release>)
    ensures
        r.deep_view() == latest_stable_spec(releases.deep_view()),
{
    select_channel(releases, Channel::Stable)
}

/// From the non-draft releases, prereleases included, the one with the
/// maximal publish timestamp; the later entry wins a timestamp tie.
pub fn latest_including_prerelease(releases: &Vec<Release>) -> (r: Option<Release>)
    ensures
        r.deep_view() == latest_including_prerelease_spec(releases.deep_view()),
{
    select_channel(releases, Channel::IncludingPrerelease)
}

/// From the non-draft releases, keeping only prereleases, the one with the
/// maximal publish timestamp; the later entry wins a timestamp tie.
pub fn latest_prerelease_only(releases: &Vec<Release>) -> (r: Option<Release>)
    ensures
        r.deep_view() == latest_prerelease_only_spec(releases.deep_view()),
{
    select_channel(releases, Channel::PrereleaseOnly)
}

/// Every release of the list whose draft flag is unset, in order.
pub fn filter_drafts(releases: &Vec<Release>) -> (r: Vec<Release>)
    ensures
        r.deep_view() == drafts_removed(releases.deep_view()),
{
    let ghost all: Seq<ReleaseView> = releases.deep_view();
    let mut out: Vec<Release> = Vec::new();
    let mut i: usize = 0;
    while i < releases.len()
        invariant
            0 <= i <= releases.len(),
            all == releases.deep_view(),
            out.deep_view() == drafts_removed(all.take(i as int)),
        decreases releases.len() - i,
    {
        let cand = &releases[i];
        if !cand.draft {
            out.push(cand.clone());
        }
        proof {
            assert(all.take(i + 1).drop_last() =~= all.take(i as int));
            assert(all.take(i + 1).last() == all[i as int]);
            reveal(Seq::filter);
        }
        i = i + 1;
    }
    proof {
        assert(all.take(releases.len() as int) =~= all);
    }
    out
}

/// The selection on a channel returns a candidate of that channel that stands
/// in the list and whose publish timestamp is maximal among the candidates;
/// it returns nothing exactly when the list has no candidate.
pub proof fn lemma_select_latest_max(s: Seq<ReleaseView>, ch: Channel)
    ensures
        (select_latest(s, ch) is None) <==> (forall|i: int| 0 <= i < s.len() ==> !keeps(
            ch,
            #[trigger] s[i],
        )),
        select_latest(s, ch) matches Some(r) ==> exists|i: int|
            0 <= i < s.len() && #[trigger] s[i] == r && keeps(ch, r),
        select_latest(s, ch) matches Some(r) ==> forall|i: int|
            0 <= i < s.len() && keeps(ch, #[trigger] s[i]) ==> date_le(
                s[i].published_at,
                r.published_at,
            ),
    decreases s.len(),
{
    if s.len() > 0 {
        lemma_select_latest_max(s.drop_last(), ch);
        assert forall|i: int| 0 <= i < s.len() - 1 implies s.drop_last()[i] == s[i] by {}
        if select_latest(s, ch) matches Some(r) {
            if keeps(ch, s.last()) && select_latest(s, ch) == Some(s.last()) {
                assert(s[s.len() - 1] == s.last());
            }
        }
    }
}

/// No release that the draft filter returns carries the draft flag.
pub proof fn lemma_filter_drafts_no_draft(s: Seq<ReleaseView>)
    ensures
        forall|i: int| 0 <= i < drafts_removed(s).len() ==> !(#[trigger] drafts_removed(
            s,
        )[i]).draft,
{
    broadcast use vstd::seq_lib::group_filter_ensures;

}

/// Strictly-below ordering on optional timestamps: `a` sorts before `b` and
/// not conversely, so an absent timestamp is strictly below every present one.
pub open spec fn date_below(a: Option<i64>, b: Option<i64>) -> bool {
    date_le(a, b) && !date_le(b, a)
}

/// On a list whose stable candidates have pairwise distinct publish
/// timestamps, the stable selection returns exactly the candidate with the
/// greatest timestamp.
pub proof fn lemma_latest_stable_is_unique_max(s: Seq<ReleaseView>, i: int)
    requires
        0 <= i < s.len(),
        keeps(Channel::Stable, s[i]),
        forall|j: int|
            0 <= j < s.len() && j != i && keeps(Channel::Stable, #[trigger] s[j]) ==> date_below(
                s[j].published_at,
                s[i].published_at,
            ),
    ensures
        latest_stable_spec(s) == Some(s[i]),
{
    lemma_select_latest_max(s, Channel::Stable);
    let r = latest_stable_spec(s)->0;
    let k = choose|k: int| 0 <= k < s.len() && #[trigger] s[k] == r && keeps(Channel::Stable, r);
    if s[k] != s[i] {
        assert(date_below(s[k].published_at, s[i].published_at));
        assert(date_le(s[i].published_at, r.published_at));
        assert(false);
    }
}

} // verus!
