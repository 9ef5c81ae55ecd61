//! The listing of published versions: which tags count, in which order
//! they are shown and how each one is marked.

use crate::version::law_same_precedence_is_equality;
use crate::version::precedence;
use crate::version::tag_version;
use crate::version::Precedence;
use crate::version::VersionView;
use crate::version::VersionWithV;
use vstd::prelude::*;

verus! {

/// How a listed version is set off.
#[derive(Clone, Copy, Debug, PartialEq, Eq, Structural)]
pub enum Mark {
    /// The newest release, and the installed one.
    CurrentAndLatest,
    /// The newest release, a pre-release, with something else installed.
    LatestPrerelease,
    /// The newest release, not the installed one.
    Latest,
    /// The installed version.
    Current,
    /// Older than the installed version.
    Outdated,
    /// A pre-release.
    Prerelease,
    /// None of these.
    Plain,
}

/// One line of the listing.
#[derive(Debug)]
pub struct ListedVersion {
    pub version: VersionWithV,
    pub mark: Mark,
}

/// The view of a tagged version that may be absent.
pub open spec fn tagged_view(v: Option<VersionWithV>) -> Option<VersionView> {
    match v {
        Some(v) => Some(v@),
        None => None,
    }
}

/// The versions of a vector of tagged versions.
pub open spec fn versions_of(versions: Seq<VersionWithV>) -> Seq<VersionView> {
    Seq::new(versions.len(), |i: int| versions[i]@)
}

/// The lines of a listing as pairs of version and mark.
pub open spec fn lines_of(lines: Seq<ListedVersion>) -> Seq<(VersionView, Mark)> {
    Seq::new(lines.len(), |i: int| (lines[i].version@, lines[i].mark))
}

/// The versions that the first `count` tags stand for, in the order of the
/// tags; a tag that is no version is passed over.
pub open spec fn parsed_tags(tags: Seq<String>, count: nat) -> Seq<VersionView>
    decreases count,
{
    if count == 0 || count > tags.len() {
        Seq::<VersionView>::empty()
    } else {
        match tag_version(tags[count - 1]@) {
            Some(v) => parsed_tags(tags, (count - 1) as nat).push(v),
            None => parsed_tags(tags, (count - 1) as nat),
        }
    }
}

/// The version at `i` does not stand below the one that follows it.
pub open spec fn in_order(versions: Seq<VersionView>, i: int) -> bool {
    precedence(versions[i], versions[i + 1]) != Precedence::Lower
}

/// No version is followed directly by one that stands above it.
pub open spec fn newest_first(versions: Seq<VersionView>) -> bool {
    forall|i: int| 0 <= i < versions.len() - 1 ==> #[trigger] in_order(versions, i)
}

/// The mark of a version in the listing. The first version is the
/// newest: it is marked as the installed one, as a pre-release, or as the
/// latest, in this order of preference. Every other version is marked as
/// the installed one, as older than the installed one, as a pre-release,
/// or plain, in this order of preference.
pub open spec fn mark_of(first: bool, version: VersionView, current: Option<VersionView>) -> Mark {
    if first {
        if current == Some(version) {
            Mark::CurrentAndLatest
        } else if current is Some && version.is_prerelease() {
            Mark::LatestPrerelease
        } else {
            Mark::Latest
        }
    } else if current == Some(version) {
        Mark::Current
    } else if current is Some && precedence(version, current->0) == Precedence::Lower {
        Mark::Outdated
    } else if version.is_prerelease() {
        Mark::Prerelease
    } else {
        Mark::Plain
    }
}

/// The lines for the first `count` of `versions`: one for each version.
pub open spec fn listed(versions: Seq<VersionView>, current: Option<VersionView>, count: nat) -> Seq<
    (VersionView, Mark),
>
    decreases count,
{
    if count == 0 || count > versions.len() {
        Seq::<(VersionView, Mark)>::empty()
    } else {
        listed(versions, current, (count - 1) as nat).push(
            (versions[count - 1], mark_of(count == 1, versions[count - 1], current)),
        )
    }
}

/// Reads the tags that are versions, in their order.
pub fn parse_tags(tags: &Vec<String>) -> (versions: Vec<VersionWithV>)
    ensures
        versions_of(versions@) == parsed_tags(tags@, tags@.len()),
{
    let mut versions: Vec<VersionWithV> = Vec::new();
    let mut i: usize = 0;
    assert(versions_of(versions@) =~= parsed_tags(tags@, 0));
    while i < tags.len()
        invariant
            i <= tags.len(),
            versions_of(versions@) == parsed_tags(tags@, i as nat),
        decreases tags.len() - i,
    {
        match VersionWithV::from_str(tags[i].as_str()) {
            Ok(v) => {
                let ghost before = versions_of(versions@);
                versions.push(v);
                assert(versions_of(versions@) =~= before.push(v@));
            },
            Err(_) => {},
        }
        i += 1;
    }
    versions
}

proof fn lemma_insert_to_multiset(s: Seq<VersionView>, at: int, v: VersionView)
    requires
        0 <= at <= s.len(),
    ensures
        s.insert(at, v).to_multiset() == s.to_multiset().insert(v),
{
    let t = s.insert(at, v);
    assert(t.remove(at) =~= s);
    vstd::seq_lib::to_multiset_remove(t, at);
    assert(t[at] == v);
    t.to_multiset_ensures();
    assert(t.contains(v));
    assert(t.to_multiset() =~= s.to_multiset().insert(v));
}

proof fn lemma_insert_keeps_order(before: Seq<VersionView>, at: int, v: VersionView)
    requires
        newest_first(before),
        0 <= at <= before.len(),
        at > 0 ==> precedence(before[at - 1], v) != Precedence::Lower,
        at < before.len() ==> precedence(v, before[at]) != Precedence::Lower,
    ensures
        newest_first(before.insert(at, v)),
{
    let after = before.insert(at, v);
    assert forall|k: int| 0 <= k < after.len() - 1 implies #[trigger] in_order(after, k) by {
        if k + 1 < at {
            assert(in_order(before, k));
            assert(after[k] == before[k] && after[k + 1] == before[k + 1]);
        } else if k + 1 == at {
            assert(after[k] == before[k] && after[k + 1] == v);
        } else if k == at {
            assert(after[k] == v && after[k + 1] == before[k]);
        } else {
            assert(in_order(before, k - 1));
            assert(after[k] == before[k - 1] && after[k + 1] == before[k]);
        }
    }
}

fn insert_newest_first(sorted: &mut Vec<VersionWithV>, v: VersionWithV)
    requires
        newest_first(versions_of(old(sorted)@)),
    ensures
        newest_first(versions_of(final(sorted)@)),
        versions_of(final(sorted)@).to_multiset() == versions_of(old(sorted)@).to_multiset().insert(
            v@,
        ),
{
    let mut at: usize = 0;
    while at < sorted.len() && !matches!(sorted[at].0.compare(&v.0), Precedence::Lower)
        invariant
            at <= sorted.len(),
            at > 0 ==> precedence(sorted@[at - 1]@, v@) != Precedence::Lower,
        decreases sorted.len() - at,
    {
        at += 1;
    }
    let ghost before = versions_of(sorted@);
    proof {
        if at < sorted.len() {
            assert(precedence(v@, sorted@[at as int]@) == Precedence::Higher);
        }
        lemma_insert_keeps_order(before, at as int, v@);
        lemma_insert_to_multiset(before, at as int, v@);
    }
    sorted.insert(at, v);
    assert(versions_of(sorted@) =~= before.insert(at as int, v@));
}

/// Arranges versions from the newest to the oldest: the same versions come
/// out, each as often as it went in, and none is followed directly by one
/// that stands above it.
pub fn sort_newest_first(versions: &Vec<VersionWithV>) -> (sorted: Vec<VersionWithV>)
    ensures
        versions_of(sorted@).to_multiset() == versions_of(versions@).to_multiset(),
        newest_first(versions_of(sorted@)),
{
    let mut sorted: Vec<VersionWithV> = Vec::new();
    let mut i: usize = 0;
    assert(versions_of(sorted@) =~= versions_of(versions@).take(0));
    while i < versions.len()
        invariant
            i <= versions.len(),
            versions_of(sorted@).to_multiset() == versions_of(versions@).take(
                i as int,
            ).to_multiset(),
            newest_first(versions_of(sorted@)),
        decreases versions.len() - i,
    {
        let v = versions[i].clone();
        proof {
            let taken = versions_of(versions@).take(i as int);
            assert(versions_of(versions@).take(i + 1) =~= taken.push(v@));
            vstd::seq_lib::to_multiset_build(taken, v@);
        }
        insert_newest_first(&mut sorted, v);
        i += 1;
    }
    assert(versions_of(versions@).take(versions@.len() as int) =~= versions_of(versions@));
    sorted
}

fn mark(first: bool, version: &VersionWithV, current: &Option<VersionWithV>) -> (r: Mark)
    ensures
        r == mark_of(first, version@, tagged_view(*current)),
{
    match current {
        Some(c) => {
            let standing = version.0.compare(&c.0);
            proof {
                law_same_precedence_is_equality(version@, c@);
            }
            if first {
                match standing {
                    Precedence::Same => Mark::CurrentAndLatest,
                    _ => if version.0.is_prerelease() {
                        Mark::LatestPrerelease
                    } else {
                        Mark::Latest
                    },
                }
            } else {
                match standing {
                    Precedence::Same => Mark::Current,
                    Precedence::Lower => Mark::Outdated,
                    Precedence::Higher => if version.0.is_prerelease() {
                        Mark::Prerelease
                    } else {
                        Mark::Plain
                    },
                }
            }
        },
        None => {
            if first {
                Mark::Latest
            } else if version.0.is_prerelease() {
                Mark::Prerelease
            } else {
                Mark::Plain
            }
        },
    }
}

/// Marks the versions of a listing that is already arranged, the newest
/// first.
pub fn mark_versions(sorted: Vec<VersionWithV>, current: &Option<VersionWithV>) -> (lines: Vec<
    ListedVersion,
>)
    ensures
        lines_of(lines@) == listed(
            versions_of(sorted@),
            tagged_view(*current),
            sorted@.len(),
        ),
{
    let ghost all = versions_of(sorted@);
    let ghost cur = tagged_view(*current);
    let mut lines: Vec<ListedVersion> = Vec::new();
    let mut i: usize = 0;
    assert(lines_of(lines@) =~= listed(all, cur, 0));
    while i < sorted.len()
        invariant
            i <= sorted.len(),
            all == versions_of(sorted@),
            cur == tagged_view(*current),
            lines_of(lines@) == listed(all, cur, i as nat),
        decreases sorted.len() - i,
    {
        let m = mark(i == 0, &sorted[i], current);
        let ghost before = lines_of(lines@);
        let version = sorted[i].clone();
        lines.push(ListedVersion { version, mark: m });
        assert(lines_of(lines@) =~= before.push((all[i as int], m)));
        i += 1;
    }
    lines
}

/// The listing for the tags of the published releases and the installed
/// version: the tags that are versions, arranged from the newest to the
/// oldest and marked.
pub fn list_versions(tags: &Vec<String>, current: &Option<VersionWithV>) -> (lines: Vec<
    ListedVersion,
>)
    ensures
        exists|arranged: Seq<VersionView>|
            {
                &&& arranged.to_multiset() == parsed_tags(tags@, tags@.len()).to_multiset()
                &&& newest_first(arranged)
                &&& #[trigger] listed(
                    arranged,
                    tagged_view(*current),
                    arranged.len(),
                ) == lines_of(lines@)
            },
{
    let versions = parse_tags(tags);
    let sorted = sort_newest_first(&versions);
    let ghost arranged = versions_of(sorted@);
    let lines = mark_versions(sorted, current);
    assert(listed(
        arranged,
        tagged_view(*current),
        arranged.len(),
    ) == lines_of(lines@));
    lines
}

} // verus!
