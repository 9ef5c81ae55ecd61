//! A release source: a catalogue of releases, each with its downloads by
//! platform.

use crate::artifact::ReleaseTarget;
use crate::artifact::TargetView;
use crate::text::same_text;
use crate::version::law_same_precedence_is_equality;
use crate::version::precedence;
use crate::version::Precedence;
use crate::version::VersionView;
use crate::version::VersionWithV;
use vstd::prelude::*;
use vstd::string::StringExecFns;

verus! {

/// One published release.
#[derive(Debug)]
pub struct Release {
    pub version: VersionWithV,
    pub name: String,
    pub body: String,
    /// The download address for each platform key; a key is the
    /// architecture, `_`, and the operating system.
    pub urls: Vec<(String, String)>,
}

/// The key under which a release lists the download for a platform.
pub open spec fn arch_os_key(target: TargetView) -> Seq<char> {
    target.arch + seq!['_'] + target.os
}

/// The position of the first of the first `count` addresses listed under
/// `key`.
pub open spec fn url_position(urls: Seq<(String, String)>, key: Seq<char>, count: nat) -> Option<
    int,
>
    decreases count,
{
    if count == 0 || count > urls.len() {
        None
    } else {
        match url_position(urls, key, (count - 1) as nat) {
            Some(i) => Some(i),
            None => if urls[count - 1].0@ == key {
                Some(count - 1)
            } else {
                None
            },
        }
    }
}

proof fn lemma_url_position_stays(urls: Seq<(String, String)>, key: Seq<char>, found: nat, count: nat)
    requires
        found <= count <= urls.len(),
        url_position(urls, key, found) is Some,
    ensures
        url_position(urls, key, count) == url_position(urls, key, found),
    decreases count,
{
    if count > found {
        lemma_url_position_stays(urls, key, found, (count - 1) as nat);
    }
}

impl Release {
    /// The download address of this release for `target`, if it lists
    /// one.
    pub fn get_current_arch_os_url(&self, target: &ReleaseTarget) -> (r: Option<&String>)
        ensures
            match url_position(self.urls@, arch_os_key(target@), self.urls@.len()) {
                Some(i) => r == Some(&self.urls@[i].1),
                None => r is None,
            },
    {
        proof {
            reveal_strlit("_");
        }
        let mut key = target.arch.clone();
        key.append("_");
        key.append(target.os.as_str());
        assert(key@ =~= arch_os_key(target@));
        let mut i: usize = 0;
        while i < self.urls.len()
            invariant
                i <= self.urls.len(),
                key@ == arch_os_key(target@),
                url_position(self.urls@, key@, i as nat) is None,
            decreases self.urls.len() - i,
        {
            if same_text(self.urls[i].0.as_str(), key.as_str()) {
                assert(url_position(self.urls@, key@, (i + 1) as nat) == Some(i as int));
                proof {
                    lemma_url_position_stays(self.urls@, key@, (i + 1) as nat, self.urls@.len());
                }
                return Some(&self.urls[i].1);
            }
            i += 1;
        }
        None
    }
}

/// A catalogue of releases. It holds no two releases of the same version.
#[derive(Debug)]
pub struct Source {
    name: String,
    description: String,
    releases: Vec<Release>,
}

/// The versions of a vector of releases.
pub open spec fn release_versions(releases: Seq<Release>) -> Seq<VersionView> {
    Seq::new(releases.len(), |i: int| releases[i].version@)
}

/// No version occurs twice.
pub open spec fn distinct(versions: Seq<VersionView>) -> bool {
    forall|i: int, j: int|
        0 <= i < j < versions.len() ==> #[trigger] versions[i] != #[trigger] versions[j]
}

/// The version at `at` is the newest: none of the versions stands above
/// it.
pub open spec fn is_newest(versions: Seq<VersionView>, at: int) -> bool {
    0 <= at < versions.len() && forall|i: int|
        0 <= i < versions.len() ==> precedence(#[trigger] versions[i], versions[at])
            != Precedence::Higher
}

/// Among the first `count` versions, the position of `version`.
pub open spec fn version_position(versions: Seq<VersionView>, version: VersionView, count: nat) -> Option<
    int,
>
    decreases count,
{
    if count == 0 || count > versions.len() {
        None
    } else {
        match version_position(versions, version, (count - 1) as nat) {
            Some(i) => Some(i),
            None => if versions[count - 1] == version {
                Some(count - 1)
            } else {
                None
            },
        }
    }
}

proof fn lemma_version_position_stays(
    versions: Seq<VersionView>,
    version: VersionView,
    found: nat,
    count: nat,
)
    requires
        found <= count <= versions.len(),
        version_position(versions, version, found) is Some,
    ensures
        version_position(versions, version, count) == version_position(versions, version, found),
    decreases count,
{
    if count > found {
        lemma_version_position_stays(versions, version, found, (count - 1) as nat);
    }
}

proof fn lemma_version_position_none(versions: Seq<VersionView>, version: VersionView, count: nat)
    requires
        count <= versions.len(),
        version_position(versions, version, count) is None,
    ensures
        forall|i: int| 0 <= i < count ==> versions[i] != version,
    decreases count,
{
    if count > 0 {
        lemma_version_position_none(versions, version, (count - 1) as nat);
    }
}

impl Source {
    /// What holds of every catalogue: it has one release for each version.
    #[verifier::type_invariant]
    pub open spec fn inv(self) -> bool {
        distinct(self.versions())
    }

    /// The releases of the catalogue.
    pub closed spec fn releases(self) -> Seq<Release> {
        self.releases@
    }

    /// The name of the catalogue.
    pub closed spec fn name_text(self) -> Seq<char> {
        self.name@
    }

    /// The description of the catalogue.
    pub closed spec fn description_text(self) -> Seq<char> {
        self.description@
    }

    /// The versions of the catalogue's releases, in the order in which
    /// they are held.
    pub open spec fn versions(self) -> Seq<VersionView> {
        release_versions(self.releases())
    }

    /// A catalogue without releases.
    pub fn new(name: String, description: String) -> (source: Source)
        ensures
            source.releases().len() == 0,
            source.name_text() == name@,
            source.description_text() == description@,
            distinct(source.versions()),
    {
        let releases: Vec<Release> = Vec::new();
        Source { name, description, releases }
    }

    /// The name of the catalogue.
    pub fn name(&self) -> (r: &str)
        ensures
            r@ == self.name_text(),
    {
        self.name.as_str()
    }

    /// The description of the catalogue.
    pub fn description(&self) -> (r: &str)
        ensures
            r@ == self.description_text(),
    {
        self.description.as_str()
    }

    /// How many releases the catalogue holds.
    pub fn len(&self) -> (n: usize)
        ensures
            n == self.releases().len(),
    {
        self.releases.len()
    }

    fn position(&self, version: &VersionWithV) -> (r: Option<usize>)
        ensures
            match r {
                Some(i) => i < self.releases().len() && version_position(
                    self.versions(),
                    version@,
                    self.versions().len(),
                ) == Some(i as int) && self.versions()[i as int] == version@,
                None => version_position(self.versions(), version@, self.versions().len())
                    is None,
            },
    {
        let mut i: usize = 0;
        while i < self.releases.len()
            invariant
                i <= self.releases.len(),
                version_position(self.versions(), version@, i as nat) is None,
            decreases self.releases.len() - i,
        {
            let standing = self.releases[i].version.0.compare(&version.0);
            proof {
                law_same_precedence_is_equality(self.releases@[i as int].version@, version@);
            }
            if matches!(standing, Precedence::Same) {
                assert(version_position(self.versions(), version@, (i + 1) as nat) == Some(
                    i as int,
                ));
                proof {
                    lemma_version_position_stays(
                        self.versions(),
                        version@,
                        (i + 1) as nat,
                        self.versions().len(),
                    );
                }
                return Some(i);
            }
            i += 1;
        }
        None
    }

    /// The catalogue with a release put into it. A release of the same
    /// version that the catalogue held is replaced and handed back.
    pub fn insert(self, release: Release) -> (r: (Source, Option<Release>))
        ensures
            match version_position(self.versions(), release.version@, self.versions().len()) {
                Some(i) => r.1 == Some(self.releases()[i]) && r.0.releases()
                    == self.releases().update(i, release),
                None => r.1 is None && r.0.releases() == self.releases().push(release),
            },
            distinct(r.0.versions()),
            r.0.name_text() == self.name_text(),
            r.0.description_text() == self.description_text(),
    {
        proof {
            use_type_invariant(&self);
        }
        let found = self.position(&release.version);
        let ghost before = self.releases@;
        let Source { name, description, releases } = self;
        let mut releases = releases;
        match found {
            Some(i) => {
                let mut held = release;
                let ghost incoming = held;
                std::mem::swap(&mut releases[i], &mut held);
                proof {
                    assert(releases@ =~= before.update(i as int, incoming));
                    assert(release_versions(releases@) =~= release_versions(before));
                }
                (Source { name, description, releases }, Some(held))
            },
            None => {
                proof {
                    lemma_version_position_none(
                        release_versions(before),
                        release.version@,
                        before.len(),
                    );
                }
                releases.push(release);
                assert(release_versions(releases@) =~= release_versions(before).push(
                    release.version@,
                ));
                (Source { name, description, releases }, None)
            },
        }
    }

    /// The release of `version`, if the catalogue holds one.
    pub fn get_release(&self, version: &VersionWithV) -> (r: Option<&Release>)
        ensures
            match version_position(self.versions(), version@, self.versions().len()) {
                Some(i) => r == Some(&self.releases()[i]),
                None => r is None,
            },
    {
        match self.position(version) {
            Some(i) => Some(&self.releases[i]),
            None => None,
        }
    }

    fn stands_highest(&self, at: usize) -> (r: bool)
        requires
            at < self.releases().len(),
        ensures
            r == is_newest(self.versions(), at as int),
    {
        let mut i: usize = 0;
        while i < self.releases.len()
            invariant
                i <= self.releases.len(),
                at < self.releases.len(),
                forall|k: int|
                    0 <= k < i ==> precedence(
                        #[trigger] self.versions()[k],
                        self.versions()[at as int],
                    ) != Precedence::Higher,
            decreases self.releases.len() - i,
        {
            let standing = self.releases[i].version.0.compare(&self.releases[at].version.0);
            if matches!(standing, Precedence::Higher) {
                assert(self.versions()[i as int] == self.releases@[i as int].version@);
                return false;
            }
            i += 1;
        }
        true
    }

    /// The newest release: the first one that none of the catalogue's
    /// releases stands above. An empty catalogue has none.
    pub fn get_latest_release(&self) -> (r: Option<&Release>)
        ensures
            match r {
                Some(release) => exists|at: int|
                    #![trigger self.releases()[at]]
                    is_newest(self.versions(), at) && release == &self.releases()[at] && forall|
                        k: int,
                    |
                        0 <= k < at ==> !is_newest(self.versions(), k),
                None => forall|k: int| !is_newest(self.versions(), k),
            },
    {
        let mut at: usize = 0;
        while at < self.releases.len()
            invariant
                at <= self.releases.len(),
                forall|k: int| 0 <= k < at ==> !is_newest(self.versions(), k),
            decreases self.releases.len() - at,
        {
            if self.stands_highest(at) {
                return Some(&self.releases[at]);
            }
            at += 1;
        }
        None
    }
}

} // verus!
