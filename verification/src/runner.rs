//! The runner: the milestones of an upgrade, the lowest version it starts from, and the choice of the
//! milestone for the version upgraded to.

use crate::semantic::{precedes, semver_parse, written, SemverVersion, SemverView};
use crate::utils::{find_name, first_named, names_of, none_named, same_text, RunError};
use crate::version::{texts_of, Version};
use vstd::prelude::*;

verus! {

/// The milestones of a package's upgrades, with the lowest version that can be upgraded from.
#[derive(Debug)]
pub struct Runner {
    minimum: Option<SemverVersion>,
    versions: Vec<Version>,
    version: SemverVersion,
}

/// The version without tags whose numbers are all zero.
pub open spec fn zero_version() -> SemverView {
    SemverView { major: 0, minor: 0, patch: 0, pre: Seq::empty(), build: Seq::empty() }
}

/// The lowest version as it is written, where there is one.
pub open spec fn written_lowest(lowest: Option<SemverView>) -> Option<Seq<char>> {
    match lowest {
        Some(v) => Some(written(v)),
        None => None,
    }
}

/// `i` is the place of the first milestone for `target`.
pub open spec fn selects(versions: Seq<Version>, target: SemverView, i: int) -> bool {
    &&& 0 <= i < versions.len()
    &&& versions[i].target() == target
    &&& forall|j: int| 0 <= j < i ==> (#[trigger] versions[j]).target() != target
}

/// No milestone is for `target`.
pub open spec fn selects_none(versions: Seq<Version>, target: SemverView) -> bool {
    forall|j: int| 0 <= j < versions.len() ==> (#[trigger] versions[j]).target() != target
}

/// The packages to preload: the dependency itself, then the peers of the milestone.
pub open spec fn peer_set(dep: Seq<char>, version: Version) -> Seq<Seq<char>> {
    seq![dep] + version.peer_names()
}

/// What a run is to do once the version upgraded from is accepted.
#[derive(Debug)]
pub enum Plan {
    /// No milestone is registered for the version upgraded to: nothing changes.
    NoChanges,
    /// Upgrade by the milestone at `version`: preload `peers`, then run the hook `init`
    /// where there is one, then walk the files.
    Upgrade { version: usize, peers: Vec<String>, init: Option<usize> },
}

impl Runner {
    /// The lowest version that can be upgraded from, where one is set.
    pub closed spec fn lowest(self) -> Option<SemverView> {
        match self.minimum {
            Some(v) => Some(v@),
            None => None,
        }
    }

    /// The milestones, in the order of registration.
    pub closed spec fn milestones(self) -> Seq<Version> {
        self.versions@
    }

    /// The version upgraded to.
    pub closed spec fn target(self) -> SemverView {
        self.version@
    }

    /// A runner with no milestone and no lowest version, aimed at version 0.0.0.
    pub fn new() -> (r: Runner)
        ensures
            r.lowest() is None,
            r.milestones().len() == 0,
            r.target() == zero_version(),
    {
        Runner { minimum: None, versions: Vec::new(), version: SemverVersion::new(0, 0, 0) }
    }

    /// Sets the lowest version that can be upgraded from; fails where `version` spells none.
    pub fn minimum(self, version: &str) -> (r: Result<Runner, semver::Error>)
        ensures
            match r {
                Ok(runner) => {
                    &&& semver_parse(version@) is Some
                    &&& runner.lowest() == semver_parse(version@)
                    &&& runner.milestones() == self.milestones()
                    &&& runner.target() == self.target()
                },
                Err(_) => semver_parse(version@) is None,
            },
    {
        match SemverVersion::parse(version) {
            Ok(v) => {
                let mut runner = self;
                runner.minimum = Some(v);
                Ok(runner)
            },
            Err(e) => Err(e),
        }
    }

    /// Registers a milestone behind those already there.
    pub fn version(self, version: Version) -> (r: Runner)
        ensures
            r.milestones() == self.milestones().push(version),
            r.lowest() == self.lowest(),
            r.target() == self.target(),
    {
        let mut runner = self;
        runner.versions.push(version);
        runner
    }

    /// Aims the runner at the version upgraded to.
    pub fn select(&mut self, to: SemverVersion)
        ensures
            final(self).target() == to@,
            final(self).milestones() == old(self).milestones(),
            final(self).lowest() == old(self).lowest(),
    {
        self.version = to;
    }

    /// The place of the first milestone for the version upgraded to.
    pub fn position(&self) -> (r: Option<usize>)
        ensures
            match r {
                Some(i) => selects(self.milestones(), self.target(), i as int),
                None => selects_none(self.milestones(), self.target()),
            },
    {
        let mut i: usize = 0;
        while i < self.versions.len()
            invariant
                i <= self.versions.len(),
                forall|j: int| 0 <= j < i ==> (#[trigger] self.versions@[j]).target() != self.target(),
            decreases self.versions.len() - i,
        {
            if self.versions[i].version().same(&self.version) {
                return Some(i);
            }
            i += 1;
        }
        None
    }

    /// The first milestone for the version upgraded to.
    pub fn get_version(&self) -> (r: Option<&Version>)
        ensures
            match r {
                Some(v) => exists|i: int|
                    selects(self.milestones(), self.target(), i) && *v == self.milestones()[i],
                None => selects_none(self.milestones(), self.target()),
            },
    {
        match self.position() {
            Some(i) => Some(&self.versions[i]),
            None => None,
        }
    }

    /// The number of milestones.
    pub fn milestone_count(&self) -> (n: usize)
        ensures
            n == self.milestones().len(),
    {
        self.versions.len()
    }

    /// The milestone at a place.
    pub fn milestone(&self, i: usize) -> (v: &Version)
        requires
            i < self.milestones().len(),
        ensures
            *v == self.milestones()[i as int],
    {
        &self.versions[i]
    }

    /// An upgrade from a version below the lowest one is refused, with the
    /// dependency's name and the lowest version; any other is let through.
    pub fn check_minimum(&self, dep: &str, from: &SemverVersion) -> (r: Result<(), RunError>)
        ensures
            r is Err <==> (self.lowest() matches Some(min) && precedes(from@, min)),
            r matches Err(e) ==> e matches RunError::NotMinimum(name, min) && name@ == dep@ && Some(
                min@,
            ) == written_lowest(self.lowest()),
            self.lowest() == Some(from@) ==> r is Ok,
    {
        match &self.minimum {
            Some(min) => {
                if from.less_than(min) {
                    Err(RunError::NotMinimum(String::from_str(dep), min.to_text()))
                } else {
                    Ok(())
                }
            },
            None => Ok(()),
        }
    }

    /// The start of a run: checks the version upgraded from, aims the runner at `to` and chooses the
    /// milestone. Below the lowest version nothing is chosen and the runner stays as it was.
    pub fn start(&mut self, dep: &str, from: &SemverVersion, to: SemverVersion) -> (r: Result<
        Plan,
        RunError,
    >)
        ensures
            final(self).milestones() == old(self).milestones(),
            final(self).lowest() == old(self).lowest(),
            r is Err <==> (old(self).lowest() matches Some(min) && precedes(from@, min)),
            r matches Err(e) ==> {
                &&& e matches RunError::NotMinimum(name, min) && name@ == dep@ && Some(min@)
                    == written_lowest(old(self).lowest())
                &&& final(self).target() == old(self).target()
            },
            old(self).lowest() == Some(from@) ==> r is Ok,
            r is Ok ==> final(self).target() == to@,
            r matches Ok(Plan::NoChanges) ==> selects_none(old(self).milestones(), to@),
            r matches Ok(Plan::Upgrade { version, peers, init }) ==> {
                &&& selects(old(self).milestones(), to@, version as int)
                &&& texts_of(peers@) == peer_set(dep@, old(self).milestones()[version as int])
                &&& init == old(self).milestones()[version as int].init_hook()
            },
    {
        match self.check_minimum(dep, from) {
            Err(e) => {
                return Err(e);
            },
            Ok(()) => {},
        }
        self.select(to);
        match self.position() {
            None => Ok(Plan::NoChanges),
            Some(i) => {
                let version = &self.versions[i];
                let listed = version.peer_list();
                let mut peers: Vec<String> = Vec::new();
                peers.push(String::from_str(dep));
                let mut k: usize = 0;
                assert(texts_of(peers@) =~= seq![dep@] + texts_of(listed@).take(0));
                while k < listed.len()
                    invariant
                        k <= listed.len(),
                        peers@.len() == k + 1,
                        texts_of(peers@) == seq![dep@] + texts_of(listed@).take(k as int),
                    decreases listed.len() - k,
                {
                    let ghost before = peers@;
                    peers.push(listed[k].clone());
                    proof {
                        let want = seq![dep@] + texts_of(listed@).take(k + 1);
                        assert forall|j: int| 0 <= j < want.len() implies texts_of(peers@)[j]
                            == want[j] by {
                            if j <= k {
                                assert(texts_of(before)[j] == before[j]@);
                                assert(texts_of(before)[j] == (seq![dep@] + texts_of(listed@).take(
                                    k as int,
                                ))[j]);
                            }
                        }
                        assert(texts_of(peers@) =~= want);
                    }
                    k += 1;
                }
                assert(texts_of(listed@).take(k as int) == texts_of(listed@));
                Ok(Plan::Upgrade { version: i, peers, init: version.init_id() })
            },
        }
    }
}

/// Finds among the packages to preload the one with this display name: its place,
/// where it is one of them. Names are compared as normalized.
pub fn find_peer(peers: &Vec<String>, display_name: &str) -> (r: Option<usize>)
    ensures
        match r {
            Some(i) => first_named(names_of(peers@), display_name@, i as int),
            None => none_named(names_of(peers@), display_name@),
        },
{
    find_name(peers, display_name)
}

/// The dependency that is upgraded is itself the first of the packages to preload.
pub proof fn dependency_is_preloaded(dep: Seq<char>, version: Version)
    ensures
        first_named(peer_set(dep, version), dep, 0),
{
}

/// The path lies at or below `root`: its components begin with those of `root`.
pub open spec fn lies_below(path: Seq<Seq<char>>, root: Seq<Seq<char>>) -> bool {
    root.len() <= path.len() && path.take(root.len() as int) == root
}

/// One of the paths lies at or below `root`.
pub open spec fn some_below(paths: Seq<Vec<String>>, root: Seq<Seq<char>>) -> bool {
    exists|i: int| 0 <= i < paths.len() && lies_below(names_of((#[trigger] paths[i])@), root)
}

/// Whether a path, given by its components, lies at or below `root`.
pub fn starts_with(path: &Vec<String>, root: &Vec<String>) -> (r: bool)
    ensures
        r == lies_below(names_of(path@), names_of(root@)),
{
    if root.len() > path.len() {
        return false;
    }
    let mut i: usize = 0;
    while i < root.len()
        invariant
            i <= root.len() <= path.len(),
            forall|k: int| 0 <= k < i ==> #[trigger] names_of(path@)[k] == names_of(root@)[k],
        decreases root.len() - i,
    {
        if !same_text(path[i].as_str(), root[i].as_str()) {
            assert(names_of(path@).take(root.len() as int)[i as int] != names_of(root@)[i as int]);
            return false;
        }
        i += 1;
    }
    assert(names_of(path@).take(root.len() as int) =~= names_of(root@));
    true
}

/// Whether the files of a source root are walked: they are where the root file of one of
/// its packages lies at or below the root of the workspace that is upgraded.
pub fn in_workspace(root_files: &Vec<Vec<String>>, root: &Vec<String>) -> (r: bool)
    ensures
        r == some_below(root_files@, names_of(root@)),
{
    let mut i: usize = 0;
    while i < root_files.len()
        invariant
            i <= root_files.len(),
            forall|k: int|
                0 <= k < i ==> !lies_below(names_of((#[trigger] root_files@[k])@), names_of(root@)),
        decreases root_files.len() - i,
    {
        if starts_with(&root_files[i], root) {
            return true;
        }
        i += 1;
    }
    false
}

} // verus!
