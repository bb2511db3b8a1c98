//! What a package registry tells of a package, and the versions of it worth upgrading to.

use crate::semantic::{precedes, semver_parse, SemverVersion, SemverView};
use crate::utils::{find_name, first_named, names_of, none_named, normalize, normalized};
use vstd::prelude::*;

verus! {

/// A package as the registry describes it.
#[derive(Debug, Clone)]
pub struct Krate {
    pub name: String,
    pub max_version: String,
}

/// One published version of a package.
#[derive(Debug, Clone)]
pub struct Vers {
    pub num: String,
    pub yanked: bool,
}

/// The published versions of a package, the newest first.
#[derive(Debug, Clone)]
pub struct Versions {
    pub versions: Vec<Vers>,
}

/// The registry named a version that is not read as one.
#[derive(Debug, Clone, Copy, PartialEq, Eq, Structural)]
pub struct BadRegistry {}

/// Every number of the list is read as a version.
pub open spec fn all_read(list: Seq<Vers>) -> bool {
    forall|i: int| 0 <= i < list.len() ==> semver_parse((#[trigger] list[i]).num@) is Some
}

/// The versions of the list that come after `current`, the last of the list first.
pub open spec fn newer(list: Seq<Vers>, current: SemverView) -> Seq<SemverView>
    decreases list.len(),
{
    if list.len() == 0 {
        Seq::empty()
    } else {
        let rest = newer(list.drop_last(), current);
        match semver_parse(list.last().num@) {
            Some(v) => if precedes(current, v) {
                seq![v] + rest
            } else {
                rest
            },
            None => rest,
        }
    }
}

/// The views of a vector of versions.
pub open spec fn versions_of(list: Seq<SemverVersion>) -> Seq<SemverView> {
    list.map_values(|v: SemverVersion| v@)
}

/// The versions to upgrade to, one after the other: those that the registry lists and
/// that come after `current`, the oldest first. It fails where the registry lists a
/// number that is not read as a version.
pub fn newer_versions(listed: &Versions, current: &SemverVersion) -> (r: Result<
    Vec<SemverVersion>,
    BadRegistry,
>)
    ensures
        r is Ok <==> all_read(listed.versions@),
        r matches Ok(found) ==> versions_of(found@) == newer(listed.versions@, current@),
{
    let list = &listed.versions;
    let mut found: Vec<SemverVersion> = Vec::new();
    let mut i: usize = list.len();
    assert(list@.subrange(i as int, list@.len() as int).len() == 0);
    assert(versions_of(found@) + newer(list@.take(i as int), current@) =~= newer(list@, current@)) by {
        assert(list@.take(i as int) == list@);
    }
    while i > 0
        invariant
            i <= list.len(),
            list@ == listed.versions@,
            forall|k: int| i <= k < list.len() ==> semver_parse((#[trigger] list@[k]).num@) is Some,
            versions_of(found@) + newer(list@.take(i as int), current@) == newer(list@, current@),
        decreases i,
    {
        let ghost before = versions_of(found@);
        proof {
            assert(list@.take(i as int).drop_last() == list@.take(i - 1));
            assert(list@.take(i as int).last() == list@[i - 1]);
        }
        i -= 1;
        match SemverVersion::parse(list[i].num.as_str()) {
            Ok(v) => {
                if current.less_than(&v) {
                    found.push(v);
                    assert(versions_of(found@) =~= before + seq![v@]);
                    assert(versions_of(found@) + newer(list@.take(i as int), current@) =~= before + (
                    seq![v@] + newer(list@.take(i as int), current@)));
                }
            },
            Err(_) => {
                assert(semver_parse(listed.versions@[i as int].num@) is None);
                return Err(BadRegistry {  });
            },
        }
    }
    assert(newer(list@.take(0), current@) =~= Seq::<SemverView>::empty());
    assert(versions_of(found@) + Seq::<SemverView>::empty() =~= versions_of(found@));
    Ok(found)
}

/// Finds the dependency among the packages of a workspace: the place of the first
/// package of that name, hyphens and underscores taken as one; none where it is no
/// dependency.
pub fn find_package(names: &Vec<String>, dep: &str) -> (r: Option<usize>)
    ensures
        match r {
            Some(i) => first_named(names_of(names@), dep@, i as int),
            None => none_named(names_of(names@), dep@),
        },
{
    find_name(names, dep)
}

/// `part` stands somewhere in `text`.
pub open spec fn occurs_in(part: Seq<char>, text: Seq<char>) -> bool {
    exists|i: int| 0 <= i <= text.len() - part.len() && #[trigger] text.subrange(i, i + part.len()) == part
}

/// `str::contains` with a text as the pattern: whether the pattern stands somewhere in
/// the text.
#[verifier::external_body]
fn contains_text(text: &str, part: &str) -> (r: bool)
    ensures
        r == occurs_in(part@, text@),
{
    text.contains(part)
}

/// Whether cargo reported that it finished the build: its output holds the word.
pub fn build_finished(output: &str) -> (r: bool)
    ensures
        r == occurs_in("Finished"@, output@),
{
    contains_text(output, "Finished")
}

/// The name of the package that holds the rules for a dependency.
pub open spec fn upgrader_of(dep: Seq<char>) -> Seq<char> {
    normalized(dep) + seq!['_', 'u', 'p']
}

/// The name of the package that holds the rules for a dependency: the dependency's
/// normalized name and `_up`.
pub fn upgrader_name(dep: &str) -> (r: String)
    ensures
        r@ == upgrader_of(dep@),
{
    proof {
        reveal_strlit("_up");
    }
    let r = normalize(dep).concat("_up");
    assert("_up"@ =~= seq!['_', 'u', 'p']);
    r
}

/// A requirement of exactly one version, as a manifest spells it.
pub open spec fn exactly(version: Seq<char>) -> Seq<char> {
    seq!['"', '='] + version + seq!['"']
}

/// The requirement of exactly this version, in quotes, for a manifest.
pub fn exact_requirement(version: &str) -> (r: String)
    ensures
        r@ == exactly(version@),
{
    proof {
        reveal_strlit("\"=");
        reveal_strlit("\"");
    }
    let r = String::from_str("\"=").concat(version).concat("\"");
    assert("\"="@ =~= seq!['"', '=']);
    assert("\""@ =~= seq!['"']);
    r
}

} // verus!
