//! Semantic versions: read by the `semver` crate, held here as plain values.

use crate::utils::push_char;
use vstd::prelude::*;

verus! {

/// A semantic version: three numbers, a pre-release tag and a build tag (each may be empty).
#[derive(Debug, Clone)]
pub struct SemverVersion {
    major: u64,
    minor: u64,
    patch: u64,
    pre: String,
    build: String,
}

/// What a semantic version is in contracts.
pub struct SemverView {
    pub major: nat,
    pub minor: nat,
    pub patch: nat,
    pub pre: Seq<char>,
    pub build: Seq<char>,
}

impl View for SemverVersion {
    type V = SemverView;

    closed spec fn view(&self) -> SemverView {
        SemverView {
            major: self.major as nat,
            minor: self.minor as nat,
            patch: self.patch as nat,
            pre: self.pre@,
            build: self.build@,
        }
    }
}

#[verifier::external_type_specification]
#[verifier::external_body]
pub struct ExSemverError(semver::Error);

/// The version that the `semver` crate reads from a text, `None` where it reads none.
pub uninterp spec fn semver_parse(text: Seq<char>) -> Option<SemverView>;

/// Whether `semver::Version` orders a version with the first pair of tags (pre-release,
/// build) before a version of the same numbers with the second pair; `false` where one
/// of the four is no tag.
pub uninterp spec fn tags_precede(
    a_pre: Seq<char>,
    a_build: Seq<char>,
    b_pre: Seq<char>,
    b_build: Seq<char>,
) -> bool;

/// `semver::Version::parse`: the version that the text spells, or the crate's error.
#[verifier::external_body]
fn parse_version(text: &str) -> (r: Result<SemverVersion, semver::Error>)
    ensures
        match r {
            Ok(v) => semver_parse(text@) == Some(v@),
            Err(_) => semver_parse(text@) is None,
        },
{
    match semver::Version::parse(text) {
        Ok(v) => Ok(
            SemverVersion {
                major: v.major,
                minor: v.minor,
                patch: v.patch,
                pre: v.pre.as_str().to_string(),
                build: v.build.as_str().to_string(),
            },
        ),
        Err(e) => Err(e),
    }
}

/// The order of `semver::Version`, on two versions of the same numbers: both are built
/// again from their numbers and tags (`semver::Prerelease::new`,
/// `semver::BuildMetadata::new`) and compared once. Where a tag is not read the answer is
/// `false`. A version never comes before itself.
#[verifier::external_body]
fn tags_less(a: &SemverVersion, b: &SemverVersion) -> (r: bool)
    requires
        a.major == b.major,
        a.minor == b.minor,
        a.patch == b.patch,
    ensures
        r == tags_precede(a.pre@, a.build@, b.pre@, b.build@),
        a.pre@ == b.pre@ && a.build@ == b.build@ ==> !r,
{
    let tags = (
        semver::Prerelease::new(&a.pre),
        semver::BuildMetadata::new(&a.build),
        semver::Prerelease::new(&b.pre),
        semver::BuildMetadata::new(&b.build),
    );
    match tags {
        (Ok(a_pre), Ok(a_build), Ok(b_pre), Ok(b_build)) => {
            let x = semver::Version { major: a.major, minor: a.minor, patch: a.patch, pre: a_pre, build: a_build };
            let y = semver::Version { major: b.major, minor: b.minor, patch: b.patch, pre: b_pre, build: b_build };
            x < y
        },
        _ => false,
    }
}

/// The character of a digit.
pub open spec fn digit(d: nat) -> char {
    if d == 0 {
        '0'
    } else if d == 1 {
        '1'
    } else if d == 2 {
        '2'
    } else if d == 3 {
        '3'
    } else if d == 4 {
        '4'
    } else if d == 5 {
        '5'
    } else if d == 6 {
        '6'
    } else if d == 7 {
        '7'
    } else if d == 8 {
        '8'
    } else {
        '9'
    }
}

/// A number in decimal digits, without leading zeros.
pub open spec fn decimal(n: nat) -> Seq<char>
    decreases n,
{
    if n < 10 {
        seq![digit(n)]
    } else {
        decimal(n / 10).push(digit(n % 10))
    }
}

/// A version as it is written: the three numbers with dots between them, then the
/// pre-release tag behind a hyphen and the build tag behind a plus, where there are any.
pub open spec fn written(v: SemverView) -> Seq<char> {
    decimal(v.major) + seq!['.'] + decimal(v.minor) + seq!['.'] + decimal(v.patch) + (if v.pre.len()
        > 0 {
        seq!['-'] + v.pre
    } else {
        Seq::empty()
    }) + (if v.build.len() > 0 {
        seq!['+'] + v.build
    } else {
        Seq::empty()
    })
}

/// The digits read from the last to the first.
pub open spec fn backwards(s: Seq<char>) -> Seq<char>
    decreases s.len(),
{
    if s.len() == 0 {
        s
    } else {
        seq![s.last()] + backwards(s.drop_last())
    }
}

/// The character of a digit.
fn digit_of(d: u64) -> (c: char)
    requires
        d < 10,
    ensures
        c == digit(d as nat),
{
    if d == 0 {
        '0'
    } else if d == 1 {
        '1'
    } else if d == 2 {
        '2'
    } else if d == 3 {
        '3'
    } else if d == 4 {
        '4'
    } else if d == 5 {
        '5'
    } else if d == 6 {
        '6'
    } else if d == 7 {
        '7'
    } else if d == 8 {
        '8'
    } else {
        '9'
    }
}

/// Adds the decimal digits of a number to a text.
fn write_decimal(text: &mut String, n: u64)
    ensures
        final(text)@ == old(text)@ + decimal(n as nat),
{
    let mut low: Vec<char> = Vec::new();
    let mut m: u64 = n;
    assert(backwards(low@) =~= Seq::<char>::empty());
    assert(decimal(m as nat) + Seq::<char>::empty() =~= decimal(m as nat));
    while m >= 10
        invariant
            decimal(n as nat) == decimal(m as nat) + backwards(low@),
        decreases m,
    {
        let ghost before = low@;
        let d: char = digit_of(m % 10);
        low.push(d);
        proof {
            assert(low@.drop_last() =~= before);
            assert(backwards(low@) =~= seq![d] + backwards(before));
            assert(decimal(m as nat) == decimal((m / 10) as nat).push(d));
            assert(decimal((m / 10) as nat).push(d) + backwards(before) =~= decimal((m / 10) as nat)
                + backwards(low@));
        }
        m = m / 10;
    }
    push_char(text, digit_of(m));
    let mut i: usize = low.len();
    assert(low@.take(i as int) =~= low@);
    while i > 0
        invariant
            i <= low.len(),
            text@ + backwards(low@.take(i as int)) == old(text)@ + decimal(n as nat),
        decreases i,
    {
        proof {
            let s = low@.take(i as int);
            assert(s.last() == low@[i - 1]);
            assert(s.drop_last() =~= low@.take(i - 1));
            assert(text@ + backwards(s) =~= text@.push(low@[i - 1]) + backwards(low@.take(i - 1)));
        }
        i -= 1;
        push_char(text, low[i]);
    }
    assert(backwards(low@.take(0)) =~= Seq::<char>::empty());
    assert(text@ + Seq::<char>::empty() =~= text@);
}

/// The order of versions: by the numbers, and between equal numbers by the tags.
pub open spec fn precedes(a: SemverView, b: SemverView) -> bool {
    if a.major != b.major {
        a.major < b.major
    } else if a.minor != b.minor {
        a.minor < b.minor
    } else if a.patch != b.patch {
        a.patch < b.patch
    } else {
        tags_precede(a.pre, a.build, b.pre, b.build)
    }
}

impl SemverVersion {
    /// The version of three numbers, with no tags.
    pub fn new(major: u64, minor: u64, patch: u64) -> (v: SemverVersion)
        ensures
            v@ == (SemverView {
                major: major as nat,
                minor: minor as nat,
                patch: patch as nat,
                pre: Seq::<char>::empty(),
                build: Seq::<char>::empty(),
            }),
    {
        SemverVersion { major, minor, patch, pre: String::new(), build: String::new() }
    }

    /// Reads a version from its text.
    pub fn parse(text: &str) -> (r: Result<SemverVersion, semver::Error>)
        ensures
            match r {
                Ok(v) => semver_parse(text@) == Some(v@),
                Err(_) => semver_parse(text@) is None,
            },
    {
        parse_version(text)
    }

    /// A second value of the same version.
    pub fn duplicate(&self) -> (v: SemverVersion)
        ensures
            v@ == self@,
    {
        SemverVersion {
            major: self.major,
            minor: self.minor,
            patch: self.patch,
            pre: self.pre.clone(),
            build: self.build.clone(),
        }
    }

    /// The first number.
    pub fn major(&self) -> (n: u64)
        ensures
            n == self@.major,
    {
        self.major
    }

    /// The second number.
    pub fn minor(&self) -> (n: u64)
        ensures
            n == self@.minor,
    {
        self.minor
    }

    /// The third number.
    pub fn patch(&self) -> (n: u64)
        ensures
            n == self@.patch,
    {
        self.patch
    }

    /// The pre-release tag, empty where the version has none.
    pub fn pre(&self) -> (tag: &str)
        ensures
            tag@ == self@.pre,
    {
        self.pre.as_str()
    }

    /// The build tag, empty where the version has none.
    pub fn build(&self) -> (tag: &str)
        ensures
            tag@ == self@.build,
    {
        self.build.as_str()
    }

    /// The version as it is written, such as `1.2.3-rc.1+build`.
    pub fn to_text(&self) -> (r: String)
        ensures
            r@ == written(self@),
    {
        let mut r = String::new();
        write_decimal(&mut r, self.major);
        push_char(&mut r, '.');
        write_decimal(&mut r, self.minor);
        push_char(&mut r, '.');
        write_decimal(&mut r, self.patch);
        let ghost numbers = r@;
        assert(numbers =~= decimal(self@.major) + seq!['.'] + decimal(self@.minor) + seq!['.']
            + decimal(self@.patch));
        if !self.pre.as_str().is_empty() {
            push_char(&mut r, '-');
            r.append(self.pre.as_str());
            assert(r@ =~= numbers + (seq!['-'] + self@.pre));
        } else {
            assert(r@ =~= numbers + Seq::<char>::empty());
        }
        let ghost tagged = r@;
        if !self.build.as_str().is_empty() {
            push_char(&mut r, '+');
            r.append(self.build.as_str());
            assert(r@ =~= tagged + (seq!['+'] + self@.build));
        } else {
            assert(r@ =~= tagged + Seq::<char>::empty());
        }
        r
    }

    /// Whether the two are the same version: the same numbers and the same tags.
    pub fn same(&self, other: &SemverVersion) -> (r: bool)
        ensures
            r == (self@ == other@),
    {
        self.major == other.major && self.minor == other.minor && self.patch == other.patch
            && self.pre == other.pre && self.build == other.build
    }

    /// Whether this version comes before `other`. No version comes before itself.
    pub fn less_than(&self, other: &SemverVersion) -> (r: bool)
        ensures
            r == precedes(self@, other@),
            self@ == other@ ==> !r,
    {
        if self.major != other.major {
            self.major < other.major
        } else if self.minor != other.minor {
            self.minor < other.minor
        } else if self.patch != other.patch {
            self.patch < other.patch
        } else {
            tags_less(self, other)
        }
    }
}

} // verus!
