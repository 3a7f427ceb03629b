//! Semantic versions.

use super::VERSION;
use crate::text::{decimal, decimal_text, joined, same_text};
use vstd::prelude::*;

verus! {

/// A semantic version. A stable one has neither a pre-release nor a build part.
#[derive(Debug, PartialEq, Eq)]
pub struct Version {
    pub major: u64,
    pub minor: u64,
    pub patch: u64,
    pub pre: String,
    pub build: String,
}

impl Clone for Version {
    fn clone(&self) -> (r: Self)
        ensures
            r == *self,
    {
        Version {
            major: self.major,
            minor: self.minor,
            patch: self.patch,
            pre: self.pre.clone(),
            build: self.build.clone(),
        }
    }
}

/// The text of a stable version.
pub open spec fn stable_text(major: u64, minor: u64, patch: u64) -> Seq<char> {
    decimal(major as nat) + seq!['.'] + decimal(minor as nat) + seq!['.'] + decimal(patch as nat)
}

/// Whether semantic versioning reads a text as a version.
pub uninterp spec fn semver_parses(text: Seq<char>) -> bool;

/// Which of two versions with equal numbers, not both stable, is greater.
pub uninterp spec fn semver_tie_exceeds(
    pre: Seq<char>,
    build: Seq<char>,
    other_pre: Seq<char>,
    other_build: Seq<char>,
) -> bool;

impl Version {
    pub open spec fn stable(&self) -> bool {
        self.pre@.len() == 0 && self.build@.len() == 0
    }

    /// The two versions are the same.
    pub open spec fn same(&self, other: Version) -> bool {
        &&& self.major == other.major
        &&& self.minor == other.minor
        &&& self.patch == other.patch
        &&& self.pre@ == other.pre@
        &&& self.build@ == other.build@
    }

    /// The text of the version.
    pub open spec fn text(&self) -> Seq<char> {
        let numbers = stable_text(self.major, self.minor, self.patch);
        let pre = if self.pre@.len() == 0 {
            Seq::empty()
        } else {
            seq!['-'] + self.pre@
        };
        let build = if self.build@.len() == 0 {
            Seq::empty()
        } else {
            seq!['+'] + self.build@
        };
        numbers + pre + build
    }

    /// The three numbers are greater than the other's in lexicographic order.
    pub open spec fn numbers_exceed(&self, other: Version) -> bool {
        ||| self.major > other.major
        ||| self.major == other.major && self.minor > other.minor
        ||| self.major == other.major && self.minor == other.minor && self.patch > other.patch
    }

    pub open spec fn same_numbers(&self, other: Version) -> bool {
        self.major == other.major && self.minor == other.minor && self.patch == other.patch
    }

    /// The version is newer than the other.
    pub open spec fn newer(&self, other: Version) -> bool {
        if self.same_numbers(other) {
            !(self.stable() && other.stable()) && semver_tie_exceeds(
                self.pre@,
                self.build@,
                other.pre@,
                other.build@,
            )
        } else {
            self.numbers_exceed(other)
        }
    }

    /// A stable version.
    pub fn new(major: u64, minor: u64, patch: u64) -> (r: Self)
        ensures
            r.major == major,
            r.minor == minor,
            r.patch == patch,
            r.stable(),
    {
        Version { major, minor, patch, pre: String::new(), build: String::new() }
    }

    /// Whether the version has neither a pre-release nor a build part.
    pub fn is_stable(&self) -> (r: bool)
        ensures
            r == self.stable(),
    {
        proof {
            reveal_strlit("");
        }
        let p = same_text(self.pre.as_str(), "");
        let b = same_text(self.build.as_str(), "");
        proof {
            assert(self.pre@.len() == 0 ==> self.pre@ =~= ""@);
            assert(self.build@.len() == 0 ==> self.build@ =~= ""@);
        }
        p && b
    }

    /// Whether the two versions are the same.
    pub fn equals(&self, other: &Version) -> (r: bool)
        ensures
            r == self.same(*other),
    {
        self.major == other.major && self.minor == other.minor && self.patch == other.patch
            && same_text(self.pre.as_str(), other.pre.as_str()) && same_text(
            self.build.as_str(),
            other.build.as_str(),
        )
    }

    /// The text of the version: three numbers, and the other parts where it
    /// has them.
    pub fn to_text(&self) -> (r: String)
        ensures
            r@ == self.text(),
    {
        let major = decimal_text(self.major);
        let minor = decimal_text(self.minor);
        let patch = decimal_text(self.patch);
        let mut r = joined(major.as_str(), ".");
        r.append(minor.as_str());
        r.append(".");
        r.append(patch.as_str());
        proof {
            reveal_strlit(".");
            reveal_strlit("-");
            reveal_strlit("+");
            reveal_strlit("");
            assert("."@ =~= seq!['.']);
            assert("-"@ =~= seq!['-']);
            assert("+"@ =~= seq!['+']);
            assert(self.pre@.len() == 0 ==> self.pre@ =~= ""@);
            assert(self.build@.len() == 0 ==> self.build@ =~= ""@);
        }
        let ghost numbers = r@;
        assert(numbers =~= stable_text(self.major, self.minor, self.patch));
        if !same_text(self.pre.as_str(), "") {
            r.append("-");
            r.append(self.pre.as_str());
        }
        let ghost with_pre = r@;
        if !same_text(self.build.as_str(), "") {
            r.append("+");
            r.append(self.build.as_str());
        }
        assert(r@ =~= self.text());
        r
    }
}

/// A text of a stable version is read as that version.
pub open spec fn reads_stable(text: Seq<char>, r: Option<Version>) -> bool {
    forall|a: u64, b: u64, c: u64|
        text == #[trigger] stable_text(a, b, c) ==> (r matches Some(v) && v.major == a && v.minor
            == b && v.patch == c && v.stable())
}

/// Calls `semver::Version::parse`. A version that it reads is written as the
/// text was, and it reads the text of every stable version as that version.
#[verifier::external_body]
pub(crate) fn semver_parse(text: &str) -> (r: Option<Version>)
    ensures
        r is Some == semver_parses(text@),
        r matches Some(v) ==> v.text() == text@,
        reads_stable(text@, r),
{
    semver::Version::parse(text).ok().map(
        |v| Version {
            major: v.major,
            minor: v.minor,
            patch: v.patch,
            pre: v.pre.as_str().to_owned(),
            build: v.build.as_str().to_owned(),
        },
    )
}

/// Calls `>` on `semver::Version`. The three numbers decide in lexicographic
/// order; between versions with equal numbers none is greater where both are
/// stable, and else the other parts decide. A part that semantic versioning
/// does not allow counts as absent.
#[verifier::external_body]
pub(crate) fn semver_exceeds(a: &Version, b: &Version) -> (r: bool)
    ensures
        !a.same_numbers(*b) ==> r == a.numbers_exceed(*b),
        a.same_numbers(*b) && a.stable() && b.stable() ==> !r,
        a.same_numbers(*b) && !(a.stable() && b.stable()) ==> r == semver_tie_exceeds(
            a.pre@,
            a.build@,
            b.pre@,
            b.build@,
        ),
{
    let full = |v: &Version| semver::Version {
        major: v.major,
        minor: v.minor,
        patch: v.patch,
        pre: semver::Prerelease::new(&v.pre).unwrap_or_default(),
        build: semver::BuildMetadata::new(&v.build).unwrap_or_default(),
    };
    full(a) > full(b)
}

/// Whether one version is newer than another.
pub fn exceeds(a: &Version, b: &Version) -> (r: bool)
    ensures
        r == a.newer(*b),
{
    semver_exceeds(a, b)
}

/// The announced version.
pub open spec fn is_own_version(v: Version) -> bool {
    v.major == 0 && v.minor == 1 && v.patch == 0 && v.stable()
}

/// The version that this peer announces.
pub fn own_version() -> (r: Version)
    ensures
        is_own_version(r),
        r.text() == VERSION@,
{
    proof {
        reveal_strlit("0.1.0");
        assert(decimal(0) =~= seq!['0']);
        assert(decimal(1) =~= seq!['1']);
        assert(stable_text(0, 1, 0) =~= VERSION@);
    }
    match semver_parse(VERSION) {
        Some(v) => v,
        None => Version::new(0, 1, 0),
    }
}

} // verus!
