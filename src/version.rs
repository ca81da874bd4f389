use vstd::prelude::*;
use vstd::string::*;

use crate::text::{dec_text, decimal, text_eq};

verus! {

/// A semantic version: `major.minor.patch`, an optional pre-release tag and optional
/// build metadata (each empty when absent).
#[derive(Clone, Debug)]
pub struct Version {
    pub major: u64,
    pub minor: u64,
    pub patch: u64,
    pub pre: String,
    pub build: String,
}

/// The plain value of a `Version`.
pub struct VersionView {
    pub major: u64,
    pub minor: u64,
    pub patch: u64,
    pub pre: Seq<char>,
    pub build: Seq<char>,
}

impl View for Version {
    type V = VersionView;

    open spec fn view(&self) -> VersionView {
        VersionView {
            major: self.major,
            minor: self.minor,
            patch: self.patch,
            pre: self.pre@,
            build: self.build@,
        }
    }
}

pub open spec fn is_digit(c: char) -> bool {
    '0' <= c && c <= '9'
}

/// A character that may stand in a pre-release or build identifier.
pub open spec fn ident_char(c: char) -> bool {
    is_digit(c) || ('a' <= c && c <= 'z') || ('A' <= c && c <= 'Z') || c == '-'
}

/// Non-empty identifiers of `ident_char`, separated by single dots.
pub open spec fn dotted_identifiers(s: Seq<char>) -> bool {
    &&& s.len() > 0
    &&& s[0] != '.'
    &&& s.last() != '.'
    &&& forall|i: int| 0 <= i < s.len() ==> s[i] == '.' || ident_char(#[trigger] s[i])
    &&& forall|i: int| 0 <= i < s.len() - 1 ==> !(#[trigger] s[i] == '.' && s[i + 1] == '.')
}

/// No identifier of `s` is a number of two or more digits that starts with `0`.
pub open spec fn no_numeric_leading_zero(s: Seq<char>) -> bool {
    forall|i: int|
        0 <= i < s.len() - 1 && #[trigger] s[i] == '0' && (i == 0 || s[i - 1] == '.') && s[i + 1]
            != '.' ==> exists|j: int|
            i < j < s.len() && !is_digit(#[trigger] s[j]) && s[j] != '.' && forall|k: int|
                i < k < j ==> #[trigger] s[k] != '.'
}

impl VersionView {
    /// The version is one that semantic versioning admits: its pre-release tag and build
    /// metadata are empty or dot-separated identifiers, and no numeric pre-release
    /// identifier has a leading zero.
    pub open spec fn wf(self) -> bool {
        &&& (self.pre.len() == 0 || (dotted_identifiers(self.pre) && no_numeric_leading_zero(
            self.pre,
        )))
        &&& (self.build.len() == 0 || dotted_identifiers(self.build))
    }

    /// The canonical text: `major.minor.patch`, then `-pre` and `+build` where present.
    pub open spec fn text(self) -> Seq<char> {
        dec_text(self.major as nat) + seq!['.'] + dec_text(self.minor as nat) + seq!['.']
            + dec_text(self.patch as nat) + (if self.pre.len() == 0 {
            Seq::<char>::empty()
        } else {
            seq!['-'] + self.pre
        }) + (if self.build.len() == 0 {
            Seq::<char>::empty()
        } else {
            seq!['+'] + self.build
        })
    }
}

/// `s` is the canonical text of the valid version `v`.
pub open spec fn denotes(s: Seq<char>, v: VersionView) -> bool {
    v.wf() && v.text() == s
}

/// Semantic-version precedence: `a` orders before `b` in semver's order of versions.
pub uninterp spec fn semver_lt(a: VersionView, b: VersionView) -> bool;

/// The plain values of a sequence of versions.
pub open spec fn views(vs: Seq<Version>) -> Seq<VersionView> {
    vs.map_values(|v: Version| v@)
}

/// `a`'s numbers are at most `b`'s, compared major first.
pub open spec fn numbers_le(a: VersionView, b: VersionView) -> bool {
    a.major < b.major || (a.major == b.major && (a.minor < b.minor || (a.minor == b.minor
        && a.patch <= b.patch)))
}

/// The versions are ascending in semver's order.
pub open spec fn semver_ascending(vs: Seq<VersionView>) -> bool {
    &&& forall|i: int, j: int| 0 <= i < j < vs.len() ==> !semver_lt(#[trigger] vs[j], #[trigger] vs[i])
    &&& forall|i: int, j: int| 0 <= i < j < vs.len() ==> numbers_le(#[trigger] vs[i], #[trigger] vs[j])
}

/// Sorts versions ascending in semver's order.
pub fn sort_versions(vs: Vec<Version>) -> (r: Vec<Version>)
    requires
        forall|i: int| 0 <= i < vs@.len() ==> (#[trigger] vs@[i])@.wf(),
    ensures
        views(r@).to_multiset() == views(vs@).to_multiset(),
        semver_ascending(views(r@)),
{
    let r = sort_semver(vs);
    assert forall|i: int, j: int| 0 <= i < j < views(r@).len() implies !semver_lt(
        #[trigger] views(r@)[j],
        #[trigger] views(r@)[i],
    ) && numbers_le(views(r@)[i], views(r@)[j]) by {
        assert(views(r@)[i] == r@[i]@ && views(r@)[j] == r@[j]@);
    }
    r
}

/// Relies on `slice::sort` over semver::Version: the same versions, ascending in
/// semver's order, which compares major, minor and patch first.
#[verifier::external_body]
fn sort_semver(vs: Vec<Version>) -> (r: Vec<Version>)
    requires
        forall|i: int| 0 <= i < vs@.len() ==> (#[trigger] vs@[i])@.wf(),
    ensures
        views(r@).to_multiset() == views(vs@).to_multiset(),
        forall|i: int, j: int| 0 <= i < j < r@.len() ==> !semver_lt(#[trigger] r@[j]@, #[trigger] r@[i]@),
        forall|i: int, j: int| 0 <= i < j < r@.len() ==> numbers_le(#[trigger] r@[i]@, #[trigger] r@[j]@),
{
    let mut s: Vec<semver::Version> = vs.iter().map(|v| semver::Version {
        major: v.major, minor: v.minor, patch: v.patch,
        pre: semver::Prerelease::new(&v.pre).unwrap(),
        build: semver::BuildMetadata::new(&v.build).unwrap(),
    }).collect();
    s.sort();
    s.into_iter().map(|v| Version {
        major: v.major, minor: v.minor, patch: v.patch,
        pre: v.pre.to_string(), build: v.build.to_string(),
    }).collect()
}

/// Relies on semver::Version::parse: it accepts exactly the canonical texts of valid
/// versions (the texts that semver's `Display` writes) and reads each back to its version.
#[verifier::external_body]
fn semver_parse(s: &str) -> (r: Option<Version>)
    ensures
        r is Some ==> denotes(s@, r->0@),
        forall|w: VersionView| #[trigger] denotes(s@, w) ==> (r is Some && r->0@ == w),
{
    semver::Version::parse(s).ok().map(
        |v|
            Version {
                major: v.major,
                minor: v.minor,
                patch: v.patch,
                pre: v.pre.as_str().to_string(),
                build: v.build.as_str().to_string(),
            },
    )
}

impl Version {
    /// The release `major.minor.patch`, with no pre-release tag or build metadata.
    pub fn new(major: u64, minor: u64, patch: u64) -> (r: Version)
        ensures
            r@ == (VersionView { major, minor, patch, pre: Seq::empty(), build: Seq::empty() }),
            r@.wf(),
    {
        Version { major, minor, patch, pre: String::new(), build: String::new() }
    }

    /// Reads a version from its text; `None` where the text is not a valid version.
    pub fn parse(s: &str) -> (r: Option<Version>)
        ensures
            r matches Some(v) ==> denotes(s@, v@),
            forall|w: VersionView| #[trigger] denotes(s@, w) ==> (r matches Some(v) && v@ == w),
    {
        semver_parse(s)
    }

    /// A copy of this version.
    pub fn duplicate(&self) -> (r: Version)
        ensures
            r@ == self@,
    {
        Version {
            major: self.major,
            minor: self.minor,
            patch: self.patch,
            pre: self.pre.clone(),
            build: self.build.clone(),
        }
    }

    /// The canonical text of this version.
    pub fn to_text(&self) -> (r: String)
        ensures
            r@ == self@.text(),
    {
        let mut s = decimal(self.major);
        proof { reveal_strlit("."); }
        s.append(".");
        let minor = decimal(self.minor);
        s.append(minor.as_str());
        s.append(".");
        let patch = decimal(self.patch);
        s.append(patch.as_str());
        if self.pre.as_str().unicode_len() > 0 {
            proof { reveal_strlit("-"); }
            s.append("-");
            s.append(self.pre.as_str());
        }
        if self.build.as_str().unicode_len() > 0 {
            proof { reveal_strlit("+"); }
            s.append("+");
            s.append(self.build.as_str());
        }
        assert(s@ =~= self@.text());
        s
    }

    /// Whether the two versions are the same.
    pub fn same_as(&self, other: &Version) -> (r: bool)
        ensures
            r == (self@ == other@),
    {
        self.major == other.major && self.minor == other.minor && self.patch == other.patch
            && text_eq(self.pre.as_str(), other.pre.as_str()) && text_eq(
            self.build.as_str(),
            other.build.as_str(),
        )
    }
}

impl PartialEq for Version {
    fn eq(&self, other: &Version) -> (r: bool)
        ensures
            r == (self@ == other@),
    {
        self.same_as(other)
    }
}

impl vstd::std_specs::cmp::PartialEqSpecImpl for Version {
    open spec fn obeys_eq_spec() -> bool {
        true
    }

    open spec fn eq_spec(&self, other: &Version) -> bool {
        self@ == other@
    }
}

impl Eq for Version {}

} // verus!
