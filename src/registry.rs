use vstd::prelude::*;
use vstd::string::*;

use crate::error::YlemVmError;
use crate::text::{join_path, path_join, text_eq};
use crate::version::{denotes, semver_ascending, sort_versions, views, Version, VersionView};

verus! {

/// The name of the global version file under the data root.
pub open spec fn pointer_file_name() -> Seq<char> {
    ".global-version"@
}

/// The file name of the binary of a version with text `t`.
pub open spec fn binary_file_name(t: Seq<char>) -> Seq<char> {
    "ylem-"@ + t
}

/// The file name of the install lock of a version with text `t`.
pub open spec fn lock_file_name(t: Seq<char>) -> Seq<char> {
    ".lock-ylem-"@ + t
}

/// The data root under the home directory `home`.
pub fn data_dir_in(home: &str) -> (r: String)
    ensures
        r@ == path_join(home@, ".yvm"@),
{
    join_path(home, ".yvm")
}

/// The directory of the version named `version` under the data root.
pub fn version_path(data_dir: &str, version: &str) -> (r: String)
    ensures
        r@ == path_join(data_dir@, version@),
{
    join_path(data_dir, version)
}

/// The global version file under the data root.
pub fn global_version_path(data_dir: &str) -> (r: String)
    ensures
        r@ == path_join(data_dir@, pointer_file_name()),
{
    join_path(data_dir, ".global-version")
}

/// The file name of the binary of `version`.
pub fn binary_name(version: &Version) -> (r: String)
    ensures
        r@ == binary_file_name(version@.text()),
{
    let mut s = String::from_str("ylem-");
    let t = version.to_text();
    s.append(t.as_str());
    s
}

/// The path of the installed binary of `version`.
pub fn binary_path(data_dir: &str, version: &Version) -> (r: String)
    ensures
        r@ == path_join(path_join(data_dir@, version@.text()), binary_file_name(version@.text())),
{
    let t = version.to_text();
    let dir = version_path(data_dir, t.as_str());
    let name = binary_name(version);
    join_path(dir.as_str(), name.as_str())
}

/// The path of the lock file that serializes installs of `version`.
pub fn lock_file_path(data_dir: &str, version: &Version) -> (r: String)
    ensures
        r@ == path_join(data_dir@, lock_file_name(version@.text())),
{
    let mut name = String::from_str(".lock-ylem-");
    let t = version.to_text();
    name.append(t.as_str());
    join_path(data_dir, name.as_str())
}

/// What the global version file holds: the version's text, or nothing when unset.
pub open spec fn pointer_text(v: Option<VersionView>) -> Seq<char> {
    match v {
        Some(v) => v.text(),
        None => Seq::empty(),
    }
}

/// The content to write to the global version file to set `version`, or with `None`
/// to unset it.
pub fn pointer_content(version: Option<&Version>) -> (r: String)
    ensures
        r@ == pointer_text(
            match version {
                Some(v) => Some(v@),
                None => None,
            },
        ),
{
    match version {
        Some(v) => v.to_text(),
        None => String::new(),
    }
}

/// `s` without its trailing newlines.
pub open spec fn trim_newlines(s: Seq<char>) -> Seq<char>
    decreases s.len(),
{
    if s.len() > 0 && s.last() == '\n' {
        trim_newlines(s.drop_last())
    } else {
        s
    }
}

pub open spec fn opt_view(r: Option<Version>) -> Option<VersionView> {
    match r {
        Some(v) => Some(v@),
        None => None,
    }
}

/// `r` is what the global version file with content `content` reads as: the valid
/// version whose text the content is, once trailing newlines are dropped, and nothing
/// where there is none.
pub open spec fn reads_as(content: Seq<char>, r: Option<VersionView>) -> bool {
    &&& (r matches Some(w) ==> denotes(trim_newlines(content), w))
    &&& forall|w: VersionView| #[trigger] denotes(trim_newlines(content), w) ==> r == Some(w)
}

/// The version that the global version file names, given its content; `None` where it
/// is empty or does not hold a version.
pub fn parse_global_version(content: &str) -> (r: Option<Version>)
    ensures
        reads_as(content@, opt_view(r)),
{
    let mut n = content.unicode_len();
    assert(content@.take(n as int) =~= content@);
    while n > 0 && content.get_char(n - 1) == '\n'
        invariant
            n <= content@.len(),
            trim_newlines(content@) == trim_newlines(content@.take(n as int)),
        decreases n,
    {
        assert(content@.take(n as int).drop_last() =~= content@.take(n - 1));
        n = n - 1;
    }
    let trimmed = content.substring_char(0, n);
    assert(trimmed@ =~= content@.take(n as int));
    Version::parse(trimmed)
}

proof fn lemma_text_not_newline_ended(v: VersionView)
    requires
        v.wf(),
    ensures
        trim_newlines(v.text()) == v.text(),
{
    let t = v.text();
    if v.build.len() > 0 {
        assert(t.last() == v.build.last());
    } else if v.pre.len() > 0 {
        assert(t.last() == v.pre.last());
    } else {
        lemma_dec_text_last_digit(v.patch as nat);
        assert(t.last() == crate::text::dec_text(v.patch as nat).last());
    }
}

proof fn lemma_dec_text_last_digit(n: nat)
    ensures
        crate::text::dec_text(n).len() > 0,
        crate::text::dec_text(n).last() != '\n',
    decreases n,
{
    if n >= 10 {
        lemma_dec_text_last_digit(n / 10);
    }
}

/// Right after the global version file is set to a valid version `v`, it reads as `v`;
/// right after it is unset, it reads as no version.
pub proof fn lemma_pointer_set_then_read(
    v: VersionView,
    after_set: Option<VersionView>,
    after_unset: Option<VersionView>,
)
    requires
        v.wf(),
        reads_as(pointer_text(Some(v)), after_set),
        reads_as(pointer_text(None), after_unset),
    ensures
        after_set == Some(v),
        after_unset is None,
{
    lemma_text_not_newline_ended(v);
    assert(denotes(trim_newlines(pointer_text(Some(v))), v));
    if let Some(w) = after_unset {
        lemma_dec_text_last_digit(w.major as nat);
        assert(w.text().len() > 0);
    }
}

/// An entry of the data root other than the global version file.
pub open spec fn is_version_entry(name: Seq<char>) -> bool {
    name != pointer_file_name()
}

/// `w` is the valid version whose text is an entry (other than the global version file).
pub open spec fn named_by_entry(names: Seq<Seq<char>>, w: VersionView) -> bool {
    exists|i: int| 0 <= i < names.len() && is_version_entry(names[i]) && denotes(#[trigger] names[i], w)
}

/// Each of `listed` is the valid version whose text is an entry (other than the global
/// version file).
pub open spec fn traced(names: Seq<Seq<char>>, listed: Seq<VersionView>) -> bool {
    forall|k: int| 0 <= k < listed.len() ==> named_by_entry(names, #[trigger] listed[k])
}

/// Each valid version whose text is one of the first `n` entries (other than the global
/// version file) is in `listed`.
pub open spec fn covered(names: Seq<Seq<char>>, n: int, listed: Seq<VersionView>) -> bool {
    forall|i: int, w: VersionView|
        0 <= i < n && is_version_entry(names[i]) && #[trigger] denotes(names[i], w)
            ==> listed.contains(w)
}

/// Each of the first `n` entries but the global version file is the text of a valid
/// version.
pub open spec fn entries_are_versions(names: Seq<Seq<char>>, n: int) -> bool {
    forall|i: int|
        0 <= i < n && is_version_entry(#[trigger] names[i]) ==> exists|w: VersionView|
            denotes(names[i], w)
}

/// `listed` is what a data root with entries `names` lists as installed: ascending in
/// semver's order, each the valid version whose text is an entry, and every such
/// version present.
pub open spec fn lists_as(names: Seq<Seq<char>>, listed: Seq<VersionView>) -> bool {
    &&& semver_ascending(listed)
    &&& traced(names, listed)
    &&& covered(names, names.len() as int, listed)
}

/// How many of the first `n` entries are not the global version file.
pub open spec fn version_entry_count(names: Seq<Seq<char>>, n: int) -> nat
    decreases n,
{
    if n <= 0 {
        0
    } else {
        version_entry_count(names, n - 1) + if is_version_entry(names[n - 1]) {
            1nat
        } else {
            0nat
        }
    }
}

/// Every entry of `names` but the global version file is the text of a valid version.
pub open spec fn all_entries_versions(names: Seq<Seq<char>>) -> bool {
    entries_are_versions(names, names.len() as int)
}

pub open spec fn name_views(names: Seq<String>) -> Seq<Seq<char>> {
    names.map_values(|s: String| s@)
}

/// The installed versions, in ascending order, given the names of the entries of the
/// data root. Fails with `UnknownVersion` where an entry other than the global version
/// file is not a version.
pub fn versions_from_entries(names: &Vec<String>) -> (r: Result<Vec<Version>, YlemVmError>)
    ensures
        r is Ok <==> all_entries_versions(name_views(names@)),
        r is Err ==> r matches Err(YlemVmError::UnknownVersion),
        r matches Ok(vs) ==> lists_as(name_views(names@), views(vs@)),
        r matches Ok(vs) ==> vs@.len() == version_entry_count(
            name_views(names@),
            names@.len() as int,
        ),
{
    let ghost ns = name_views(names@);
    let mut out: Vec<Version> = Vec::new();
    let mut i: usize = 0;
    while i < names.len()
        invariant
            i <= names@.len(),
            ns == name_views(names@),
            forall|k: int| 0 <= k < out@.len() ==> (#[trigger] out@[k])@.wf(),
            out@.len() == version_entry_count(ns, i as int),
            traced(ns, views(out@)),
            covered(ns, i as int, views(out@)),
            entries_are_versions(ns, i as int),
        decreases names@.len() - i,
    {
        let name = &names[i];
        assert(ns[i as int] == name@);
        if text_eq(name.as_str(), ".global-version") {
            proof {
                lemma_listing_skip(ns, i as int, views(out@));
            }
        } else {
            match Version::parse(name.as_str()) {
                Some(v) => {
                    let ghost before = views(out@);
                    let ghost x = v@;
                    out.push(v);
                    proof {
                        assert(views(out@) =~= before.push(x));
                        lemma_listing_step(ns, i as int, before, views(out@), x);
                        assert(entries_are_versions(ns, i + 1)) by {
                            assert(denotes(ns[i as int], x));
                        }
                    }
                },
                None => {
                    assert(!entries_are_versions(ns, ns.len() as int)) by {
                        assert(is_version_entry(ns[i as int]));
                    }
                    return Err(YlemVmError::UnknownVersion);
                },
            }
        }
        i = i + 1;
    }
    let sorted = sort_versions(out);
    proof {
        views(out@).to_multiset_ensures();
        views(sorted@).to_multiset_ensures();
        lemma_same_contents(ns, views(out@), views(sorted@));
    }
    Ok(sorted)
}

proof fn lemma_same_contents(ns: Seq<Seq<char>>, a: Seq<VersionView>, b: Seq<VersionView>)
    requires
        a.to_multiset() == b.to_multiset(),
        traced(ns, a),
        covered(ns, ns.len() as int, a),
    ensures
        traced(ns, b),
        covered(ns, ns.len() as int, b),
{
    a.to_multiset_ensures();
    b.to_multiset_ensures();
    assert forall|k: int| 0 <= k < b.len() implies named_by_entry(ns, #[trigger] b[k]) by {
        assert(b.contains(b[k]));
        assert(a.to_multiset().count(b[k]) > 0);
        let t = choose|t: int| 0 <= t < a.len() && a[t] == b[k];
        assert(named_by_entry(ns, a[t]));
    }
    assert forall|m: int, w: VersionView|
        0 <= m < ns.len() && is_version_entry(ns[m]) && #[trigger] denotes(ns[m], w)
            implies b.contains(w) by {
        assert(a.contains(w));
        assert(b.to_multiset().count(w) > 0);
    }
}

proof fn lemma_listing_step(
    ns: Seq<Seq<char>>,
    i: int,
    before: Seq<VersionView>,
    after: Seq<VersionView>,
    x: VersionView,
)
    requires
        0 <= i < ns.len(),
        after == before.push(x),
        is_version_entry(ns[i]),
        denotes(ns[i], x),
        forall|w: VersionView| #[trigger] denotes(ns[i], w) ==> w == x,
        traced(ns, before),
        covered(ns, i, before),
    ensures
        traced(ns, after),
        covered(ns, i + 1, after),
{
    assert forall|k: int| 0 <= k < after.len() implies named_by_entry(ns, #[trigger] after[k]) by {
        if k < before.len() {
            assert(after[k] == before[k]);
            assert(named_by_entry(ns, before[k]));
        } else {
            assert(denotes(ns[i], after[k]));
        }
    }
    assert forall|m: int, w: VersionView|
        0 <= m < i + 1 && is_version_entry(ns[m]) && #[trigger] denotes(ns[m], w)
            implies after.contains(w) by {
        if m == i {
            assert(after[before.len() as int] == w);
        } else {
            assert(before.contains(w));
            let k = choose|k: int| 0 <= k < before.len() && before[k] == w;
            assert(after[k] == w);
        }
    }
}

proof fn lemma_listing_skip(ns: Seq<Seq<char>>, i: int, listed: Seq<VersionView>)
    requires
        0 <= i < ns.len(),
        !is_version_entry(ns[i]),
        covered(ns, i, listed),
        entries_are_versions(ns, i),
    ensures
        covered(ns, i + 1, listed),
        entries_are_versions(ns, i + 1),
{
}

/// A listing that has the entry of a valid version `v` lists `v`; one without it does
/// not list `v`.
pub proof fn lemma_listing_tracks_entries(
    names: Seq<Seq<char>>,
    v: VersionView,
    listed: Seq<VersionView>,
)
    requires
        v.wf(),
        lists_as(names, listed),
    ensures
        names.contains(v.text()) ==> listed.contains(v),
        !names.contains(v.text()) ==> !listed.contains(v),
{
    if names.contains(v.text()) {
        let i = choose|i: int| 0 <= i < names.len() && names[i] == v.text();
        assert(denotes(names[i], v));
        lemma_version_text_not_pointer(v);
    }
    if listed.contains(v) {
        let k = choose|k: int| 0 <= k < listed.len() && listed[k] == v;
        let i = choose|i: int|
            0 <= i < names.len() && is_version_entry(names[i]) && denotes(#[trigger] names[i], listed[k]);
        assert(names[i] == v.text());
    }
}

proof fn lemma_version_text_not_pointer(v: VersionView)
    ensures
        is_version_entry(v.text()),
{
    lemma_dec_text_last_digit(v.major as nat);
    lemma_dec_text_first_digit(v.major as nat);
    reveal_strlit(".global-version");
    assert(v.text()[0] == crate::text::dec_text(v.major as nat)[0]);
}

proof fn lemma_dec_text_first_digit(n: nat)
    ensures
        crate::text::dec_text(n).len() > 0,
        crate::text::dec_text(n)[0] != '.',
    decreases n,
{
    if n >= 10 {
        lemma_dec_text_first_digit(n / 10);
    }
}

} // verus!
