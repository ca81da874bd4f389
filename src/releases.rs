use vstd::prelude::*;
use vstd::string::*;

use crate::checksum::{decode_checksum, hex_bytes, hex_text, lemma_hex_round_trip,
    lemma_hex_text_unprefixed, strip_hex_prefix, to_hex};
use crate::error::YlemVmError;
use crate::platform::{platform_name, Platform};
use crate::version::{semver_ascending, sort_versions, views, Version, VersionView};

verus! {

/// A catalog entry: the version and its artifact's file name.
pub type ReleaseEntry = (VersionView, Seq<char>);

/// The SHA-256 checksum recorded for a version's artifact.
#[derive(Clone, Debug)]
pub struct BuildInfo {
    pub version: Version,
    pub sha256: Vec<u8>,
}

/// A published release: a version and the file name of its artifact.
#[derive(Clone, Debug)]
pub struct Release {
    pub version: Version,
    pub artifact: String,
}

/// The release catalog of one platform: the recorded checksums, and the artifact of each
/// version, one entry per version.
#[derive(Clone, Debug)]
pub struct Releases {
    pub builds: Vec<BuildInfo>,
    pub releases: Vec<Release>,
}

/// The plain value of a catalog.
pub struct ReleasesView {
    pub builds: Seq<(VersionView, Seq<u8>)>,
    pub releases: Seq<ReleaseEntry>,
}

impl View for BuildInfo {
    type V = (VersionView, Seq<u8>);

    open spec fn view(&self) -> (VersionView, Seq<u8>) {
        (self.version@, self.sha256@)
    }
}

impl View for Release {
    type V = ReleaseEntry;

    open spec fn view(&self) -> ReleaseEntry {
        (self.version@, self.artifact@)
    }
}

impl View for Releases {
    type V = ReleasesView;

    open spec fn view(&self) -> ReleasesView {
        ReleasesView {
            builds: self.builds@.map_values(|b: BuildInfo| b@),
            releases: self.releases@.map_values(|r: Release| r@),
        }
    }
}

/// No two entries share a version, and every version is valid.
pub open spec fn unique_versions(rs: Seq<ReleaseEntry>) -> bool {
    &&& forall|i: int, j: int| 0 <= i < j < rs.len() ==> (#[trigger] rs[i]).0 != (#[trigger] rs[j]).0
    &&& forall|i: int| 0 <= i < rs.len() ==> (#[trigger] rs[i]).0.wf()
}

/// Some entry of `rs` has version `v`.
pub open spec fn has_version(rs: Seq<ReleaseEntry>, v: VersionView) -> bool {
    exists|i: int| 0 <= i < rs.len() && (#[trigger] rs[i]).0 == v
}

/// The checksum of the first build of version `v`.
pub open spec fn checksum_of(builds: Seq<(VersionView, Seq<u8>)>, v: VersionView) -> Option<
    Seq<u8>,
>
    decreases builds.len(),
{
    if builds.len() == 0 {
        None
    } else if builds[0].0 == v {
        Some(builds[0].1)
    } else {
        checksum_of(builds.drop_first(), v)
    }
}

/// The artifact of the first entry of version `v`.
pub open spec fn artifact_of(rs: Seq<ReleaseEntry>, v: VersionView) -> Option<Seq<char>>
    decreases rs.len(),
{
    if rs.len() == 0 {
        None
    } else if rs[0].0 == v {
        Some(rs[0].1)
    } else {
        artifact_of(rs.drop_first(), v)
    }
}

/// `rs` with the entry `e`: it replaces the entry of the same version, or comes last
/// where there is none.
pub open spec fn insert_entry(rs: Seq<ReleaseEntry>, e: ReleaseEntry) -> Seq<ReleaseEntry> {
    if has_version(rs, e.0) {
        rs.update(choose|i: int| 0 <= i < rs.len() && (#[trigger] rs[i]).0 == e.0, e)
    } else {
        rs.push(e)
    }
}

/// The table made by putting the entries `es` in place one after the other; of two
/// entries of one version the later stays.
pub open spec fn table_of(es: Seq<ReleaseEntry>) -> Seq<ReleaseEntry>
    decreases es.len(),
{
    if es.len() == 0 {
        Seq::empty()
    } else {
        insert_entry(table_of(es.drop_last()), es.last())
    }
}

/// Each of the versions `vs` has an entry in `rs`.
pub open spec fn versions_have_artifacts(vs: Seq<VersionView>, rs: Seq<ReleaseEntry>) -> bool {
    forall|i: int| 0 <= i < vs.len() ==> (#[trigger] artifact_of(rs, vs[i])) is Some
}

impl ReleasesView {
    /// One entry per valid version, and every version with a recorded checksum has an
    /// artifact.
    pub open spec fn wf(self) -> bool {
        &&& unique_versions(self.releases)
        &&& versions_have_artifacts(self.build_versions(), self.releases)
    }

    /// The versions that have a recorded checksum, in the order recorded.
    pub open spec fn build_versions(self) -> Seq<VersionView> {
        self.builds.map_values(|b: (VersionView, Seq<u8>)| b.0)
    }

    /// The versions that have an artifact, in the table's order.
    pub open spec fn versions(self) -> Seq<VersionView> {
        self.releases.map_values(|e: ReleaseEntry| e.0)
    }
}

proof fn lemma_insert_entry(rs: Seq<ReleaseEntry>, e: ReleaseEntry)
    requires
        unique_versions(rs),
        e.0.wf(),
    ensures
        unique_versions(insert_entry(rs, e)),
{
    let r = insert_entry(rs, e);
    if has_version(rs, e.0) {
        let k = choose|i: int| 0 <= i < rs.len() && (#[trigger] rs[i]).0 == e.0;
        assert forall|i: int, j: int| 0 <= i < j < r.len() implies (#[trigger] r[i]).0 != (
        #[trigger] r[j]).0 by {
            assert(rs[i].0 != rs[j].0);
        }
        assert forall|i: int| 0 <= i < r.len() implies (#[trigger] r[i]).0.wf() by {
            assert(rs[i].0.wf());
        }
    } else {
        assert forall|i: int, j: int| 0 <= i < j < r.len() implies (#[trigger] r[i]).0 != (
        #[trigger] r[j]).0 by {
            if j == r.len() - 1 {
                assert(rs[i].0 != e.0);
            } else {
                assert(rs[i].0 != rs[j].0);
            }
        }
        assert forall|i: int| 0 <= i < r.len() implies (#[trigger] r[i]).0.wf() by {
            if i < rs.len() {
                assert(rs[i].0.wf());
            }
        }
    }
}

proof fn lemma_table_of_unique(es: Seq<ReleaseEntry>)
    requires
        forall|i: int| 0 <= i < es.len() ==> (#[trigger] es[i]).0.wf(),
    ensures
        unique_versions(table_of(es)),
    decreases es.len(),
{
    if es.len() > 0 {
        let front = es.drop_last();
        assert forall|i: int| 0 <= i < front.len() implies (#[trigger] front[i]).0.wf() by {
            assert(es[i].0.wf());
        }
        lemma_table_of_unique(front);
        assert(es[es.len() - 1].0.wf());
        lemma_insert_entry(table_of(front), es.last());
    }
}

/// Putting the entries of a table with unique versions in place one by one gives the
/// same table back.
pub proof fn lemma_table_of_unique_is_identity(es: Seq<ReleaseEntry>)
    requires
        unique_versions(es),
    ensures
        table_of(es) == es,
    decreases es.len(),
{
    if es.len() > 0 {
        let front = es.drop_last();
        assert(unique_versions(front)) by {
            assert forall|i: int, j: int| 0 <= i < j < front.len() implies (
            #[trigger] front[i]).0 != (#[trigger] front[j]).0 by {
                assert(es[i].0 != es[j].0);
            }
            assert forall|i: int| 0 <= i < front.len() implies (#[trigger] front[i]).0.wf() by {
                assert(es[i].0.wf());
            }
        }
        lemma_table_of_unique_is_identity(front);
        if has_version(front, es.last().0) {
            let k = choose|i: int| 0 <= i < front.len() && (#[trigger] front[i]).0 == es.last().0;
            assert(es[k].0 != es[es.len() - 1].0);
        }
        assert(front.push(es.last()) =~= es);
    }
}

impl Releases {
    /// The checksum recorded for version `v`, if any.
    pub fn get_checksum(&self, v: &Version) -> (r: Option<Vec<u8>>)
        ensures
            r is Some <==> checksum_of(self@.builds, v@) is Some,
            r is Some ==> r->0@ == checksum_of(self@.builds, v@)->0,
    {
        let mut i: usize = 0;
        assert(self@.builds.skip(0) =~= self@.builds);
        while i < self.builds.len()
            invariant
                i <= self.builds@.len(),
                checksum_of(self@.builds, v@) == checksum_of(self@.builds.skip(i as int), v@),
            decreases self.builds@.len() - i,
        {
            assert(self@.builds.skip(i as int).drop_first() =~= self@.builds.skip(i + 1));
            if self.builds[i].version.same_as(v) {
                return Some(self.builds[i].sha256.clone());
            }
            i = i + 1;
        }
        None
    }

    /// The artifact of version `version`, if it has one.
    pub fn get_artifact(&self, version: &Version) -> (r: Option<&String>)
        ensures
            r is Some <==> artifact_of(self@.releases, version@) is Some,
            r is Some ==> r->0@ == artifact_of(self@.releases, version@)->0,
    {
        let mut i: usize = 0;
        assert(self@.releases.skip(0) =~= self@.releases);
        while i < self.releases.len()
            invariant
                i <= self.releases@.len(),
                artifact_of(self@.releases, version@) == artifact_of(
                    self@.releases.skip(i as int),
                    version@,
                ),
            decreases self.releases@.len() - i,
        {
            assert(self@.releases.skip(i as int).drop_first() =~= self@.releases.skip(i + 1));
            if self.releases[i].version.same_as(version) {
                return Some(&self.releases[i].artifact);
            }
            i = i + 1;
        }
        None
    }

    /// The versions that have an artifact, in ascending order.
    pub fn into_versions(self) -> (r: Vec<Version>)
        requires
            self@.wf(),
        ensures
            views(r@).to_multiset() == self@.versions().to_multiset(),
            semver_ascending(views(r@)),
    {
        let mut out: Vec<Version> = Vec::new();
        let mut i: usize = 0;
        while i < self.releases.len()
            invariant
                i <= self.releases@.len(),
                out@.len() == i,
                views(out@) == self@.versions().take(i as int),
                self@.wf(),
            decreases self.releases@.len() - i,
        {
            let ghost prev = out@;
            out.push(self.releases[i].version.duplicate());
            assert(self@.versions()[i as int] == self.releases@[i as int].version@);
            assert(views(prev) =~= self@.versions().take(i as int));
            assert(views(out@) =~= self@.versions().take(i + 1));
            i = i + 1;
        }
        assert(self@.versions().take(i as int) =~= self@.versions());
        assert forall|k: int| 0 <= k < out@.len() implies (#[trigger] out@[k])@.wf() by {
            assert(views(out@)[k] == out@[k]@);
            assert(self@.releases[k].0.wf());
        }
        sort_versions(out)
    }
}

fn insert_release(table: &mut Vec<Release>, e: Release)
    requires
        unique_versions(old(table)@.map_values(|r: Release| r@)),
    ensures
        final(table)@.map_values(|r: Release| r@) == insert_entry(
            old(table)@.map_values(|r: Release| r@),
            e@,
        ),
{
    let ghost rs = table@.map_values(|r: Release| r@);
    let mut j: usize = 0;
    while j < table.len()
        invariant
            j <= table@.len(),
            rs == table@.map_values(|r: Release| r@),
            rs == old(table)@.map_values(|r: Release| r@),
            unique_versions(rs),
            forall|k: int| 0 <= k < j ==> (#[trigger] rs[k]).0 != e@.0,
        decreases table@.len() - j,
    {
        if table[j].version.same_as(&e.version) {
            proof {
                assert(rs[j as int].0 == e@.0);
                let k = choose|i: int| 0 <= i < rs.len() && (#[trigger] rs[i]).0 == e@.0;
                assert(k == j) by {
                    if k != j {
                        if k < j {
                            assert(rs[k].0 != rs[j as int].0);
                        } else {
                            assert(rs[j as int].0 != rs[k].0);
                        }
                    }
                }
            }
            table.set(j, e);
            assert(table@.map_values(|r: Release| r@) =~= insert_entry(rs, e@));
            return;
        }
        j = j + 1;
    }
    table.push(e);
    assert(table@.map_values(|r: Release| r@) =~= insert_entry(rs, e@));
}

/// A catalog in its written form: each checksum as hex text, and the entries of the
/// release table in the order written.
#[derive(Clone, Debug)]
pub struct ReleaseManifest {
    pub builds: Vec<(Version, String)>,
    pub releases: Vec<(Version, String)>,
}

/// The plain value of a catalog's written form.
pub struct ManifestView {
    pub builds: Seq<(VersionView, Seq<char>)>,
    pub releases: Seq<ReleaseEntry>,
}

impl View for ReleaseManifest {
    type V = ManifestView;

    open spec fn view(&self) -> ManifestView {
        ManifestView {
            builds: self.builds@.map_values(|b: (Version, String)| (b.0@, b.1@)),
            releases: self.releases@.map_values(|e: (Version, String)| (e.0@, e.1@)),
        }
    }
}

/// The written form of a catalog: checksums in lower-case hex, the table as it stands.
pub open spec fn manifest_of(c: ReleasesView) -> ManifestView {
    ManifestView {
        builds: c.builds.map_values(|b: (VersionView, Seq<u8>)| (b.0, hex_text(b.1))),
        releases: c.releases,
    }
}

/// Every checksum of the written form is hex, after its `0x` prefixes.
pub open spec fn checksums_readable(m: ManifestView) -> bool {
    forall|i: int| 0 <= i < m.builds.len() ==> (#[trigger] hex_bytes(strip_hex_prefix(m.builds[i].1))) is Some
}

/// The versions of the written form that have a recorded checksum.
pub open spec fn manifest_build_versions(m: ManifestView) -> Seq<VersionView> {
    m.builds.map_values(|b: (VersionView, Seq<char>)| b.0)
}

/// The catalog that a written form describes, if its checksums can be read and each
/// version with a checksum has an artifact.
pub open spec fn catalog_of(m: ManifestView) -> Option<ReleasesView> {
    if checksums_readable(m) && versions_have_artifacts(
        manifest_build_versions(m),
        table_of(m.releases),
    ) {
        Some(
            ReleasesView {
                builds: m.builds.map_values(
                    |b: (VersionView, Seq<char>)| (b.0, hex_bytes(strip_hex_prefix(b.1))->0),
                ),
                releases: table_of(m.releases),
            },
        )
    } else {
        None
    }
}

/// Writing a well-formed catalog down and reading it back gives the same catalog.
pub proof fn lemma_catalog_round_trip(c: ReleasesView)
    requires
        c.wf(),
    ensures
        catalog_of(manifest_of(c)) == Some(c),
{
    let m = manifest_of(c);
    assert forall|i: int| 0 <= i < m.builds.len() implies (#[trigger] hex_bytes(
        strip_hex_prefix(m.builds[i].1),
    )) is Some by {
        lemma_hex_text_unprefixed(c.builds[i].1);
        lemma_hex_round_trip(c.builds[i].1);
    }
    lemma_table_of_unique_is_identity(c.releases);
    assert(manifest_build_versions(m) =~= c.build_versions());
    let d = catalog_of(m)->0;
    assert forall|i: int| 0 <= i < c.builds.len() implies d.builds[i] == c.builds[i] by {
        lemma_hex_text_unprefixed(c.builds[i].1);
        lemma_hex_round_trip(c.builds[i].1);
    }
    assert(d.builds =~= c.builds);
}

impl Releases {
    /// The written form of this catalog.
    pub fn to_manifest(&self) -> (r: ReleaseManifest)
        ensures
            r@ == manifest_of(self@),
    {
        let mut builds: Vec<(Version, String)> = Vec::new();
        let mut i: usize = 0;
        while i < self.builds.len()
            invariant
                i <= self.builds@.len(),
                builds@.len() == i,
                forall|k: int|
                    0 <= k < i ==> (#[trigger] builds@[k]).0@ == self.builds@[k].version@
                        && builds@[k].1@ == hex_text(self.builds@[k].sha256@),
            decreases self.builds@.len() - i,
        {
            let b = &self.builds[i];
            builds.push((b.version.duplicate(), to_hex(b.sha256.as_slice())));
            i = i + 1;
        }
        let mut releases: Vec<(Version, String)> = Vec::new();
        let mut j: usize = 0;
        while j < self.releases.len()
            invariant
                j <= self.releases@.len(),
                releases@.len() == j,
                forall|k: int|
                    0 <= k < j ==> (#[trigger] releases@[k]).0@ == self.releases@[k].version@
                        && releases@[k].1@ == self.releases@[k].artifact@,
            decreases self.releases@.len() - j,
        {
            let e = &self.releases[j];
            releases.push((e.version.duplicate(), e.artifact.clone()));
            j = j + 1;
        }
        let r = ReleaseManifest { builds, releases };
        assert(r@.builds =~= manifest_of(self@).builds);
        assert(r@.releases =~= manifest_of(self@).releases);
        r
    }

    /// Reads a catalog from its written form. Fails with `InvalidChecksum`, carrying the
    /// text, where a checksum is not hex, and otherwise with `ChecksumWithoutArtifact`,
    /// carrying the version's text, where a version with a checksum has no artifact.
    pub fn from_manifest(m: &ReleaseManifest) -> (r: Result<Releases, YlemVmError>)
        requires
            forall|i: int| 0 <= i < m@.releases.len() ==> (#[trigger] m@.releases[i]).0.wf(),
        ensures
            r is Ok <==> catalog_of(m@) is Some,
            r matches Ok(c) ==> c@ == catalog_of(m@)->0 && c@.wf(),
            r is Err && !checksums_readable(m@) ==> (r matches Err(
                YlemVmError::InvalidChecksum(t),
            ) && exists|i: int|
                0 <= i < m@.builds.len() && t@ == m@.builds[i].1 && hex_bytes(
                    strip_hex_prefix(t@),
                ) is None),
            r is Err && checksums_readable(m@) ==> (r matches Err(
                YlemVmError::ChecksumWithoutArtifact(t),
            ) && exists|i: int|
                0 <= i < m@.builds.len() && t@ == m@.builds[i].0.text() && artifact_of(
                    table_of(m@.releases),
                    m@.builds[i].0,
                ) is None),
    {
        let ghost target = m@.builds.map_values(
            |b: (VersionView, Seq<char>)| (b.0, hex_bytes(strip_hex_prefix(b.1))->0),
        );
        let mut builds: Vec<BuildInfo> = Vec::new();
        let mut i: usize = 0;
        while i < m.builds.len()
            invariant
                i <= m.builds@.len(),
                builds@.len() == i,
                forall|k: int|
                    0 <= k < i ==> hex_bytes(strip_hex_prefix(#[trigger] m@.builds[k].1)) is Some,
                forall|k: int| 0 <= k < i ==> (#[trigger] builds@[k])@ == target[k],
                target == m@.builds.map_values(
                    |b: (VersionView, Seq<char>)| (b.0, hex_bytes(strip_hex_prefix(b.1))->0),
                ),
            decreases m.builds@.len() - i,
        {
            let b = &m.builds[i];
            assert(m@.builds[i as int] == (b.0@, b.1@));
            match decode_checksum(b.1.as_str()) {
                Some(sum) => {
                    builds.push(BuildInfo { version: b.0.duplicate(), sha256: sum });
                },
                None => {
                    assert(hex_bytes(strip_hex_prefix(m@.builds[i as int].1)) is None);
                    assert(!checksums_readable(m@));
                    return Err(YlemVmError::InvalidChecksum(b.1.clone()));
                },
            }
            i = i + 1;
        }
        let mut table: Vec<Release> = Vec::new();
        let ghost es = m@.releases;
        let mut j: usize = 0;
        assert(es.take(0) =~= Seq::<ReleaseEntry>::empty());
        while j < m.releases.len()
            invariant
                j <= m.releases@.len(),
                es == m@.releases,
                table@.map_values(|r: Release| r@) == table_of(es.take(j as int)),
                forall|i: int| 0 <= i < es.len() ==> (#[trigger] es[i]).0.wf(),
            decreases m.releases@.len() - j,
        {
            proof {
                assert forall|i: int| 0 <= i < j implies (#[trigger] es.take(j as int)[i]).0.wf() by {
                    assert(es[i].0.wf());
                }
                lemma_table_of_unique(es.take(j as int));
                assert(es.take(j + 1).drop_last() =~= es.take(j as int));
            }
            let e = &m.releases[j];
            insert_release(&mut table, Release { version: e.0.duplicate(), artifact: e.1.clone() });
            j = j + 1;
        }
        assert(es.take(j as int) =~= es);
        proof {
            lemma_table_of_unique(es);
        }
        let c = Releases { builds, releases: table };
        assert(c@.builds =~= target);
        assert(checksums_readable(m@));
        let mut k: usize = 0;
        while k < c.builds.len()
            invariant
                k <= c.builds@.len(),
                c@.builds == target,
                c@.releases == table_of(m@.releases),
                target.len() == m@.builds.len(),
                target == m@.builds.map_values(
                    |b: (VersionView, Seq<char>)| (b.0, hex_bytes(strip_hex_prefix(b.1))->0),
                ),
                checksums_readable(m@),
                forall|q: int|
                    0 <= q < k ==> (#[trigger] artifact_of(c@.releases, m@.builds[q].0)) is Some,
            decreases c.builds@.len() - k,
        {
            let v = &c.builds[k].version;
            assert(c@.builds[k as int].0 == v@);
            assert(target[k as int].0 == m@.builds[k as int].0);
            if c.get_artifact(v).is_none() {
                proof {
                    assert(manifest_build_versions(m@)[k as int] == v@);
                    assert(artifact_of(table_of(m@.releases), manifest_build_versions(m@)[k as int])
                        is None);
                }
                return Err(YlemVmError::ChecksumWithoutArtifact(v.to_text()));
            }
            k = k + 1;
        }
        assert(versions_have_artifacts(manifest_build_versions(m@), table_of(m@.releases))) by {
            assert forall|q: int| 0 <= q < manifest_build_versions(m@).len() implies (
            #[trigger] artifact_of(table_of(m@.releases), manifest_build_versions(m@)[q]))
                is Some by {
                assert(artifact_of(c@.releases, m@.builds[q].0) is Some);
            }
        }
        assert(versions_have_artifacts(c@.build_versions(), c@.releases)) by {
            assert forall|q: int| 0 <= q < c@.build_versions().len() implies (
            #[trigger] artifact_of(c@.releases, c@.build_versions()[q])) is Some by {
                assert(artifact_of(c@.releases, m@.builds[q].0) is Some);
                assert(c@.build_versions()[q] == target[q].0);
            }
        }
        Ok(c)
    }
}

/// The catalogs of the supported platforms, read once and then left unchanged.
#[derive(Clone, Debug)]
pub struct ReleaseTables {
    pub linux_amd64: Releases,
    pub linux_aarch64: Releases,
    pub macos_amd64: Releases,
    pub macos_aarch64: Releases,
    pub windows_amd64: Releases,
}

impl ReleaseTables {
    /// The catalog of platform `p`; `None` for an unsupported platform.
    pub open spec fn table(&self, p: Platform) -> Option<Releases> {
        match p {
            Platform::LinuxAmd64 => Some(self.linux_amd64),
            Platform::LinuxAarch64 => Some(self.linux_aarch64),
            Platform::MacOsAmd64 => Some(self.macos_amd64),
            Platform::MacOsAarch64 => Some(self.macos_aarch64),
            Platform::WindowsAmd64 => Some(self.windows_amd64),
            Platform::Unsupported => None,
        }
    }
}

/// The catalog of `platform`; `UnsupportedOs`, with the platform's name, for an
/// unsupported platform.
pub fn all_releases(tables: &ReleaseTables, platform: Platform) -> (r: Result<
    &Releases,
    YlemVmError,
>)
    ensures
        r is Ok <==> platform != Platform::Unsupported,
        r matches Ok(c) ==> *c == tables.table(platform)->0,
        r is Err ==> (r matches Err(YlemVmError::UnsupportedOs(n)) && n@ == platform_name(
            platform,
        )),
{
    match platform {
        Platform::LinuxAarch64 => Ok(&tables.linux_aarch64),
        Platform::LinuxAmd64 => Ok(&tables.linux_amd64),
        Platform::MacOsAarch64 => Ok(&tables.macos_aarch64),
        Platform::MacOsAmd64 => Ok(&tables.macos_amd64),
        Platform::WindowsAmd64 => Ok(&tables.windows_amd64),
        Platform::Unsupported => Err(YlemVmError::UnsupportedOs(String::from_str(platform.name()))),
    }
}

/// The message for a catalog of `platform` that cannot be read.
pub fn parse_error_msg(platform: &str) -> (r: String)
    ensures
        r@ == "Failed to parse ylem releases for "@ + platform@ + ". Please contact maintainers"@,
{
    let mut s = String::from_str("Failed to parse ylem releases for ");
    s.append(platform);
    s.append(". Please contact maintainers");
    s
}

/// Where releases are downloaded from.
pub open spec fn releases_base() -> Seq<char> {
    "https://github.com/core-coin/ylem/releases/download"@
}

/// The download URL of the artifact `artifact` of version `v`.
pub open spec fn download_url(v: VersionView, artifact: Seq<char>) -> Seq<char> {
    releases_base() + seq!['/'] + v.text() + seq!['/'] + artifact
}

/// The text of the download URL of `artifact` of `version`.
pub fn artifact_url_text(version: &Version, artifact: &str) -> (r: String)
    ensures
        r@ == download_url(version@, artifact@),
{
    let mut s = String::from_str("https://github.com/core-coin/ylem/releases/download");
    proof { reveal_strlit("/"); }
    s.append("/");
    let v = version.to_text();
    s.append(v.as_str());
    s.append("/");
    s.append(artifact);
    s
}

#[verifier::external_type_specification]
#[verifier::external_body]
pub struct ExUrl(url::Url);

/// The text parses as a URL.
pub uninterp spec fn url_parses(s: Seq<char>) -> bool;

/// Relies on url::Url::parse: the parsed URL, or `None` where the text is not one;
/// which of the two depends on the text alone.
#[verifier::external_body]
fn parse_url(s: &str) -> (r: Option<url::Url>)
    ensures
        r is Some <==> url_parses(s@),
{
    url::Url::parse(s).ok()
}

/// The download URL of the artifact `artifact` of `version`; `InvalidUrl`, with the text,
/// where it does not parse.
pub fn artifact_url(_platform: Platform, version: &Version, artifact: &str) -> (r: Result<
    url::Url,
    YlemVmError,
>)
    ensures
        r is Ok <==> url_parses(download_url(version@, artifact@)),
        r is Err ==> (r matches Err(YlemVmError::InvalidUrl(t)) && t@ == download_url(
            version@,
            artifact@,
        )),
{
    let text = artifact_url_text(version, artifact);
    match parse_url(text.as_str()) {
        Some(u) => Ok(u),
        None => Err(YlemVmError::InvalidUrl(text)),
    }
}

} // verus!
