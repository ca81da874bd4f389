use vstd::prelude::*;
use vstd::string::*;

use crate::checksum::{digest_verdict, ensure_checksum, sha256_of};
use crate::error::YlemVmError;
use crate::platform::Platform;
use crate::registry::{binary_file_name, binary_name, version_path};
use crate::releases::{artifact_of, artifact_url_text, checksum_of, download_url, Releases};
use crate::text::{join_path, path_join, text_ends_with};
use crate::version::{Version, VersionView};

verus! {

/// What fetching a version needs: where to get it, the artifact's name and the
/// checksum the bytes must have.
#[derive(Clone, Debug)]
pub struct DownloadPlan {
    pub url: String,
    pub artifact: String,
    pub checksum: Vec<u8>,
}

/// The catalog records a checksum for every version that has an artifact.
pub open spec fn checksums_cover(c: &Releases, v: VersionView) -> bool {
    artifact_of(c@.releases, v) is Some ==> checksum_of(c@.builds, v) is Some
}

/// Looks `version` up in the catalog: the URL of its artifact and its checksum;
/// `UnknownVersion` where the catalog has no artifact for it.
pub fn plan_download(releases: &Releases, version: &Version) -> (r: Result<
    DownloadPlan,
    YlemVmError,
>)
    requires
        checksums_cover(releases, version@),
    ensures
        r is Err <==> artifact_of(releases@.releases, version@) is None,
        r is Err ==> r matches Err(YlemVmError::UnknownVersion),
        r matches Ok(p) ==> {
            &&& p.artifact@ == artifact_of(releases@.releases, version@)->0
            &&& p.url@ == download_url(version@, p.artifact@)
            &&& p.checksum@ == checksum_of(releases@.builds, version@)->0
        },
{
    let artifact = match releases.get_artifact(version) {
        Some(a) => a.clone(),
        None => {
            return Err(YlemVmError::UnknownVersion);
        },
    };
    let checksum = match releases.get_checksum(version) {
        Some(c) => c,
        None => {
            return Err(YlemVmError::UnknownVersion);
        },
    };
    let url = artifact_url_text(version, artifact.as_str());
    Ok(DownloadPlan { url, artifact, checksum })
}

/// An HTTP status of success (2xx).
pub open spec fn is_success(status: u16) -> bool {
    200 <= status < 300
}

/// Decides on the answer to a download of `version` made by `plan`: a status outside
/// 2xx is `UnsuccessfulResponse` with the URL and status; otherwise the body is handed
/// back only where its SHA-256 digest is the recorded checksum, and is
/// `ChecksumMismatch` where it is not.
pub fn accept_download(plan: &DownloadPlan, version: &Version, status: u16, body: Vec<u8>) -> (r:
    Result<Vec<u8>, YlemVmError>)
    ensures
        !is_success(status) ==> (r matches Err(YlemVmError::UnsuccessfulResponse(u, s)) && u@
            == plan.url@ && s == status),
        is_success(status) ==> (r is Ok <==> sha256_of(body@) == plan.checksum@),
        is_success(status) && r is Err ==> digest_verdict(
            version@.text(),
            sha256_of(body@),
            plan.checksum@,
            Err(r->Err_0),
        ),
        r matches Ok(b) ==> b@ == body@ && sha256_of(b@) == plan.checksum@,
{
    if status < 200 || status >= 300 {
        return Err(YlemVmError::UnsuccessfulResponse(plan.url.clone(), status));
    }
    match ensure_checksum(body.as_slice(), version, plan.checksum.as_slice()) {
        Ok(()) => Ok(body),
        Err(e) => Err(e),
    }
}

/// Where and how a verified binary is put in place.
#[derive(Clone, Debug)]
pub struct InstallLayout {
    /// The version's directory under the data root.
    pub dir: String,
    /// The path of the installed binary.
    pub binary: String,
    /// The artifact is a zip archive to extract into `dir`, whose `ylem.exe` becomes
    /// the binary.
    pub extract_archive: bool,
    /// The binary's interpreter must be patched for NixOS.
    pub patch_for_nixos: bool,
}

/// Releases from 0.7.6 on are not fully static, so on NixOS they need their
/// interpreter patched; pre-releases never do.
pub open spec fn needs_nixos_patch(v: VersionView) -> bool {
    &&& v.pre.len() == 0
    &&& (v.major > 0 || (v.major == 0 && (v.minor > 7 || (v.minor == 7 && v.patch >= 6))))
}

/// Relies on semver::Comparator::matches with the `>=` operator: a version matches
/// `>=major.minor.patch` when its numbers are at least those and it has no pre-release
/// tag.
#[verifier::external_body]
fn matches_at_least(v: &Version, major: u64, minor: u64, patch: u64) -> (r: bool)
    requires
        v@.wf(),
    ensures
        r == (v@.pre.len() == 0 && (v@.major > major || (v@.major == major && (v@.minor > minor
            || (v@.minor == minor && v@.patch >= patch))))),
{
    let pre = semver::Prerelease::new(&v.pre).unwrap();
    let build = semver::BuildMetadata::new(&v.build).unwrap();
    let sv = semver::Version { major: v.major, minor: v.minor, patch: v.patch, pre, build };
    let op = semver::Op::GreaterEq;
    let min_pre = semver::Prerelease::EMPTY;
    let cmp = semver::Comparator { op, major, minor: Some(minor), patch: Some(patch), pre: min_pre };
    cmp.matches(&sv)
}

/// Where `version`, with artifact `artifact`, is installed under `data_dir` on
/// `platform`, and which steps the install takes.
pub fn install_layout(
    data_dir: &str,
    version: &Version,
    artifact: &str,
    platform: Platform,
    on_nixos: bool,
) -> (r: InstallLayout)
    requires
        version@.wf(),
    ensures
        r.dir@ == path_join(data_dir@, version@.text()),
        r.binary@ == path_join(r.dir@, binary_file_name(version@.text())),
        r.extract_archive == (platform == Platform::WindowsAmd64 && artifact@.len() >= 4
            && artifact@.subrange(artifact@.len() - 4, artifact@.len() as int) == ".zip"@),
        r.patch_for_nixos == (on_nixos && needs_nixos_patch(version@)),
{
    let t = version.to_text();
    let dir = version_path(data_dir, t.as_str());
    let name = binary_name(version);
    let binary = join_path(dir.as_str(), name.as_str());
    proof { reveal_strlit(".zip"); }
    let zip = text_ends_with(artifact, ".zip");
    let extract_archive = platform == Platform::WindowsAmd64 && zip;
    let patch_for_nixos = on_nixos && matches_at_least(version, 0, 7, 6);
    InstallLayout { dir, binary, extract_archive, patch_for_nixos }
}

/// The shell command that sets the binary's interpreter to NixOS's dynamic linker.
pub fn nixos_patch_script(binary: &str) -> (r: String)
    ensures
        r@ == "patchelf --set-interpreter \"$(cat $NIX_CC/nix-support/dynamic-linker)\" "@
            + binary@,
{
    let mut s = String::from_str(
        "patchelf --set-interpreter \"$(cat $NIX_CC/nix-support/dynamic-linker)\" ",
    );
    s.append(binary);
    s
}

/// The outcome of the interpreter patch of `binary`: the binary where the patch tool
/// succeeded, `CouldNotPatchForNixOs` with its output where it did not.
pub fn nixos_patch_outcome(binary: String, success: bool, stdout: String, stderr: String) -> (r:
    Result<String, YlemVmError>)
    ensures
        success ==> (r matches Ok(b) && b@ == binary@),
        !success ==> (r matches Err(YlemVmError::CouldNotPatchForNixOs(o, e)) && o@ == stdout@
            && e@ == stderr@),
{
    if success {
        Ok(binary)
    } else {
        Err(YlemVmError::CouldNotPatchForNixOs(stdout, stderr))
    }
}

} // verus!
