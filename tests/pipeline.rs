use sha2::{Digest, Sha256};
use yvm_lib::checksum::{decode_checksum, ensure_checksum, to_hex};
use yvm_lib::pipeline::{
    accept_download, install_layout, nixos_patch_outcome, nixos_patch_script, plan_download,
};
use yvm_lib::{Platform, ReleaseManifest, Releases, Version, YlemVmError};

const ABC_SHA256: &str = "ba7816bf8f01cfea414140de5dae2223b00361a396177a9cb410ff61f20015ad";

fn linux_catalog(checksum: &str) -> Releases {
    let m = ReleaseManifest {
        builds: vec![(Version::new(1, 1, 2), checksum.to_string())],
        releases: vec![(Version::new(1, 1, 2), "ylem-linux-amd64".to_string())],
    };
    Releases::from_manifest(&m).unwrap()
}

#[test]
fn sha256_of_known_input() {
    let v = Version::new(1, 0, 0);
    let expected = decode_checksum(ABC_SHA256).unwrap();
    assert!(ensure_checksum(b"abc", &v, &expected).is_ok());
    match ensure_checksum(b"abd", &v, &expected) {
        Err(YlemVmError::ChecksumMismatch { version, expected: e, actual }) => {
            assert_eq!(version, "1.0.0");
            assert_eq!(e, ABC_SHA256);
            assert_ne!(actual, ABC_SHA256);
            assert_eq!(actual.len(), 64);
        }
        other => panic!("unexpected {:?}", other),
    }
}

#[test]
fn decode_checksum_prefixes() {
    assert_eq!(decode_checksum("0x0aFF"), Some(vec![0x0a, 0xff]));
    assert_eq!(decode_checksum("0x0x01"), Some(vec![0x01]));
    assert_eq!(decode_checksum(""), Some(vec![]));
    assert_eq!(decode_checksum("0x1"), None);
    assert_eq!(to_hex(&decode_checksum("0xABCD").unwrap()), "abcd");
}

#[test]
fn install_known_version_on_linux() {
    let body = b"abc".to_vec();
    let catalog = linux_catalog(ABC_SHA256);
    let version = Version::parse("1.1.2").unwrap();
    let plan = plan_download(&catalog, &version).unwrap();
    assert_eq!(plan.artifact, "ylem-linux-amd64");
    assert_eq!(plan.url, "https://github.com/core-coin/ylem/releases/download/1.1.2/ylem-linux-amd64");
    let bytes = accept_download(&plan, &version, 200, body.clone()).unwrap();
    assert_eq!(bytes, body);
    assert_eq!(to_hex(&sha2_digest(&bytes)), ABC_SHA256);
    let layout = install_layout("/root/.yvm", &version, &plan.artifact, Platform::LinuxAmd64, false);
    assert_eq!(layout.dir, "/root/.yvm/1.1.2");
    assert_eq!(layout.binary, "/root/.yvm/1.1.2/ylem-1.1.2");
    assert!(!layout.extract_archive);
    assert!(!layout.patch_for_nixos);
}

fn sha2_digest(b: &[u8]) -> Vec<u8> {
    Sha256::digest(b).to_vec()
}

#[test]
fn install_unknown_version() {
    let catalog = linux_catalog(ABC_SHA256);
    let version = Version::parse("9.9.9").unwrap();
    match plan_download(&catalog, &version) {
        Err(YlemVmError::UnknownVersion) => {}
        other => panic!("unexpected {:?}", other),
    }
}

#[test]
fn tampered_artifact_is_rejected() {
    let catalog = linux_catalog(ABC_SHA256);
    let version = Version::new(1, 1, 2);
    let plan = plan_download(&catalog, &version).unwrap();
    let mut body = b"abc".to_vec();
    body[0] ^= 1;
    match accept_download(&plan, &version, 200, body) {
        Err(YlemVmError::ChecksumMismatch { version, expected, actual }) => {
            assert_eq!(version, "1.1.2");
            assert_eq!(expected, ABC_SHA256);
            assert_ne!(actual, expected);
        }
        other => panic!("unexpected {:?}", other),
    }
}

#[test]
fn unsuccessful_status_is_reported() {
    let catalog = linux_catalog(ABC_SHA256);
    let version = Version::new(1, 1, 2);
    let plan = plan_download(&catalog, &version).unwrap();
    match accept_download(&plan, &version, 404, b"abc".to_vec()) {
        Err(YlemVmError::UnsuccessfulResponse(url, status)) => {
            assert_eq!(url, plan.url);
            assert_eq!(status, 404);
        }
        other => panic!("unexpected {:?}", other),
    }
    assert!(accept_download(&plan, &version, 299, b"abc".to_vec()).is_ok());
    assert!(accept_download(&plan, &version, 300, b"abc".to_vec()).is_err());
}

#[test]
fn install_layout_steps() {
    let old = Version::parse("0.7.1").unwrap();
    let zip = install_layout("C:/yvm", &old, "ylem-windows-amd64.zip", Platform::WindowsAmd64, false);
    assert!(zip.extract_archive);
    let raw = install_layout("/d", &old, "ylem-windows-amd64.zip", Platform::LinuxAmd64, false);
    assert!(!raw.extract_archive);
    assert!(!install_layout("/d", &Version::new(0, 7, 5), "a", Platform::LinuxAmd64, true).patch_for_nixos);
    assert!(install_layout("/d", &Version::new(0, 7, 6), "a", Platform::LinuxAmd64, true).patch_for_nixos);
    assert!(install_layout("/d", &Version::new(1, 1, 2), "a", Platform::LinuxAmd64, true).patch_for_nixos);
    assert!(!install_layout("/d", &Version::new(1, 1, 2), "a", Platform::LinuxAmd64, false).patch_for_nixos);
    let pre = Version::parse("1.0.0-rc.1").unwrap();
    assert!(!install_layout("/d", &pre, "a", Platform::LinuxAmd64, true).patch_for_nixos);
}

#[test]
fn nixos_patch_command_and_outcome() {
    assert_eq!(
        nixos_patch_script("/d/1.1.2/ylem-1.1.2"),
        "patchelf --set-interpreter \"$(cat $NIX_CC/nix-support/dynamic-linker)\" /d/1.1.2/ylem-1.1.2"
    );
    assert_eq!(nixos_patch_outcome("b".into(), true, String::new(), String::new()).unwrap(), "b");
    match nixos_patch_outcome("b".into(), false, "out".into(), "err".into()) {
        Err(YlemVmError::CouldNotPatchForNixOs(o, e)) => assert_eq!((o.as_str(), e.as_str()), ("out", "err")),
        other => panic!("unexpected {:?}", other),
    }
}
