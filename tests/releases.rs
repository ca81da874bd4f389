use yvm_lib::checksum::to_hex;
use yvm_lib::releases::artifact_url_text;
use yvm_lib::{
    all_releases, artifact_url, parse_error_msg, Platform, ReleaseManifest, ReleaseTables,
    Releases, Version, YlemVmError,
};

const YLEM_RELEASES_URL: &str = "https://github.com/core-coin/ylem/releases/download";

fn v(text: &str) -> Version {
    Version::parse(text).unwrap()
}

fn catalog(entries: &[(&str, &str, &str)]) -> Releases {
    let manifest = ReleaseManifest {
        builds: entries.iter().map(|(ver, _, sum)| (v(ver), sum.to_string())).collect(),
        releases: entries.iter().map(|(ver, art, _)| (v(ver), art.to_string())).collect(),
    };
    Releases::from_manifest(&manifest).unwrap()
}

fn tables() -> ReleaseTables {
    let sum = "0x6d2f1b2d5c2b58f0c8aa5ff4f1ff2de2cbd1bd6c4e5d0e8cc7cd7c0d1ad4e5f6";
    ReleaseTables {
        linux_amd64: catalog(&[("1.1.2", "ylem-linux-amd64", sum), ("1.0.0", "ylem-linux-amd64", sum)]),
        linux_aarch64: catalog(&[("1.1.2", "ylem-linux-arm64", sum)]),
        macos_amd64: catalog(&[("1.1.2", "ylem-darwin-x86_64", sum)]),
        macos_aarch64: catalog(&[("1.0.0", "ylem-darwin-arm64", sum), ("1.1.2", "ylem-darwin-arm64", sum)]),
        windows_amd64: catalog(&[("0.7.1", "ylem-windows-amd64.zip", sum)]),
    }
}

#[test]
fn test_artifact_url() {
    let version = Version::new(1, 1, 2);
    let artifact = "ylem-linux-arm64";
    assert_eq!(
        artifact_url(Platform::LinuxAarch64, &version, artifact).unwrap(),
        url::Url::parse(&format!(
            "https://github.com/core-coin/ylem/releases/download/1.1.2/ylem-linux-arm64"
        ))
        .unwrap(),
    )
}

#[test]
fn test_macos_aarch64() {
    let t = tables();
    let releases = all_releases(&t, Platform::MacOsAarch64)
        .expect("could not fetch releases for macos-aarch64");
    let rosetta = Version::new(1, 0, 0);
    let url1 = artifact_url(
        Platform::MacOsAarch64,
        &rosetta,
        releases.get_artifact(&rosetta).unwrap(),
    )
    .expect("could not fetch artifact URL");
    assert!(url1.to_string().contains(YLEM_RELEASES_URL));
}

#[test]
fn test_all_releases_macos_amd64() {
    assert!(all_releases(&tables(), Platform::MacOsAmd64).is_ok());
}

#[test]
fn test_all_releases_macos_aarch64() {
    assert!(all_releases(&tables(), Platform::MacOsAarch64).is_ok());
}

#[test]
fn test_all_releases_linux_amd64() {
    assert!(all_releases(&tables(), Platform::LinuxAmd64).is_ok());
}

#[test]
fn test_all_releases_linux_aarch64() {
    assert!(all_releases(&tables(), Platform::LinuxAarch64).is_ok());
}

#[test]
fn all_releases_unsupported_platform() {
    match all_releases(&tables(), Platform::Unsupported) {
        Err(YlemVmError::UnsupportedOs(name)) => assert_eq!(name, "Unsupported-platform"),
        other => panic!("unexpected {:?}", other),
    }
}

fn same_catalog(a: &Releases, b: &Releases) -> bool {
    a.builds.len() == b.builds.len()
        && a.releases.len() == b.releases.len()
        && a.builds.iter().zip(b.builds.iter()).all(|(x, y)| x.version == y.version && x.sha256 == y.sha256)
        && a.releases.iter().zip(b.releases.iter()).all(|(x, y)| x.version == y.version && x.artifact == y.artifact)
}

#[test]
fn releases_roundtrip() {
    let t = tables();
    let releases = all_releases(&t, Platform::LinuxAmd64).unwrap();
    let s = releases.to_manifest();
    let de_releases = Releases::from_manifest(&s).unwrap();
    assert!(same_catalog(releases, &de_releases));
}

#[test]
fn manifest_checksums_are_lower_hex() {
    let c = catalog(&[("1.0.0", "a", "0xABCD")]);
    assert_eq!(c.builds[0].sha256, vec![0xab, 0xcd]);
    let m = c.to_manifest();
    assert_eq!(m.builds[0].1, "abcd");
}

#[test]
fn catalog_orders_versions_ascending() {
    let c = catalog(&[
        ("1.1.2", "x", "00"),
        ("0.7.1", "y", "01"),
        ("1.0.0-rc.1", "z", "02"),
        ("1.0.0", "w", "03"),
    ]);
    let versions: Vec<String> = c.into_versions().iter().map(|x| x.to_text()).collect();
    assert_eq!(versions, vec!["0.7.1", "1.0.0-rc.1", "1.0.0", "1.1.2"]);
}

#[test]
fn catalog_later_duplicate_wins() {
    let manifest = ReleaseManifest {
        builds: vec![],
        releases: vec![(v("1.0.0"), "first".to_string()), (v("1.0.0"), "second".to_string())],
    };
    let c = Releases::from_manifest(&manifest).unwrap();
    assert_eq!(c.releases.len(), 1);
    assert_eq!(c.get_artifact(&v("1.0.0")).unwrap(), "second");
}

#[test]
fn invalid_checksum_is_rejected() {
    let manifest = ReleaseManifest {
        builds: vec![(v("1.0.0"), "0xzz".to_string())],
        releases: vec![],
    };
    match Releases::from_manifest(&manifest) {
        Err(YlemVmError::InvalidChecksum(t)) => assert_eq!(t, "0xzz"),
        other => panic!("unexpected {:?}", other),
    }
    let odd = ReleaseManifest { builds: vec![(v("1.0.0"), "abc".to_string())], releases: vec![] };
    assert!(Releases::from_manifest(&odd).is_err());
}

#[test]
fn checksum_lookup() {
    let c = catalog(&[("1.0.0", "a", "0102")]);
    assert_eq!(c.get_checksum(&v("1.0.0")), Some(vec![1, 2]));
    assert_eq!(c.get_checksum(&v("2.0.0")), None);
    assert!(c.get_artifact(&v("2.0.0")).is_none());
}

#[test]
fn url_text_and_error_message() {
    assert_eq!(
        artifact_url_text(&v("1.1.2"), "ylem-linux-amd64"),
        "https://github.com/core-coin/ylem/releases/download/1.1.2/ylem-linux-amd64"
    );
    assert_eq!(
        parse_error_msg("Linux Amd"),
        "Failed to parse ylem releases for Linux Amd. Please contact maintainers"
    );
    assert_eq!(to_hex(&[0x00, 0xff, 0x10]), "00ff10");
}

#[test]
fn checksum_without_artifact_is_rejected() {
    let manifest = ReleaseManifest {
        builds: vec![(v("1.0.0"), "00".to_string()), (v("2.0.0"), "01".to_string())],
        releases: vec![(v("1.0.0"), "a".to_string())],
    };
    match Releases::from_manifest(&manifest) {
        Err(YlemVmError::ChecksumWithoutArtifact(t)) => assert_eq!(t, "2.0.0"),
        other => panic!("unexpected {:?}", other),
    }
    let artifact_only = ReleaseManifest {
        builds: vec![],
        releases: vec![(v("1.0.0"), "a".to_string())],
    };
    assert!(Releases::from_manifest(&artifact_only).is_ok());
}

#[test]
fn artifact_url_is_the_parsed_text() {
    let version = v("0.7.1");
    let url = artifact_url(Platform::WindowsAmd64, &version, "ylem-windows-amd64.zip").unwrap();
    assert_eq!(url.as_str(), artifact_url_text(&version, "ylem-windows-amd64.zip"));
}
