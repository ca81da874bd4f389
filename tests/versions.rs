use yvm_lib::platform::platform_of;
use yvm_lib::text::{decimal, join_path};
use yvm_lib::version::sort_versions;
use yvm_lib::{Platform, Version};

#[test]
fn version_text_round_trip() {
    for text in ["0.0.0", "1.1.2", "10.20.30", "1.0.0-alpha.1", "1.0.0+build.001", "1.0.0-rc.1+x-y"] {
        let v = Version::parse(text).unwrap();
        assert_eq!(v.to_text(), text);
    }
    let v = Version::parse("1.2.3-beta+exp").unwrap();
    assert_eq!((v.major, v.minor, v.patch), (1, 2, 3));
    assert_eq!(v.pre, "beta");
    assert_eq!(v.build, "exp");
}

#[test]
fn invalid_versions_do_not_parse() {
    for text in ["", "1", "1.2", "01.2.3", "1.2.3-", "1.2.3-01", "1.2.3+", "1.2.3 ", "v1.2.3", "1.2.3-a..b", "9.9.9\n"] {
        assert!(Version::parse(text).is_none(), "{text:?}");
    }
}

#[test]
fn version_order() {
    let order = [
        "0.7.1", "0.7.6", "1.0.0-alpha", "1.0.0-alpha.1", "1.0.0-alpha.beta", "1.0.0-beta",
        "1.0.0-beta.2", "1.0.0-beta.11", "1.0.0-rc.1", "1.0.0", "1.0.1", "1.1.0", "2.0.0",
    ];
    let mut shuffled: Vec<Version> = order.iter().rev().map(|t| Version::parse(t).unwrap()).collect();
    shuffled.swap(0, 5);
    let sorted: Vec<String> = sort_versions(shuffled).iter().map(|v| v.to_text()).collect();
    assert_eq!(sorted, order);
    for i in 0..order.len() {
        for j in 0..order.len() {
            let a = Version::parse(order[i]).unwrap();
            let b = Version::parse(order[j]).unwrap();
            assert_eq!(a == b, i == j);
        }
    }
}

#[test]
fn decimal_rendering() {
    assert_eq!(decimal(0), "0");
    assert_eq!(decimal(7), "7");
    assert_eq!(decimal(1234567890), "1234567890");
    assert_eq!(decimal(u64::MAX), "18446744073709551615");
}

#[test]
fn path_joining() {
    assert_eq!(join_path("/home/u/.yvm", "1.1.2"), "/home/u/.yvm/1.1.2");
    assert_eq!(join_path("/home/u/.yvm/", "1.1.2"), "/home/u/.yvm/1.1.2");
    assert_eq!(join_path("", "x"), "x");
}

#[test]
fn host_platforms() {
    assert_eq!(platform_of("linux", "x86_64"), Platform::LinuxAmd64);
    assert_eq!(platform_of("linux", "aarch64"), Platform::LinuxAarch64);
    assert_eq!(platform_of("macos", "x86_64"), Platform::MacOsAmd64);
    assert_eq!(platform_of("macos", "aarch64"), Platform::MacOsAarch64);
    assert_eq!(platform_of("windows", "x86_64"), Platform::WindowsAmd64);
    assert_eq!(platform_of("windows", "aarch64"), Platform::Unsupported);
    assert_eq!(platform_of("freebsd", "x86_64"), Platform::Unsupported);
    assert_eq!(Platform::LinuxAmd64.name(), "linux-amd64");
    assert_eq!(Platform::MacOsAarch64.name(), "macosx-aarch64");
    assert_eq!(Platform::Unsupported.name(), "Unsupported-platform");
}
