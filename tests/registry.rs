use yvm_lib::registry::{
    binary_name, binary_path, data_dir_in, lock_file_path, parse_global_version, pointer_content,
    versions_from_entries,
};
use yvm_lib::{global_version_path, version_path, Version, YlemVmError};

fn names(xs: &[&str]) -> Vec<String> {
    xs.iter().map(|x| x.to_string()).collect()
}

#[test]
fn data_root_layout() {
    let root = data_dir_in("/home/u");
    assert_eq!(root, "/home/u/.yvm");
    let v = Version::new(1, 1, 2);
    assert_eq!(version_path(&root, "1.1.2"), "/home/u/.yvm/1.1.2");
    assert_eq!(global_version_path(&root), "/home/u/.yvm/.global-version");
    assert_eq!(binary_name(&v), "ylem-1.1.2");
    assert_eq!(binary_path(&root, &v), "/home/u/.yvm/1.1.2/ylem-1.1.2");
    assert_eq!(lock_file_path(&root, &v), "/home/u/.yvm/.lock-ylem-1.1.2");
}

#[test]
fn installed_versions_sorted_without_pointer() {
    let listed = versions_from_entries(&names(&["1.1.2", ".global-version", "0.7.1", "1.0.0"])).unwrap();
    let texts: Vec<String> = listed.iter().map(|v| v.to_text()).collect();
    assert_eq!(texts, vec!["0.7.1", "1.0.0", "1.1.2"]);
}

#[test]
fn installed_versions_empty_root() {
    assert!(versions_from_entries(&names(&[])).unwrap().is_empty());
    assert!(versions_from_entries(&names(&[".global-version"])).unwrap().is_empty());
}

#[test]
fn installed_versions_rejects_foreign_entry() {
    match versions_from_entries(&names(&["1.1.2", "notes"])) {
        Err(YlemVmError::UnknownVersion) => {}
        other => panic!("unexpected {:?}", other),
    }
    assert!(versions_from_entries(&names(&[".lock-ylem-1.1.2"])).is_err());
}

#[test]
fn listing_follows_install_and_remove() {
    let v = Version::new(1, 1, 2);
    let mut entries = names(&[".global-version", "1.0.0"]);
    entries.push(v.to_text());
    assert!(versions_from_entries(&entries).unwrap().contains(&v));
    entries.retain(|e| *e != v.to_text());
    assert!(!versions_from_entries(&entries).unwrap().contains(&v));
}

#[test]
fn global_pointer_set_and_unset() {
    let v = Version::parse("1.1.2").unwrap();
    let written = pointer_content(Some(&v));
    assert_eq!(written, "1.1.2");
    assert_eq!(parse_global_version(&written), Some(v.clone()));
    let cleared = pointer_content(None);
    assert_eq!(cleared, "");
    assert_eq!(parse_global_version(&cleared), None);
}

#[test]
fn global_pointer_tolerates_newlines_and_junk() {
    assert_eq!(parse_global_version("0.7.6\n\n"), Some(Version::new(0, 7, 6)));
    assert_eq!(parse_global_version("garbage"), None);
    assert_eq!(parse_global_version("\n"), None);
}
