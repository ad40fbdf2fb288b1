use cargo_dl::unpack::{check_entry, clamp_mode, escapes_target, EntryKind};

fn comps(parts: &[&str]) -> Vec<String> {
    parts.iter().map(|p| p.to_string()).collect()
}

#[test]
fn entry_strips_top_level_directory() {
    let dest = check_entry(EntryKind::File, &comps(&["serde-1.0.0", "src", "lib.rs"]), &vec![]).unwrap();
    assert_eq!(dest, comps(&["src", "lib.rs"]));
    let dest = check_entry(EntryKind::Directory, &comps(&["serde-1.0.0"]), &vec![]).unwrap();
    assert!(dest.is_empty());
}

#[test]
fn absolute_entry_rejected() {
    let err = check_entry(EntryKind::File, &comps(&["/", "etc", "passwd"]), &vec![]).unwrap_err();
    assert_eq!(err.entry, comps(&["/", "etc", "passwd"]));
}

#[test]
fn parent_entry_rejected() {
    assert!(check_entry(EntryKind::File, &comps(&["serde-1.0.0", "..", "..", "x"]), &vec![]).is_err());
    assert!(check_entry(EntryKind::File, &comps(&["serde-1.0.0", "a", "..", "b"]), &vec![]).is_err());
}

#[test]
fn escaping_symlink_rejected() {
    let path = comps(&["serde-1.0.0", "link"]);
    assert!(check_entry(EntryKind::Symlink, &path, &comps(&["..", "x"])).is_err());
    assert!(check_entry(EntryKind::Symlink, &path, &comps(&["/", "etc"])).is_err());
    assert!(check_entry(EntryKind::Symlink, &comps(&["serde-1.0.0"]), &comps(&["x"])).is_err());
}

#[test]
fn inner_symlink_accepted() {
    let path = comps(&["serde-1.0.0", "a", "link"]);
    let dest = check_entry(EntryKind::Symlink, &path, &comps(&["..", "b", ".", "c"])).unwrap();
    assert_eq!(dest, comps(&["a", "link"]));
}

#[test]
fn escape_depth_counting() {
    assert!(!escapes_target(1, &comps(&[".."])));
    assert!(escapes_target(1, &comps(&["..", ".."])));
    assert!(!escapes_target(0, &comps(&["a", "..", "b"])));
    assert!(escapes_target(0, &comps(&["a", "..", ".."])));
    assert!(!escapes_target(0, &vec![]));
}

#[test]
fn mode_clamped() {
    assert_eq!(clamp_mode(0o4755), 0o755);
    assert_eq!(clamp_mode(0o7000), 0o400);
    assert_eq!(clamp_mode(0o044), 0o444);
    assert_eq!(clamp_mode(0o1777), 0o777);
}
