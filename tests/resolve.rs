use cargo_dl::acquire::no_match_message;
use cargo_dl::resolve::{non_semver_releases, select_version, NoMatchingVersion, Release};

fn release(version: &str, yanked: bool) -> Release {
    Release { name: "foo".to_string(), version: version.to_string(), yanked, checksum: vec![0; 32] }
}

fn index() -> Vec<Release> {
    vec![release("1.0.0", false), release("1.1.0", false), release("1.2.0-pre", false), release("2.0.0", true)]
}

#[test]
fn select_without_requirement_skips_prerelease_and_yanked() {
    assert_eq!(select_version(&index(), false, "*"), Ok(1));
}

#[test]
fn select_caret_one() {
    assert_eq!(select_version(&index(), false, "^1"), Ok(1));
}

#[test]
fn select_caret_two_reports_yanked_match() {
    let rs = index();
    let err = select_version(&rs, false, "^2").unwrap_err();
    assert_eq!(err, NoMatchingVersion { yanked: Some(3) });
    let msg = no_match_message(&rs, err);
    assert_eq!(msg, "no matching version found; the yanked version foo 2.0.0 matched, use `--allow-yanked` to download it");
}

#[test]
fn select_caret_two_allowing_yanked() {
    assert_eq!(select_version(&index(), true, "^2"), Ok(3));
}

#[test]
fn select_without_any_match() {
    let rs = index();
    let err = select_version(&rs, true, "^3").unwrap_err();
    assert_eq!(err, NoMatchingVersion { yanked: None });
    assert_eq!(no_match_message(&rs, err), "no matching version found");
}

#[test]
fn select_ignores_non_semver_versions() {
    let rs = vec![release("1.0.0", false), release("1.5", false), release("banana", false)];
    assert_eq!(select_version(&rs, false, "*"), Ok(0));
    assert_eq!(non_semver_releases(&rs), vec![1, 2]);
}

#[test]
fn select_prefers_highest_in_any_order() {
    let rs = vec![release("0.9.3", false), release("0.10.0", false), release("0.9.12", false)];
    assert_eq!(select_version(&rs, false, "*"), Ok(1));
    assert_eq!(select_version(&rs, false, "~0.9"), Ok(2));
}

#[test]
fn select_prerelease_when_requested() {
    assert_eq!(select_version(&index(), false, ">=1.2.0-pre"), Ok(2));
}

#[test]
fn select_empty_index() {
    assert_eq!(select_version(&Vec::new(), true, "*"), Err(NoMatchingVersion { yanked: None }));
}
