use cargo_dl::acquire::{
    aggregate, archive_file_name, bytes_equal, check_usage, checksum_matches, choose_source, done_message,
    materialize_step, output_path, usage_message, Materialize, Outcome, Source, UsageError, Verdict,
    CRATE_SIZE_LIMIT,
};

fn abc_digest() -> Vec<u8> {
    let hex = "ba7816bf8f01cfea414140de5dae2223b00361a396177a9cb410ff61f20015ad";
    (0..32).map(|i| u8::from_str_radix(&hex[2 * i..2 * i + 2], 16).unwrap()).collect()
}

#[test]
fn checksum_of_known_input() {
    assert!(checksum_matches(b"abc", &abc_digest()));
    assert!(!checksum_matches(b"abd", &abc_digest()));
    assert!(!checksum_matches(b"abc", b"abc"));
}

#[test]
fn bytes_compare() {
    assert!(bytes_equal(b"", b""));
    assert!(!bytes_equal(b"a", b"ab"));
    assert!(!bytes_equal(b"ab", b"ac"));
}

#[test]
fn output_with_two_specs_rejected() {
    assert_eq!(check_usage(2, true), Err(UsageError::OutputWithMultipleCrates));
    assert_eq!(check_usage(2, false), Ok(()));
    assert_eq!(check_usage(1, true), Ok(()));
    assert_eq!(usage_message(UsageError::OutputWithMultipleCrates), "cannot use --output with multiple crates");
}

#[test]
fn output_paths() {
    assert_eq!(archive_file_name("serde", "1.0.1"), "serde-1.0.1.crate");
    assert_eq!(output_path(&None, false, "serde", "1.0.1"), "serde-1.0.1.crate");
    assert_eq!(output_path(&None, true, "serde", "1.0.1"), "serde-1.0.1");
    assert_eq!(output_path(&Some("out".to_string()), true, "serde", "1.0.1"), "out");
}

#[test]
fn source_and_materialize_steps() {
    assert_eq!(choose_source(true, true), Source::Cache);
    assert_eq!(choose_source(false, true), Source::Network);
    assert_eq!(choose_source(true, false), Source::Network);
    assert_eq!(materialize_step(Source::Cache, false, false), Materialize::Copy);
    assert_eq!(materialize_step(Source::Cache, true, false), Materialize::Extract);
    assert_eq!(materialize_step(Source::Network, false, true), Materialize::Write);
    assert_eq!(materialize_step(Source::Network, true, true), Materialize::Extract);
    assert_eq!(materialize_step(Source::Network, true, false), Materialize::RejectChecksum);
}

#[test]
fn done_messages() {
    assert_eq!(done_message(false, "serde 1.0.1", "serde-1.0.1.crate"), "written serde 1.0.1 to serde-1.0.1.crate");
    assert_eq!(done_message(true, "serde 1.0.1", "x"), "extracted serde 1.0.1 to x");
}

#[test]
fn verdicts() {
    assert_eq!(aggregate(&vec![]), Verdict::Success);
    assert_eq!(aggregate(&vec![Outcome::Succeeded, Outcome::Succeeded]), Verdict::Success);
    assert_eq!(aggregate(&vec![Outcome::Succeeded, Outcome::UserReportedFailure]), Verdict::ReportedFailure);
    assert_eq!(aggregate(&vec![Outcome::UserReportedFailure, Outcome::Propagated, Outcome::Propagated]), Verdict::Propagate(1));
    assert_eq!(aggregate(&vec![Outcome::Propagated, Outcome::Succeeded, Outcome::Panicked, Outcome::Panicked]), Verdict::Panic(2));
}

#[test]
fn size_limit_is_forty_mebibytes() {
    assert_eq!(CRATE_SIZE_LIMIT, 40 * 1024 * 1024);
}
