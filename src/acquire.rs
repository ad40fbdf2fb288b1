use vstd::prelude::*;
use vstd::string::*;
use crate::resolve::{Release, NoMatchingVersion};

verus! {

/// The largest response body read for one archive, in bytes.
pub const CRATE_SIZE_LIMIT: u64 = 41943040;

/// The SHA-256 digest of a byte sequence, as `sha2::Sha256` computes it.
pub uninterp spec fn sha256_of(data: Seq<u8>) -> Seq<u8>;

/// Relies on `sha2::Sha256::digest`: the digest of the bytes, 32 bytes long.
#[verifier::external_body]
fn sha256(data: &[u8]) -> (r: Vec<u8>)
    ensures
        r@ == sha256_of(data@),
        r@.len() == 32,
{
    <sha2::Sha256 as sha2::Digest>::digest(data).to_vec()
}

/// Whether two byte sequences are equal.
pub fn bytes_equal(a: &[u8], b: &[u8]) -> (r: bool)
    ensures
        r == (a@ == b@),
{
    if a.len() != b.len() {
        return false;
    }
    let mut i: usize = 0;
    while i < a.len()
        invariant
            a@.len() == b@.len(),
            i <= a@.len(),
            forall|j: int| 0 <= j < i ==> a@[j] == b@[j],
        decreases a@.len() - i,
    {
        if a[i] != b[i] {
            return false;
        }
        i = i + 1;
    }
    assert(a@ =~= b@);
    true
}

/// Whether the fetched bytes have the checksum that the index recorded.
pub fn checksum_matches(data: &[u8], recorded: &[u8]) -> (r: bool)
    ensures
        r == (sha256_of(data@) == recorded@),
{
    let digest = sha256(data);
    bytes_equal(digest.as_slice(), recorded)
}

/// A command line that cannot be carried out.
#[derive(Debug, Clone, Copy, PartialEq, Eq, Structural)]
pub enum UsageError {
    /// An explicit output path was given for more than one crate.
    OutputWithMultipleCrates,
}

/// Rejects an explicit output path together with more than one spec.
pub fn check_usage(n_specs: usize, has_output: bool) -> (r: Result<(), UsageError>)
    ensures
        r is Err <==> (n_specs > 1 && has_output),
{
    if n_specs > 1 && has_output {
        Err(UsageError::OutputWithMultipleCrates)
    } else {
        Ok(())
    }
}

/// The text of a usage error.
pub fn usage_message(e: UsageError) -> (r: String)
    ensures
        r@ == "cannot use --output with multiple crates"@,
{
    String::from_str("cannot use --output with multiple crates")
}

/// `NAME-VERSION`.
pub open spec fn release_stem(name: Seq<char>, version: Seq<char>) -> Seq<char> {
    name + "-"@ + version
}

/// `NAME-VERSION.crate`, the file name of an archive in the registry cache and the
/// default output file.
pub open spec fn archive_file(name: Seq<char>, version: Seq<char>) -> Seq<char> {
    release_stem(name, version) + ".crate"@
}

pub fn stem_of(name: &str, version: &str) -> (r: String)
    ensures
        r@ == release_stem(name@, version@),
{
    let mut s = String::from_str(name);
    s.append("-");
    s.append(version);
    s
}

pub fn archive_file_name(name: &str, version: &str) -> (r: String)
    ensures
        r@ == archive_file(name@, version@),
{
    let mut s = stem_of(name, version);
    s.append(".crate");
    s
}

/// Where a release is written: the explicit path if given, else `NAME-VERSION` when
/// extracting, else `NAME-VERSION.crate`.
pub open spec fn output_path_of(explicit: Option<Seq<char>>, extract: bool, name: Seq<char>, version: Seq<char>) -> Seq<char> {
    match explicit {
        Some(p) => p,
        None => if extract {
            release_stem(name, version)
        } else {
            archive_file(name, version)
        },
    }
}

pub fn output_path(explicit: &Option<String>, extract: bool, name: &str, version: &str) -> (r: String)
    ensures
        r@ == output_path_of(
            match explicit {
                Some(p) => Some(p@),
                None => None,
            },
            extract,
            name@,
            version@,
        ),
{
    match explicit {
        Some(p) => String::from_str(p.as_str()),
        None => if extract {
            stem_of(name, version)
        } else {
            archive_file_name(name, version)
        },
    }
}

/// Where the archive bytes come from.
#[derive(Debug, Clone, Copy, PartialEq, Eq, Structural)]
pub enum Source {
    Cache,
    Network,
}

/// The registry cache is used only when enabled and it holds the archive.
pub fn choose_source(cache_enabled: bool, cached: bool) -> (r: Source)
    ensures
        r == (if cache_enabled && cached { Source::Cache } else { Source::Network }),
{
    if cache_enabled && cached {
        Source::Cache
    } else {
        Source::Network
    }
}

/// What is done with the archive bytes.
#[derive(Debug, Clone, Copy, PartialEq, Eq, Structural)]
pub enum Materialize {
    /// Copy the cached file to the output path.
    Copy,
    /// Write the fetched bytes to the output path.
    Write,
    /// Unpack the archive into the output directory.
    Extract,
    /// Stop: the fetched bytes do not have the recorded checksum.
    RejectChecksum,
}

/// The step after the bytes are at hand. Fetched bytes are used only when their
/// checksum matches; a cached archive is taken as already verified.
pub fn materialize_step(source: Source, extract: bool, checksum_ok: bool) -> (r: Materialize)
    ensures
        source == Source::Network && !checksum_ok ==> r == Materialize::RejectChecksum,
        (source == Source::Cache || checksum_ok) ==> r == (if extract {
            Materialize::Extract
        } else if source == Source::Cache {
            Materialize::Copy
        } else {
            Materialize::Write
        }),
{
    if source == Source::Network && !checksum_ok {
        Materialize::RejectChecksum
    } else if extract {
        Materialize::Extract
    } else if source == Source::Cache {
        Materialize::Copy
    } else {
        Materialize::Write
    }
}

pub open spec fn no_match_text(yanked: Option<(Seq<char>, Seq<char>)>) -> Seq<char> {
    match yanked {
        None => "no matching version found"@,
        Some((n, v)) => "no matching version found; the yanked version "@ + n + " "@ + v
            + " matched, use `--allow-yanked` to download it"@,
    }
}

/// The diagnostic shown when no version could be selected.
pub fn no_match_message(releases: &Vec<Release>, e: NoMatchingVersion) -> (r: String)
    requires
        e.yanked matches Some(k) ==> k < releases@.len(),
    ensures
        r@ == no_match_text(
            match e.yanked {
                Some(k) => Some((releases@[k as int].name@, releases@[k as int].version@)),
                None => None,
            },
        ),
{
    match e.yanked {
        None => String::from_str("no matching version found"),
        Some(k) => {
            let mut s = String::from_str("no matching version found; the yanked version ");
            s.append(releases[k].name.as_str());
            s.append(" ");
            s.append(releases[k].version.as_str());
            s.append(" matched, use `--allow-yanked` to download it");
            s
        },
    }
}

/// The last message of a line that succeeded.
pub open spec fn done_text(extract: bool, label: Seq<char>, output: Seq<char>) -> Seq<char> {
    (if extract { "extracted "@ } else { "written "@ }) + label + " to "@ + output
}

pub fn done_message(extract: bool, label: &str, output: &str) -> (r: String)
    ensures
        r@ == done_text(extract, label@, output@),
{
    let mut s = if extract { String::from_str("extracted ") } else { String::from_str("written ") };
    s.append(label);
    s.append(" to ");
    s.append(output);
    s
}

/// How one worker ended.
#[derive(Debug, Clone, Copy, PartialEq, Eq, Structural)]
pub enum Outcome {
    Succeeded,
    /// The user has seen the reason on the worker's line.
    UserReportedFailure,
    /// An error that must be shown with the spec it belongs to.
    Propagated,
    /// The worker panicked.
    Panicked,
}

/// What the whole run ends in.
#[derive(Debug, Clone, Copy, PartialEq, Eq, Structural)]
pub enum Verdict {
    Success,
    /// Exit with an error whose reasons were already shown.
    ReportedFailure,
    /// Surface the error of this spec, with its context.
    Propagate(usize),
    /// Re-raise the panic of this spec.
    Panic(usize),
}

pub open spec fn first_of(os: Seq<Outcome>, o: Outcome) -> Option<int> {
    if exists|i: int| 0 <= i < os.len() && os[i] == o {
        Some(choose|i: int| 0 <= i < os.len() && os[i] == o && forall|j: int| 0 <= j < i ==> os[j] != o)
    } else {
        None
    }
}

/// A panic wins over a propagated error, which wins over a failure already shown;
/// among outcomes of one kind the first spec's counts.
pub open spec fn verdict_of(os: Seq<Outcome>) -> Verdict {
    match first_of(os, Outcome::Panicked) {
        Some(i) => Verdict::Panic(i as usize),
        None => match first_of(os, Outcome::Propagated) {
            Some(i) => Verdict::Propagate(i as usize),
            None => if exists|i: int| 0 <= i < os.len() && os[i] == Outcome::UserReportedFailure {
                Verdict::ReportedFailure
            } else {
                Verdict::Success
            },
        },
    }
}

fn find_first(os: &Vec<Outcome>, o: Outcome) -> (r: Option<usize>)
    ensures
        match r {
            Some(i) => first_of(os@, o) == Some(i as int),
            None => first_of(os@, o) is None,
        },
{
    let mut i: usize = 0;
    while i < os.len()
        invariant
            i <= os@.len(),
            forall|j: int| 0 <= j < i ==> os@[j] != o,
        decreases os@.len() - i,
    {
        if os[i] == o {
            proof {
                let c = choose|c: int|
                    0 <= c < os@.len() && os@[c] == o && forall|j: int| 0 <= j < c ==> os@[j] != o;
                assert(0 <= c < os@.len() && os@[c] == o && forall|j: int| 0 <= j < c ==> os@[j] != o) by {
                    assert(0 <= i < os@.len() && os@[i as int] == o);
                }
                if c < i {
                } else if c > i {
                    assert(os@[i as int] != o);
                }
            }
            return Some(i);
        }
        i = i + 1;
    }
    None
}

/// Combines the outcomes of all workers, in spec order.
pub fn aggregate(outcomes: &Vec<Outcome>) -> (r: Verdict)
    ensures
        r == verdict_of(outcomes@),
{
    match find_first(outcomes, Outcome::Panicked) {
        Some(i) => Verdict::Panic(i),
        None => match find_first(outcomes, Outcome::Propagated) {
            Some(i) => Verdict::Propagate(i),
            None => match find_first(outcomes, Outcome::UserReportedFailure) {
                Some(i) => {
                    assert(first_of(outcomes@, Outcome::UserReportedFailure) == Some(i as int));
                    Verdict::ReportedFailure
                },
                None => Verdict::Success,
            },
        },
    }
}

} // verus!
