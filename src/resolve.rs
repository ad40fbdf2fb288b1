use vstd::prelude::*;
use vstd::string::*;

verus! {

/// Whether `semver::Version::parse` accepts the text.
pub uninterp spec fn version_valid(s: Seq<char>) -> bool;

/// Whether the requirement text, parsed by semver, matches the version text; false
/// where either does not parse.
pub uninterp spec fn req_matches(req: Seq<char>, version: Seq<char>) -> bool;

/// Whether the first version text precedes the second in semver's order; false where
/// either does not parse.
pub uninterp spec fn version_lt(a: Seq<char>, b: Seq<char>) -> bool;

/// Relies on `semver::Version::parse`: whether the text is a semver version.
#[verifier::external_body]
fn is_semver(s: &str) -> (r: bool)
    ensures
        r == version_valid(s@),
{
    semver::Version::parse(s).is_ok()
}

/// Relies on `semver::VersionReq::matches`, on both texts as semver parses them.
#[verifier::external_body]
fn requirement_matches(req: &str, version: &str) -> (r: bool)
    ensures
        r == req_matches(req@, version@),
{
    match (semver::VersionReq::parse(req), semver::Version::parse(version)) {
        (Ok(req), Ok(version)) => req.matches(&version),
        _ => false,
    }
}

/// Relies on the `Ord` of `semver::Version`, a total order: `<` is asymmetric and
/// transitive.
#[verifier::external_body]
fn version_less(a: &str, b: &str) -> (r: bool)
    ensures
        r == version_lt(a@, b@),
        r ==> !version_lt(b@, a@),
        r ==> forall|c: Seq<char>| #[trigger] version_lt(b@, c) ==> version_lt(a@, c),
{
    match (semver::Version::parse(a), semver::Version::parse(b)) {
        (Ok(a), Ok(b)) => a < b,
        _ => false,
    }
}

/// One published version of a crate, as the registry index lists it.
#[derive(Debug, Clone)]
pub struct Release {
    pub name: String,
    pub version: String,
    pub yanked: bool,
    pub checksum: Vec<u8>,
}

/// Which releases take part in a selection.
#[derive(Debug, Clone, Copy, PartialEq, Eq, Structural)]
pub enum YankPolicy {
    /// Releases that are not yanked.
    Exclude,
    /// All releases.
    Allow,
    /// Yanked releases only (for the diagnostic when nothing else matched).
    Only,
}

pub open spec fn policy_admits(policy: YankPolicy, yanked: bool) -> bool {
    match policy {
        YankPolicy::Exclude => !yanked,
        YankPolicy::Allow => true,
        YankPolicy::Only => yanked,
    }
}

/// A release takes part: its yank flag fits the policy, its version is semver and
/// the requirement matches it.
pub open spec fn candidate(r: Release, policy: YankPolicy, req: Seq<char>) -> bool {
    policy_admits(policy, r.yanked) && version_valid(r.version@) && req_matches(req, r.version@)
}

/// `k` is a candidate that no other candidate exceeds.
pub open spec fn is_newest(rs: Seq<Release>, k: int, policy: YankPolicy, req: Seq<char>) -> bool {
    0 <= k < rs.len() && candidate(rs[k], policy, req) && forall|j: int|
        0 <= j < rs.len() && j != k && #[trigger] candidate(rs[j], policy, req) ==> !version_lt(
            rs[k].version@,
            rs[j].version@,
        )
}

pub open spec fn has_candidate(rs: Seq<Release>, policy: YankPolicy, req: Seq<char>) -> bool {
    exists|j: int| 0 <= j < rs.len() && #[trigger] candidate(rs[j], policy, req)
}

/// The newest release that takes part under `policy` and `req`; `None` where none does.
pub fn newest_candidate(releases: &Vec<Release>, policy: YankPolicy, req: &str) -> (r: Option<
    usize,
>)
    ensures
        r is None <==> !has_candidate(releases@, policy, req@),
        r matches Some(k) ==> is_newest(releases@, k as int, policy, req@),
{
    let mut best: Option<usize> = None;
    let mut i: usize = 0;
    while i < releases.len()
        invariant
            i <= releases@.len(),
            best is None <==> forall|j: int| 0 <= j < i ==> !#[trigger] candidate(releases@[j], policy, req@),
            best matches Some(b) ==> b < i && candidate(releases@[b as int], policy, req@) && forall|j: int|
                0 <= j < i && j != b && #[trigger] candidate(releases@[j], policy, req@) ==> !version_lt(
                    releases@[b as int].version@,
                    releases@[j].version@,
                ),
        decreases releases@.len() - i,
    {
        let rel = &releases[i];
        let admitted = match policy {
            YankPolicy::Exclude => !rel.yanked,
            YankPolicy::Allow => true,
            YankPolicy::Only => rel.yanked,
        };
        let is_candidate = admitted && is_semver(rel.version.as_str()) && requirement_matches(
            req,
            rel.version.as_str(),
        );
        assert(is_candidate == candidate(releases@[i as int], policy, req@));
        if is_candidate {
            match best {
                None => {
                    best = Some(i);
                },
                Some(b) => {
                    if version_less(releases[b].version.as_str(), rel.version.as_str()) {
                        best = Some(i);
                    }
                },
            }
        }
        i = i + 1;
    }
    proof {
        if best is None {
            assert forall|j: int| 0 <= j < releases@.len() implies !#[trigger] candidate(releases@[j], policy, req@) by {}
        }
    }
    best
}

pub open spec fn selection_policy(allow_yanked: bool) -> YankPolicy {
    if allow_yanked {
        YankPolicy::Allow
    } else {
        YankPolicy::Exclude
    }
}

/// The indices of the releases whose version is not semver, which selection skips.
pub fn non_semver_releases(releases: &Vec<Release>) -> (r: Vec<usize>)
    ensures
        forall|k: int| 0 <= k < r@.len() ==> r@[k] < releases@.len() && !version_valid(releases@[r@[k] as int].version@),
        forall|j: int| 0 <= j < releases@.len() && !version_valid(#[trigger] releases@[j].version@) ==> r@.contains(j as usize),
{
    let mut out: Vec<usize> = Vec::new();
    let mut i: usize = 0;
    while i < releases.len()
        invariant
            i <= releases@.len(),
            forall|k: int| 0 <= k < out@.len() ==> out@[k] < i && !version_valid(releases@[out@[k] as int].version@),
            forall|j: int| 0 <= j < i && !version_valid(#[trigger] releases@[j].version@) ==> out@.contains(j as usize),
        decreases releases@.len() - i,
    {
        let ghost prev = out@;
        if !is_semver(releases[i].version.as_str()) {
            out.push(i);
        }
        proof {
            assert forall|j: int| 0 <= j < i + 1 && !version_valid(#[trigger] releases@[j].version@) implies out@.contains(j as usize) by {
                if j < i {
                    assert(prev.contains(j as usize));
                    let w = choose|w: int| 0 <= w < prev.len() && prev[w] == j as usize;
                    assert(out@[w] == prev[w]);
                } else {
                    assert(out@[out@.len() - 1] == i);
                }
            }
        }
        i = i + 1;
    }
    out
}

/// Why no version could be selected.
#[derive(Debug, Clone, Copy, PartialEq, Eq, Structural)]
pub struct NoMatchingVersion {
    /// The newest yanked release that the requirement matched, if any.
    pub yanked: Option<usize>,
}

/// Selects the newest release that matches `req`, skipping yanked releases unless
/// `allow_yanked` and versions that are not semver. Where none matches, the error
/// names the newest yanked release that would have matched.
pub fn select_version(releases: &Vec<Release>, allow_yanked: bool, req: &str) -> (r: Result<
    usize,
    NoMatchingVersion,
>)
    ensures
        r is Ok <==> has_candidate(releases@, selection_policy(allow_yanked), req@),
        r matches Ok(k) ==> is_newest(releases@, k as int, selection_policy(allow_yanked), req@),
        r matches Err(e) ==> (e.yanked is None <==> !has_candidate(
            releases@,
            YankPolicy::Only,
            req@,
        )),
        r matches Err(e) ==> (e.yanked matches Some(k) ==> is_newest(
            releases@,
            k as int,
            YankPolicy::Only,
            req@,
        )),
{
    let policy = if allow_yanked { YankPolicy::Allow } else { YankPolicy::Exclude };
    match newest_candidate(releases, policy, req) {
        Some(k) => Ok(k),
        None => Err(NoMatchingVersion { yanked: newest_candidate(releases, YankPolicy::Only, req) }),
    }
}

} // verus!
