use vstd::prelude::*;
use vstd::string::*;
use crate::crate_name::{CrateName, SpecError, valid_name};

verus! {

/// What `semver::VersionReq::parse` makes of a text, rendered back through its
/// `Display`: `None` where the text is no requirement.
pub uninterp spec fn req_canonical(s: Seq<char>) -> Option<Seq<char>>;

/// Relies on `semver::VersionReq::parse` and the `Display` of `semver::VersionReq`:
/// the canonical text of the requirement, which the parser reads back unchanged.
#[verifier::external_body]
fn canonical_req(s: &str) -> (r: Option<String>)
    ensures
        r is None <==> req_canonical(s@) is None,
        r matches Some(t) ==> req_canonical(s@) == Some(t@) && req_canonical(t@) == Some(t@),
{
    semver::VersionReq::parse(s).ok().map(|req| req.to_string())
}

/// Index of the first `c` in `s`, if any.
pub open spec fn first_index_of(s: Seq<char>, c: char) -> Option<int> {
    if exists|i: int| 0 <= i < s.len() && s[i] == c {
        let i = choose|i: int| 0 <= i < s.len() && s[i] == c && forall|j: int| 0 <= j < i ==> s[j] != c;
        Some(i)
    } else {
        None
    }
}

/// The parts of a spec text: the name, and the requirement after the first `@`.
pub open spec fn split_spec(s: Seq<char>) -> (Seq<char>, Option<Seq<char>>) {
    match first_index_of(s, '@') {
        Some(i) => (s.subrange(0, i), Some(s.subrange(i + 1, s.len() as int))),
        None => (s, None),
    }
}

/// The result of parsing a spec text, over the name and the canonical requirement.
pub open spec fn parse_spec(s: Seq<char>) -> Option<(Seq<char>, Option<Seq<char>>)> {
    let (name, req) = split_spec(s);
    if !valid_name(name) {
        None
    } else {
        match req {
            None => Some((name, None)),
            Some(r) => match req_canonical(r) {
                Some(c) => Some((name, Some(c))),
                None => None,
            },
        }
    }
}

/// A crate to download: its name and an optional version requirement, held in the
/// canonical form that semver renders.
#[derive(Debug, Clone)]
pub struct PackageIdSpec {
    pub name: CrateName,
    pub version_req: Option<String>,
}

impl PackageIdSpec {
    pub open spec fn view(&self) -> (Seq<char>, Option<Seq<char>>) {
        (self.name@, match self.version_req {
            Some(r) => Some(r@),
            None => None,
        })
    }

    /// The name is valid and the requirement is in canonical form.
    pub open spec fn wf(&self) -> bool {
        self.name.wf() && match self.version_req {
            Some(r) => req_canonical(r@) == Some(r@),
            None => true,
        }
    }

    /// The requirement text that selection uses: `*` where none was given.
    pub open spec fn effective_req(&self) -> Seq<char> {
        match self.version_req {
            Some(r) => r@,
            None => "*"@,
        }
    }

    /// Parses `NAME` or `NAME@REQ`, splitting on the first `@`.
    pub fn parse(s: &str) -> (r: Result<PackageIdSpec, SpecError>)
        ensures
            r is Ok <==> parse_spec(s@) is Some,
            r matches Ok(spec) ==> Some(spec@) == parse_spec(s@) && spec.wf(),
            r matches Err(e) ==> match e {
                SpecError::InvalidCrateName { input } => input@ == split_spec(s@).0
                    && !valid_name(split_spec(s@).0),
                SpecError::InvalidVersionReq { req } => valid_name(split_spec(s@).0)
                    && split_spec(s@).1 == Some(req@) && req_canonical(req@) is None,
            },
    {
        let len = s.unicode_len();
        let mut i: usize = 0;
        while i < len && s.get_char(i) != '@'
            invariant
                len == s@.len(),
                i <= len,
                forall|j: int| 0 <= j < i ==> s@[j] != '@',
            decreases len - i,
        {
            i = i + 1;
        }
        proof {
            if i < len {
                assert(forall|j: int| 0 <= j < i ==> s@[j] != '@');
                let k = first_index_of(s@, '@');
                assert(0 <= i < s@.len() && s@[i as int] == '@');
                assert(k == Some(i as int)) by {
                    let c = choose|c: int|
                        0 <= c < s@.len() && s@[c] == '@' && forall|j: int| 0 <= j < c ==> s@[j] != '@';
                    assert(0 <= c < s@.len() && s@[c] == '@' && forall|j: int| 0 <= j < c ==> s@[j] != '@');
                    if c < i {
                    } else if c > i {
                        assert(s@[i as int] != '@');
                    }
                }
            }
        }
        let name_part = s.substring_char(0, i);
        proof {
            if i == len {
                assert(name_part@ =~= s@);
            }
        }
        let name = match CrateName::parse(name_part) {
            Ok(n) => n,
            Err(e) => {
                return Err(e);
            },
        };
        if i == len {
            return Ok(PackageIdSpec { name, version_req: None });
        }
        let req_part = s.substring_char(i + 1, len);
        match canonical_req(req_part) {
            Some(c) => Ok(PackageIdSpec { name, version_req: Some(c) }),
            None => Err(SpecError::InvalidVersionReq { req: String::from_str(req_part) }),
        }
    }

    /// The text form: `name`, or `name@req` with the canonical requirement.
    pub fn to_text(&self) -> (r: String)
        ensures
            r@ == format_spec(self@),
    {
        let mut out = String::from_str(self.name.as_str());
        match &self.version_req {
            Some(req) => {
                out.append("@");
                out.append(req.as_str());
            },
            None => {},
        }
        out
    }
}

/// The text form of a spec over its view.
pub open spec fn format_spec(v: (Seq<char>, Option<Seq<char>>)) -> Seq<char> {
    match v.1 {
        Some(r) => v.0 + "@"@ + r,
        None => v.0,
    }
}

/// Parsing the text form of a well-formed spec gives the spec back.
pub proof fn lemma_parse_format_round_trip(spec: PackageIdSpec)
    requires
        spec.wf(),
    ensures
        parse_spec(format_spec(spec@)) == Some(spec@),
{
    let s = format_spec(spec@);
    let name = spec.name@;
    reveal_strlit("@");
    assert(forall|j: int| 0 <= j < name.len() ==> name[j] != '@') by {
        assert forall|j: int| 0 <= j < name.len() implies name[j] != '@' by {
            assert(crate::crate_name::is_name_char(name[j]));
        }
    }
    match spec.version_req {
        Some(r) => {
            let n = name.len() as int;
            assert(s[n] == '@');
            assert(forall|j: int| 0 <= j < n ==> s[j] == name[j]);
            let k = choose|c: int|
                0 <= c < s.len() && s[c] == '@' && forall|j: int| 0 <= j < c ==> s[j] != '@';
            assert(exists|c: int|
                0 <= c < s.len() && s[c] == '@' && forall|j: int| 0 <= j < c ==> s[j] != '@') by {
                assert(forall|j: int| 0 <= j < n ==> s[j] != '@');
            }
            if k < n {
                assert(s[k] == name[k]);
            } else if k > n {
                assert(s[n] != '@');
            }
            assert(first_index_of(s, '@') == Some(n));
            assert(s.subrange(0, n) =~= name);
            assert(s.subrange(n + 1, s.len() as int) =~= r@);
        },
        None => {
            assert(!(exists|i: int| 0 <= i < s.len() && s[i] == '@'));
        },
    }
}

} // verus!
