use vstd::prelude::*;
use vstd::string::*;

verus! {

/// A character that may appear in a crate name: an ASCII letter, digit, `_` or `-`.
pub open spec fn is_name_char(c: char) -> bool {
    ('a' <= c && c <= 'z') || ('A' <= c && c <= 'Z') || ('0' <= c && c <= '9') || c == '_'
        || c == '-'
}

/// A crate name is non-empty and made of name characters only.
pub open spec fn valid_name(s: Seq<char>) -> bool {
    s.len() > 0 && forall|i: int| 0 <= i < s.len() ==> is_name_char(#[trigger] s[i])
}

/// Why a package spec could not be parsed.
#[derive(Debug, Clone)]
pub enum SpecError {
    /// The name part is empty or holds a character outside `[A-Za-z0-9_-]`.
    InvalidCrateName { input: String },
    /// The part after `@` is not a semver requirement.
    InvalidVersionReq { req: String },
}

/// A validated crate name.
#[derive(Debug, Clone)]
pub struct CrateName(pub String);

impl CrateName {
    pub open spec fn view(&self) -> Seq<char> {
        self.0@
    }

    pub open spec fn wf(&self) -> bool {
        valid_name(self.0@)
    }

    pub fn is_name_char(c: char) -> (r: bool)
        ensures
            r == is_name_char(c),
    {
        ('a' <= c && c <= 'z') || ('A' <= c && c <= 'Z') || ('0' <= c && c <= '9') || c == '_'
            || c == '-'
    }

    /// Checks `s` and wraps it; no case folding is applied.
    pub fn parse(s: &str) -> (r: Result<CrateName, SpecError>)
        ensures
            valid_name(s@) <==> r is Ok,
            r matches Ok(n) ==> n@ == s@ && n.wf(),
            r matches Err(e) ==> e matches SpecError::InvalidCrateName { input } && input@ == s@,
    {
        let len = s.unicode_len();
        let mut ok = len > 0;
        let mut i: usize = 0;
        while i < len
            invariant
                len == s@.len(),
                i <= len,
                ok <==> (len > 0 && forall|j: int| 0 <= j < i ==> is_name_char(#[trigger] s@[j])),
            decreases len - i,
        {
            let c = s.get_char(i);
            if !CrateName::is_name_char(c) {
                ok = false;
            }
            i = i + 1;
        }
        if ok {
            Ok(CrateName(String::from_str(s)))
        } else {
            Err(SpecError::InvalidCrateName { input: String::from_str(s) })
        }
    }

    pub fn as_str(&self) -> (r: &str)
        ensures
            r@ == self@,
    {
        self.0.as_str()
    }
}

} // verus!
