use vstd::prelude::*;
use vstd::string::{StrSliceExecFns, StringExecFns};

use crate::error::UpdateError;

verus! {

/// Whether `s` ends with `t`.
pub open spec fn ends_with(s: Seq<char>, t: Seq<char>) -> bool {
    t.len() <= s.len() && s.subrange(s.len() - t.len(), s.len() as int) == t
}

/// `s` with one trailing `t` removed, if it ends with one.
pub open spec fn without_suffix(s: Seq<char>, t: Seq<char>) -> Seq<char> {
    if ends_with(s, t) {
        s.subrange(0, s.len() - t.len())
    } else {
        s
    }
}

/// The domain suffix with a leading dot.
pub open spec fn dotted(suffix: Seq<char>) -> Seq<char> {
    if suffix.len() > 0 && suffix[0] == '.' {
        suffix
    } else {
        seq!['.'] + suffix
    }
}

/// The bare hostname: one trailing dot removed, then the dotted suffix.
pub open spec fn bare_host(raw: Seq<char>, suffix: Seq<char>) -> Seq<char> {
    without_suffix(without_suffix(raw, seq!['.']), dotted(suffix))
}

/// Whether `s` ends with `t`, compared character by character.
pub fn has_suffix(s: &str, t: &str) -> (r: bool)
    ensures
        r == ends_with(s@, t@),
{
    let n = s.unicode_len();
    let m = t.unicode_len();
    if m > n {
        return false;
    }
    let mut i: usize = 0;
    while i < m
        invariant
            n == s@.len(),
            m == t@.len(),
            m <= n,
            i <= m,
            forall|k: int| 0 <= k < i ==> s@[n - m + k] == t@[k],
        decreases m - i,
    {
        if s.get_char(n - m + i) != t.get_char(i) {
            assert(s@.subrange(n - m, n as int)[i as int] != t@[i as int]);
            return false;
        }
        i = i + 1;
    }
    assert(s@.subrange(n - m, n as int) =~= t@);
    true
}

/// The two strings one after the other.
pub(crate) fn joined(a: &str, b: &str) -> (r: String)
    ensures
        r@ == a@ + b@,
{
    a.to_owned().concat(b)
}

/// `s` with one trailing `t` removed, if it ends with one.
pub fn trim_suffix<'a>(s: &'a str, t: &str) -> (r: &'a str)
    ensures
        r@ == without_suffix(s@, t@),
{
    if has_suffix(s, t) {
        s.substring_char(0, s.unicode_len() - t.unicode_len())
    } else {
        s
    }
}

/// The configured domain suffix with a leading dot, added if missing.
pub fn normalize_suffix(suffix: &str) -> (r: String)
    ensures
        r@ == dotted(suffix@),
{
    let dot = ".";
    proof {
        reveal_strlit(".");
        assert(dot@ =~= seq!['.']);
    }
    if suffix.unicode_len() > 0 && suffix.get_char(0) == '.' {
        suffix.to_owned()
    } else {
        joined(dot, suffix)
    }
}

/// A hostname in its two forms: bare, and fully qualified.
#[derive(Debug)]
pub struct HostName {
    pub bare: String,
    pub fqdn: String,
}

/// Derives the bare hostname and the FQDN from what the caller sent. An
/// empty bare hostname is never valid and counts as failed authentication.
pub fn normalize_hostname(raw: &str, suffix: &str) -> (r: Result<HostName, UpdateError>)
    ensures
        match r {
            Ok(h) => {
                &&& bare_host(raw@, suffix@).len() > 0
                &&& h.bare@ == bare_host(raw@, suffix@)
                &&& h.fqdn@ == bare_host(raw@, suffix@) + dotted(suffix@)
            },
            Err(e) => bare_host(raw@, suffix@).len() == 0 && e == UpdateError::Unauthorized,
        },
{
    let dotted_suffix = normalize_suffix(suffix);
    let dot = ".";
    proof {
        reveal_strlit(".");
        assert(dot@ =~= seq!['.']);
    }
    let host = trim_suffix(trim_suffix(raw, dot), dotted_suffix.as_str());
    if host.is_empty() {
        return Err(UpdateError::Unauthorized);
    }
    let fqdn = joined(host, dotted_suffix.as_str());
    Ok(HostName { bare: host.to_owned(), fqdn })
}

} // verus!
