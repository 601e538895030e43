//! Normalization of the configured bind address.
//!
//! The listener accepts a bare `host:port`; if a URI scheme was supplied by
//! mistake, it is stripped, repeatedly, the way `str::trim_start_matches`
//! strips a pattern.

use crate::text::{bytes_of, eq_prefix, has_prefix, lit_bytes};
use vstd::prelude::*;

verus! {

/// `s` with every leading occurrence of the non-empty pattern `p` removed.
pub open spec fn strip_all_prefix(s: Seq<u8>, p: Seq<u8>) -> Seq<u8>
    decreases s.len()
        when p.len() > 0
{
    if eq_prefix(s, p) {
        strip_all_prefix(s.skip(p.len() as int), p)
    } else {
        s
    }
}

/// The bind address with any `http://` prefixes stripped, then any
/// `https://` prefixes.
pub open spec fn stripped_addr(s: Seq<u8>) -> Seq<u8> {
    strip_all_prefix(strip_all_prefix(s, bytes_of("http://"@)), bytes_of("https://"@))
}

/// Removes every leading occurrence of the non-empty pattern `p` from `s`.
pub fn strip_prefix_all(s: Vec<u8>, p: &Vec<u8>) -> (r: Vec<u8>)
    requires
        p.len() > 0,
    ensures
        r@ == strip_all_prefix(s@, p@),
{
    let mut cur = s;
    while has_prefix(&cur, p)
        invariant
            p.len() > 0,
            strip_all_prefix(cur@, p@) == strip_all_prefix(s@, p@),
        decreases cur.len(),
    {
        let rest = crate::text::copy_range(&cur, p.len(), cur.len());
        assert(rest@ =~= cur@.skip(p@.len() as int));
        cur = rest;
    }
    cur
}

/// Normalizes a configured bind address by stripping a mistakenly supplied
/// URI scheme.
pub fn strip_scheme(addr: Vec<u8>) -> (r: Vec<u8>)
    ensures
        r@ == stripped_addr(addr@),
{
    proof {
        reveal_strlit("http://");
        reveal_strlit("https://");
    }
    let http = lit_bytes("http://");
    let https = lit_bytes("https://");
    let step = strip_prefix_all(addr, &http);
    strip_prefix_all(step, &https)
}

/// The address the listener binds when none is configured.
pub fn default_bind_addr() -> (r: Vec<u8>)
    ensures
        r@ == bytes_of("127.0.0.1:6080"@),
{
    proof {
        reveal_strlit("127.0.0.1:6080");
    }
    lit_bytes("127.0.0.1:6080")
}

} // verus!
