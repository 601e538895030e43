//! Boundary checks for text handed to the external handler.
//!
//! The handler receives method, path, headers, and remote address as
//! null-terminated text, so a field holding a null byte cannot cross the
//! boundary as it stands. The two call variants treat that differently: the
//! textual variant silently replaces such a field with empty text, the
//! binary variant fails the whole conversion. Both decisions are made here;
//! the application performs the foreign call itself.

use vstd::prelude::*;

verus! {

/// `s` holds a null byte somewhere.
pub open spec fn has_nul(s: Seq<u8>) -> bool {
    exists|i: int| 0 <= i < s.len() && s[i] == 0
}

/// Run-time test for `has_nul`.
pub fn contains_nul(s: &Vec<u8>) -> (r: bool)
    ensures
        r == has_nul(s@),
{
    let mut i: usize = 0;
    while i < s.len()
        invariant
            i <= s.len(),
            forall|k: int| 0 <= k < i ==> s@[k] != 0,
        decreases s.len() - i,
    {
        if s[i] == 0 {
            return true;
        }
        i = i + 1;
    }
    false
}

/// What a field becomes in the textual call variant, where a field with an
/// embedded null byte is passed as empty text rather than failing the call.
pub open spec fn boundary_text_of(s: Seq<u8>) -> Seq<u8> {
    if has_nul(s) {
        Seq::empty()
    } else {
        s
    }
}

/// Prepares one field for the textual call variant.
pub fn boundary_text(s: &Vec<u8>) -> (r: Vec<u8>)
    ensures
        r@ == boundary_text_of(s@),
{
    if contains_nul(s) {
        Vec::new()
    } else {
        let mut out: Vec<u8> = Vec::new();
        crate::text::push_all(&mut out, s);
        out
    }
}

/// Whether the binary call variant's conversion succeeds: it does exactly
/// when none of the four text fields holds a null byte. The body crosses as
/// a byte buffer with an explicit length and needs no check.
pub fn boundary_texts_ok(
    method: &Vec<u8>,
    path: &Vec<u8>,
    headers: &Vec<u8>,
    remote_addr: &Vec<u8>,
) -> (r: bool)
    ensures
        r == (!has_nul(method@) && !has_nul(path@) && !has_nul(headers@) && !has_nul(
            remote_addr@,
        )),
{
    !contains_nul(method) && !contains_nul(path) && !contains_nul(headers) && !contains_nul(
        remote_addr,
    )
}

} // verus!
