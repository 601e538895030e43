//! The payload guard: the pure decision whether a request's declared body
//! length exceeds the configured ceiling. It runs strictly before the first
//! body byte is read, so an oversized body is never pulled off the wire.

use vstd::prelude::*;

verus! {

/// A declared length is oversized exactly when a positive ceiling is
/// configured and the declaration exceeds it.
pub open spec fn oversize(content_length: int, max_body_bytes: int) -> bool {
    max_body_bytes > 0 && content_length > max_body_bytes
}

/// Law: a ceiling of zero means unlimited — no declared length is ever
/// rejected for size.
pub proof fn lemma_unlimited_never_rejects(content_length: int)
    ensures
        !oversize(content_length, 0),
{
}

/// Law: under a positive ceiling, every declared length above the ceiling is
/// rejected, and every declared length at or below it is admitted.
pub proof fn lemma_ceiling_is_exact(content_length: int, max_body_bytes: int)
    requires
        max_body_bytes > 0,
    ensures
        oversize(content_length, max_body_bytes) <==> content_length > max_body_bytes,
{
}

/// The guard's run-time decision: `true` exactly when the request must be
/// answered with the oversize rejection instead of being read and handled.
pub fn should_reject(content_length: usize, max_body_bytes: usize) -> (r: bool)
    ensures
        r == oversize(content_length as int, max_body_bytes as int),
        max_body_bytes == 0 ==> !r,
{
    max_body_bytes > 0 && content_length > max_body_bytes
}

} // verus!
