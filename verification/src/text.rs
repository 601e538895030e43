//! Byte-level text helpers shared by the wire parser, the response writer,
//! and the address normalizer: whitespace and token scanning, trimming,
//! prefix tests, and decimal number parsing.
//!
//! Everything here works on raw bytes, so only ASCII whitespace separates
//! tokens and is trimmed; a multi-byte white space character is ordinary
//! content. The wire format itself only ever separates with ASCII spaces
//! and line breaks.

use vstd::prelude::*;
use vstd::string::StrSliceExecFns;

verus! {

/// ASCII whitespace: space and the control characters TAB through CR.
pub open spec fn is_ws(b: u8) -> bool {
    b == 32 || (9 <= b && b <= 13)
}

/// Lower-case image of one byte: ASCII upper-case letters move down, all
/// other bytes stay.
pub open spec fn lower(b: u8) -> u8 {
    if 65 <= b && b <= 90 {
        (b + 32) as u8
    } else {
        b
    }
}

/// Index of the first non-whitespace byte of `s` at or after `i`.
pub open spec fn ws_end(s: Seq<u8>, i: int) -> int
    decreases s.len() - i
        when 0 <= i <= s.len()
{
    if i < s.len() && is_ws(s[i]) {
        ws_end(s, i + 1)
    } else {
        i
    }
}

/// Index just past the token (maximal run of non-whitespace) starting at `i`.
pub open spec fn token_end(s: Seq<u8>, i: int) -> int
    decreases s.len() - i
        when 0 <= i <= s.len()
{
    if i < s.len() && !is_ws(s[i]) {
        token_end(s, i + 1)
    } else {
        i
    }
}

pub proof fn lemma_ws_end_bounds(s: Seq<u8>, i: int)
    requires
        0 <= i <= s.len(),
    ensures
        i <= ws_end(s, i) <= s.len(),
    decreases s.len() - i,
{
    if i < s.len() && is_ws(s[i]) {
        lemma_ws_end_bounds(s, i + 1);
    }
}

pub proof fn lemma_token_end_bounds(s: Seq<u8>, i: int)
    requires
        0 <= i <= s.len(),
    ensures
        i <= token_end(s, i) <= s.len(),
    decreases s.len() - i,
{
    if i < s.len() && !is_ws(s[i]) {
        lemma_token_end_bounds(s, i + 1);
    }
}

/// Exec test for `is_ws`.
pub fn byte_is_ws(b: u8) -> (r: bool)
    ensures
        r == is_ws(b),
{
    b == 32 || (9 <= b && b <= 13)
}

/// Exec form of `lower`.
pub fn byte_lower(b: u8) -> (r: u8)
    ensures
        r == lower(b),
{
    if 65 <= b && b <= 90 {
        b + 32
    } else {
        b
    }
}

/// Scans past whitespace, returning the index `ws_end` describes.
pub fn skip_ws_from(s: &Vec<u8>, i: usize) -> (r: usize)
    requires
        i <= s.len(),
    ensures
        r == ws_end(s@, i as int),
        i <= r <= s.len(),
{
    let mut j: usize = i;
    while j < s.len() && byte_is_ws(s[j])
        invariant
            i <= j <= s.len(),
            ws_end(s@, i as int) == ws_end(s@, j as int),
        decreases s.len() - j,
    {
        assert(ws_end(s@, j as int) == ws_end(s@, j + 1));
        j = j + 1;
    }
    proof {
        lemma_ws_end_bounds(s@, i as int);
    }
    j
}

/// Scans past a token, returning the index `token_end` describes.
pub fn token_end_from(s: &Vec<u8>, i: usize) -> (r: usize)
    requires
        i <= s.len(),
    ensures
        r == token_end(s@, i as int),
        i <= r <= s.len(),
{
    let mut j: usize = i;
    while j < s.len() && !byte_is_ws(s[j])
        invariant
            i <= j <= s.len(),
            token_end(s@, i as int) == token_end(s@, j as int),
        decreases s.len() - j,
    {
        assert(token_end(s@, j as int) == token_end(s@, j + 1));
        j = j + 1;
    }
    proof {
        lemma_token_end_bounds(s@, i as int);
    }
    j
}

/// Copies the byte range `a..b` of `s` into a fresh vector.
pub fn copy_range(s: &Vec<u8>, a: usize, b: usize) -> (r: Vec<u8>)
    requires
        a <= b <= s.len(),
    ensures
        r@ == s@.subrange(a as int, b as int),
{
    let mut out: Vec<u8> = Vec::new();
    let mut j: usize = a;
    while j < b
        invariant
            a <= j <= b <= s.len(),
            out@ == s@.subrange(a as int, j as int),
        decreases b - j,
    {
        out.push(s[j]);
        assert(s@.subrange(a as int, j + 1) =~= s@.subrange(a as int, j as int).push(s@[j as int]));
        j = j + 1;
    }
    out
}

/// Appends all of `src` to `out`.
pub fn push_all(out: &mut Vec<u8>, src: &Vec<u8>)
    ensures
        final (out)@ == old(out)@ + src@,
{
    let ghost orig = out@;
    let mut j: usize = 0;
    while j < src.len()
        invariant
            j <= src.len(),
            out@ == orig + src@.subrange(0, j as int),
        decreases src.len() - j,
    {
        out.push(src[j]);
        assert(src@.subrange(0, j + 1) =~= src@.subrange(0, j as int).push(src@[j as int]));
        j = j + 1;
    }
    assert(src@.subrange(0, src@.len() as int) =~= src@);
}

/// Index reached after dropping trailing CR and LF bytes from `s[..j]`.
pub open spec fn crlf_trim_end(s: Seq<u8>, j: int) -> int
    decreases j
        when 0 <= j <= s.len()
{
    if j > 0 && (s[j - 1] == 13 || s[j - 1] == 10) {
        crlf_trim_end(s, j - 1)
    } else {
        j
    }
}

/// `s` with every trailing CR/LF byte removed.
pub open spec fn trimmed_crlf(s: Seq<u8>) -> Seq<u8> {
    s.subrange(0, crlf_trim_end(s, s.len() as int))
}

/// Removes trailing CR/LF bytes, as a header line is trimmed.
pub fn trim_crlf(s: &Vec<u8>) -> (r: Vec<u8>)
    ensures
        r@ == trimmed_crlf(s@),
{
    let mut j: usize = s.len();
    while j > 0 && (s[j - 1] == 13 || s[j - 1] == 10)
        invariant
            j <= s.len(),
            crlf_trim_end(s@, s@.len() as int) == crlf_trim_end(s@, j as int),
        decreases j,
    {
        assert(crlf_trim_end(s@, j as int) == crlf_trim_end(s@, j - 1));
        j = j - 1;
    }
    copy_range(s, 0, j)
}

/// Index reached after dropping trailing whitespace from `s[..j]`.
pub open spec fn ws_trim_end(s: Seq<u8>, j: int) -> int
    decreases j
        when 0 <= j <= s.len()
{
    if j > 0 && is_ws(s[j - 1]) {
        ws_trim_end(s, j - 1)
    } else {
        j
    }
}

/// `s` with leading and trailing whitespace removed.
pub open spec fn trimmed_ws(s: Seq<u8>) -> Seq<u8> {
    let a = ws_end(s, 0);
    let b = ws_trim_end(s, s.len() as int);
    if a <= b {
        s.subrange(a, b)
    } else {
        Seq::empty()
    }
}

/// Removes leading and trailing whitespace.
pub fn trim_ws(s: &Vec<u8>) -> (r: Vec<u8>)
    ensures
        r@ == trimmed_ws(s@),
{
    let a = skip_ws_from(s, 0);
    let mut j: usize = s.len();
    while j > 0 && byte_is_ws(s[j - 1])
        invariant
            j <= s.len(),
            ws_trim_end(s@, s@.len() as int) == ws_trim_end(s@, j as int),
        decreases j,
    {
        assert(ws_trim_end(s@, j as int) == ws_trim_end(s@, j - 1));
        j = j - 1;
    }
    if a <= j {
        copy_range(s, a, j)
    } else {
        Vec::new()
    }
}

/// `p` is a byte-for-byte prefix of `s`.
pub open spec fn eq_prefix(s: Seq<u8>, p: Seq<u8>) -> bool {
    s.len() >= p.len() && forall|i: int| 0 <= i < p.len() ==> s[i] == #[trigger] p[i]
}

/// `p` is a prefix of `s` once `s` is lower-cased.
pub open spec fn lower_eq_prefix(s: Seq<u8>, p: Seq<u8>) -> bool {
    s.len() >= p.len() && forall|i: int| 0 <= i < p.len() ==> lower(s[i]) == #[trigger] p[i]
}

/// Exact prefix test.
pub fn has_prefix(s: &Vec<u8>, p: &Vec<u8>) -> (r: bool)
    ensures
        r == eq_prefix(s@, p@),
{
    if s.len() < p.len() {
        return false;
    }
    let mut i: usize = 0;
    while i < p.len()
        invariant
            i <= p.len() <= s.len(),
            forall|k: int| 0 <= k < i ==> s@[k] == #[trigger] p@[k],
        decreases p.len() - i,
    {
        if s[i] != p[i] {
            return false;
        }
        i = i + 1;
    }
    true
}

/// Case-insensitive prefix test; `p` is given already lower-cased.
pub fn has_prefix_lower(s: &Vec<u8>, p: &Vec<u8>) -> (r: bool)
    ensures
        r == lower_eq_prefix(s@, p@),
{
    if s.len() < p.len() {
        return false;
    }
    let mut i: usize = 0;
    while i < p.len()
        invariant
            i <= p.len() <= s.len(),
            forall|k: int| 0 <= k < i ==> lower(s@[k]) == #[trigger] p@[k],
        decreases p.len() - i,
    {
        if byte_lower(s[i]) != p[i] {
            return false;
        }
        i = i + 1;
    }
    true
}

/// The bytes of an ASCII character sequence, one byte per character.
pub open spec fn bytes_of(s: Seq<char>) -> Seq<u8> {
    Seq::new(s.len(), |i: int| s[i] as u8)
}

/// The bytes of an ASCII string literal as a fresh vector.
pub fn lit_bytes(s: &str) -> (r: Vec<u8>)
    requires
        vstd::string::is_ascii(s),
    ensures
        r@ == bytes_of(s@),
{
    let r = s.as_bytes_vec();
    proof {
        vstd::string::is_ascii_spec_bytes(s);
        assert(r@ =~= bytes_of(s@));
    }
    r
}

/// ASCII decimal digit.
pub open spec fn is_digit(b: u8) -> bool {
    48 <= b && b <= 57
}

/// All bytes of `s` are decimal digits.
pub open spec fn all_digits(s: Seq<u8>) -> bool {
    forall|i: int| 0 <= i < s.len() ==> is_digit(#[trigger] s[i])
}

/// Value of `s` read as a decimal numeral, most significant digit first.
pub open spec fn dec_val(s: Seq<u8>) -> int
    decreases s.len(),
{
    if s.len() == 0 {
        0
    } else {
        dec_val(s.drop_last()) * 10 + (s.last() - 48)
    }
}

/// The digit sequence of an unsigned numeral: a single leading `+` sign is
/// dropped, as Rust's integer parsing accepts one.
pub open spec fn unsigned_body(s: Seq<u8>) -> Seq<u8> {
    if s.len() >= 1 && s[0] == 43 {
        s.skip(1)
    } else {
        s
    }
}

/// `s` is a numeral that Rust parses as a `usize`: at least one digit,
/// nothing but digits after the optional sign, and a value in range.
pub open spec fn parses_to_usize(s: Seq<u8>) -> bool {
    unsigned_body(s).len() > 0 && all_digits(unsigned_body(s)) && dec_val(unsigned_body(s))
        <= usize::MAX as int
}

/// The parsed value of `s`, with every parse failure collapsed to zero.
pub open spec fn usize_or_zero(s: Seq<u8>) -> int {
    if parses_to_usize(s) {
        dec_val(unsigned_body(s))
    } else {
        0
    }
}

pub proof fn lemma_dec_val_nonneg(s: Seq<u8>)
    requires
        all_digits(s),
    ensures
        dec_val(s) >= 0,
    decreases s.len(),
{
    if s.len() > 0 {
        assert(all_digits(s.drop_last())) by {
            assert(forall|i: int|
                0 <= i < s.drop_last().len() ==> #[trigger] s.drop_last()[i] == s[i]);
        }
        lemma_dec_val_nonneg(s.drop_last());
    }
}

/// A longer all-digit numeral never has a smaller value than its prefix.
pub proof fn lemma_dec_val_prefix(s: Seq<u8>, k: int)
    requires
        all_digits(s),
        0 <= k <= s.len(),
    ensures
        dec_val(s.subrange(0, k)) <= dec_val(s),
    decreases s.len() - k,
{
    if k < s.len() {
        lemma_dec_val_prefix(s, k + 1);
        let p = s.subrange(0, k);
        let q = s.subrange(0, k + 1);
        assert(q.drop_last() =~= p);
        assert(all_digits(p)) by {
            assert(forall|i: int| 0 <= i < p.len() ==> #[trigger] p[i] == s[i]);
        }
        lemma_dec_val_nonneg(p);
        assert(dec_val(q) == dec_val(p) * 10 + (q.last() - 48));
        assert(dec_val(p) <= dec_val(p) * 10) by (nonlinear_arith)
            requires
                dec_val(p) >= 0,
        ;
    } else {
        assert(s.subrange(0, k) =~= s);
    }
}

/// Parses `s` the way Rust parses a `usize`: `Some` exactly on numerals in
/// range, with the parsed value.
pub fn parse_usize(s: &Vec<u8>) -> (r: Option<usize>)
    ensures
        match r {
            Some(v) => parses_to_usize(s@) && v == dec_val(unsigned_body(s@)),
            None => !parses_to_usize(s@),
        },
{
    let start: usize = if s.len() >= 1 && s[0] == 43 {
        1
    } else {
        0
    };
    let ghost body = unsigned_body(s@);
    proof {
        assert(body =~= s@.subrange(start as int, s@.len() as int));
    }
    if start == s.len() {
        return None;
    }
    let mut val: usize = 0;
    let mut i: usize = start;
    while i < s.len()
        invariant
            start <= i <= s.len(),
            start <= 1,
            body == s@.subrange(start as int, s@.len() as int),
            body == unsigned_body(s@),
            all_digits(s@.subrange(start as int, i as int)),
            val == dec_val(s@.subrange(start as int, i as int)),
        decreases s.len() - i,
    {
        let b = s[i];
        if !(48 <= b && b <= 57) {
            assert(!all_digits(body)) by {
                assert(body[i - start] == s@[i as int]);
            }
            return None;
        }
        let d = (b - 48) as usize;
        let ghost p = s@.subrange(start as int, i as int);
        let ghost q = s@.subrange(start as int, i + 1);
        proof {
            assert(q.drop_last() =~= p);
            assert(q.last() == s@[i as int]);
            assert(all_digits(q));
        }
        if val > (usize::MAX - d) / 10 {
            // The prefix alone already exceeds `usize`; no continuation of an
            // all-digit numeral can come back into range.
            proof {
                assert(dec_val(q) == val * 10 + d);
                assert(val * 10 + d > usize::MAX as int) by (nonlinear_arith)
                    requires
                        val > (usize::MAX - d) / 10,
                        0 <= d <= 9,
                        val >= 0,
                ;
                if parses_to_usize(s@) {
                    lemma_dec_val_prefix(body, i + 1 - start);
                    assert(body.subrange(0, i + 1 - start) =~= q);
                    assert(false);
                }
            }
            return None;
        }
        proof {
            assert(val * 10 + d <= usize::MAX as int) by (nonlinear_arith)
                requires
                    val <= (usize::MAX - d) / 10,
                    0 <= d <= 9,
                    val >= 0,
            ;
        }
        val = val * 10 + d;
        assert(val == dec_val(q));
        i = i + 1;
    }
    proof {
        assert(s@.subrange(start as int, s@.len() as int) =~= body);
    }
    Some(val)
}

/// Parse with the failure default the configuration and header paths use.
pub fn parse_usize_or_zero(s: &Vec<u8>) -> (r: usize)
    ensures
        r == usize_or_zero(s@),
{
    match parse_usize(s) {
        Some(v) => v,
        None => 0,
    }
}

} // verus!
