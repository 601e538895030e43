//! The response writer: serializes the handler's output, or the oversize
//! rejection, into the exact bytes that go back on the wire. The connection
//! is always closed after the one response.

use crate::text::{all_digits, bytes_of, dec_val, lit_bytes, push_all, usize_or_zero};
use vstd::prelude::*;

verus! {

/// The decimal numeral of a non-negative number, most significant digit
/// first, without sign or leading zeros (`0` itself is the single digit).
pub open spec fn dec_rep(n: int) -> Seq<u8>
    decreases n
        when n >= 0
{
    if n < 10 {
        seq![(n + 48) as u8]
    } else {
        dec_rep(n / 10) + seq![(n % 10 + 48) as u8]
    }
}

pub proof fn lemma_dec_rep_digits(n: int)
    requires
        n >= 0,
    ensures
        dec_rep(n).len() >= 1,
        all_digits(dec_rep(n)),
    decreases n,
{
    if n >= 10 {
        lemma_dec_rep_digits(n / 10);
        let s = dec_rep(n);
        let p = dec_rep(n / 10);
        assert(forall|i: int|
            0 <= i < s.len() ==> #[trigger] s[i] == if i < p.len() {
                p[i]
            } else {
                (n % 10 + 48) as u8
            });
    }
}

/// Law: the numeral the response writer emits reads back, by the wire
/// parser's number semantics, to the same value — a response's declared
/// `Content-Length` always parses to its body's exact byte count.
pub proof fn lemma_decimal_round_trip(n: int)
    requires
        n >= 0,
    ensures
        all_digits(dec_rep(n)),
        dec_val(dec_rep(n)) == n,
        n <= usize::MAX as int ==> usize_or_zero(dec_rep(n)) == n,
    decreases n,
{
    lemma_dec_rep_digits(n);
    if n < 10 {
        let s0 = seq![(n + 48) as u8];
        assert(dec_rep(n) == s0);
        assert(s0.len() == 1);
        assert(s0.drop_last() =~= Seq::<u8>::empty());
        assert(dec_val(Seq::<u8>::empty()) == 0);
        assert(s0.last() == (n + 48) as u8);
        assert((n + 48) as u8 == n + 48);
        assert(dec_val(s0) == dec_val(s0.drop_last()) * 10 + (s0.last() - 48));
        assert(dec_val(dec_rep(n)) == n);
    } else {
        lemma_decimal_round_trip(n / 10);
        let s = dec_rep(n);
        assert(s.drop_last() =~= dec_rep(n / 10));
        assert(s.last() == (n % 10 + 48) as u8);
        assert(dec_val(s) == dec_val(dec_rep(n / 10)) * 10 + (n % 10));
        assert((n / 10) * 10 + (n % 10) == n) by (nonlinear_arith)
            requires
                n >= 0,
        ;
    }
    let s = dec_rep(n);
    assert(s[0] != 43) by {
        lemma_dec_rep_digits(n);
        assert(crate::text::is_digit(s[0]));
    }
    assert(crate::text::unsigned_body(s) == s);
    if n <= usize::MAX as int {
        assert(crate::text::parses_to_usize(s));
    }
}

/// Law: a success reply is the status line, a `Content-Length` numeral that
/// reads back to the body's exact byte count, the plain-text headers, and
/// the body itself.
pub proof fn lemma_ok_reply_consistent(body: Seq<u8>)
    ensures
        ok_response_bytes(body) == ok_prefix() + dec_rep(body.len() as int) + text_header_tail()
            + body,
        dec_val(dec_rep(body.len() as int)) == body.len(),
{
    lemma_decimal_round_trip(body.len() as int);
}

/// Law: the oversize rejection declares a `Content-Length` numeral that
/// reads back to the exact byte length of its explanatory body, which names
/// the configured ceiling.
pub proof fn lemma_too_large_reply_consistent(max_body_bytes: int)
    requires
        max_body_bytes >= 0,
    ensures
        too_large_response_bytes(max_body_bytes) == too_large_prefix() + dec_rep(
            too_large_body(max_body_bytes).len() as int,
        ) + text_header_tail() + too_large_body(max_body_bytes),
        dec_val(dec_rep(too_large_body(max_body_bytes).len() as int)) == too_large_body(
            max_body_bytes,
        ).len(),
        too_large_body(max_body_bytes) == bytes_of("Request body exceeds limit ("@) + dec_rep(
            max_body_bytes,
        ) + bytes_of(" bytes)."@),
{
    lemma_decimal_round_trip(too_large_body(max_body_bytes).len() as int);
}

/// Writes a non-negative number as its decimal numeral.
pub fn usize_to_decimal(n: usize) -> (r: Vec<u8>)
    ensures
        r@ == dec_rep(n as int),
{
    let mut low_first: Vec<u8> = Vec::new();
    let mut cur: usize = n;
    low_first.push((cur % 10) as u8 + 48);
    cur = cur / 10;
    proof {
        if n < 10 {
            assert(low_first@ =~= dec_rep(n as int));
        } else {
            assert(low_first@.reverse() =~= seq![(n as int % 10 + 48) as u8]);
            assert(dec_rep(n as int) =~= dec_rep(n as int / 10) + low_first@.reverse());
        }
    }
    while cur > 0
        invariant
            low_first@.len() >= 1,
            cur == 0 ==> dec_rep(n as int) == low_first@.reverse(),
            cur > 0 ==> dec_rep(n as int) == dec_rep(cur as int) + low_first@.reverse(),
        decreases cur,
    {
        let ghost prev = low_first@;
        let d = (cur % 10) as u8 + 48;
        low_first.push(d);
        let next = cur / 10;
        proof {
            assert(low_first@.reverse() =~= seq![d] + prev.reverse());
            if next == 0 {
                assert(dec_rep(cur as int) =~= seq![d]);
                assert(dec_rep(n as int) =~= low_first@.reverse());
            } else {
                assert(dec_rep(cur as int) =~= dec_rep(next as int) + seq![d]);
                assert(dec_rep(n as int) =~= dec_rep(next as int) + low_first@.reverse());
            }
        }
        cur = next;
    }
    let mut out: Vec<u8> = Vec::new();
    let mut j: usize = low_first.len();
    while j > 0
        invariant
            j <= low_first.len(),
            out@.len() == low_first@.len() - j,
            forall|k: int|
                0 <= k < out@.len() ==> out@[k] == low_first@[low_first@.len() - 1 - k],
        decreases j,
    {
        out.push(low_first[j - 1]);
        j = j - 1;
    }
    proof {
        assert(out@ =~= low_first@.reverse());
    }
    out
}

/// The status line and opening of the success response's header block.
pub open spec fn ok_prefix() -> Seq<u8> {
    bytes_of("HTTP/1.1 200 OK\r\nContent-Length: "@)
}

/// The rest of a plain-text header block, through the blank line.
pub open spec fn text_header_tail() -> Seq<u8> {
    bytes_of("\r\nContent-Type: text/plain; charset=utf-8\r\nConnection: close\r\n\r\n"@)
}

/// Law: every reply the writer emits announces that the connection closes
/// after the one exchange — the shared header block names
/// `Connection: close`, so both the success reply and the oversize
/// rejection end the connection's only request/response cycle.
pub proof fn lemma_reply_closes_connection()
    ensures
        text_header_tail().subrange(43, 60) == bytes_of("Connection: close"@),
{
    reveal_strlit("\r\nContent-Type: text/plain; charset=utf-8\r\nConnection: close\r\n\r\n");
    reveal_strlit("Connection: close");
    assert(text_header_tail().subrange(43, 60) =~= bytes_of("Connection: close"@));
}

/// The exact bytes of a success response carrying `body`.
pub open spec fn ok_response_bytes(body: Seq<u8>) -> Seq<u8> {
    ok_prefix() + dec_rep(body.len() as int) + text_header_tail() + body
}

/// Serializes a success response: status line, a `Content-Length` equal to
/// the body's byte count, the plain-text headers, a blank line, the body.
pub fn render_response(body: &Vec<u8>) -> (r: Vec<u8>)
    ensures
        r@ == ok_response_bytes(body@),
{
    proof {
        reveal_strlit("HTTP/1.1 200 OK\r\nContent-Length: ");
        reveal_strlit("\r\nContent-Type: text/plain; charset=utf-8\r\nConnection: close\r\n\r\n");
    }
    let mut out = lit_bytes("HTTP/1.1 200 OK\r\nContent-Length: ");
    let num = usize_to_decimal(body.len());
    push_all(&mut out, &num);
    let tail = lit_bytes(
        "\r\nContent-Type: text/plain; charset=utf-8\r\nConnection: close\r\n\r\n",
    );
    push_all(&mut out, &tail);
    push_all(&mut out, body);
    proof {
        assert(out@ =~= ok_response_bytes(body@));
    }
    out
}

/// The status line and opening of the oversize rejection's header block.
pub open spec fn too_large_prefix() -> Seq<u8> {
    bytes_of("HTTP/1.1 413 Payload Too Large\r\nContent-Length: "@)
}

/// The explanatory body of the oversize rejection, naming the configured
/// ceiling.
pub open spec fn too_large_body(max_body_bytes: int) -> Seq<u8> {
    bytes_of("Request body exceeds limit ("@) + dec_rep(max_body_bytes) + bytes_of(" bytes)."@)
}

/// The exact bytes of the oversize rejection for the configured ceiling:
/// a `413` status whose declared `Content-Length` is the byte length of the
/// explanatory body.
pub open spec fn too_large_response_bytes(max_body_bytes: int) -> Seq<u8> {
    too_large_prefix() + dec_rep(too_large_body(max_body_bytes).len() as int) + text_header_tail()
        + too_large_body(max_body_bytes)
}

/// Serializes the oversize rejection.
pub fn render_413(max_body_bytes: usize) -> (r: Vec<u8>)
    ensures
        r@ == too_large_response_bytes(max_body_bytes as int),
{
    proof {
        reveal_strlit("Request body exceeds limit (");
        reveal_strlit(" bytes).");
        reveal_strlit("HTTP/1.1 413 Payload Too Large\r\nContent-Length: ");
        reveal_strlit("\r\nContent-Type: text/plain; charset=utf-8\r\nConnection: close\r\n\r\n");
    }
    let mut body = lit_bytes("Request body exceeds limit (");
    let num = usize_to_decimal(max_body_bytes);
    push_all(&mut body, &num);
    let close = lit_bytes(" bytes).");
    push_all(&mut body, &close);
    proof {
        assert(body@ =~= too_large_body(max_body_bytes as int));
    }
    let mut out = lit_bytes("HTTP/1.1 413 Payload Too Large\r\nContent-Length: ");
    let len_num = usize_to_decimal(body.len());
    push_all(&mut out, &len_num);
    let tail = lit_bytes(
        "\r\nContent-Type: text/plain; charset=utf-8\r\nConnection: close\r\n\r\n",
    );
    push_all(&mut out, &tail);
    push_all(&mut out, &body);
    proof {
        assert(out@ =~= too_large_response_bytes(max_body_bytes as int));
    }
    out
}

} // verus!
