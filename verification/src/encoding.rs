//! Standard, padded base64 text of bytes, as produced by the `base64` crate.

use vstd::prelude::*;
use base64::Engine;

verus! {

/// The character of the standard base64 alphabet with index `n` (`0 <= n < 64`).
pub open spec fn b64_char(n: int) -> char {
    if n < 26 {
        (('A' as int) + n) as char
    } else if n < 52 {
        (('a' as int) + n - 26) as char
    } else if n < 62 {
        (('0' as int) + n - 52) as char
    } else if n == 62 {
        '+'
    } else {
        '/'
    }
}

/// Standard base64 with `=` padding: every three bytes, read as a 24-bit
/// big-endian number, become four characters of six bits each.
pub open spec fn base64_text(b: Seq<u8>) -> Seq<char>
    decreases b.len(),
{
    if b.len() == 0 {
        seq![]
    } else if b.len() == 1 {
        let n = (b[0] as int) * 65536;
        seq![b64_char(n / 262144), b64_char((n / 4096) % 64), '=', '=']
    } else if b.len() == 2 {
        let n = (b[0] as int) * 65536 + (b[1] as int) * 256;
        seq![b64_char(n / 262144), b64_char((n / 4096) % 64), b64_char((n / 64) % 64), '=']
    } else {
        let n = (b[0] as int) * 65536 + (b[1] as int) * 256 + (b[2] as int);
        seq![
            b64_char(n / 262144),
            b64_char((n / 4096) % 64),
            b64_char((n / 64) % 64),
            b64_char(n % 64),
        ] + base64_text(b.skip(3))
    }
}

/// Whether base64 text of `len` bytes has a length that fits in `usize`.
pub open spec fn base64_len_fits(len: nat) -> bool {
    (len / 3) * 4 + 4 <= usize::MAX
}

/// A character of standard base64 text: a letter, a digit, `+`, `/` or the
/// padding `=`.
pub open spec fn is_base64_char(c: char) -> bool {
    ('A' <= c <= 'Z') || ('a' <= c <= 'z') || ('0' <= c <= '9') || c == '+' || c == '/' || c == '='
}

proof fn lemma_b64_char(n: int)
    requires
        0 <= n < 64,
    ensures
        is_base64_char(b64_char(n)),
{
}

/// Base64 text holds only base64 characters, four for every three bytes
/// begun.
pub proof fn lemma_base64_alphabet(b: Seq<u8>)
    ensures
        forall|i: int| 0 <= i < base64_text(b).len() ==> is_base64_char(#[trigger] base64_text(b)[i]),
        base64_text(b).len() == (b.len() + 2) / 3 * 4,
    decreases b.len(),
{
    if b.len() == 0 {
    } else if b.len() == 1 {
        let n = (b[0] as int) * 65536;
        lemma_b64_char(n / 262144);
        lemma_b64_char((n / 4096) % 64);
    } else if b.len() == 2 {
        let n = (b[0] as int) * 65536 + (b[1] as int) * 256;
        lemma_b64_char(n / 262144);
        lemma_b64_char((n / 4096) % 64);
        lemma_b64_char((n / 64) % 64);
    } else {
        let n = (b[0] as int) * 65536 + (b[1] as int) * 256 + (b[2] as int);
        lemma_b64_char(n / 262144);
        lemma_b64_char((n / 4096) % 64);
        lemma_b64_char((n / 64) % 64);
        lemma_b64_char(n % 64);
        lemma_base64_alphabet(b.skip(3));
        let head = seq![
            b64_char(n / 262144),
            b64_char((n / 4096) % 64),
            b64_char((n / 64) % 64),
            b64_char(n % 64),
        ];
        let rest = base64_text(b.skip(3));
        assert forall|i: int| 0 <= i < base64_text(b).len() implies is_base64_char(#[trigger] base64_text(b)[i]) by {
            if i >= 4 {
                assert(base64_text(b)[i] == rest[i - 4]);
            } else {
                assert(base64_text(b)[i] == head[i]);
            }
        }
    }
}

/// Whether base64 text of `len` bytes has a length that fits in `usize`.
pub fn encoded_len_fits(len: usize) -> (b: bool)
    ensures
        b == base64_len_fits(len as nat),
{
    len / 3 <= (usize::MAX - 4) / 4
}

/// Calls `Engine::encode` of `base64::engine::general_purpose::STANDARD`.
/// Claims that the result is the standard padded base64 text of `bytes`.  The
/// call panics only when the encoded length overflows `usize`, which the
/// precondition rules out.
#[verifier::external_body]
pub(crate) fn encode_standard(bytes: &[u8]) -> (r: String)
    requires
        base64_len_fits(bytes@.len()),
    ensures
        r@ == base64_text(bytes@),
{
    base64::engine::general_purpose::STANDARD.encode(bytes)
}

} // verus!
