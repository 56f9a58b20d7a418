//! JSON text of strings and string lists, as produced by `serde_json`.

use vstd::prelude::*;

verus! {

/// Lower-case hexadecimal digit of `n` (`0 <= n < 16`).
pub open spec fn hex_digit(n: int) -> char {
    if n < 10 {
        (('0' as int) + n) as char
    } else {
        (('a' as int) + n - 10) as char
    }
}

/// The JSON escape of a single character inside a string literal.
pub open spec fn json_escape_char(c: char) -> Seq<char> {
    let v = c as u32;
    if c == '"' {
        seq!['\\', '"']
    } else if c == '\\' {
        seq!['\\', '\\']
    } else if v == 0x08 {
        seq!['\\', 'b']
    } else if v == 0x0c {
        seq!['\\', 'f']
    } else if c == '\n' {
        seq!['\\', 'n']
    } else if c == '\r' {
        seq!['\\', 'r']
    } else if c == '\t' {
        seq!['\\', 't']
    } else if v < 0x20 {
        seq!['\\', 'u', '0', '0', hex_digit(v as int / 16), hex_digit(v as int % 16)]
    } else {
        seq![c]
    }
}

/// The escaped contents of a JSON string literal.
pub open spec fn json_escape(s: Seq<char>) -> Seq<char>
    decreases s.len(),
{
    if s.len() == 0 {
        seq![]
    } else {
        json_escape_char(s[0]) + json_escape(s.skip(1))
    }
}

/// A JSON string literal holding `s`.
pub open spec fn json_quote(s: Seq<char>) -> Seq<char> {
    seq!['"'] + json_escape(s) + seq!['"']
}

/// The string literals of `items`, separated by commas.
pub open spec fn json_join(items: Seq<Seq<char>>) -> Seq<char>
    decreases items.len(),
{
    if items.len() == 0 {
        seq![]
    } else if items.len() == 1 {
        json_quote(items[0])
    } else {
        json_quote(items[0]) + seq![','] + json_join(items.skip(1))
    }
}

/// Compact JSON array of the string literals of `items`.
pub open spec fn json_string_array(items: Seq<Seq<char>>) -> Seq<char> {
    seq!['['] + json_join(items) + seq![']']
}

/// The value of a hexadecimal digit.
pub open spec fn hex_value(c: char) -> int {
    let v = c as u32 as int;
    if 0x30 <= v <= 0x39 {
        v - 0x30
    } else if 0x61 <= v <= 0x66 {
        v - 0x61 + 10
    } else if 0x41 <= v <= 0x46 {
        v - 0x41 + 10
    } else {
        0
    }
}

/// Whether `c` is a hexadecimal digit.
pub open spec fn is_hex(c: char) -> bool {
    let v = c as u32 as int;
    (0x30 <= v <= 0x39) || (0x61 <= v <= 0x66) || (0x41 <= v <= 0x46)
}

/// The character that a one-letter escape `\e` stands for.
pub open spec fn simple_unescape(e: char) -> Option<char> {
    if e == '"' {
        Some('"')
    } else if e == '\\' {
        Some('\\')
    } else if e == '/' {
        Some('/')
    } else if e == 'b' {
        Some(8u32 as char)
    } else if e == 'f' {
        Some(12u32 as char)
    } else if e == 'n' {
        Some('\n')
    } else if e == 'r' {
        Some('\r')
    } else if e == 't' {
        Some('\t')
    } else {
        None
    }
}

/// Reads the inside of a JSON string literal from the front of `t`, up to the
/// closing quote: the characters it stands for, and the position of that
/// quote in `t`.  None when `t` holds no well-formed rest of a string literal.
/// (Escapes `\uXXXX` of surrogates are not read here.)
pub open spec fn read_string_body(t: Seq<char>) -> Option<(Seq<char>, int)>
    decreases t.len(),
{
    if t.len() == 0 {
        None
    } else if t[0] == '"' {
        Some((seq![], 0))
    } else if (t[0] as u32) < 0x20 {
        None
    } else if t[0] == '\\' {
        if t.len() < 2 {
            None
        } else if t[1] == 'u' {
            if t.len() < 6 || !is_hex(t[2]) || !is_hex(t[3]) || !is_hex(t[4]) || !is_hex(t[5]) {
                None
            } else {
                let v = hex_value(t[2]) * 4096 + hex_value(t[3]) * 256 + hex_value(t[4]) * 16
                    + hex_value(t[5]);
                if 0xd800 <= v < 0xe000 {
                    None
                } else {
                    match read_string_body(t.skip(6)) {
                        Some((d, k)) => Some((seq![v as char] + d, k + 6)),
                        None => None,
                    }
                }
            }
        } else {
            match simple_unescape(t[1]) {
                Some(c) => match read_string_body(t.skip(2)) {
                    Some((d, k)) => Some((seq![c] + d, k + 2)),
                    None => None,
                },
                None => None,
            }
        }
    } else {
        match read_string_body(t.skip(1)) {
            Some((d, k)) => Some((seq![t[0]] + d, k + 1)),
            None => None,
        }
    }
}

proof fn lemma_read_escaped_char(c: char, rest: Seq<char>)
    requires
        read_string_body(rest) is Some,
    ensures
        read_string_body(json_escape_char(c) + rest) == Some(
            (seq![c] + read_string_body(rest).unwrap().0, read_string_body(rest).unwrap().1 + json_escape_char(c).len()),
        ),
{
    let e = json_escape_char(c);
    let t = e + rest;
    let v = c as u32;
    if c == '"' || c == '\\' || v == 0x08 || v == 0x0c || c == '\n' || c == '\r' || c == '\t' {
        assert(t[0] == '\\');
        assert(t.skip(2) =~= rest);
        if v == 0x08 {
            assert(8u32 as char == c);
        }
        if v == 0x0c {
            assert(12u32 as char == c);
        }
    } else if v < 0x20 {
        assert(t[0] == '\\' && t[1] == 'u');
        assert(t.skip(6) =~= rest);
        let hv = hex_value(t[2]) * 4096 + hex_value(t[3]) * 256 + hex_value(t[4]) * 16 + hex_value(t[5]);
        assert(hv == v as int);
        assert(v as int as char == c);
    } else {
        assert(t[0] == c);
        assert(t.skip(1) =~= rest);
    }
}

proof fn lemma_read_escaped(s: Seq<char>, rest: Seq<char>)
    requires
        read_string_body(rest) is Some,
    ensures
        read_string_body(json_escape(s) + rest) == Some(
            (s + read_string_body(rest).unwrap().0, read_string_body(rest).unwrap().1 + json_escape(s).len()),
        ),
    decreases s.len(),
{
    if s.len() == 0 {
        assert(json_escape(s) + rest =~= rest);
        assert(s + read_string_body(rest).unwrap().0 =~= read_string_body(rest).unwrap().0);
    } else {
        let r2 = json_escape(s.skip(1)) + rest;
        lemma_read_escaped(s.skip(1), rest);
        lemma_read_escaped_char(s[0], r2);
        assert(json_escape(s) + rest =~= json_escape_char(s[0]) + r2);
        assert(seq![s[0]] + (s.skip(1) + read_string_body(rest).unwrap().0) =~= s + read_string_body(rest).unwrap().0);
    }
}

/// A string stays inside its JSON literal: reading the escaped text of `s`
/// back, whatever follows the closing quote, gives exactly `s`, and the
/// literal ends exactly at the quote placed after the escaped text.
pub proof fn lemma_json_string_reads_back(s: Seq<char>, after: Seq<char>)
    ensures
        read_string_body(json_escape(s) + seq!['"'] + after) == Some((s, json_escape(s).len() as int)),
{
    let rest = seq!['"'] + after;
    assert(read_string_body(rest) == Some((Seq::<char>::empty(), 0int)));
    lemma_read_escaped(s, rest);
    assert(json_escape(s) + seq!['"'] + after =~= json_escape(s) + rest);
    assert(s + Seq::<char>::empty() =~= s);
}

/// Reads the string literals of a JSON array from the opening quote of its
/// first item to its closing bracket, which must end `t`.
pub open spec fn read_string_items(t: Seq<char>) -> Option<Seq<Seq<char>>>
    decreases t.len(),
{
    if t.len() == 0 || t[0] != '"' {
        None
    } else {
        match read_string_body(t.skip(1)) {
            Some((d, k)) => if 0 <= k && k + 2 <= t.len() {
                let after = t.skip(k + 2);
                if after.len() == 1 && after[0] == ']' {
                    Some(seq![d])
                } else if after.len() > 0 && after[0] == ',' {
                    match read_string_items(after.skip(1)) {
                        Some(r) => Some(seq![d] + r),
                        None => None,
                    }
                } else {
                    None
                }
            } else {
                None
            },
            None => None,
        }
    }
}

/// Reads a compact JSON array of string literals that makes up all of `t`.
pub open spec fn read_json_string_array(t: Seq<char>) -> Option<Seq<Seq<char>>> {
    if t.len() == 2 && t[0] == '[' && t[1] == ']' {
        Some(seq![])
    } else if t.len() > 0 && t[0] == '[' {
        read_string_items(t.skip(1))
    } else {
        None
    }
}

proof fn lemma_read_items(items: Seq<Seq<char>>)
    requires
        items.len() > 0,
    ensures
        read_string_items(json_join(items) + seq![']']) == Some(items),
    decreases items.len(),
{
    let s0 = items[0];
    let e0 = json_escape(s0);
    let k = e0.len() as int;
    if items.len() == 1 {
        let t = json_join(items) + seq![']'];
        lemma_json_string_reads_back(s0, seq![']']);
        assert(t.skip(1) =~= e0 + seq!['"'] + seq![']']);
        assert(t.skip(k + 2) =~= seq![']']);
        assert(seq![s0] =~= items);
    } else {
        let rest = items.skip(1);
        let tail = seq![','] + json_join(rest) + seq![']'];
        let t = json_join(items) + seq![']'];
        assert(t =~= seq!['"'] + e0 + seq!['"'] + tail);
        lemma_json_string_reads_back(s0, tail);
        assert(t.skip(1) =~= e0 + seq!['"'] + tail);
        assert(t.skip(k + 2) =~= tail);
        assert(tail.skip(1) =~= json_join(rest) + seq![']']);
        lemma_read_items(rest);
        assert(json_join(rest).len() > 0);
        assert(seq![s0] + rest =~= items);
    }
}

/// Every item stays inside its string literal: the JSON array of `items`
/// reads back as exactly `items`, whatever quotes, backslashes or control
/// characters they hold.
pub proof fn lemma_json_string_array_reads_back(items: Seq<Seq<char>>)
    ensures
        read_json_string_array(json_string_array(items)) == Some(items),
{
    let t = json_string_array(items);
    if items.len() == 0 {
        assert(t =~= seq!['[', ']']);
        assert(items =~= Seq::<Seq<char>>::empty());
    } else {
        lemma_read_items(items);
        assert(t.skip(1) =~= json_join(items) + seq![']']);
        if items.len() == 1 {
            assert(json_join(items).len() >= 2);
        } else {
            assert(json_join(items).len() >= 2);
        }
    }
}

#[verifier::external_type_specification]
#[verifier::external_body]
pub struct ExJsonError(serde_json::Error);

/// Calls `serde_json::to_string` on a slice of strings.  Claims that the call
/// succeeds and gives the compact JSON array of the escaped strings: the
/// serializer of a string sequence never fails and writes into a `Vec<u8>`,
/// escaping `"`, `\` and the control characters below 0x20 as its `ESCAPE`
/// table shows.
#[verifier::external_body]
pub(crate) fn to_json_string_array(items: &[String]) -> (r: Result<String, serde_json::Error>)
    ensures
        r is Ok,
        r matches Ok(t) ==> t@ == json_string_array(items.deep_view()),
{
    serde_json::to_string(items)
}

/// Calls `serde_json::to_string` on a string.  Claims that the call succeeds
/// and gives the JSON string literal of `s`, escaped as above.
#[verifier::external_body]
pub(crate) fn to_json_string(s: &str) -> (r: Result<String, serde_json::Error>)
    ensures
        r is Ok,
        r matches Ok(t) ==> t@ == json_quote(s@),
{
    serde_json::to_string(s)
}

} // verus!
