//! The JSON text that serde_json writes for strings and unsigned integers.

use vstd::prelude::*;

verus! {

/// The lowercase hexadecimal digit of a value below 16.
pub open spec fn lower_hex_digit(v: int) -> char {
    if v < 10 {
        (('0' as int) + v) as char
    } else {
        (('a' as int) + (v - 10)) as char
    }
}

/// The decimal digit of a value below 10.
pub open spec fn decimal_digit(v: int) -> char {
    (('0' as int) + v) as char
}

/// The decimal representation of `n`, without sign or leading zeros.
pub open spec fn decimal(n: nat) -> Seq<char>
    decreases n,
{
    if n < 10 {
        seq![decimal_digit(n as int)]
    } else {
        decimal(n / 10) + seq![decimal_digit((n % 10) as int)]
    }
}

/// How one character stands inside a JSON string literal: quote and backslash
/// are escaped with a backslash, the control characters below U+0020 by their
/// short escape where JSON has one and as `\u00XX` otherwise.
pub open spec fn json_escape_char(c: char) -> Seq<char> {
    if c == '"' {
        seq!['\\', '"']
    } else if c == '\\' {
        seq!['\\', '\\']
    } else if c == '\u{8}' {
        seq!['\\', 'b']
    } else if c == '\t' {
        seq!['\\', 't']
    } else if c == '\n' {
        seq!['\\', 'n']
    } else if c == '\u{c}' {
        seq!['\\', 'f']
    } else if c == '\r' {
        seq!['\\', 'r']
    } else if (c as int) < 0x20 {
        seq!['\\', 'u', '0', '0', lower_hex_digit((c as int) / 16), lower_hex_digit((c as int) % 16)]
    } else {
        seq![c]
    }
}

/// The escaped body of a JSON string literal.
pub open spec fn json_escape(s: Seq<char>) -> Seq<char>
    decreases s.len(),
{
    if s.len() == 0 {
        Seq::empty()
    } else {
        json_escape(s.drop_last()) + json_escape_char(s.last())
    }
}

/// A JSON string literal holding `s`.
pub open spec fn json_quote(s: Seq<char>) -> Seq<char> {
    seq!['"'] + json_escape(s) + seq!['"']
}

/// A JSON boolean literal.
pub open spec fn json_bool(b: bool) -> Seq<char> {
    if b {
        seq!['t', 'r', 'u', 'e']
    } else {
        seq!['f', 'a', 'l', 's', 'e']
    }
}

/// A JSON array of string literals, without its brackets: the literals joined by commas.
pub open spec fn json_string_list(items: Seq<Seq<char>>) -> Seq<char>
    decreases items.len(),
{
    if items.len() == 0 {
        Seq::empty()
    } else if items.len() == 1 {
        json_quote(items[0])
    } else {
        json_string_list(items.drop_last()) + seq![','] + json_quote(items.last())
    }
}

#[verifier::external_type_specification]
#[verifier::external_body]
pub struct ExSerdeJsonError(serde_json::Error);

/// `serde_json::to_string` on a `str`: the string written as a JSON string literal,
/// escaped as `json_quote` says. Writing into the in-memory buffer cannot fail.
#[verifier::external_body]
fn to_json_string(s: &str) -> (r: Result<String, serde_json::Error>)
    ensures
        r is Ok,
        r->Ok_0@ == json_quote(s@),
{
    serde_json::to_string(s)
}

/// `serde_json::to_string` on a `u64`: its decimal digits. Writing into the
/// in-memory buffer cannot fail.
#[verifier::external_body]
fn to_json_u64(n: u64) -> (r: Result<String, serde_json::Error>)
    ensures
        r is Ok,
        r->Ok_0@ == decimal(n as nat),
{
    serde_json::to_string(&n)
}

/// Appends `s` as a JSON string literal.
pub fn push_json_string(out: &mut String, s: &str)
    ensures
        final(out)@ == old(out)@ + json_quote(s@),
{
    match to_json_string(s) {
        Ok(t) => out.append(t.as_str()),
        Err(_) => {},
    }
}

/// Appends the decimal digits of `n`.
pub fn push_json_u64(out: &mut String, n: u64)
    ensures
        final(out)@ == old(out)@ + decimal(n as nat),
{
    match to_json_u64(n) {
        Ok(t) => out.append(t.as_str()),
        Err(_) => {},
    }
}

/// Appends `true` or `false`.
pub fn push_json_bool(out: &mut String, b: bool)
    ensures
        final(out)@ == old(out)@ + json_bool(b),
{
    if b {
        out.append("true");
        proof {
            reveal_strlit("true");
        }
    } else {
        out.append("false");
        proof {
            reveal_strlit("false");
        }
    }
}

} // verus!
