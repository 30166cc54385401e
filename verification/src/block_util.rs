//! Ethereum addresses: reading one from text and writing it back as hex.

use vstd::prelude::*;
use crate::json::lower_hex_digit;

verus! {

/// A 20-byte Ethereum account address, most significant byte first.
#[derive(Clone, Copy, Debug, PartialEq, Eq)]
pub struct Address(pub [u8; 20]);

impl View for Address {
    type V = Seq<u8>;

    open spec fn view(&self) -> Seq<u8> {
        self.0@
    }
}

/// Why a text could not be read as an address.
#[derive(Clone, Copy, Debug, PartialEq, Eq)]
pub enum AddressError {
    /// A character that is neither a hex digit nor white space, and its byte offset.
    InvalidHexCharacter(char, usize),
    /// Not exactly forty hex digits.
    InvalidHexLength,
}

/// The number of bytes of the UTF-8 encoding of `c`.
pub open spec fn utf8_width(c: char) -> int {
    if (c as int) < 0x80 {
        1
    } else if (c as int) < 0x800 {
        2
    } else if (c as int) < 0x10000 {
        3
    } else {
        4
    }
}

/// Byte offset 2 of the UTF-8 encoding of `s` lies within it and on a character boundary.
pub open spec fn splits_after_two_bytes(s: Seq<char>) -> bool {
    &&& s.len() >= 1
    &&& (utf8_width(s[0]) == 2 || (utf8_width(s[0]) == 1 && s.len() >= 2 && utf8_width(s[1])
        == 1))
}

/// The characters of `s` after its first two bytes.
pub open spec fn after_two_bytes(s: Seq<char>) -> Seq<char> {
    if utf8_width(s[0]) == 2 {
        s.skip(1)
    } else {
        s.skip(2)
    }
}

pub open spec fn is_hex_digit(c: char) -> bool {
    ||| (('0' as int) <= (c as int) <= ('9' as int))
    ||| (('a' as int) <= (c as int) <= ('f' as int))
    ||| (('A' as int) <= (c as int) <= ('F' as int))
}

pub open spec fn hex_value(c: char) -> int {
    if ('0' as int) <= (c as int) <= ('9' as int) {
        (c as int) - ('0' as int)
    } else if ('a' as int) <= (c as int) <= ('f' as int) {
        (c as int) - ('a' as int) + 10
    } else {
        (c as int) - ('A' as int) + 10
    }
}

/// The white space that may stand between hex digits.
pub open spec fn is_hex_space(c: char) -> bool {
    c == ' ' || c == '\r' || c == '\n' || c == '\t'
}

/// The index of the first character of `t` that is neither a hex digit nor
/// white space, or the length of `t` when there is none.
pub open spec fn first_non_hex_index(t: Seq<char>) -> int
    decreases t.len(),
{
    if t.len() == 0 {
        0
    } else if !is_hex_digit(t[0]) && !is_hex_space(t[0]) {
        0
    } else {
        1 + first_non_hex_index(t.drop_first())
    }
}

/// The hex digits of `t`, in order.
pub open spec fn hex_digits(t: Seq<char>) -> Seq<char>
    decreases t.len(),
{
    if t.len() == 0 {
        Seq::empty()
    } else if is_hex_digit(t.last()) {
        hex_digits(t.drop_last()).push(t.last())
    } else {
        hex_digits(t.drop_last())
    }
}

/// The bytes written by the first `2 * n` digits of `d`, two digits to a byte,
/// the high half first.
pub open spec fn hex_pairs(d: Seq<char>, n: nat) -> Seq<u8> {
    Seq::new(n, |i: int| (16 * hex_value(d[2 * i]) + hex_value(d[2 * i + 1])) as u8)
}

/// `s` without one leading `0x`, when it has one.
pub open spec fn strip_hex_prefix(s: Seq<char>) -> Seq<char> {
    if s.len() >= 2 && s[0] == '0' && s[1] == 'x' {
        s.skip(2)
    } else {
        s
    }
}

/// What reading `s` as a 20-byte hash gives: after one optional `0x`, exactly
/// forty hex digits, white space anywhere among them. A character that is neither
/// is reported with its offset when it comes before the fortieth digit; every
/// other failure is a length error.
pub open spec fn h160_from_str(s: Seq<char>) -> Result<Seq<u8>, AddressError> {
    let t = strip_hex_prefix(s);
    let bad = first_non_hex_index(t);
    let d = hex_digits(t.take(bad));
    if bad < t.len() {
        if d.len() < 40 {
            Err(AddressError::InvalidHexCharacter(t[bad], bad as usize))
        } else {
            Err(AddressError::InvalidHexLength)
        }
    } else if d.len() == 40 {
        Ok(hex_pairs(d, 20))
    } else {
        Err(AddressError::InvalidHexLength)
    }
}

/// What `convert_to_address` gives for `s`.
pub open spec fn address_from_str(s: Seq<char>) -> Result<Seq<u8>, AddressError> {
    h160_from_str(after_two_bytes(s))
}

/// Two lowercase hex digits for each byte of `b`, the high half first.
pub open spec fn lower_hex_bytes(b: Seq<u8>) -> Seq<char> {
    Seq::new(
        2 * b.len(),
        |j: int|
            if j % 2 == 0 {
                lower_hex_digit(b[j / 2] as int / 16)
            } else {
                lower_hex_digit(b[j / 2] as int % 16)
            },
    )
}

/// The text that the `Debug` format of an address gives: `0x` and forty
/// lowercase hex digits.
pub open spec fn address_debug_text(b: Seq<u8>) -> Seq<char> {
    seq!['0', 'x'] + lower_hex_bytes(b)
}

/// `H160::from_str` (fixed-hash, through `str::parse`): the bytes it reads, or its
/// error with the variant and fields carried over, as `h160_from_str` states.
#[verifier::external_body]
fn parse_h160(s: &str) -> (r: Result<[u8; 20], AddressError>)
    ensures
        match r {
            Ok(b) => h160_from_str(s@) == Ok::<Seq<u8>, AddressError>(b@),
            Err(e) => h160_from_str(s@) == Err::<Seq<u8>, AddressError>(e),
        },
{
    match s.parse::<web3::types::H160>() {
        Ok(h) => Ok(h.0),
        Err(rustc_hex::FromHexError::InvalidHexCharacter(c, i)) => Err(
            AddressError::InvalidHexCharacter(c, i),
        ),
        Err(rustc_hex::FromHexError::InvalidHexLength) => Err(AddressError::InvalidHexLength),
    }
}

/// The `Debug` format of `H160` (fixed-hash): `0x` followed by two lowercase
/// hex digits per byte, as `address_debug_text` states.
#[verifier::external_body]
fn h160_debug_text(bytes: [u8; 20]) -> (r: String)
    ensures
        r@ == address_debug_text(bytes@),
{
    format!("{:?}", web3::types::H160(bytes))
}

impl Address {
    /// The address as `0x` and forty lowercase hex digits.
    pub fn debug_string(&self) -> (r: String)
        ensures
            r@ == address_debug_text(self@),
    {
        h160_debug_text(self.0)
    }
}

/// Reads an address from text that starts with two bytes of prefix (usually
/// `0x`), which are dropped before the rest is read as a 20-byte hex hash.
pub fn convert_to_address(other: &str) -> (r: Result<Address, AddressError>)
    requires
        splits_after_two_bytes(other@),
    ensures
        match address_from_str(other@) {
            Ok(b) => r matches Ok(a) && a@ == b,
            Err(e) => r == Err::<Address, AddressError>(e),
        },
{
    let first = other.get_char(0);
    let start: usize = if (first as u32) < 0x80 {
        2
    } else {
        1
    };
    let len = other.unicode_len();
    let rest = other.substring_char(start, len);
    assert(rest@ == after_two_bytes(other@));
    match parse_h160(rest) {
        Ok(bytes) => Ok(Address(bytes)),
        Err(e) => Err(e),
    }
}

} // verus!
