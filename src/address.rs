//! Syntax of wallet addresses: `0x` followed by forty hexadecimal digits.

use vstd::prelude::*;

verus! {

/// A 20-byte account address, big-endian as written in its hex text.
#[derive(Clone, Copy, Debug, PartialEq, Eq)]
pub struct WalletAddress {
    pub bytes: [u8; 20],
}

pub open spec fn is_hex_digit(c: char) -> bool {
    ('0' <= c && c <= '9') || ('a' <= c && c <= 'f') || ('A' <= c && c <= 'F')
}

pub open spec fn hex_value(c: char) -> int {
    if '0' <= c && c <= '9' {
        c as int - '0' as int
    } else if 'a' <= c && c <= 'f' {
        c as int - 'a' as int + 10
    } else {
        c as int - 'A' as int + 10
    }
}

/// The bytes that pairs of hex digits denote, first pair first.
pub open spec fn hex_bytes(h: Seq<char>) -> Seq<u8> {
    Seq::new(h.len() / 2, |i: int| (hex_value(h[2 * i]) * 16 + hex_value(h[2 * i + 1])) as u8)
}

/// The forty characters after the prefix of address text.
pub open spec fn address_digits(s: Seq<char>) -> Seq<char> {
    s.subrange(2, 42)
}

/// Well-formed address text: `0x` and exactly forty hex digits.
pub open spec fn is_address_text(s: Seq<char>) -> bool {
    &&& s.len() == 42
    &&& s[0] == '0'
    &&& s[1] == 'x'
    &&& forall|i: int| 2 <= i < 42 ==> is_hex_digit(#[trigger] s[i])
}

/// Relies on `FromStr` of ethers' `Address` (fixed-hash's `H160`, decoding
/// with rustc-hex): it drops the leading `0x`, and forty characters then
/// decode, big-endian, exactly when all of them are hex digits.
#[verifier::external_body]
fn parse_h160(s: &str) -> (r: Option<[u8; 20]>)
    requires
        s@.len() == 42,
        s@[0] == '0',
        s@[1] == 'x',
    ensures
        r.is_some() == (forall|i: int| 2 <= i < 42 ==> is_hex_digit(#[trigger] s@[i])),
        r matches Some(b) ==> b@ == hex_bytes(address_digits(s@)),
{
    s.parse::<ethers::types::Address>().ok().map(|a| a.0)
}

/// Reads address text; `None` unless it is `0x` and forty hex digits.
pub fn parse_wallet_address(s: &str) -> (r: Option<WalletAddress>)
    ensures
        r.is_some() == is_address_text(s@),
        r matches Some(a) ==> a.bytes@ == hex_bytes(address_digits(s@)),
{
    if s.unicode_len() != 42 {
        return None;
    }
    if s.get_char(0) != '0' || s.get_char(1) != 'x' {
        return None;
    }
    match parse_h160(s) {
        Some(bytes) => Some(WalletAddress { bytes }),
        None => None,
    }
}

} // verus!
