//! Ethereum addresses and hashes, as the CASP reads them from requests and
//! from the chain.
use crate::text::ascii_lowercase;
use vstd::prelude::*;

verus! {

/// The value of one hexadecimal digit, either case.
pub open spec fn hex_value(c: char) -> Option<u8> {
    if '0' <= c && c <= '9' {
        Some(((c as u32) - ('0' as u32)) as u8)
    } else if 'a' <= c && c <= 'f' {
        Some(((c as u32) - ('a' as u32) + 10) as u8)
    } else if 'A' <= c && c <= 'F' {
        Some(((c as u32) - ('A' as u32) + 10) as u8)
    } else {
        None
    }
}

/// The digits of an address text: the text without a leading `0x` or `0X`.
pub open spec fn address_digits(text: Seq<char>) -> Seq<char> {
    if text.len() >= 2 && text[0] == '0' && (text[1] == 'x' || text[1] == 'X') {
        text.skip(2)
    } else {
        text
    }
}

/// The text spells an address: forty hexadecimal digits, after an optional
/// `0x` prefix. Letters may be in either case; no checksum is required.
pub open spec fn is_address_text(text: Seq<char>) -> bool {
    let d = address_digits(text);
    d.len() == 40 && forall|i: int| 0 <= i < 40 ==> (#[trigger] hex_value(d[i])) is Some
}

/// The twenty bytes that an address text spells, two digits per byte.
pub open spec fn address_bytes(text: Seq<char>) -> Seq<u8> {
    let d = address_digits(text);
    Seq::new(
        20,
        |i: int| (hex_value(d[2 * i])->Some_0 * 16 + hex_value(d[2 * i + 1])->Some_0) as u8,
    )
}

/// The lowercase hexadecimal digit of a value below sixteen.
pub open spec fn lower_hex_digit(v: int) -> char {
    if v < 10 {
        ((v + 48) as u32) as char
    } else {
        ((v + 87) as u32) as char
    }
}

/// Two lowercase hexadecimal digits per byte.
pub open spec fn lower_hex(bytes: Seq<u8>) -> Seq<char>
    decreases bytes.len(),
{
    if bytes.len() == 0 {
        Seq::empty()
    } else {
        lower_hex(bytes.drop_last()) + seq![
            lower_hex_digit(bytes.last() as int / 16),
            lower_hex_digit(bytes.last() as int % 16),
        ]
    }
}

/// The bytes of a text of ASCII characters.
pub open spec fn ascii_bytes(s: Seq<char>) -> Seq<u8> {
    s.map_values(|c: char| (c as u32) as u8)
}

/// Hexadecimal digit `i` of `hash`, most significant first.
pub open spec fn hash_nibble(hash: Seq<u8>, i: int) -> int {
    if i % 2 == 0 {
        hash[i / 2] as int / 16
    } else {
        hash[i / 2] as int % 16
    }
}

/// The EIP-55 digits of an address: its lowercase hexadecimal digits, with
/// each letter in capitals where the matching digit of the Keccak-256 hash of
/// those lowercase digits is 8 or more.
pub open spec fn eip55_digits(address: Seq<u8>) -> Seq<char> {
    let lower = lower_hex(address);
    let hash = keccak256_digest(ascii_bytes(lower));
    Seq::new(
        lower.len(),
        |i: int|
            if lower[i] >= 'a' && hash_nibble(hash, i) >= 8 {
                (((lower[i] as u32) - 32) as u32) as char
            } else {
                lower[i]
            },
    )
}

/// The Keccak-256 digest of some bytes.
pub uninterp spec fn keccak256_digest(data: Seq<u8>) -> Seq<u8>;

/// Calls `<alloy::primitives::Address as FromStr>::from_str`, which decodes
/// forty hexadecimal digits after an optional `0x` prefix, in either case and
/// without checking a checksum, and refuses every other text.
#[verifier::external_body]
pub(crate) fn parse_address(text: &str) -> (r: Option<Vec<u8>>)
    ensures
        r is Some <==> is_address_text(text@),
        r matches Some(b) ==> b@ == address_bytes(text@),
{
    match text.parse::<alloy::primitives::Address>() {
        Ok(address) => Some(address.to_vec()),
        Err(_) => None,
    }
}

/// Calls `alloy::primitives::Address::to_checksum` without a chain ID: `0x`
/// and the address's EIP-55 digits (its lowercase hexadecimal digits, a
/// letter in capitals where the Keccak-256 hash of those digits has a digit of
/// 8 or more), so that lowercasing it gives back the plain spelling.
#[verifier::external_body]
pub(crate) fn checksum_text(address: &Vec<u8>) -> (r: String)
    requires
        address@.len() == 20,
    ensures
        r@ == "0x"@ + eip55_digits(address@),
        ascii_lowercase(r@) == "0x"@ + lower_hex(address@),
{
    alloy::primitives::Address::from_slice(address.as_slice()).to_checksum(None)
}

/// Calls `alloy::primitives::keccak256`: the 32-byte Keccak-256 digest.
#[verifier::external_body]
pub(crate) fn keccak_digest(data: &[u8]) -> (r: Vec<u8>)
    ensures
        r@ == keccak256_digest(data@),
        r@.len() == 32,
{
    alloy::primitives::keccak256(data).to_vec()
}

/// Byte-wise equality.
pub fn bytes_eq(a: &[u8], b: &[u8]) -> (r: bool)
    ensures
        r == (a@ == b@),
{
    let n = a.len();
    if n != b.len() {
        return false;
    }
    let mut i: usize = 0;
    while i < n
        invariant
            n == a@.len(),
            n == b@.len(),
            i <= n,
            forall|k: int| 0 <= k < i ==> a@[k] == b@[k],
        decreases n - i,
    {
        if a[i] != b[i] {
            return false;
        }
        i = i + 1;
    }
    assert(a@ =~= b@);
    true
}

/// An address text checked and put into its checksummed form.
pub open spec fn checksummed_address(text: Seq<char>) -> Option<Seq<char>> {
    if is_address_text(text) {
        Some("0x"@ + eip55_digits(address_bytes(text)))
    } else {
        None
    }
}

/// Reads an address text and gives it back in its EIP-55 form; `None` when
/// the text spells no address.
pub fn checksummed(text: &str) -> (r: Option<String>)
    ensures
        match checksummed_address(text@) {
            Some(c) => r matches Some(s) && s@ == c,
            None => r is None,
        },
        r matches Some(s) ==> ascii_lowercase(s@) == "0x"@ + lower_hex(address_bytes(text@)),
{
    match parse_address(text) {
        Some(bytes) => Some(checksum_text(&bytes)),
        None => None,
    }
}

} // verus!
