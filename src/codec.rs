//! Hex text, ledger addresses and the ABI words of contract calls.

use vstd::prelude::*;
use vstd::slice::slice_subrange;
use vstd::string::StringSliceAdditionalSpecFns;
use vstd::string::StringExecFns;
use vstd::utf8::encode_utf8;
use ethers_core::abi::Token;
use crate::natural::BigNat;
use crate::natural::be_value;

verus! {

/// An ASCII hex digit, either case.
pub open spec fn is_hex_digit(b: u8) -> bool {
    (48 <= b <= 57) || (97 <= b <= 102) || (65 <= b <= 70)
}

/// The value of a hex digit.
pub open spec fn hex_value(b: u8) -> int {
    if 48 <= b <= 57 {
        b - 48
    } else if 97 <= b <= 102 {
        b - 87
    } else {
        b - 55
    }
}

/// Text that decodes as hex: an even number of hex digits.
pub open spec fn is_hex_text(s: Seq<u8>) -> bool {
    &&& s.len() % 2 == 0
    &&& forall|i: int| 0 <= i < s.len() ==> is_hex_digit(#[trigger] s[i])
}

/// The bytes that hex text stands for, two digits per byte, high digit first.
pub open spec fn hex_decoded(s: Seq<u8>) -> Seq<u8> {
    Seq::new(
        s.len() / 2,
        |i: int| (hex_value(s[2 * i]) * 16 + hex_value(s[2 * i + 1])) as u8,
    )
}

/// The lowercase hex digit for a value below 16.
pub open spec fn hex_char(n: int) -> char {
    if n < 10 {
        (n + 48) as char
    } else {
        (n + 87) as char
    }
}

/// Lowercase hex text of bytes, two digits per byte, high digit first.
pub open spec fn hex_encoded(b: Seq<u8>) -> Seq<char> {
    Seq::new(
        2 * b.len(),
        |i: int|
            if i % 2 == 0 {
                hex_char((b[i / 2] as int) / 16)
            } else {
                hex_char((b[i / 2] as int) % 16)
            },
    )
}

/// Relies on hex::decode: it accepts exactly an even number of hex digits of
/// either case and yields one byte for each pair, high digit first.
#[verifier::external_body]
fn hex_decode(data: &[u8]) -> (r: Option<Vec<u8>>)
    ensures
        r is Some <==> is_hex_text(data@),
        r matches Some(v) ==> v@ == hex_decoded(data@),
{
    hex::decode(data).ok()
}

/// Relies on hex::encode: two lowercase hex digits for each byte.
#[verifier::external_body]
fn hex_encode(data: &[u8]) -> (r: String)
    ensures
        r@ == hex_encoded(data@),
{
    hex::encode(data)
}

/// Why hex text could not be read.
#[derive(Clone, Copy, Debug, PartialEq, Eq, Structural)]
pub enum HexError {
    /// The text is shorter than its two-character prefix.
    TooShort,
    /// What follows the prefix is not an even number of hex digits.
    InvalidDigits,
}

/// `0x` followed by the lowercase hex text of `data`.
pub open spec fn prefixed_hex(data: Seq<u8>) -> Seq<char> {
    seq!['0', 'x'] + hex_encoded(data)
}

/// Writes bytes as `0x`-prefixed lowercase hex.
pub fn to_hex(data: &[u8]) -> (r: String)
    ensures
        r@ == prefixed_hex(data@),
{
    let prefix = String::from_str("0x");
    proof {
        reveal_strlit("0x");
    }
    let digits = hex_encode(data);
    let r = prefix.concat(digits.as_str());
    assert(r@ == prefixed_hex(data@));
    r
}

/// What `from_hex` yields: the first two bytes are skipped as a prefix,
/// the rest must be hex text.
pub open spec fn from_hex_result(s: Seq<u8>) -> Result<Seq<u8>, HexError> {
    if s.len() < 2 {
        Err(HexError::TooShort)
    } else if !is_hex_text(s.subrange(2, s.len() as int)) {
        Err(HexError::InvalidDigits)
    } else {
        Ok(hex_decoded(s.subrange(2, s.len() as int)))
    }
}

/// Reads `0x`-prefixed hex text; the two prefix bytes are not inspected.
pub fn from_hex(data: &str) -> (r: Result<Vec<u8>, HexError>)
    ensures
        r matches Ok(v) ==> from_hex_result(data.spec_bytes()) == Ok::<Seq<u8>, HexError>(v@),
        r matches Err(e) ==> from_hex_result(data.spec_bytes()) == Err::<Seq<u8>, HexError>(e),
{
    let bytes = data.as_bytes();
    if bytes.len() < 2 {
        return Err(HexError::TooShort);
    }
    let digits = slice_subrange(bytes, 2, bytes.len());
    match hex_decode(digits) {
        Some(v) => Ok(v),
        None => Err(HexError::InvalidDigits),
    }
}

/// The number that hex digits stand for, most significant digit first.
pub open spec fn hex_digits_value(s: Seq<u8>) -> nat
    decreases s.len(),
{
    if s.len() == 0 {
        0
    } else {
        hex_digits_value(s.drop_last()) * 16 + hex_value(s.last()) as nat
    }
}

/// Whether every byte is a hex digit.
pub open spec fn all_hex_digits(s: Seq<u8>) -> bool {
    forall|i: int| 0 <= i < s.len() ==> is_hex_digit(#[trigger] s[i])
}

/// What `from_hex_quantity` yields: the first two bytes are skipped as a
/// prefix; the rest must be hex digits, any number of them.
pub open spec fn quantity_result(s: Seq<u8>) -> Result<nat, HexError> {
    if s.len() < 2 {
        Err(HexError::TooShort)
    } else if !all_hex_digits(s.subrange(2, s.len() as int)) {
        Err(HexError::InvalidDigits)
    } else {
        Ok(hex_digits_value(s.subrange(2, s.len() as int)))
    }
}

/// A leading zero digit does not change the value.
proof fn lemma_leading_zero(s: Seq<u8>)
    ensures
        hex_digits_value(seq![48u8] + s) == hex_digits_value(s),
    decreases s.len(),
{
    if s.len() == 0 {
        assert((seq![48u8] + s).drop_last() =~= Seq::<u8>::empty());
        assert(hex_digits_value(Seq::<u8>::empty()) == 0);
    } else {
        lemma_leading_zero(s.drop_last());
        assert((seq![48u8] + s).drop_last() =~= seq![48u8] + s.drop_last());
    }
}

/// Decoding hex text byte by byte gives the number its digits stand for.
proof fn lemma_hex_decoded_value(s: Seq<u8>)
    requires
        is_hex_text(s),
    ensures
        be_value(hex_decoded(s)) == hex_digits_value(s),
    decreases s.len(),
{
    if s.len() > 0 {
        let n = s.len() as int;
        let t = s.subrange(0, n - 2);
        assert(is_hex_text(t)) by {
            assert forall|i: int| 0 <= i < t.len() implies is_hex_digit(#[trigger] t[i]) by {
                assert(t[i] == s[i]);
            }
        }
        lemma_hex_decoded_value(t);
        assert(hex_decoded(s).drop_last() =~= hex_decoded(t));
        let a = hex_value(s[n - 2]);
        let b = hex_value(s[n - 1]);
        assert(is_hex_digit(s[n - 2]) && is_hex_digit(s[n - 1]));
        assert(0 <= a < 16 && 0 <= b < 16);
        assert(hex_decoded(s).last() == (a * 16 + b) as u8);
        assert(s.drop_last().drop_last() =~= t);
        assert(s.drop_last().last() == s[n - 2]);
        let x = hex_digits_value(t);
        let d = hex_decoded(s);
        assert(d.len() > 0);
        assert(be_value(d) == be_value(d.drop_last()) * 256 + d.last() as nat);
        assert(be_value(d.drop_last()) == x);
        assert(d.last() as nat == a * 16 + b);
        assert(hex_digits_value(s.drop_last()) == x * 16 + a);
        assert(hex_digits_value(s) == hex_digits_value(s.drop_last()) * 16 + b);
        assert((x * 16 + a) * 16 + b == x * 256 + (a * 16 + b)) by (nonlinear_arith);
    }
}

/// Reads a `0x`-prefixed hex quantity with any number of digits (an odd
/// count reads as if a leading zero were there); the two prefix bytes are
/// not inspected.
pub fn from_hex_quantity(data: &str) -> (r: Result<BigNat, HexError>)
    ensures
        r matches Ok(n) ==> quantity_result(data.spec_bytes()) == Ok::<nat, HexError>(n@),
        r matches Err(e) ==> quantity_result(data.spec_bytes()) == Err::<nat, HexError>(e),
{
    let bytes = data.as_bytes();
    if bytes.len() < 2 {
        return Err(HexError::TooShort);
    }
    let digits = slice_subrange(bytes, 2, bytes.len());
    let mut padded: Vec<u8> = Vec::new();
    if digits.len() % 2 == 1 {
        padded.push(48u8);
    }
    let ghost lead = padded@;
    let mut i: usize = 0;
    while i < digits.len()
        invariant
            0 <= i <= digits@.len(),
            lead.len() == digits@.len() % 2,
            lead.len() == 1 ==> lead[0] == 48u8,
            padded@ == lead + digits@.subrange(0, i as int),
        decreases digits@.len() - i,
    {
        padded.push(digits[i]);
        i += 1;
    }
    assert(digits@.subrange(0, digits@.len() as int) =~= digits@);
    assert(digits@ =~= bytes@.subrange(2, bytes@.len() as int));
    assert(padded@.len() % 2 == 0);
    match hex_decode(padded.as_slice()) {
        Some(v) => {
            proof {
                lemma_hex_decoded_value(padded@);
                if lead.len() == 1 {
                    assert(lead =~= seq![48u8]);
                    lemma_leading_zero(digits@);
                } else {
                    assert(padded@ =~= digits@);
                }
                assert(all_hex_digits(digits@)) by {
                    assert forall|j: int| 0 <= j < digits@.len() implies is_hex_digit(
                        #[trigger] digits@[j],
                    ) by {
                        assert(padded@[j + lead.len()] == digits@[j]);
                    }
                }
            }
            Ok(BigNat::from_be_bytes(v))
        },
        None => {
            proof {
                if all_hex_digits(digits@) {
                    assert forall|j: int| 0 <= j < padded@.len() implies is_hex_digit(
                        #[trigger] padded@[j],
                    ) by {
                        if j >= lead.len() {
                            assert(padded@[j] == digits@[j - lead.len()]);
                        }
                    }
                }
            }
            Err(HexError::InvalidDigits)
        },
    }
}

/// A 20-byte ledger account address.
#[derive(Clone, Copy, Debug, PartialEq, Eq)]
pub struct EthAddress {
    pub bytes: [u8; 20],
}

/// Address text: `0x` followed by forty hex digits.
pub open spec fn is_address_text(s: Seq<u8>) -> bool {
    &&& s.len() == 42
    &&& s[0] == 48
    &&& s[1] == 120
    &&& is_hex_text(s.subrange(2, 42))
}

/// Reads `0x` followed by forty hex digits of either case as an address.
pub fn parse_address(address_str: &str) -> (r: Result<EthAddress, &'static str>)
    ensures
        r is Ok <==> is_address_text(address_str.spec_bytes()),
        r matches Ok(a) ==> a.bytes@ == hex_decoded(address_str.spec_bytes().subrange(2, 42)),
        r matches Err(m) ==> m@ == "Invalid Ethereum address format"@,
{
    let text = address_str.as_bytes();
    if text.len() == 42 && text[0] == 48u8 && text[1] == 120u8 {
        let digits = slice_subrange(text, 2, 42);
        if let Some(decoded) = hex_decode(digits) {
            let mut bytes = [0u8; 20];
            let mut i: usize = 0;
            while i < 20
                invariant
                    0 <= i <= 20,
                    decoded@.len() == 20,
                    forall|j: int| 0 <= j < i ==> bytes@[j] == decoded@[j],
                decreases 20 - i,
            {
                bytes[i] = decoded[i];
                i += 1;
            }
            assert(bytes@ =~= decoded@);
            return Ok(EthAddress { bytes });
        }
    }
    Err("Invalid Ethereum address format")
}

/// The `len` big-endian bytes of `n` modulo `256^len`.
pub open spec fn be_bytes_of(n: nat, len: nat) -> Seq<u8>
    decreases len,
{
    if len == 0 {
        seq![]
    } else {
        be_bytes_of(n / 256, (len - 1) as nat).push((n % 256) as u8)
    }
}

/// `n` zero bytes.
pub open spec fn zeros(n: nat) -> Seq<u8> {
    Seq::new(n, |i: int| 0u8)
}

/// The ABI word of an address: twelve zero bytes, then the address.
pub open spec fn abi_address_word(a: Seq<u8>) -> Seq<u8> {
    zeros(12) + a
}

/// The ABI word of an unsigned integer below `2^256`: 32 big-endian bytes.
pub open spec fn abi_uint_word(n: nat) -> Seq<u8> {
    be_bytes_of(n, 32)
}

/// The ABI encoding of a sole string argument: the offset of its tail (32),
/// its length in bytes, then its UTF-8 bytes padded with zeros to whole words.
pub open spec fn abi_string_argument(text: Seq<u8>) -> Seq<u8> {
    abi_uint_word(32) + abi_uint_word(text.len()) + text + zeros(
        ((32 - text.len() % 32) % 32) as nat,
    )
}

/// The four-byte selector that the ABI derives from a function signature.
pub uninterp spec fn selector_of(signature: Seq<char>) -> Seq<u8>;

/// Relies on ethers_core::utils::id: the first four bytes of the Keccak-256
/// hash of the signature text.
#[verifier::external_body]
pub(crate) fn function_selector(signature: &str) -> (r: Vec<u8>)
    ensures
        r@ == selector_of(signature@),
        r@.len() == 4,
{
    ethers_core::utils::id(signature).to_vec()
}

/// An argument of a contract call.
#[derive(Debug)]
pub enum AbiArg {
    Address(EthAddress),
    Uint(u128),
    Text(String),
}

/// The ABI word of an argument of fixed size.
pub open spec fn abi_word(a: AbiArg) -> Seq<u8> {
    match a {
        AbiArg::Address(x) => abi_address_word(x.bytes@),
        AbiArg::Uint(n) => abi_uint_word(n as nat),
        AbiArg::Text(_) => seq![],
    }
}

/// The ABI encoding of arguments of fixed size: their words in order.
pub open spec fn abi_words(args: Seq<AbiArg>) -> Seq<u8>
    decreases args.len(),
{
    if args.len() == 0 {
        seq![]
    } else {
        abi_words(args.drop_last()) + abi_word(args.last())
    }
}

/// Arguments whose encoding the contract of `abi_encode` states: all of
/// fixed size, or a sole string.
pub open spec fn stated_arguments(args: Seq<AbiArg>) -> bool {
    (forall|i: int| 0 <= i < args.len() ==> !(args[i] is Text)) || (args.len() == 1
        && args[0] is Text)
}

/// The ABI encoding of call arguments of fixed size or of a sole string.
pub open spec fn abi_encoding(args: Seq<AbiArg>) -> Seq<u8> {
    if args.len() == 1 && args[0] is Text {
        abi_string_argument(encode_utf8(args[0]->Text_0@))
    } else {
        abi_words(args)
    }
}

/// Relies on ethers_core::abi::encode: arguments of fixed size become their
/// 32-byte words in order (an address padded with twelve leading zero
/// bytes, an integer big-endian); a sole string becomes the offset word 32,
/// its length word, and its UTF-8 bytes padded with zeros to whole words.
#[verifier::external_body]
pub(crate) fn abi_encode(args: &Vec<AbiArg>) -> (r: Vec<u8>)
    requires
        stated_arguments(args@),
    ensures
        r@ == abi_encoding(args@),
{
    let tokens: Vec<Token> = args.iter().map(|a| match a {
        AbiArg::Address(x) => Token::Address(x.bytes.into()),
        AbiArg::Uint(n) => Token::Uint((*n).into()),
        AbiArg::Text(t) => Token::String(t.clone()),
    }).collect();
    ethers_core::abi::encode(&tokens)
}

/// Relies on ethers_core::abi::decode of one `uint256` output: it needs at
/// least 32 bytes and reads the first 32 as a big-endian word.
#[verifier::external_body]
pub(crate) fn decode_uint_output(data: &[u8]) -> (r: Option<Vec<u8>>)
    ensures
        r is Some <==> data@.len() >= 32,
        r matches Some(w) ==> w@ == data@.subrange(0, 32),
{
    match ethers_core::abi::decode(&[ethers_core::abi::ParamType::Uint(256)], data) {
        Ok(tokens) => match tokens.first() {
            Some(Token::Uint(v)) => {
                let mut word = [0u8; 32];
                v.to_big_endian(&mut word);
                Some(word.to_vec())
            },
            _ => None,
        },
        Err(_) => None,
    }
}

} // verus!
