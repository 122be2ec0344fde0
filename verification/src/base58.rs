//! Parses Base58 encoded brick and bricklet UIDs.
//!
//! The alphabet is `"123456789abcdefghijkmnopqrstuvwxyzABCDEFGHJKLMNPQRSTUVWXYZ"`
//! (the digits `0`, and the letters `O`, `I` and `l` are left out). Digits are
//! accumulated most-significant first into a `u64`; a value above `u32::MAX`
//! is compressed to 32 bits by the legacy UID mangling scheme.

use vstd::prelude::*;
use vstd::string::StringSliceAdditionalSpecFns;

verus! {

/// Error type of the Base58 parser.
#[derive(Debug, Copy, Clone, PartialEq, Eq, Structural)]
pub enum Base58Error {
    /// The input held a character that is not part of the alphabet.
    InvalidCharacter,
    /// The accumulated value does not fit into a u64.
    UidToBig,
    /// The input was empty, or mapped to the value zero.
    UidEmpty,
}

impl Base58Error {
    /// A human-readable description of the error.
    pub fn message(&self) -> &'static str {
        match self {
            Base58Error::InvalidCharacter => "UID contains an invalid character.",
            Base58Error::UidToBig => "UID is too big to fit into a u64",
            Base58Error::UidEmpty => "UID is empty or a value that mapped to zero",
        }
    }
}

/// Digit value of one alphabet byte, or `None` for a byte outside the
/// alphabet. The alphabet runs `'1'..='9'`, `'a'..='z'` without `'l'`,
/// `'A'..='Z'` without `'I'` and `'O'`.
pub open spec fn b58_digit(c: u8) -> Option<u8> {
    if 0x31 <= c && c <= 0x39 {
        Some((c - 0x31) as u8)
    } else if 0x61 <= c && c <= 0x6b {
        Some((c - 0x61 + 9) as u8)
    } else if 0x6d <= c && c <= 0x7a {
        Some((c - 0x6d + 20) as u8)
    } else if 0x41 <= c && c <= 0x48 {
        Some((c - 0x41 + 34) as u8)
    } else if 0x4a <= c && c <= 0x4e {
        Some((c - 0x4a + 42) as u8)
    } else if 0x50 <= c && c <= 0x5a {
        Some((c - 0x50 + 47) as u8)
    } else {
        None
    }
}

/// Alphabet byte of a digit value below 58: the inverse of [`b58_digit`].
pub open spec fn b58_char(d: u8) -> u8
    recommends
        d < 58,
{
    if d < 9 {
        (0x31 + d) as u8
    } else if d < 20 {
        (0x61 + d - 9) as u8
    } else if d < 34 {
        (0x6d + d - 20) as u8
    } else if d < 42 {
        (0x41 + d - 34) as u8
    } else if d < 47 {
        (0x4a + d - 42) as u8
    } else {
        (0x50 + d - 47) as u8
    }
}

/// The two alphabet maps invert each other.
pub proof fn lemma_b58_char_digit(d: u8)
    requires
        d < 58,
    ensures
        b58_digit(b58_char(d)) == Some(d),
{
}

/// Leading `'1'` characters are leading zeros in base 58 and are skipped.
pub open spec fn strip_ones(s: Seq<u8>) -> Seq<u8>
    decreases s.len(),
{
    if s.len() > 0 && s[0] == 0x31 {
        strip_ones(s.drop_first())
    } else {
        s
    }
}

/// Most-significant-digit-first accumulation of the digits of `s` onto `acc`,
/// with the errors of the parser: an alphabet miss is `InvalidCharacter`, an
/// accumulator above `u64::MAX` is `UidToBig`.
pub open spec fn parse_digits(s: Seq<u8>, acc: u64) -> Result<u64, Base58Error>
    decreases s.len(),
{
    if s.len() == 0 {
        Ok(acc)
    } else {
        match b58_digit(s[0]) {
            None => Err(Base58Error::InvalidCharacter),
            Some(d) => if acc * 58 + d > u64::MAX {
                Err(Base58Error::UidToBig)
            } else {
                parse_digits(s.drop_first(), (acc * 58 + d) as u64)
            },
        }
    }
}

/// The legacy UID compression: a value above `u32::MAX` is folded into 32
/// bits by picking fixed bit groups of its two halves.
pub open spec fn spec_mangle(v: u64) -> u32 {
    let v1 = v & 0xffff_ffff;
    let v2 = (v >> 32) & 0xffff_ffff;
    (((v1 & 0x0000_0fff) | ((v1 & 0x0f00_0000) >> 12) | ((v2 & 0x0000_003f) << 16) | ((v2
        & 0x000f_0000) << 6) | ((v2 & 0x3f00_0000) << 2)) as u32)
}

/// What parsing an input yields: digits accumulated to a `u64`, values above
/// `u32::MAX` mangled, and a final value of zero rejected as `UidEmpty`.
pub open spec fn spec_base58(s: Seq<u8>) -> Result<u32, Base58Error> {
    match parse_digits(strip_ones(s), 0) {
        Err(e) => Err(e),
        Ok(v) => {
            let r = if v > u32::MAX { spec_mangle(v) } else { v as u32 };
            if r == 0 {
                Err(Base58Error::UidEmpty)
            } else {
                Ok(r)
            }
        },
    }
}

/// A trait which adds Base58 parsing capabilities to strings.
pub trait Base58 {
    /// The bytes that the parser reads.
    spec fn b58_input(&self) -> Seq<u8>;

    /// Parse this value as a Base58 encoded UID.
    fn base58_to_u32(&self) -> (r: Result<u32, Base58Error>)
        ensures
            r == spec_base58(self.b58_input()),
    ;
}

impl Base58 for str {
    open spec fn b58_input(&self) -> Seq<u8> {
        self.spec_bytes()
    }

    fn base58_to_u32(&self) -> (r: Result<u32, Base58Error>) {
        base58_bytes_to_u32(self.as_bytes())
    }
}

impl Base58 for String {
    open spec fn b58_input(&self) -> Seq<u8> {
        vstd::utf8::encode_utf8(self@)
    }

    fn base58_to_u32(&self) -> (r: Result<u32, Base58Error>) {
        base58_bytes_to_u32(self.as_str().as_bytes())
    }
}

/// Digit value of one byte, or `None` for a byte outside the alphabet.
fn digit_value(c: u8) -> (r: Option<u8>)
    ensures
        r == b58_digit(c),
{
    if 0x31 <= c && c <= 0x39 {
        Some(c - 0x31)
    } else if 0x61 <= c && c <= 0x6b {
        Some(c - 0x61 + 9)
    } else if 0x6d <= c && c <= 0x7a {
        Some(c - 0x6d + 20)
    } else if 0x41 <= c && c <= 0x48 {
        Some(c - 0x41 + 34)
    } else if 0x4a <= c && c <= 0x4e {
        Some(c - 0x4a + 42)
    } else if 0x50 <= c && c <= 0x5a {
        Some(c - 0x50 + 47)
    } else {
        None
    }
}

/// Parse a byte string as a Base58 encoded UID.
pub fn base58_bytes_to_u32(bytes: &[u8]) -> (r: Result<u32, Base58Error>)
    ensures
        r == spec_base58(bytes@),
{
    let n = bytes.len();
    proof {
        assert(bytes@.skip(0) =~= bytes@);
    }
    let mut start: usize = 0;
    while start < n && bytes[start] == 0x31
        invariant
            start <= n,
            n == bytes@.len(),
            strip_ones(bytes@) == strip_ones(bytes@.skip(start as int)),
        decreases n - start,
    {
        proof {
            assert(bytes@.skip(start as int).drop_first() =~= bytes@.skip(start as int + 1));
        }
        start += 1;
    }
    proof {
        if start < n {
            assert(strip_ones(bytes@.skip(start as int)) =~= bytes@.skip(start as int));
        } else {
            assert(bytes@.skip(start as int) =~= Seq::<u8>::empty());
        }
    }

    let mut acc: u64 = 0;
    let mut i: usize = start;
    while i < n
        invariant
            start <= i <= n,
            n == bytes@.len(),
            parse_digits(strip_ones(bytes@), 0) == parse_digits(bytes@.skip(i as int), acc),
        decreases n - i,
    {
        let d = match digit_value(bytes[i]) {
            None => {
                return Err(Base58Error::InvalidCharacter);
            },
            Some(d) => d,
        };
        proof {
            assert(bytes@.skip(i as int).drop_first() =~= bytes@.skip(i as int + 1));
        }
        let next = match acc.checked_mul(58) {
            None => None,
            Some(m) => m.checked_add(d as u64),
        };
        acc = match next {
            None => {
                return Err(Base58Error::UidToBig);
            },
            Some(a) => a,
        };
        i += 1;
    }
    proof {
        assert(bytes@.skip(n as int) =~= Seq::<u8>::empty());
    }

    let result = if acc > 0xffff_ffff {
        mangle(acc)
    } else {
        acc as u32
    };
    if result == 0 {
        Err(Base58Error::UidEmpty)
    } else {
        Ok(result)
    }
}

/// The legacy UID compression, as [`spec_mangle`] states it.
fn mangle(v: u64) -> (r: u32)
    ensures
        r == spec_mangle(v),
{
    let v1 = v & 0xffff_ffff;
    let v2 = (v >> 32) & 0xffff_ffff;
    ((v1 & 0x0000_0fff) | ((v1 & 0x0f00_0000) >> 12) | ((v2 & 0x0000_003f) << 16) | ((v2
        & 0x000f_0000) << 6) | ((v2 & 0x3f00_0000) << 2)) as u32
}

/// The Base58 digits of `v`, most significant first; zero encodes to the
/// empty sequence.
pub open spec fn spec_encode(v: nat) -> Seq<u8>
    decreases v,
{
    if v == 0 {
        Seq::empty()
    } else {
        spec_encode(v / 58) + seq![b58_char((v % 58) as u8)]
    }
}

/// Alphabet byte of a digit value below 58.
fn char_value(d: u8) -> (r: u8)
    requires
        d < 58,
    ensures
        r == b58_char(d),
{
    if d < 9 {
        0x31 + d
    } else if d < 20 {
        0x61 + d - 9
    } else if d < 34 {
        0x6d + d - 20
    } else if d < 42 {
        0x41 + d - 34
    } else if d < 47 {
        0x4a + d - 42
    } else {
        0x50 + d - 47
    }
}

/// Encode a UID in the Base58 alphabet, most significant digit first.
/// Zero encodes to the empty string.
pub fn base58_encode(v: u32) -> (r: Vec<u8>)
    ensures
        r@ == spec_encode(v as nat),
{
    let mut digits: Vec<u8> = Vec::new();
    let mut x: u64 = v as u64;
    proof {
        assert(spec_encode(v as nat) =~= spec_encode(x as nat) + digits@.reverse());
    }
    while x > 0
        invariant
            spec_encode(v as nat) == spec_encode(x as nat) + digits@.reverse(),
        decreases x,
    {
        let ghost pre = digits@;
        let d = (x % 58) as u8;
        digits.push(char_value(d));
        proof {
            assert(digits@.reverse() =~= seq![b58_char(d)] + pre.reverse());
            assert(spec_encode(x as nat) + pre.reverse() =~= (spec_encode(x as nat / 58) + seq![
                b58_char(d),
            ]) + pre.reverse());
            assert((spec_encode(x as nat / 58) + seq![b58_char(d)]) + pre.reverse()
                =~= spec_encode(x as nat / 58) + digits@.reverse());
        }
        x = x / 58;
    }
    proof {
        assert(spec_encode(v as nat) =~= digits@.reverse());
    }
    let n = digits.len();
    let mut out: Vec<u8> = Vec::new();
    let mut i: usize = 0;
    while i < n
        invariant
            i <= n,
            n == digits@.len(),
            out@ =~= digits@.reverse().take(i as int),
        decreases n - i,
    {
        out.push(digits[n - 1 - i]);
        proof {
            assert(out@ =~= digits@.reverse().take(i as int + 1));
        }
        i += 1;
    }
    proof {
        assert(out@ =~= digits@.reverse());
    }
    out
}

/// Appending one character to the input steps the accumulator once.
proof fn lemma_parse_snoc(s: Seq<u8>, c: u8, acc: u64)
    ensures
        parse_digits(s.push(c), acc) == match parse_digits(s, acc) {
            Err(e) => Err(e),
            Ok(u) => match b58_digit(c) {
                None => Err::<u64, Base58Error>(Base58Error::InvalidCharacter),
                Some(d) => if u * 58 + d > u64::MAX {
                    Err(Base58Error::UidToBig)
                } else {
                    Ok((u * 58 + d) as u64)
                },
            },
        },
    decreases s.len(),
{
    if s.len() == 0 {
        assert(s.push(c)[0] == c);
        match b58_digit(c) {
            None => {},
            Some(d) => {
                if acc * 58 + d <= u64::MAX {
                    assert(s.push(c).drop_first() =~= Seq::<u8>::empty());
                    assert(parse_digits(Seq::<u8>::empty(), (acc * 58 + d) as u64)
                        == Ok::<u64, Base58Error>((acc * 58 + d) as u64));
                }
            },
        }
    } else {
        assert(s.push(c)[0] == s[0]);
        assert(s.push(c).drop_first() =~= s.drop_first().push(c));
        match b58_digit(s[0]) {
            None => {},
            Some(d) => {
                if acc * 58 + d <= u64::MAX {
                    lemma_parse_snoc(s.drop_first(), c, (acc * 58 + d) as u64);
                }
            },
        }
    }
}

/// The encoding of a nonzero value has no leading `'1'`.
proof fn lemma_encode_leading(v: nat)
    requires
        v > 0,
    ensures
        spec_encode(v).len() > 0,
        spec_encode(v)[0] != 0x31,
    decreases v,
{
    if v / 58 == 0 {
        assert(spec_encode(0) =~= Seq::<u8>::empty());
        assert(spec_encode(v) =~= seq![b58_char((v % 58) as u8)]);
        vstd::arithmetic::div_mod::lemma_fundamental_div_mod(v as int, 58);
    } else {
        lemma_encode_leading(v / 58);
        assert(spec_encode(v)[0] == spec_encode(v / 58)[0]);
    }
}

/// Parsing the digits of `v` yields `v` back, for values in UID range.
proof fn lemma_encode_parse_digits(v: nat)
    requires
        v <= u32::MAX,
    ensures
        parse_digits(spec_encode(v), 0) == Ok::<u64, Base58Error>(v as u64),
    decreases v,
{
    if v == 0 {
    } else {
        lemma_encode_parse_digits(v / 58);
        assert(spec_encode(v) =~= spec_encode(v / 58).push(b58_char((v % 58) as u8)));
        lemma_parse_snoc(spec_encode(v / 58), b58_char((v % 58) as u8), 0);
        lemma_b58_char_digit((v % 58) as u8);
        vstd::arithmetic::div_mod::lemma_fundamental_div_mod(v as int, 58);
    }
}

/// Base58 round trip: every nonzero `u32` parses back from its own encoding.
/// Such values never reach the mangling branch, whose inputs exceed
/// `u32::MAX`; the value zero is the one encoding that parses to `UidEmpty`.
pub proof fn lemma_base58_round_trip(v: u32)
    requires
        v != 0,
    ensures
        spec_base58(spec_encode(v as nat)) == Ok::<u32, Base58Error>(v),
{
    lemma_encode_leading(v as nat);
    assert(strip_ones(spec_encode(v as nat)) =~= spec_encode(v as nat));
    lemma_encode_parse_digits(v as nat);
}

} // verus!
