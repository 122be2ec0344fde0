//! Traits for (de)serialization of values to little-endian byte vectors.

use vstd::prelude::*;
use vstd::string::StringSliceAdditionalSpecFns;

use crate::converting_receiver::BrickletError;

verus! {

/// A trait to serialize the implementing type to a byte vector.
pub trait ToBytes: Sized {
    /// The bytes that [`Self::to_le_bytes`] produces.
    spec fn spec_to_le_bytes(self) -> Seq<u8>;

    /// The bytes that [`Self::try_to_le_bytes`] produces for a given cap.
    spec fn spec_try_to_le_bytes(self, max_len: usize) -> Result<Seq<u8>, BrickletError>;

    /// Serialize the implementing type to a byte vector.
    fn to_le_bytes(var: Self) -> (r: Vec<u8>)
        ensures
            r@ == var.spec_to_le_bytes(),
    ;

    /// Try to serialize the implementing type to a byte vector of at most
    /// `max_len` bytes. Strings are padded with zero bytes up to `max_len`
    /// and refused with `InvalidParameter` when they are longer; every other
    /// type serializes as [`Self::to_le_bytes`] does, without checks.
    fn try_to_le_bytes(var: Self, max_len: usize) -> (r: Result<Vec<u8>, BrickletError>)
        ensures
            match Self::spec_try_to_le_bytes(var, max_len) {
                Ok(bytes) => r is Ok && r->Ok_0@ == bytes,
                Err(e) => r == Err::<Vec<u8>, BrickletError>(e),
            },
    ;
}

/// A trait to deserialize the implementing type from a byte slice.
pub trait FromByteSlice: Sized {
    /// Whether `v` is what the first [`Self::spec_bytes_expected`] bytes
    /// decode to. For every type but `String` this pins one value down;
    /// a `String` is pinned down to its characters. Types declared outside
    /// the library fall back to claiming nothing.
    open spec fn spec_decodes(bytes: Seq<u8>, v: Self) -> bool {
        true
    }

    /// How many bytes one value of the implementing type takes; the
    /// default defers to [`Self::bytes_expected`].
    open spec fn spec_bytes_expected() -> usize {
        0
    }

    /// Whether the bytes decode at all; only string-carrying types refuse
    /// any.
    open spec fn spec_decodable(bytes: Seq<u8>) -> bool {
        true
    }

    /// Deserialize the implementing type from a byte slice.
    fn from_le_bytes(bytes: &[u8]) -> (r: Self)
        requires
            bytes@.len() >= Self::spec_bytes_expected(),
            Self::spec_decodable(bytes@),
        ensures
            Self::spec_decodes(bytes@, r),
    ;

    /// Whether the bytes decode at all.
    fn decodable(bytes: &[u8]) -> (r: bool)
        requires
            bytes@.len() >= Self::spec_bytes_expected(),
        ensures
            r == Self::spec_decodable(bytes@),
    ;

    /// Returns how many bytes are expected to deserialize an instance of the
    /// implementing type.
    fn bytes_expected() -> (r: usize)
        ensures
            r == Self::spec_bytes_expected(),
    ;
}

impl ToBytes for () {
    open spec fn spec_to_le_bytes(self) -> Seq<u8> {
        Seq::empty()
    }

    open spec fn spec_try_to_le_bytes(self, max_len: usize) -> Result<Seq<u8>, BrickletError> {
        Ok(self.spec_to_le_bytes())
    }

    fn to_le_bytes(var: ()) -> (r: Vec<u8>) {
        let r: Vec<u8> = Vec::new();
        proof {
            assert(r@ =~= Seq::<u8>::empty());
        }
        r
    }

    fn try_to_le_bytes(var: (), max_len: usize) -> (r: Result<Vec<u8>, BrickletError>) {
        Ok(<() as ToBytes>::to_le_bytes(var))
    }
}

impl FromByteSlice for () {
    open spec fn spec_decodes(bytes: Seq<u8>, v: Self) -> bool {
        true
    }

    open spec fn spec_bytes_expected() -> usize {
        0
    }

    open spec fn spec_decodable(bytes: Seq<u8>) -> bool {
        true
    }

    fn from_le_bytes(bytes: &[u8]) -> Self {
        ()
    }

    fn decodable(bytes: &[u8]) -> bool {
        true
    }

    fn bytes_expected() -> usize {
        0
    }
}

impl ToBytes for bool {
    open spec fn spec_to_le_bytes(self) -> Seq<u8> {
        seq![
            if self {
                1u8
            } else {
                0u8
            },
        ]
    }

    open spec fn spec_try_to_le_bytes(self, max_len: usize) -> Result<Seq<u8>, BrickletError> {
        Ok(self.spec_to_le_bytes())
    }

    fn to_le_bytes(var: bool) -> (r: Vec<u8>) {
        let mut r: Vec<u8> = Vec::new();
        r.push(
            if var {
                1
            } else {
                0
            },
        );
        proof {
            assert(r@ =~= var.spec_to_le_bytes());
        }
        r
    }

    fn try_to_le_bytes(var: bool, max_len: usize) -> (r: Result<Vec<u8>, BrickletError>) {
        Ok(<bool as ToBytes>::to_le_bytes(var))
    }
}

impl FromByteSlice for bool {
    open spec fn spec_decodes(bytes: Seq<u8>, v: Self) -> bool {
        v == (bytes[0] != 0)
    }

    open spec fn spec_bytes_expected() -> usize {
        1
    }

    open spec fn spec_decodable(bytes: Seq<u8>) -> bool {
        true
    }

    fn from_le_bytes(bytes: &[u8]) -> Self {
        bytes[0] != 0
    }

    fn decodable(bytes: &[u8]) -> bool {
        true
    }

    fn bytes_expected() -> usize {
        1
    }
}

impl ToBytes for u8 {
    open spec fn spec_to_le_bytes(self) -> Seq<u8> {
        seq![self]
    }

    open spec fn spec_try_to_le_bytes(self, max_len: usize) -> Result<Seq<u8>, BrickletError> {
        Ok(self.spec_to_le_bytes())
    }

    fn to_le_bytes(var: u8) -> (r: Vec<u8>) {
        let mut r: Vec<u8> = Vec::new();
        r.push(var);
        proof {
            assert(r@ =~= seq![var]);
        }
        r
    }

    fn try_to_le_bytes(var: u8, max_len: usize) -> (r: Result<Vec<u8>, BrickletError>) {
        Ok(<u8 as ToBytes>::to_le_bytes(var))
    }
}

impl FromByteSlice for u8 {
    open spec fn spec_decodes(bytes: Seq<u8>, v: Self) -> bool {
        v == bytes[0]
    }

    open spec fn spec_bytes_expected() -> usize {
        1
    }

    open spec fn spec_decodable(bytes: Seq<u8>) -> bool {
        true
    }

    fn from_le_bytes(bytes: &[u8]) -> Self {
        bytes[0]
    }

    fn decodable(bytes: &[u8]) -> bool {
        true
    }

    fn bytes_expected() -> usize {
        1
    }
}

impl ToBytes for i8 {
    open spec fn spec_to_le_bytes(self) -> Seq<u8> {
        seq![self as u8]
    }

    open spec fn spec_try_to_le_bytes(self, max_len: usize) -> Result<Seq<u8>, BrickletError> {
        Ok(self.spec_to_le_bytes())
    }

    fn to_le_bytes(var: i8) -> (r: Vec<u8>) {
        let mut r: Vec<u8> = Vec::new();
        r.push(var as u8);
        proof {
            assert(r@ =~= seq![var as u8]);
        }
        r
    }

    fn try_to_le_bytes(var: i8, max_len: usize) -> (r: Result<Vec<u8>, BrickletError>) {
        Ok(<i8 as ToBytes>::to_le_bytes(var))
    }
}

impl FromByteSlice for i8 {
    open spec fn spec_decodes(bytes: Seq<u8>, v: Self) -> bool {
        v == bytes[0] as i8
    }

    open spec fn spec_bytes_expected() -> usize {
        1
    }

    open spec fn spec_decodable(bytes: Seq<u8>) -> bool {
        true
    }

    fn from_le_bytes(bytes: &[u8]) -> Self {
        bytes[0] as i8
    }

    fn decodable(bytes: &[u8]) -> bool {
        true
    }

    fn bytes_expected() -> usize {
        1
    }
}

impl ToBytes for u16 {
    open spec fn spec_to_le_bytes(self) -> Seq<u8> {
        vstd::bytes::spec_u16_to_le_bytes(self)
    }

    open spec fn spec_try_to_le_bytes(self, max_len: usize) -> Result<Seq<u8>, BrickletError> {
        Ok(self.spec_to_le_bytes())
    }

    fn to_le_bytes(var: u16) -> (r: Vec<u8>) {
        vstd::bytes::u16_to_le_bytes(var)
    }

    fn try_to_le_bytes(var: u16, max_len: usize) -> (r: Result<Vec<u8>, BrickletError>) {
        Ok(<u16 as ToBytes>::to_le_bytes(var))
    }
}

impl FromByteSlice for u16 {
    open spec fn spec_decodes(bytes: Seq<u8>, v: Self) -> bool {
        v == vstd::bytes::spec_u16_from_le_bytes(bytes.subrange(0, 2))
    }

    open spec fn spec_bytes_expected() -> usize {
        2
    }

    open spec fn spec_decodable(bytes: Seq<u8>) -> bool {
        true
    }

    fn from_le_bytes(bytes: &[u8]) -> Self {
        vstd::bytes::u16_from_le_bytes(vstd::slice::slice_subrange(bytes, 0, 2))
    }

    fn decodable(bytes: &[u8]) -> bool {
        true
    }

    fn bytes_expected() -> usize {
        2
    }
}

impl ToBytes for i16 {
    open spec fn spec_to_le_bytes(self) -> Seq<u8> {
        vstd::bytes::spec_u16_to_le_bytes(self as u16)
    }

    open spec fn spec_try_to_le_bytes(self, max_len: usize) -> Result<Seq<u8>, BrickletError> {
        Ok(self.spec_to_le_bytes())
    }

    fn to_le_bytes(var: i16) -> (r: Vec<u8>) {
        vstd::bytes::u16_to_le_bytes(var as u16)
    }

    fn try_to_le_bytes(var: i16, max_len: usize) -> (r: Result<Vec<u8>, BrickletError>) {
        Ok(<i16 as ToBytes>::to_le_bytes(var))
    }
}

impl FromByteSlice for i16 {
    open spec fn spec_decodes(bytes: Seq<u8>, v: Self) -> bool {
        v == vstd::bytes::spec_u16_from_le_bytes(bytes.subrange(0, 2)) as i16
    }

    open spec fn spec_bytes_expected() -> usize {
        2
    }

    open spec fn spec_decodable(bytes: Seq<u8>) -> bool {
        true
    }

    fn from_le_bytes(bytes: &[u8]) -> Self {
        vstd::bytes::u16_from_le_bytes(vstd::slice::slice_subrange(bytes, 0, 2)) as i16
    }

    fn decodable(bytes: &[u8]) -> bool {
        true
    }

    fn bytes_expected() -> usize {
        2
    }
}

impl ToBytes for u32 {
    open spec fn spec_to_le_bytes(self) -> Seq<u8> {
        vstd::bytes::spec_u32_to_le_bytes(self)
    }

    open spec fn spec_try_to_le_bytes(self, max_len: usize) -> Result<Seq<u8>, BrickletError> {
        Ok(self.spec_to_le_bytes())
    }

    fn to_le_bytes(var: u32) -> (r: Vec<u8>) {
        vstd::bytes::u32_to_le_bytes(var)
    }

    fn try_to_le_bytes(var: u32, max_len: usize) -> (r: Result<Vec<u8>, BrickletError>) {
        Ok(<u32 as ToBytes>::to_le_bytes(var))
    }
}

impl FromByteSlice for u32 {
    open spec fn spec_decodes(bytes: Seq<u8>, v: Self) -> bool {
        v == vstd::bytes::spec_u32_from_le_bytes(bytes.subrange(0, 4))
    }

    open spec fn spec_bytes_expected() -> usize {
        4
    }

    open spec fn spec_decodable(bytes: Seq<u8>) -> bool {
        true
    }

    fn from_le_bytes(bytes: &[u8]) -> Self {
        vstd::bytes::u32_from_le_bytes(vstd::slice::slice_subrange(bytes, 0, 4))
    }

    fn decodable(bytes: &[u8]) -> bool {
        true
    }

    fn bytes_expected() -> usize {
        4
    }
}

impl ToBytes for i32 {
    open spec fn spec_to_le_bytes(self) -> Seq<u8> {
        vstd::bytes::spec_u32_to_le_bytes(self as u32)
    }

    open spec fn spec_try_to_le_bytes(self, max_len: usize) -> Result<Seq<u8>, BrickletError> {
        Ok(self.spec_to_le_bytes())
    }

    fn to_le_bytes(var: i32) -> (r: Vec<u8>) {
        vstd::bytes::u32_to_le_bytes(var as u32)
    }

    fn try_to_le_bytes(var: i32, max_len: usize) -> (r: Result<Vec<u8>, BrickletError>) {
        Ok(<i32 as ToBytes>::to_le_bytes(var))
    }
}

impl FromByteSlice for i32 {
    open spec fn spec_decodes(bytes: Seq<u8>, v: Self) -> bool {
        v == vstd::bytes::spec_u32_from_le_bytes(bytes.subrange(0, 4)) as i32
    }

    open spec fn spec_bytes_expected() -> usize {
        4
    }

    open spec fn spec_decodable(bytes: Seq<u8>) -> bool {
        true
    }

    fn from_le_bytes(bytes: &[u8]) -> Self {
        vstd::bytes::u32_from_le_bytes(vstd::slice::slice_subrange(bytes, 0, 4)) as i32
    }

    fn decodable(bytes: &[u8]) -> bool {
        true
    }

    fn bytes_expected() -> usize {
        4
    }
}

impl ToBytes for u64 {
    open spec fn spec_to_le_bytes(self) -> Seq<u8> {
        vstd::bytes::spec_u64_to_le_bytes(self)
    }

    open spec fn spec_try_to_le_bytes(self, max_len: usize) -> Result<Seq<u8>, BrickletError> {
        Ok(self.spec_to_le_bytes())
    }

    fn to_le_bytes(var: u64) -> (r: Vec<u8>) {
        vstd::bytes::u64_to_le_bytes(var)
    }

    fn try_to_le_bytes(var: u64, max_len: usize) -> (r: Result<Vec<u8>, BrickletError>) {
        Ok(<u64 as ToBytes>::to_le_bytes(var))
    }
}

impl FromByteSlice for u64 {
    open spec fn spec_decodes(bytes: Seq<u8>, v: Self) -> bool {
        v == vstd::bytes::spec_u64_from_le_bytes(bytes.subrange(0, 8))
    }

    open spec fn spec_bytes_expected() -> usize {
        8
    }

    open spec fn spec_decodable(bytes: Seq<u8>) -> bool {
        true
    }

    fn from_le_bytes(bytes: &[u8]) -> Self {
        vstd::bytes::u64_from_le_bytes(vstd::slice::slice_subrange(bytes, 0, 8))
    }

    fn decodable(bytes: &[u8]) -> bool {
        true
    }

    fn bytes_expected() -> usize {
        8
    }
}

impl ToBytes for i64 {
    open spec fn spec_to_le_bytes(self) -> Seq<u8> {
        vstd::bytes::spec_u64_to_le_bytes(self as u64)
    }

    open spec fn spec_try_to_le_bytes(self, max_len: usize) -> Result<Seq<u8>, BrickletError> {
        Ok(self.spec_to_le_bytes())
    }

    fn to_le_bytes(var: i64) -> (r: Vec<u8>) {
        vstd::bytes::u64_to_le_bytes(var as u64)
    }

    fn try_to_le_bytes(var: i64, max_len: usize) -> (r: Result<Vec<u8>, BrickletError>) {
        Ok(<i64 as ToBytes>::to_le_bytes(var))
    }
}

impl FromByteSlice for i64 {
    open spec fn spec_decodes(bytes: Seq<u8>, v: Self) -> bool {
        v == vstd::bytes::spec_u64_from_le_bytes(bytes.subrange(0, 8)) as i64
    }

    open spec fn spec_bytes_expected() -> usize {
        8
    }

    open spec fn spec_decodable(bytes: Seq<u8>) -> bool {
        true
    }

    fn from_le_bytes(bytes: &[u8]) -> Self {
        vstd::bytes::u64_from_le_bytes(vstd::slice::slice_subrange(bytes, 0, 8)) as i64
    }

    fn decodable(bytes: &[u8]) -> bool {
        true
    }

    fn bytes_expected() -> usize {
        8
    }
}

impl ToBytes for char {
    open spec fn spec_to_le_bytes(self) -> Seq<u8> {
        seq![(self as u32) as u8]
    }

    open spec fn spec_try_to_le_bytes(self, max_len: usize) -> Result<Seq<u8>, BrickletError> {
        Ok(self.spec_to_le_bytes())
    }

    fn to_le_bytes(var: char) -> (r: Vec<u8>) {
        let mut r: Vec<u8> = Vec::new();
        r.push((var as u32) as u8);
        proof {
            assert(r@ =~= seq![(var as u32) as u8]);
        }
        r
    }

    fn try_to_le_bytes(var: char, max_len: usize) -> (r: Result<Vec<u8>, BrickletError>) {
        Ok(<char as ToBytes>::to_le_bytes(var))
    }
}

impl FromByteSlice for char {
    open spec fn spec_decodes(bytes: Seq<u8>, v: Self) -> bool {
        v == bytes[0] as char
    }

    open spec fn spec_bytes_expected() -> usize {
        1
    }

    open spec fn spec_decodable(bytes: Seq<u8>) -> bool {
        true
    }

    fn from_le_bytes(bytes: &[u8]) -> Self {
        bytes[0] as char
    }

    fn decodable(bytes: &[u8]) -> bool {
        true
    }

    fn bytes_expected() -> usize {
        1
    }
}

/// The bytes of `s` with every zero byte taken out: the wire pads
/// fixed-width string fields with zero bytes.
pub open spec fn strip_zero_bytes(s: Seq<u8>) -> Seq<u8>
    decreases s.len(),
{
    if s.len() == 0 {
        Seq::empty()
    } else if s[0] == 0 {
        strip_zero_bytes(s.drop_first())
    } else {
        seq![s[0]] + strip_zero_bytes(s.drop_first())
    }
}

/// Take every zero byte out of `bytes`.
pub fn remove_zero_bytes(bytes: &[u8]) -> (r: Vec<u8>)
    ensures
        r@ == strip_zero_bytes(bytes@),
{
    let n = bytes.len();
    let mut out: Vec<u8> = Vec::new();
    let mut i: usize = 0;
    proof {
        assert(bytes@.skip(0) =~= bytes@);
        assert(out@ + strip_zero_bytes(bytes@) =~= strip_zero_bytes(bytes@));
    }
    while i < n
        invariant
            i <= n,
            n == bytes@.len(),
            strip_zero_bytes(bytes@) == out@ + strip_zero_bytes(bytes@.skip(i as int)),
        decreases n - i,
    {
        let ghost pre = out@;
        proof {
            assert(bytes@.skip(i as int).drop_first() =~= bytes@.skip(i as int + 1));
        }
        if bytes[i] != 0 {
            out.push(bytes[i]);
            proof {
                assert(pre + strip_zero_bytes(bytes@.skip(i as int)) =~= out@ + strip_zero_bytes(
                    bytes@.skip(i as int + 1),
                ));
            }
        }
        i += 1;
    }
    proof {
        assert(bytes@.skip(n as int) =~= Seq::<u8>::empty());
        assert(out@ + strip_zero_bytes(bytes@.skip(n as int)) =~= out@);
    }
    out
}

/// Relies on String::from_utf8: `Ok` exactly on valid UTF-8, with the
/// characters that the bytes encode.
#[verifier::external_body]
pub(crate) fn string_from_utf8(v: Vec<u8>) -> (r: Option<String>)
    ensures
        r is Some <==> vstd::utf8::valid_utf8(v@),
        r is Some ==> r.unwrap()@ == vstd::utf8::decode_utf8(v@),
{
    match String::from_utf8(v) {
        Ok(s) => Some(s),
        Err(_) => None,
    }
}

impl ToBytes for String {
    open spec fn spec_to_le_bytes(self) -> Seq<u8> {
        vstd::utf8::encode_utf8(self@)
    }

    /// Over `max_len` bytes is `InvalidParameter`; anything shorter is
    /// padded with zero bytes up to `max_len`.
    open spec fn spec_try_to_le_bytes(self, max_len: usize) -> Result<Seq<u8>, BrickletError> {
        if self.spec_to_le_bytes().len() > max_len {
            Err(BrickletError::InvalidParameter)
        } else {
            Ok(self.spec_to_le_bytes() + Seq::new((max_len - self.spec_to_le_bytes().len()) as nat, |i| 0u8))
        }
    }

    fn to_le_bytes(var: String) -> (r: Vec<u8>) {
        let bytes = var.as_str().as_bytes();
        let n = bytes.len();
        let mut out: Vec<u8> = Vec::new();
        let mut i: usize = 0;
        while i < n
            invariant
                i <= n,
                n == bytes@.len(),
                bytes@ == vstd::utf8::encode_utf8(var@),
                out@ =~= vstd::utf8::encode_utf8(var@).take(i as int),
            decreases n - i,
        {
            out.push(bytes[i]);
            proof {
                assert(out@ =~= vstd::utf8::encode_utf8(var@).take(i as int + 1));
            }
            i += 1;
        }
        proof {
            assert(out@ =~= vstd::utf8::encode_utf8(var@));
        }
        out
    }

    fn try_to_le_bytes(var: String, max_len: usize) -> (r: Result<Vec<u8>, BrickletError>) {
        let ghost sb = vstd::utf8::encode_utf8(var@);
        let mut out = <String as ToBytes>::to_le_bytes(var);
        if out.len() > max_len {
            return Err(BrickletError::InvalidParameter);
        }
        let ghost base = out@;
        while out.len() < max_len
            invariant
                base == sb,
                base.len() <= out@.len() <= max_len,
                out@ =~= base + Seq::new((out@.len() - base.len()) as nat, |i| 0u8),
            decreases max_len - out@.len(),
        {
            out.push(0);
            proof {
                assert(out@ =~= base + Seq::new((out@.len() - base.len()) as nat, |i| 0u8));
            }
        }
        proof {
            assert(out@ =~= sb + Seq::new((max_len - sb.len()) as nat, |i| 0u8));
        }
        Ok(out)
    }
}

impl FromByteSlice for String {
    /// The characters of the byte slice with its zero-byte padding taken
    /// out.
    open spec fn spec_decodes(bytes: Seq<u8>, v: Self) -> bool {
        v@ == vstd::utf8::decode_utf8(strip_zero_bytes(bytes))
    }

    open spec fn spec_bytes_expected() -> usize {
        1
    }

    open spec fn spec_decodable(bytes: Seq<u8>) -> bool {
        vstd::utf8::valid_utf8(strip_zero_bytes(bytes))
    }

    fn from_le_bytes(bytes: &[u8]) -> (r: Self) {
        let stripped = remove_zero_bytes(bytes);
        match string_from_utf8(stripped) {
            Some(s) => s,
            None => {
                proof {
                    assert(false);
                }
                String::new()
            },
        }
    }

    fn decodable(bytes: &[u8]) -> (r: bool) {
        let stripped = remove_zero_bytes(bytes);
        match string_from_utf8(stripped) {
            Some(_) => true,
            None => false,
        }
    }

    fn bytes_expected() -> usize {
        1
    }
}


impl<const N: usize> ToBytes for [u8; N] {
    open spec fn spec_to_le_bytes(self) -> Seq<u8> {
        self@
    }

    open spec fn spec_try_to_le_bytes(self, max_len: usize) -> Result<Seq<u8>, BrickletError> {
        Ok(self.spec_to_le_bytes())
    }

    fn to_le_bytes(var: [u8; N]) -> (r: Vec<u8>) {
        let mut out: Vec<u8> = Vec::new();
        let mut i: usize = 0;
        while i < N
            invariant
                i <= N,
                out@ =~= var@.take(i as int),
            decreases N - i,
        {
            out.push(var[i]);
            proof {
                assert(out@ =~= var@.take(i as int + 1));
            }
            i += 1;
        }
        proof {
            assert(out@ =~= var@);
        }
        out
    }

    fn try_to_le_bytes(var: [u8; N], max_len: usize) -> (r: Result<Vec<u8>, BrickletError>) {
        Ok(<[u8; N] as ToBytes>::to_le_bytes(var))
    }
}

impl<const N: usize> FromByteSlice for [u8; N] {
    open spec fn spec_decodes(bytes: Seq<u8>, v: Self) -> bool {
        v@ == bytes.subrange(0, N as int)
    }

    open spec fn spec_bytes_expected() -> usize {
        N
    }

    open spec fn spec_decodable(bytes: Seq<u8>) -> bool {
        true
    }

    fn from_le_bytes(bytes: &[u8]) -> (r: Self) {
        let mut out: [u8; N] = [0u8; N];
        let mut i: usize = 0;
        while i < N
            invariant
                i <= N,
                bytes@.len() >= N,
                forall|j: int| 0 <= j < i ==> out@[j] == bytes@[j],
            decreases N - i,
        {
            out[i] = bytes[i];
            i += 1;
        }
        proof {
            assert(out@ =~= bytes@.subrange(0, N as int));
        }
        out
    }

    fn decodable(bytes: &[u8]) -> bool {
        true
    }

    fn bytes_expected() -> usize {
        N
    }
}


/// How many bytes a bit-packed run of `n` booleans takes: one per eight,
/// rounded up.
pub open spec fn spec_packed_len(n: usize) -> usize {
    ((n / 8) + if n % 8 == 0 {
        0int
    } else {
        1int
    }) as usize
}

/// The byte that packs bits `8*j` to `8*j + k - 1` of a boolean sequence,
/// little bit order within the byte: bit `k` is set exactly when element
/// `8*j + k` is true.
pub open spec fn spec_packed_bits(bits: Seq<bool>, j: int, k: int) -> u8
    decreases k,
{
    if k <= 0 {
        0u8
    } else {
        spec_packed_bits(bits, j, k - 1) | (if 8 * j + (k - 1) < bits.len() && bits[8 * j + (k
            - 1)] {
            1u8 << ((k - 1) as usize)
        } else {
            0u8
        })
    }
}

impl<const N: usize> ToBytes for [bool; N] {
    /// `ceil(N / 8)` bytes, little bit order within each byte.
    open spec fn spec_to_le_bytes(self) -> Seq<u8> {
        Seq::new(spec_packed_len(N) as nat, |j: int| spec_packed_bits(self@, j, 8))
    }

    open spec fn spec_try_to_le_bytes(self, max_len: usize) -> Result<Seq<u8>, BrickletError> {
        Ok(self.spec_to_le_bytes())
    }

    fn to_le_bytes(var: [bool; N]) -> (r: Vec<u8>) {
        let byte_count = N / 8 + if N % 8 == 0 {
            0
        } else {
            1
        };
        let mut out: Vec<u8> = Vec::new();
        while out.len() < byte_count
            invariant
                out@.len() <= byte_count,
                byte_count == spec_packed_len(N),
                forall|j: int| 0 <= j < out@.len() ==> out@[j] == 0u8,
            decreases byte_count - out@.len(),
        {
            out.push(0u8);
        }
        let mut i: usize = 0;
        while i < N
            invariant
                i <= N,
                out@.len() == spec_packed_len(N),
                forall|j: int|
                    0 <= j < i / 8 ==> out@[j] == spec_packed_bits(var@, j, 8),
                i < N ==> out@[i as int / 8] == spec_packed_bits(var@, i as int / 8, i as int % 8),
                i == N && N % 8 != 0 ==> out@[i as int / 8] == spec_packed_bits(
                    var@,
                    i as int / 8,
                    i as int % 8,
                ),
                forall|j: int|
                    i as int / 8 < j < out@.len() ==> out@[j] == 0u8,
            decreases N - i,
        {
            let j0 = i / 8;
            let k0 = i % 8;
            let ghost pre = out@;
            if var[i] {
                let b = out[j0];
                out.set(j0, b | (1u8 << k0));
            }
            proof {
                assert(0u8 | 0u8 == 0u8) by (bit_vector);
                assert(forall|x: u8| #![auto] x | 0u8 == x) by (bit_vector);
                assert(8 * (i as int / 8) + (i as int % 8) == i as int);
                assert(out@[i as int / 8] == spec_packed_bits(var@, i as int / 8, i as int % 8
                    + 1));
                if i as int % 8 == 7 {
                    assert((i + 1) as int / 8 == i as int / 8 + 1);
                    assert(spec_packed_bits(var@, (i + 1) as int / 8, 0) == 0u8);
                } else {
                    assert((i + 1) as int / 8 == i as int / 8);
                }
            }
            i += 1;
        }
        proof {
            assert forall|j: int| 0 <= j < spec_packed_len(N) implies out@[j]
                == spec_packed_bits(var@, j, 8) by {
                if N % 8 == 0 {
                    assert(j < N as int / 8);
                } else {
                    if j == N as int / 8 {
                        assert(out@[j] == spec_packed_bits(var@, j, N as int % 8));
                        assert(8 * (N as int / 8) + N as int % 8 == N as int);
                        lemma_packed_bits_stable(var@, j, N as int % 8, 8);
                    }
                }
            }
            assert(out@ =~= Seq::new(spec_packed_len(N) as nat, |j: int| spec_packed_bits(var@, j, 8)));
        }
        out
    }

    fn try_to_le_bytes(var: [bool; N], max_len: usize) -> (r: Result<Vec<u8>, BrickletError>) {
        Ok(<[bool; N] as ToBytes>::to_le_bytes(var))
    }
}

/// Beyond the end of the bit run, packing one more bit position changes
/// nothing.
proof fn lemma_packed_bits_stable(bits: Seq<bool>, j: int, m: int, k: int)
    requires
        0 <= m <= k <= 8,
        8 * j + m >= bits.len(),
    ensures
        spec_packed_bits(bits, j, k) == spec_packed_bits(bits, j, m),
    decreases k - m,
{
    if k > m {
        lemma_packed_bits_stable(bits, j, m, k - 1);
        assert(8 * j + (k - 1) >= bits.len());
        assert(forall|x: u8| #![auto] x | 0u8 == x) by (bit_vector);
    }
}

impl<const N: usize> FromByteSlice for [bool; N] {
    /// Element `i` is bit `i % 8` of byte `i / 8`.
    open spec fn spec_decodes(bytes: Seq<u8>, v: Self) -> bool {
        forall|i: int|
            0 <= i < N ==> v@[i] == ((bytes[i / 8] & (1u8 << ((i % 8) as usize))) != 0)
    }

    open spec fn spec_bytes_expected() -> usize {
        spec_packed_len(N)
    }

    open spec fn spec_decodable(bytes: Seq<u8>) -> bool {
        true
    }

    fn from_le_bytes(bytes: &[u8]) -> (r: Self) {
        let mut out: [bool; N] = [false; N];
        let mut i: usize = 0;
        while i < N
            invariant
                i <= N,
                bytes@.len() >= spec_packed_len(N),
                forall|p: int|
                    0 <= p < i ==> out@[p] == ((bytes@[p / 8] & (1u8 << ((p % 8) as usize)))
                        != 0),
            decreases N - i,
        {
            proof {
                assert(i as int / 8 < spec_packed_len(N) as int);
            }
            out[i] = (bytes[i / 8] & (1u8 << (i % 8))) != 0;
            i += 1;
        }
        out
    }

    fn decodable(bytes: &[u8]) -> bool {
        true
    }

    fn bytes_expected() -> usize {
        N / 8 + if N % 8 == 0 {
            0
        } else {
            1
        }
    }
}


impl<const N: usize> ToBytes for [u16; N] {
    /// Each element contributes its two little-endian bytes, in order.
    open spec fn spec_to_le_bytes(self) -> Seq<u8> {
        Seq::new(
            ((N as int) * 2) as nat,
            |b: int| vstd::bytes::spec_u16_to_le_bytes(self@[b / 2])[b % 2],
        )
    }

    open spec fn spec_try_to_le_bytes(self, max_len: usize) -> Result<Seq<u8>, BrickletError> {
        Ok(self.spec_to_le_bytes())
    }

    fn to_le_bytes(var: [u16; N]) -> (r: Vec<u8>) {
        let mut out: Vec<u8> = Vec::new();
        let mut i: usize = 0;
        while i < N
            invariant
                i <= N,
                out@ =~= Seq::new(
                    ((i as int) * 2) as nat,
                    |b: int| vstd::bytes::spec_u16_to_le_bytes(var@[b / 2])[b % 2],
                ),
            decreases N - i,
        {
            let elem_bytes = vstd::bytes::u16_to_le_bytes(var[i]);
            out.push(elem_bytes[0]);
            out.push(elem_bytes[1]);
            proof {
                assert(out@ =~= Seq::new(
                    (((i + 1) as int) * 2) as nat,
                    |b: int| vstd::bytes::spec_u16_to_le_bytes(var@[b / 2])[b % 2],
                ));
            }
            i += 1;
        }
        proof {
            assert(out@ =~= Seq::new(
                ((N as int) * 2) as nat,
                |b: int| vstd::bytes::spec_u16_to_le_bytes(var@[b / 2])[b % 2],
            ));
        }
        out
    }

    fn try_to_le_bytes(var: [u16; N], max_len: usize) -> (r: Result<Vec<u8>, BrickletError>) {
        Ok(<[u16; N] as ToBytes>::to_le_bytes(var))
    }
}

impl<const N: usize> FromByteSlice for [u16; N] {
    /// Element `i` is the little-endian value of bytes `2*i` and `2*i + 1`.
    open spec fn spec_decodes(bytes: Seq<u8>, v: Self) -> bool {
        forall|i: int|
            0 <= i < N ==> v@[i] == vstd::bytes::spec_u16_from_le_bytes(
                bytes.subrange(2 * i, 2 * i + 2),
            )
    }

    open spec fn spec_bytes_expected() -> usize {
        if (N as int) * 2 <= usize::MAX as int {
            ((N as int) * 2) as usize
        } else {
            usize::MAX
        }
    }

    /// An element count whose byte count does not fit a `usize` cannot be
    /// carried by one slice.
    open spec fn spec_decodable(bytes: Seq<u8>) -> bool {
        (N as int) * 2 <= usize::MAX as int
    }

    fn from_le_bytes(bytes: &[u8]) -> (r: Self) {
        let mut out: [u16; N] = [0u16; N];
        let mut i: usize = 0;
        while i < N
            invariant
                i <= N,
                (N as int) * 2 <= usize::MAX as int,
                bytes@.len() >= (N as int) * 2,
                forall|p: int|
                    0 <= p < i ==> out@[p] == vstd::bytes::spec_u16_from_le_bytes(
                        bytes@.subrange(2 * p, 2 * p + 2),
                    ),
            decreases N - i,
        {
            let start = 2 * i;
            out[i] = vstd::bytes::u16_from_le_bytes(
                vstd::slice::slice_subrange(bytes, start, start + 2),
            );
            i += 1;
        }
        out
    }

    fn decodable(bytes: &[u8]) -> (r: bool) {
        N <= usize::MAX / 2
    }

    fn bytes_expected() -> (r: usize) {
        if N <= usize::MAX / 2 {
            2 * N
        } else {
            usize::MAX
        }
    }
}


impl<const N: usize> ToBytes for [i8; N] {
    /// Each element contributes one byte.
    open spec fn spec_to_le_bytes(self) -> Seq<u8> {
        Seq::new(N as nat, |b: int| self@[b] as u8)
    }

    open spec fn spec_try_to_le_bytes(self, max_len: usize) -> Result<Seq<u8>, BrickletError> {
        Ok(self.spec_to_le_bytes())
    }

    fn to_le_bytes(var: [i8; N]) -> (r: Vec<u8>) {
        let mut out: Vec<u8> = Vec::new();
        let mut i: usize = 0;
        while i < N
            invariant
                i <= N,
                out@ =~= Seq::new(i as nat, |b: int| var@[b] as u8),
            decreases N - i,
        {
            out.push(var[i] as u8);
            proof {
                assert(out@ =~= Seq::new((i + 1) as nat, |b: int| var@[b] as u8));
            }
            i += 1;
        }
        proof {
            assert(out@ =~= Seq::new(N as nat, |b: int| var@[b] as u8));
        }
        out
    }

    fn try_to_le_bytes(var: [i8; N], max_len: usize) -> (r: Result<Vec<u8>, BrickletError>) {
        Ok(<[i8; N] as ToBytes>::to_le_bytes(var))
    }
}

impl<const N: usize> FromByteSlice for [i8; N] {
    open spec fn spec_decodes(bytes: Seq<u8>, v: Self) -> bool {
        forall|i: int| 0 <= i < N ==> v@[i] == bytes[i] as i8
    }

    open spec fn spec_bytes_expected() -> usize {
        N
    }

    open spec fn spec_decodable(bytes: Seq<u8>) -> bool {
        true
    }

    fn from_le_bytes(bytes: &[u8]) -> (r: Self) {
        let mut out: [i8; N] = [0i8; N];
        let mut i: usize = 0;
        while i < N
            invariant
                i <= N,
                bytes@.len() >= N,
                forall|p: int| 0 <= p < i ==> out@[p] == bytes@[p] as i8,
            decreases N - i,
        {
            out[i] = bytes[i] as i8;
            i += 1;
        }
        out
    }

    fn decodable(bytes: &[u8]) -> bool {
        true
    }

    fn bytes_expected() -> usize {
        N
    }
}

impl<const N: usize> ToBytes for [char; N] {
    /// Each element contributes one byte.
    open spec fn spec_to_le_bytes(self) -> Seq<u8> {
        Seq::new(N as nat, |b: int| (self@[b] as u32) as u8)
    }

    open spec fn spec_try_to_le_bytes(self, max_len: usize) -> Result<Seq<u8>, BrickletError> {
        Ok(self.spec_to_le_bytes())
    }

    fn to_le_bytes(var: [char; N]) -> (r: Vec<u8>) {
        let mut out: Vec<u8> = Vec::new();
        let mut i: usize = 0;
        while i < N
            invariant
                i <= N,
                out@ =~= Seq::new(i as nat, |b: int| (var@[b] as u32) as u8),
            decreases N - i,
        {
            out.push((var[i] as u32) as u8);
            proof {
                assert(out@ =~= Seq::new((i + 1) as nat, |b: int| (var@[b] as u32) as u8));
            }
            i += 1;
        }
        proof {
            assert(out@ =~= Seq::new(N as nat, |b: int| (var@[b] as u32) as u8));
        }
        out
    }

    fn try_to_le_bytes(var: [char; N], max_len: usize) -> (r: Result<Vec<u8>, BrickletError>) {
        Ok(<[char; N] as ToBytes>::to_le_bytes(var))
    }
}

impl<const N: usize> FromByteSlice for [char; N] {
    open spec fn spec_decodes(bytes: Seq<u8>, v: Self) -> bool {
        forall|i: int| 0 <= i < N ==> v@[i] == bytes[i] as char
    }

    open spec fn spec_bytes_expected() -> usize {
        N
    }

    open spec fn spec_decodable(bytes: Seq<u8>) -> bool {
        true
    }

    fn from_le_bytes(bytes: &[u8]) -> (r: Self) {
        let mut out: [char; N] = [' '; N];
        let mut i: usize = 0;
        while i < N
            invariant
                i <= N,
                bytes@.len() >= N,
                forall|p: int| 0 <= p < i ==> out@[p] == bytes@[p] as char,
            decreases N - i,
        {
            out[i] = bytes[i] as char;
            i += 1;
        }
        out
    }

    fn decodable(bytes: &[u8]) -> bool {
        true
    }

    fn bytes_expected() -> usize {
        N
    }
}

impl<const N: usize> ToBytes for [i16; N] {
    /// Each element contributes its 2 little-endian bytes, in order.
    open spec fn spec_to_le_bytes(self) -> Seq<u8> {
        Seq::new(
            ((N as int) * 2) as nat,
            |b: int| vstd::bytes::spec_u16_to_le_bytes(self@[b / 2] as u16)[b % 2],
        )
    }

    open spec fn spec_try_to_le_bytes(self, max_len: usize) -> Result<Seq<u8>, BrickletError> {
        Ok(self.spec_to_le_bytes())
    }

    fn to_le_bytes(var: [i16; N]) -> (r: Vec<u8>) {
        let mut out: Vec<u8> = Vec::new();
        let mut i: usize = 0;
        while i < N
            invariant
                i <= N,
                out@ =~= Seq::new(
                    ((i as int) * 2) as nat,
                    |b: int| vstd::bytes::spec_u16_to_le_bytes(var@[b / 2] as u16)[b % 2],
                ),
            decreases N - i,
        {
            let elem_bytes = vstd::bytes::u16_to_le_bytes(var[i] as u16);
            out.push(elem_bytes[0]);
            out.push(elem_bytes[1]);
            proof {
                assert(out@ =~= Seq::new(
                    (((i + 1) as int) * 2) as nat,
                    |b: int| vstd::bytes::spec_u16_to_le_bytes(var@[b / 2] as u16)[b % 2],
                ));
            }
            i += 1;
        }
        proof {
            assert(out@ =~= Seq::new(
                ((N as int) * 2) as nat,
                |b: int| vstd::bytes::spec_u16_to_le_bytes(var@[b / 2] as u16)[b % 2],
            ));
        }
        out
    }

    fn try_to_le_bytes(var: [i16; N], max_len: usize) -> (r: Result<Vec<u8>, BrickletError>) {
        Ok(<[i16; N] as ToBytes>::to_le_bytes(var))
    }
}

impl<const N: usize> FromByteSlice for [i16; N] {
    /// Element `i` is the little-endian value of bytes `2*i` to
    /// `2*i + 2 - 1`.
    open spec fn spec_decodes(bytes: Seq<u8>, v: Self) -> bool {
        forall|i: int|
            0 <= i < N ==> v@[i] == vstd::bytes::spec_u16_from_le_bytes(
                bytes.subrange(2 * i, 2 * i + 2),
            ) as i16
    }

    open spec fn spec_bytes_expected() -> usize {
        if (N as int) * 2 <= usize::MAX as int {
            ((N as int) * 2) as usize
        } else {
            usize::MAX
        }
    }

    /// An element count whose byte count does not fit a `usize` cannot be
    /// carried by one slice.
    open spec fn spec_decodable(bytes: Seq<u8>) -> bool {
        (N as int) * 2 <= usize::MAX as int
    }

    fn from_le_bytes(bytes: &[u8]) -> (r: Self) {
        let mut out: [i16; N] = [0i16; N];
        let mut i: usize = 0;
        while i < N
            invariant
                i <= N,
                (N as int) * 2 <= usize::MAX as int,
                bytes@.len() >= (N as int) * 2,
                forall|p: int|
                    0 <= p < i ==> out@[p] == vstd::bytes::spec_u16_from_le_bytes(
                        bytes@.subrange(2 * p, 2 * p + 2),
                    ) as i16,
            decreases N - i,
        {
            let start = 2 * i;
            out[i] = vstd::bytes::u16_from_le_bytes(
                vstd::slice::slice_subrange(bytes, start, start + 2),
            ) as i16;
            i += 1;
        }
        out
    }

    fn decodable(bytes: &[u8]) -> (r: bool) {
        N <= usize::MAX / 2
    }

    fn bytes_expected() -> (r: usize) {
        if N <= usize::MAX / 2 {
            2 * N
        } else {
            usize::MAX
        }
    }
}

impl<const N: usize> ToBytes for [u32; N] {
    /// Each element contributes its 4 little-endian bytes, in order.
    open spec fn spec_to_le_bytes(self) -> Seq<u8> {
        Seq::new(
            ((N as int) * 4) as nat,
            |b: int| vstd::bytes::spec_u32_to_le_bytes(self@[b / 4])[b % 4],
        )
    }

    open spec fn spec_try_to_le_bytes(self, max_len: usize) -> Result<Seq<u8>, BrickletError> {
        Ok(self.spec_to_le_bytes())
    }

    fn to_le_bytes(var: [u32; N]) -> (r: Vec<u8>) {
        let mut out: Vec<u8> = Vec::new();
        let mut i: usize = 0;
        while i < N
            invariant
                i <= N,
                out@ =~= Seq::new(
                    ((i as int) * 4) as nat,
                    |b: int| vstd::bytes::spec_u32_to_le_bytes(var@[b / 4])[b % 4],
                ),
            decreases N - i,
        {
            let elem_bytes = vstd::bytes::u32_to_le_bytes(var[i]);
            out.push(elem_bytes[0]);
            out.push(elem_bytes[1]);
            out.push(elem_bytes[2]);
            out.push(elem_bytes[3]);
            proof {
                assert(out@ =~= Seq::new(
                    (((i + 1) as int) * 4) as nat,
                    |b: int| vstd::bytes::spec_u32_to_le_bytes(var@[b / 4])[b % 4],
                ));
            }
            i += 1;
        }
        proof {
            assert(out@ =~= Seq::new(
                ((N as int) * 4) as nat,
                |b: int| vstd::bytes::spec_u32_to_le_bytes(var@[b / 4])[b % 4],
            ));
        }
        out
    }

    fn try_to_le_bytes(var: [u32; N], max_len: usize) -> (r: Result<Vec<u8>, BrickletError>) {
        Ok(<[u32; N] as ToBytes>::to_le_bytes(var))
    }
}

impl<const N: usize> FromByteSlice for [u32; N] {
    /// Element `i` is the little-endian value of bytes `4*i` to
    /// `4*i + 4 - 1`.
    open spec fn spec_decodes(bytes: Seq<u8>, v: Self) -> bool {
        forall|i: int|
            0 <= i < N ==> v@[i] == vstd::bytes::spec_u32_from_le_bytes(
                bytes.subrange(4 * i, 4 * i + 4),
            )
    }

    open spec fn spec_bytes_expected() -> usize {
        if (N as int) * 4 <= usize::MAX as int {
            ((N as int) * 4) as usize
        } else {
            usize::MAX
        }
    }

    /// An element count whose byte count does not fit a `usize` cannot be
    /// carried by one slice.
    open spec fn spec_decodable(bytes: Seq<u8>) -> bool {
        (N as int) * 4 <= usize::MAX as int
    }

    fn from_le_bytes(bytes: &[u8]) -> (r: Self) {
        let mut out: [u32; N] = [0u32; N];
        let mut i: usize = 0;
        while i < N
            invariant
                i <= N,
                (N as int) * 4 <= usize::MAX as int,
                bytes@.len() >= (N as int) * 4,
                forall|p: int|
                    0 <= p < i ==> out@[p] == vstd::bytes::spec_u32_from_le_bytes(
                        bytes@.subrange(4 * p, 4 * p + 4),
                    ),
            decreases N - i,
        {
            let start = 4 * i;
            out[i] = vstd::bytes::u32_from_le_bytes(
                vstd::slice::slice_subrange(bytes, start, start + 4),
            );
            i += 1;
        }
        out
    }

    fn decodable(bytes: &[u8]) -> (r: bool) {
        N <= usize::MAX / 4
    }

    fn bytes_expected() -> (r: usize) {
        if N <= usize::MAX / 4 {
            4 * N
        } else {
            usize::MAX
        }
    }
}

impl<const N: usize> ToBytes for [i32; N] {
    /// Each element contributes its 4 little-endian bytes, in order.
    open spec fn spec_to_le_bytes(self) -> Seq<u8> {
        Seq::new(
            ((N as int) * 4) as nat,
            |b: int| vstd::bytes::spec_u32_to_le_bytes(self@[b / 4] as u32)[b % 4],
        )
    }

    open spec fn spec_try_to_le_bytes(self, max_len: usize) -> Result<Seq<u8>, BrickletError> {
        Ok(self.spec_to_le_bytes())
    }

    fn to_le_bytes(var: [i32; N]) -> (r: Vec<u8>) {
        let mut out: Vec<u8> = Vec::new();
        let mut i: usize = 0;
        while i < N
            invariant
                i <= N,
                out@ =~= Seq::new(
                    ((i as int) * 4) as nat,
                    |b: int| vstd::bytes::spec_u32_to_le_bytes(var@[b / 4] as u32)[b % 4],
                ),
            decreases N - i,
        {
            let elem_bytes = vstd::bytes::u32_to_le_bytes(var[i] as u32);
            out.push(elem_bytes[0]);
            out.push(elem_bytes[1]);
            out.push(elem_bytes[2]);
            out.push(elem_bytes[3]);
            proof {
                assert(out@ =~= Seq::new(
                    (((i + 1) as int) * 4) as nat,
                    |b: int| vstd::bytes::spec_u32_to_le_bytes(var@[b / 4] as u32)[b % 4],
                ));
            }
            i += 1;
        }
        proof {
            assert(out@ =~= Seq::new(
                ((N as int) * 4) as nat,
                |b: int| vstd::bytes::spec_u32_to_le_bytes(var@[b / 4] as u32)[b % 4],
            ));
        }
        out
    }

    fn try_to_le_bytes(var: [i32; N], max_len: usize) -> (r: Result<Vec<u8>, BrickletError>) {
        Ok(<[i32; N] as ToBytes>::to_le_bytes(var))
    }
}

impl<const N: usize> FromByteSlice for [i32; N] {
    /// Element `i` is the little-endian value of bytes `4*i` to
    /// `4*i + 4 - 1`.
    open spec fn spec_decodes(bytes: Seq<u8>, v: Self) -> bool {
        forall|i: int|
            0 <= i < N ==> v@[i] == vstd::bytes::spec_u32_from_le_bytes(
                bytes.subrange(4 * i, 4 * i + 4),
            ) as i32
    }

    open spec fn spec_bytes_expected() -> usize {
        if (N as int) * 4 <= usize::MAX as int {
            ((N as int) * 4) as usize
        } else {
            usize::MAX
        }
    }

    /// An element count whose byte count does not fit a `usize` cannot be
    /// carried by one slice.
    open spec fn spec_decodable(bytes: Seq<u8>) -> bool {
        (N as int) * 4 <= usize::MAX as int
    }

    fn from_le_bytes(bytes: &[u8]) -> (r: Self) {
        let mut out: [i32; N] = [0i32; N];
        let mut i: usize = 0;
        while i < N
            invariant
                i <= N,
                (N as int) * 4 <= usize::MAX as int,
                bytes@.len() >= (N as int) * 4,
                forall|p: int|
                    0 <= p < i ==> out@[p] == vstd::bytes::spec_u32_from_le_bytes(
                        bytes@.subrange(4 * p, 4 * p + 4),
                    ) as i32,
            decreases N - i,
        {
            let start = 4 * i;
            out[i] = vstd::bytes::u32_from_le_bytes(
                vstd::slice::slice_subrange(bytes, start, start + 4),
            ) as i32;
            i += 1;
        }
        out
    }

    fn decodable(bytes: &[u8]) -> (r: bool) {
        N <= usize::MAX / 4
    }

    fn bytes_expected() -> (r: usize) {
        if N <= usize::MAX / 4 {
            4 * N
        } else {
            usize::MAX
        }
    }
}

impl<const N: usize> ToBytes for [u64; N] {
    /// Each element contributes its 8 little-endian bytes, in order.
    open spec fn spec_to_le_bytes(self) -> Seq<u8> {
        Seq::new(
            ((N as int) * 8) as nat,
            |b: int| vstd::bytes::spec_u64_to_le_bytes(self@[b / 8])[b % 8],
        )
    }

    open spec fn spec_try_to_le_bytes(self, max_len: usize) -> Result<Seq<u8>, BrickletError> {
        Ok(self.spec_to_le_bytes())
    }

    fn to_le_bytes(var: [u64; N]) -> (r: Vec<u8>) {
        let mut out: Vec<u8> = Vec::new();
        let mut i: usize = 0;
        while i < N
            invariant
                i <= N,
                out@ =~= Seq::new(
                    ((i as int) * 8) as nat,
                    |b: int| vstd::bytes::spec_u64_to_le_bytes(var@[b / 8])[b % 8],
                ),
            decreases N - i,
        {
            let elem_bytes = vstd::bytes::u64_to_le_bytes(var[i]);
            out.push(elem_bytes[0]);
            out.push(elem_bytes[1]);
            out.push(elem_bytes[2]);
            out.push(elem_bytes[3]);
            out.push(elem_bytes[4]);
            out.push(elem_bytes[5]);
            out.push(elem_bytes[6]);
            out.push(elem_bytes[7]);
            proof {
                assert(out@ =~= Seq::new(
                    (((i + 1) as int) * 8) as nat,
                    |b: int| vstd::bytes::spec_u64_to_le_bytes(var@[b / 8])[b % 8],
                ));
            }
            i += 1;
        }
        proof {
            assert(out@ =~= Seq::new(
                ((N as int) * 8) as nat,
                |b: int| vstd::bytes::spec_u64_to_le_bytes(var@[b / 8])[b % 8],
            ));
        }
        out
    }

    fn try_to_le_bytes(var: [u64; N], max_len: usize) -> (r: Result<Vec<u8>, BrickletError>) {
        Ok(<[u64; N] as ToBytes>::to_le_bytes(var))
    }
}

impl<const N: usize> FromByteSlice for [u64; N] {
    /// Element `i` is the little-endian value of bytes `8*i` to
    /// `8*i + 8 - 1`.
    open spec fn spec_decodes(bytes: Seq<u8>, v: Self) -> bool {
        forall|i: int|
            0 <= i < N ==> v@[i] == vstd::bytes::spec_u64_from_le_bytes(
                bytes.subrange(8 * i, 8 * i + 8),
            )
    }

    open spec fn spec_bytes_expected() -> usize {
        if (N as int) * 8 <= usize::MAX as int {
            ((N as int) * 8) as usize
        } else {
            usize::MAX
        }
    }

    /// An element count whose byte count does not fit a `usize` cannot be
    /// carried by one slice.
    open spec fn spec_decodable(bytes: Seq<u8>) -> bool {
        (N as int) * 8 <= usize::MAX as int
    }

    fn from_le_bytes(bytes: &[u8]) -> (r: Self) {
        let mut out: [u64; N] = [0u64; N];
        let mut i: usize = 0;
        while i < N
            invariant
                i <= N,
                (N as int) * 8 <= usize::MAX as int,
                bytes@.len() >= (N as int) * 8,
                forall|p: int|
                    0 <= p < i ==> out@[p] == vstd::bytes::spec_u64_from_le_bytes(
                        bytes@.subrange(8 * p, 8 * p + 8),
                    ),
            decreases N - i,
        {
            let start = 8 * i;
            out[i] = vstd::bytes::u64_from_le_bytes(
                vstd::slice::slice_subrange(bytes, start, start + 8),
            );
            i += 1;
        }
        out
    }

    fn decodable(bytes: &[u8]) -> (r: bool) {
        N <= usize::MAX / 8
    }

    fn bytes_expected() -> (r: usize) {
        if N <= usize::MAX / 8 {
            8 * N
        } else {
            usize::MAX
        }
    }
}

impl<const N: usize> ToBytes for [i64; N] {
    /// Each element contributes its 8 little-endian bytes, in order.
    open spec fn spec_to_le_bytes(self) -> Seq<u8> {
        Seq::new(
            ((N as int) * 8) as nat,
            |b: int| vstd::bytes::spec_u64_to_le_bytes(self@[b / 8] as u64)[b % 8],
        )
    }

    open spec fn spec_try_to_le_bytes(self, max_len: usize) -> Result<Seq<u8>, BrickletError> {
        Ok(self.spec_to_le_bytes())
    }

    fn to_le_bytes(var: [i64; N]) -> (r: Vec<u8>) {
        let mut out: Vec<u8> = Vec::new();
        let mut i: usize = 0;
        while i < N
            invariant
                i <= N,
                out@ =~= Seq::new(
                    ((i as int) * 8) as nat,
                    |b: int| vstd::bytes::spec_u64_to_le_bytes(var@[b / 8] as u64)[b % 8],
                ),
            decreases N - i,
        {
            let elem_bytes = vstd::bytes::u64_to_le_bytes(var[i] as u64);
            out.push(elem_bytes[0]);
            out.push(elem_bytes[1]);
            out.push(elem_bytes[2]);
            out.push(elem_bytes[3]);
            out.push(elem_bytes[4]);
            out.push(elem_bytes[5]);
            out.push(elem_bytes[6]);
            out.push(elem_bytes[7]);
            proof {
                assert(out@ =~= Seq::new(
                    (((i + 1) as int) * 8) as nat,
                    |b: int| vstd::bytes::spec_u64_to_le_bytes(var@[b / 8] as u64)[b % 8],
                ));
            }
            i += 1;
        }
        proof {
            assert(out@ =~= Seq::new(
                ((N as int) * 8) as nat,
                |b: int| vstd::bytes::spec_u64_to_le_bytes(var@[b / 8] as u64)[b % 8],
            ));
        }
        out
    }

    fn try_to_le_bytes(var: [i64; N], max_len: usize) -> (r: Result<Vec<u8>, BrickletError>) {
        Ok(<[i64; N] as ToBytes>::to_le_bytes(var))
    }
}

impl<const N: usize> FromByteSlice for [i64; N] {
    /// Element `i` is the little-endian value of bytes `8*i` to
    /// `8*i + 8 - 1`.
    open spec fn spec_decodes(bytes: Seq<u8>, v: Self) -> bool {
        forall|i: int|
            0 <= i < N ==> v@[i] == vstd::bytes::spec_u64_from_le_bytes(
                bytes.subrange(8 * i, 8 * i + 8),
            ) as i64
    }

    open spec fn spec_bytes_expected() -> usize {
        if (N as int) * 8 <= usize::MAX as int {
            ((N as int) * 8) as usize
        } else {
            usize::MAX
        }
    }

    /// An element count whose byte count does not fit a `usize` cannot be
    /// carried by one slice.
    open spec fn spec_decodable(bytes: Seq<u8>) -> bool {
        (N as int) * 8 <= usize::MAX as int
    }

    fn from_le_bytes(bytes: &[u8]) -> (r: Self) {
        let mut out: [i64; N] = [0i64; N];
        let mut i: usize = 0;
        while i < N
            invariant
                i <= N,
                (N as int) * 8 <= usize::MAX as int,
                bytes@.len() >= (N as int) * 8,
                forall|p: int|
                    0 <= p < i ==> out@[p] == vstd::bytes::spec_u64_from_le_bytes(
                        bytes@.subrange(8 * p, 8 * p + 8),
                    ) as i64,
            decreases N - i,
        {
            let start = 8 * i;
            out[i] = vstd::bytes::u64_from_le_bytes(
                vstd::slice::slice_subrange(bytes, start, start + 8),
            ) as i64;
            i += 1;
        }
        out
    }

    fn decodable(bytes: &[u8]) -> (r: bool) {
        N <= usize::MAX / 8
    }

    fn bytes_expected() -> (r: usize) {
        if N <= usize::MAX / 8 {
            8 * N
        } else {
            usize::MAX
        }
    }
}

} // verus!
