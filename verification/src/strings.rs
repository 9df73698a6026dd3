//! The ASN.1 string primitive: a byte buffer in a native character
//! encoding, convertible to owned UTF-8 text and viewable as raw bytes.
//!
//! The stored bytes are kept exactly as received; `as_slice` exposes them
//! without copying, and `len` queries the same buffer, so the two always
//! agree. `as_utf8` decodes by the value's encoding kind: the single-byte
//! kinds decode each byte as the character with that code; the two-byte
//! kind decodes big-endian 16-bit units, rejecting buffers of odd length
//! or with units in the surrogate range; and the multi-byte kind decodes
//! Unicode scalars, rejecting every malformed, overlong or surrogate
//! encoding.

use vstd::prelude::*;
use vstd::utf8::*;
use crate::error::ErrorStack;
use crate::error::ERR_BAD_ENCODING;
use crate::render::push_char;

verus! {

/// The encoding a string value was produced under.
#[derive(Clone, Copy, PartialEq, Eq, Structural, Debug)]
pub enum StrKind {
    /// Seven-bit text; decoded byte for byte.
    Ia5String,
    /// The printable subset of seven-bit text; decoded byte for byte.
    PrintableString,
    /// Eight-bit text; decoded byte for byte, each byte being the code of
    /// its character.
    TeletexString,
    /// Big-endian 16-bit units, one per character.
    BmpString,
    /// Eight-bit multi-byte encoding of Unicode scalars.
    Utf8String,
}

/// Relies on `char::from_u32`: returns the character with the given code
/// exactly when the code is a Unicode scalar value (not a surrogate and
/// below 0x110000), and nothing otherwise.
pub assume_specification[ char::from_u32 ](i: u32) -> (r: Option<char>)
    ensures
        r is Some <==> (i < 0xD800 || (0xE000 <= i && i < 0x110000)),
        r matches Some(c) ==> c == i as char,
;

/// Byte-for-byte decoding: each byte is the code of its character.
pub open spec fn latin1_chars(bytes: Seq<u8>) -> Seq<char> {
    bytes.map(|i: int, b: u8| b as char)
}

/// The `i`-th big-endian 16-bit unit of the buffer.
pub open spec fn bmp_unit(bytes: Seq<u8>, i: int) -> u32 {
    ((bytes[2 * i] as int) * 256 + (bytes[2 * i + 1] as int)) as u32
}

/// Whether the buffer is a valid sequence of 16-bit units: even length,
/// no unit in the surrogate range.
pub open spec fn bmp_valid(bytes: Seq<u8>) -> bool {
    bytes.len() % 2 == 0 && forall|i: int|
        0 <= i < bytes.len() / 2 ==> !(0xD800 <= #[trigger] bmp_unit(bytes, i) < 0xE000)
}

/// The characters of a valid 16-bit-unit buffer.
pub open spec fn bmp_chars(bytes: Seq<u8>) -> Seq<char> {
    Seq::new((bytes.len() / 2) as nat, |i: int| bmp_unit(bytes, i) as char)
}

/// Whether conversion to UTF-8 succeeds for a value of this kind holding
/// these bytes.
pub open spec fn utf8_ok(kind: StrKind, bytes: Seq<u8>) -> bool {
    match kind {
        StrKind::BmpString => bmp_valid(bytes),
        StrKind::Utf8String => valid_utf8(bytes),
        _ => true,
    }
}

/// The characters the conversion yields when it succeeds.
pub open spec fn utf8_chars(kind: StrKind, bytes: Seq<u8>) -> Seq<char> {
    match kind {
        StrKind::BmpString => bmp_chars(bytes),
        StrKind::Utf8String => decode_utf8(bytes),
        _ => latin1_chars(bytes),
    }
}

/// Owned UTF-8 text produced by a conversion; the owning half of the
/// owned-text/borrowed-view pair for converted strings.
#[derive(Debug)]
pub struct OpensslString {
    text: String,
}

impl View for OpensslString {
    type V = Seq<char>;

    closed spec fn view(&self) -> Seq<char> {
        self.text@
    }
}

impl OpensslString {
    /// Wraps freshly produced text, taking ownership of it.
    pub(crate) fn from_string(text: String) -> (r: OpensslString)
        ensures
            r@ == text@,
    {
        OpensslString { text }
    }

    /// Borrows the text, valid only while the owner lives.
    pub fn as_str(&self) -> (r: &str)
        ensures
            r@ == self@,
    {
        self.text.as_str()
    }
}

/// Non-owning view of an ASN.1 string, valid only while its owner lives.
#[derive(Debug)]
pub struct Asn1StringRef {
    kind: StrKind,
    data: Vec<u8>,
}

impl View for Asn1StringRef {
    type V = Seq<u8>;

    closed spec fn view(&self) -> Seq<u8> {
        self.data@
    }
}

impl Asn1StringRef {
    /// The encoding this value was produced under.
    pub fn kind(&self) -> (r: StrKind)
        ensures
            r == self.spec_kind(),
    {
        self.kind
    }

    /// The encoding, for contracts.
    pub closed spec fn spec_kind(&self) -> StrKind {
        self.kind
    }

    /// The stored bytes, without copying: exactly `len()` bytes, valid
    /// only while the owner lives.
    pub fn as_slice(&self) -> (r: &[u8])
        ensures
            r@ == self@,
            r@.len() == self@.len(),
    {
        self.data.as_slice()
    }

    /// The current byte length, queried from the stored buffer.
    pub fn len(&self) -> (r: usize)
        ensures
            r == self@.len(),
    {
        self.data.len()
    }

    /// Converts the stored bytes to owned UTF-8 text. Succeeds exactly
    /// when the bytes are a valid instance of the value's encoding; on
    /// failure the encoding error is recorded and the value is unchanged.
    pub fn as_utf8(&self) -> (r: Result<OpensslString, ErrorStack>)
        ensures
            r is Ok <==> utf8_ok(self.spec_kind(), self@),
            r matches Ok(s) ==> s@ == utf8_chars(self.spec_kind(), self@),
            r matches Err(e) ==> e@ == seq![ERR_BAD_ENCODING],
    {
        match self.kind {
            StrKind::BmpString => self.bmp_to_utf8(),
            StrKind::Utf8String => self.utf8_to_chars(),
            _ => {
                let mut out = String::new();
                let mut i: usize = 0;
                while i < self.data.len()
                    invariant
                        i <= self.data.len(),
                        out@.len() == i,
                        forall|j: int| 0 <= j < i ==> out@[j] == self.data@[j] as char,
                    decreases self.data.len() - i,
                {
                    push_char(&mut out, self.data[i] as char);
                    i = i + 1;
                }
                proof {
                    assert(out@ =~= latin1_chars(self@));
                }
                Ok(OpensslString::from_string(out))
            },
        }
    }

    /// The two-byte decoding behind `as_utf8`.
    fn bmp_to_utf8(&self) -> (r: Result<OpensslString, ErrorStack>)
        requires
            self.spec_kind() == StrKind::BmpString,
        ensures
            r is Ok <==> bmp_valid(self@),
            r matches Ok(s) ==> s@ == bmp_chars(self@),
            r matches Err(e) ==> e@ == seq![ERR_BAD_ENCODING],
    {
        let n = self.data.len();
        if n % 2 != 0 {
            return Err(ErrorStack::from_code(ERR_BAD_ENCODING));
        }
        let mut out = String::new();
        let mut i: usize = 0;
        while i < n / 2
            invariant
                self.data.len() == n,
                n % 2 == 0,
                i <= n / 2,
                out@.len() == i,
                forall|j: int|
                    0 <= j < i ==> !(0xD800 <= #[trigger] bmp_unit(self@, j) < 0xE000),
                forall|j: int| 0 <= j < i ==> out@[j] == bmp_unit(self@, j) as char,
            decreases n / 2 - i,
        {
            let hi = self.data[2 * i];
            let lo = self.data[2 * i + 1];
            let unit: u32 = (hi as u32) * 256 + (lo as u32);
            proof {
                assert(unit == bmp_unit(self@, i as int));
            }
            if 0xD800 <= unit && unit < 0xE000 {
                proof {
                    assert(!bmp_valid(self@));
                }
                return Err(ErrorStack::from_code(ERR_BAD_ENCODING));
            }
            match char::from_u32(unit) {
                Some(c) => push_char(&mut out, c),
                None => {
                    proof {
                        assert(false);
                    }
                },
            }
            i = i + 1;
        }
        proof {
            assert(out@ =~= bmp_chars(self@));
        }
        Ok(OpensslString::from_string(out))
    }

    /// The multi-byte decoding behind `as_utf8`: validates and decodes
    /// one scalar encoding at a time.
    fn utf8_to_chars(&self) -> (r: Result<OpensslString, ErrorStack>)
        requires
            self.spec_kind() == StrKind::Utf8String,
        ensures
            r is Ok <==> valid_utf8(self@),
            r matches Ok(s) ==> s@ == decode_utf8(self@),
            r matches Err(e) ==> e@ == seq![ERR_BAD_ENCODING],
    {
        let n = self.data.len();
        let mut out = String::new();
        let mut i: usize = 0;
        proof {
            assert(self@.skip(0) =~= self@);
        }
        while i < n
            invariant
                i <= n,
                self.data.len() == n,
                valid_utf8(self@) <==> valid_utf8(self@.skip(i as int)),
                valid_utf8(self@.skip(i as int)) ==> decode_utf8(self@) == out@ + decode_utf8(
                    self@.skip(i as int),
                ),
            decreases n - i,
        {
            let ghost s = self@.skip(i as int);
            proof {
                assert(s.len() == n - i);
                assert(forall|j: int| 0 <= j < s.len() ==> s[j] == self@[i + j]);
            }
            let b0 = self.data[i];
            let width: usize;
            let cp: u32;
            if b0 < 0x80 {
                width = 1;
                cp = (b0 & 0x7F) as u32;
                proof {
                    assert(((b0 & 0x7F) as u32) <= 0x7F) by (bit_vector);
                    assert(s[0] == b0);
                }
            } else if 0xC0 <= b0 && b0 <= 0xDF {
                if i + 1 >= n {
                    proof {
                        assert(!valid_first_scalar(s));
                        assert(!valid_utf8(s));
                    }
                    return Err(ErrorStack::from_code(ERR_BAD_ENCODING));
                }
                let b1 = self.data[i + 1];
                proof {
                    assert(s[0] == b0 && s[1] == b1);
                }
                if !(0x80 <= b1 && b1 <= 0xBF) {
                    proof {
                        assert(!valid_first_scalar(s));
                        assert(!valid_utf8(s));
                    }
                    return Err(ErrorStack::from_code(ERR_BAD_ENCODING));
                }
                let c: u32 = (((b0 & 0x1F) as u32) << 6) | ((b1 & 0x3F) as u32);
                proof {
                    assert(decode_first_codepoint(s) == c);
                    assert(length_of_first_codepoint(s) == 2);
                    assert(((((b0 & 0x1F) as u32) << 6) | ((b1 & 0x3F) as u32)) <= 0x7FF)
                        by (bit_vector);
                }
                if c < 0x80 {
                    proof {
                        assert(!valid_first_scalar(s));
                        assert(!valid_utf8(s));
                    }
                    return Err(ErrorStack::from_code(ERR_BAD_ENCODING));
                }
                width = 2;
                cp = c;
            } else if 0xE0 <= b0 && b0 <= 0xEF {
                if n - i < 3 {
                    proof {
                        assert(!valid_first_scalar(s));
                        assert(!valid_utf8(s));
                    }
                    return Err(ErrorStack::from_code(ERR_BAD_ENCODING));
                }
                let b1 = self.data[i + 1];
                let b2 = self.data[i + 2];
                proof {
                    assert(s[0] == b0 && s[1] == b1 && s[2] == b2);
                }
                if !(0x80 <= b1 && b1 <= 0xBF) || !(0x80 <= b2 && b2 <= 0xBF) {
                    proof {
                        assert(!valid_first_scalar(s));
                        assert(!valid_utf8(s));
                    }
                    return Err(ErrorStack::from_code(ERR_BAD_ENCODING));
                }
                let c: u32 = (((b0 & 0x0F) as u32) << 12) | (((b1 & 0x3F) as u32) << 6) | ((b2
                    & 0x3F) as u32);
                proof {
                    assert(decode_first_codepoint(s) == c);
                    assert(length_of_first_codepoint(s) == 3);
                    assert(((((b0 & 0x0F) as u32) << 12) | (((b1 & 0x3F) as u32) << 6) | ((b2
                        & 0x3F) as u32)) <= 0xFFFF) by (bit_vector);
                }
                if c < 0x800 || (0xD800 <= c && c <= 0xDFFF) {
                    proof {
                        assert(!valid_first_scalar(s));
                        assert(!valid_utf8(s));
                    }
                    return Err(ErrorStack::from_code(ERR_BAD_ENCODING));
                }
                width = 3;
                cp = c;
            } else if 0xF0 <= b0 && b0 <= 0xF7 {
                if n - i < 4 {
                    proof {
                        assert(!valid_first_scalar(s));
                        assert(!valid_utf8(s));
                    }
                    return Err(ErrorStack::from_code(ERR_BAD_ENCODING));
                }
                let b1 = self.data[i + 1];
                let b2 = self.data[i + 2];
                let b3 = self.data[i + 3];
                proof {
                    assert(s[0] == b0 && s[1] == b1 && s[2] == b2 && s[3] == b3);
                }
                if !(0x80 <= b1 && b1 <= 0xBF) || !(0x80 <= b2 && b2 <= 0xBF) || !(0x80 <= b3 && b3
                    <= 0xBF) {
                    proof {
                        assert(!valid_first_scalar(s));
                        assert(!valid_utf8(s));
                    }
                    return Err(ErrorStack::from_code(ERR_BAD_ENCODING));
                }
                let c: u32 = (((b0 & 0x07) as u32) << 18) | (((b1 & 0x3F) as u32) << 12) | (((b2
                    & 0x3F) as u32) << 6) | ((b3 & 0x3F) as u32);
                proof {
                    assert(decode_first_codepoint(s) == c);
                    assert(length_of_first_codepoint(s) == 4);
                }
                if c < 0x10000 || c > 0x10FFFF {
                    proof {
                        assert(!valid_first_scalar(s));
                        assert(!valid_utf8(s));
                    }
                    return Err(ErrorStack::from_code(ERR_BAD_ENCODING));
                }
                width = 4;
                cp = c;
            } else {
                proof {
                    assert(s[0] == b0);
                    assert(!valid_first_scalar(s));
                    assert(!valid_utf8(s));
                }
                return Err(ErrorStack::from_code(ERR_BAD_ENCODING));
            }
            proof {
                assert(valid_first_scalar(s));
                assert(decode_first_scalar(s) == cp);
                assert(length_of_first_scalar(s) == width as int);
            }
            let ghost out0 = out@;
            match char::from_u32(cp) {
                Some(c) => {
                    push_char(&mut out, c);
                },
                None => {
                    proof {
                        assert(false);
                    }
                },
            }
            proof {
                let t = self@.skip(i as int + width as int);
                assert(t =~= pop_first_scalar(s));
                assert(valid_utf8(s) <==> valid_utf8(t));
                if valid_utf8(t) {
                    assert(decode_utf8(s) == seq![cp as char] + decode_utf8(t));
                    assert(out@ + decode_utf8(t) =~= out0 + decode_utf8(s));
                }
            }
            i = i + width;
        }
        proof {
            assert(self@.skip(n as int) =~= Seq::<u8>::empty());
            assert(valid_utf8(Seq::<u8>::empty()));
            assert(valid_utf8(self@));
            assert(out@ =~= out@ + decode_utf8(Seq::<u8>::empty()));
            assert(out@ =~= decode_utf8(self@));
        }
        Ok(OpensslString::from_string(out))
    }
}

/// Owning ASN.1 string. Dropping it releases the buffer exactly once; all
/// reads go through the borrowed view.
#[derive(Debug)]
pub struct Asn1String {
    inner: Asn1StringRef,
}

impl View for Asn1String {
    type V = Seq<u8>;

    closed spec fn view(&self) -> Seq<u8> {
        self.inner@
    }
}

impl Asn1String {
    /// The encoding, for contracts.
    pub closed spec fn spec_kind(&self) -> StrKind {
        self.inner.spec_kind()
    }

    /// Wraps a byte buffer received from a producer of already-decoded
    /// values, under the encoding it was produced with.
    pub fn from_bytes(kind: StrKind, data: Vec<u8>) -> (r: Asn1String)
        ensures
            r@ == data@,
            r.spec_kind() == kind,
    {
        Asn1String { inner: Asn1StringRef { kind, data } }
    }

    /// Borrows the non-owning view.
    pub fn as_ref(&self) -> (r: &Asn1StringRef)
        ensures
            r@ == self@,
            r.spec_kind() == self.spec_kind(),
    {
        &self.inner
    }
}

} // verus!
