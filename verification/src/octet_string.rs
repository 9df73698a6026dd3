//! The ASN.1 OCTET STRING primitive: a raw byte string that owns its
//! buffer, duplicable and renderable as text.
//!
//! Rendering substitutes a dot for every byte that is not printable
//! seven-bit text (keeping line feed and carriage return), as the native
//! string printer does.

use vstd::prelude::*;
use crate::render::push_char;

verus! {

/// The character a byte renders as: itself when printable seven-bit text,
/// line feed or carriage return, a dot otherwise.
pub open spec fn printable_byte_char(b: u8) -> char {
    if b > 0x7E || (b < 0x20 && b != 0x0A && b != 0x0D) {
        '.'
    } else {
        b as char
    }
}

/// The textual rendering of a byte string.
pub open spec fn octet_text(bytes: Seq<u8>) -> Seq<char> {
    bytes.map(|i: int, b: u8| printable_byte_char(b))
}

/// Non-owning view of an OCTET STRING, valid only while its owner lives.
#[derive(Debug)]
pub struct Asn1OctetStringRef {
    data: Vec<u8>,
}

impl View for Asn1OctetStringRef {
    type V = Seq<u8>;

    closed spec fn view(&self) -> Seq<u8> {
        self.data@
    }
}

impl Asn1OctetStringRef {
    /// The stored bytes, without copying, valid only while the owner
    /// lives.
    pub fn as_slice(&self) -> (r: &[u8])
        ensures
            r@ == self@,
    {
        self.data.as_slice()
    }

    /// Renders the bytes as text, dotting out everything that is not
    /// printable seven-bit text.
    pub fn text(&self) -> (r: String)
        ensures
            r@ == octet_text(self@),
    {
        let mut out = String::new();
        let mut i: usize = 0;
        while i < self.data.len()
            invariant
                i <= self.data.len(),
                out@.len() == i,
                forall|j: int| 0 <= j < i ==> out@[j] == printable_byte_char(self.data@[j]),
            decreases self.data.len() - i,
        {
            let b = self.data[i];
            if b > 0x7E || (b < 0x20 && b != 0x0A && b != 0x0D) {
                push_char(&mut out, '.');
            } else {
                push_char(&mut out, b as char);
            }
            i = i + 1;
        }
        proof {
            assert(out@ =~= octet_text(self@));
        }
        out
    }
}

/// Owning OCTET STRING. Dropping it releases the buffer exactly once;
/// reads go through the borrowed view, and cloning duplicates the bytes
/// into an independently owned buffer.
#[derive(Debug)]
pub struct Asn1OctetString {
    inner: Asn1OctetStringRef,
}

impl View for Asn1OctetString {
    type V = Seq<u8>;

    closed spec fn view(&self) -> Seq<u8> {
        self.inner@
    }
}

impl Asn1OctetString {
    /// Wraps a byte buffer received from a producer of already-decoded
    /// values.
    pub fn from_bytes(data: Vec<u8>) -> (r: Asn1OctetString)
        ensures
            r@ == data@,
    {
        Asn1OctetString { inner: Asn1OctetStringRef { data } }
    }

    /// Borrows the non-owning view.
    pub fn as_ref(&self) -> (r: &Asn1OctetStringRef)
        ensures
            r@ == self@,
    {
        &self.inner
    }
}

impl Clone for Asn1OctetString {
    /// Duplicates the bytes into an independently owned buffer; clone and
    /// original share nothing.
    fn clone(&self) -> (r: Self)
        ensures
            r@ == self@,
    {
        let mut data: Vec<u8> = Vec::new();
        let mut i: usize = 0;
        while i < self.inner.data.len()
            invariant
                i <= self.inner.data.len(),
                data@ == self.inner.data@.take(i as int),
            decreases self.inner.data.len() - i,
        {
            data.push(self.inner.data[i]);
            proof {
                assert(data@ =~= self.inner.data@.take(i + 1));
            }
            i = i + 1;
        }
        proof {
            assert(self.inner.data@.take(self.inner.data@.len() as int) =~= self.inner.data@);
        }
        Asn1OctetString { inner: Asn1OctetStringRef { data } }
    }
}

} // verus!
