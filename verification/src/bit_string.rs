//! The ASN.1 BIT STRING primitive: individually addressable bits over a
//! byte buffer.
//!
//! Bit `n` lives in byte `n / 8` under the mask `0x80 >> (n % 8)`, most
//! significant bit first. Setting a bit grows the buffer as needed with
//! zero fill; after every write the buffer is trimmed of trailing zero
//! bytes, so a stored buffer never ends in a zero byte. Reading a bit
//! beyond the buffer yields false. Negative indices are rejected with a
//! structured error and leave the value unchanged.

use vstd::prelude::*;
use crate::error::ErrorStack;
use crate::error::ERR_NEGATIVE_INDEX;

verus! {

/// The mask that addresses bit `n` within its byte.
pub open spec fn bit_mask(n: int) -> u8 {
    0x80u8 >> ((n % 8) as u8)
}

/// Whether bit `n` is set in the given buffer; false outside the buffer
/// and for negative indices.
pub open spec fn spec_get_bit(data: Seq<u8>, n: int) -> bool {
    0 <= n && n / 8 < data.len() && (data[n / 8] & bit_mask(n)) != 0
}

/// The buffer with its trailing zero bytes removed.
pub open spec fn trim_spec(data: Seq<u8>) -> Seq<u8>
    decreases data.len(),
{
    if data.len() > 0 && data.last() == 0u8 {
        trim_spec(data.drop_last())
    } else {
        data
    }
}

/// The buffer after writing `value` at bit `n`: grown with zero fill when
/// setting a bit beyond the end, untouched when clearing one there, and
/// trimmed of trailing zero bytes after every write.
pub open spec fn spec_set_bit(data: Seq<u8>, n: int, value: bool) -> Seq<u8>
    recommends
        0 <= n,
{
    let w = n / 8;
    if value {
        let base = if w < data.len() {
            data
        } else {
            data + Seq::new((w + 1 - data.len()) as nat, |i: int| 0u8)
        };
        trim_spec(base.update(w, base[w] | bit_mask(n)))
    } else {
        if w < data.len() {
            trim_spec(data.update(w, data[w] & !bit_mask(n)))
        } else {
            data
        }
    }
}

proof fn lemma_mask_or_set(x: u8, k: u8)
    requires
        k < 8,
    ensures
        ((x | (0x80u8 >> k)) & (0x80u8 >> k)) != 0,
        (x | (0x80u8 >> k)) != 0,
{
    assert(((x | (0x80u8 >> k)) & (0x80u8 >> k)) != 0 && (x | (0x80u8 >> k)) != 0)
        by (bit_vector)
        requires k < 8;
}

proof fn lemma_mask_and_clear(x: u8, k: u8)
    requires
        k < 8,
    ensures
        ((x & !(0x80u8 >> k)) & (0x80u8 >> k)) == 0,
{
    assert(((x & !(0x80u8 >> k)) & (0x80u8 >> k)) == 0)
        by (bit_vector)
        requires k < 8;
}

/// Trimming only removes trailing zero bytes: the prefix that stays is
/// unchanged, and everything removed was zero.
proof fn lemma_trim(data: Seq<u8>)
    ensures
        trim_spec(data).len() <= data.len(),
        forall|i: int| 0 <= i < trim_spec(data).len() ==> trim_spec(data)[i] == data[i],
        forall|j: int| trim_spec(data).len() <= j < data.len() ==> data[j] == 0u8,
    decreases data.len(),
{
    if data.len() > 0 && data.last() == 0u8 {
        let dl = data.drop_last();
        lemma_trim(dl);
        assert(trim_spec(data) == trim_spec(dl));
        assert forall|i: int| 0 <= i < trim_spec(data).len() implies trim_spec(data)[i]
            == data[i] by {
            assert(trim_spec(data)[i] == dl[i]);
            assert(dl[i] == data[i]);
        }
        assert forall|j: int| trim_spec(data).len() <= j < data.len() implies data[j] == 0u8 by {
            if j < data.len() - 1 {
                assert(dl[j] == data[j]);
            } else {
                assert(data[j] == data.last());
            }
        }
    }
}

/// Non-owning view of an ASN.1 BIT STRING, valid only while its owner
/// lives.
#[derive(Debug)]
pub struct Asn1BitStringRef {
    data: Vec<u8>,
}

impl View for Asn1BitStringRef {
    type V = Seq<u8>;

    closed spec fn view(&self) -> Seq<u8> {
        self.data@
    }
}

impl Asn1BitStringRef {
    /// Whether bit `n` is set; false beyond the stored bytes and for
    /// negative `n`.
    pub fn get_bit(&self, n: i32) -> (r: bool)
        ensures
            r == spec_get_bit(self@, n as int),
    {
        if n < 0 {
            return false;
        }
        let w: usize = (n as usize) / 8;
        if w >= self.data.len() {
            return false;
        }
        let mask: u8 = 0x80u8 >> ((n % 8) as u8);
        (self.data[w] & mask) != 0
    }

    /// Writes `value` at bit `n`. Fails exactly when `n` is negative, with
    /// the index error recorded; on failure the value is unchanged.
    pub fn set_bit(&mut self, n: i32, value: bool) -> (r: Result<(), ErrorStack>)
        ensures
            n >= 0 ==> r is Ok && final(self)@ == spec_set_bit(old(self)@, n as int, value),
            n < 0 ==> r is Err && final(self)@ == old(self)@,
            r matches Err(e) ==> n < 0 && e@ == seq![ERR_NEGATIVE_INDEX],
    {
        if n < 0 {
            return Err(ErrorStack::from_code(ERR_NEGATIVE_INDEX));
        }
        let w: usize = (n as usize) / 8;
        let mask: u8 = 0x80u8 >> ((n % 8) as u8);
        let ghost orig: Seq<u8> = self.data@;
        if value {
            while self.data.len() < w + 1
                invariant
                    orig.len() <= self.data@.len() <= w + 1 || self.data@.len() == orig.len(),
                    self.data@ =~= orig + Seq::new((self.data@.len() - orig.len()) as nat, |i: int| 0u8),
                    w + 1 <= usize::MAX,
                decreases w + 1 - self.data.len(),
            {
                self.data.push(0u8);
            }
            proof {
                let base = if (w as int) < orig.len() {
                    orig
                } else {
                    orig + Seq::new((w + 1 - orig.len()) as nat, |i: int| 0u8)
                };
                assert(self.data@ =~= base);
            }
            let cur: u8 = self.data[w];
            self.data[w] = cur | mask;
            trim_in_place(&mut self.data);
        } else {
            if w < self.data.len() {
                let cur: u8 = self.data[w];
                self.data[w] = cur & !mask;
                trim_in_place(&mut self.data);
            }
        }
        Ok(())
    }
}

/// Removes trailing zero bytes.
fn trim_in_place(data: &mut Vec<u8>)
    ensures
        final(data)@ == trim_spec(old(data)@),
{
    while data.len() > 0 && data[data.len() - 1] == 0u8
        invariant
            trim_spec(data@) == trim_spec(old(data)@),
        decreases data@.len(),
    {
        let ghost before: Seq<u8> = data@;
        data.pop();
        proof {
            assert(data@ =~= before.drop_last());
        }
    }
}

/// Owning ASN.1 BIT STRING. Dropping it releases the buffer exactly once;
/// all bit access goes through the borrowed view.
#[derive(Debug)]
pub struct Asn1BitString {
    inner: Asn1BitStringRef,
}

impl View for Asn1BitString {
    type V = Seq<u8>;

    closed spec fn view(&self) -> Seq<u8> {
        self.inner@
    }
}

impl Asn1BitString {
    /// A freshly constructed BIT STRING holds no bytes, so every bit reads
    /// as false.
    pub fn new() -> (r: Asn1BitString)
        ensures
            r@ == Seq::<u8>::empty(),
    {
        Asn1BitString { inner: Asn1BitStringRef { data: Vec::new() } }
    }

    /// Wraps a byte buffer received from a producer of already-decoded
    /// values.
    pub fn from_bytes(data: Vec<u8>) -> (r: Asn1BitString)
        ensures
            r@ == data@,
    {
        Asn1BitString { inner: Asn1BitStringRef { data } }
    }

    /// Borrows the non-owning view.
    pub fn as_ref(&self) -> (r: &Asn1BitStringRef)
        ensures
            r@ == self@,
    {
        &self.inner
    }

    /// Mutably borrows the non-owning view; the owner's value after the
    /// borrow ends is whatever the view was driven to.
    pub fn as_mut(&mut self) -> (r: &mut Asn1BitStringRef)
        ensures
            r@ == old(self)@,
            final(self)@ == final(r)@,
    {
        &mut self.inner
    }
}

/// Writing a bit and reading it back at the same non-negative index yields
/// the value written, whatever the buffer held before.
pub proof fn lemma_bit_set_then_get(data: Seq<u8>, n: int, value: bool)
    requires
        0 <= n,
    ensures
        spec_get_bit(spec_set_bit(data, n, value), n) == value,
{
    let w = n / 8;
    let k = (n % 8) as u8;
    assert(k < 8);
    if value {
        let base = if w < data.len() {
            data
        } else {
            data + Seq::new((w + 1 - data.len()) as nat, |i: int| 0u8)
        };
        let updated = base.update(w, base[w] | bit_mask(n));
        lemma_mask_or_set(base[w], k);
        lemma_trim(updated);
        assert(updated[w] != 0);
        assert(trim_spec(updated).len() > w);
        assert(trim_spec(updated)[w] == updated[w]);
    } else {
        if w < data.len() {
            let updated = data.update(w, data[w] & !bit_mask(n));
            lemma_mask_and_clear(data[w], k);
            lemma_trim(updated);
            if w < trim_spec(updated).len() {
                assert(trim_spec(updated)[w] == updated[w]);
            }
        }
    }
}

} // verus!
