//! The ASN.1 INTEGER primitive: an owning value and its view, with the
//! 64-bit scalar accessors.
//!
//! The native representation is arbitrary-precision; this layer only ever
//! reads it narrowed to a 64-bit signed scalar and only ever assigns it from
//! a 32-bit signed scalar, so the model carries the 64-bit value directly.

use vstd::prelude::*;
use crate::error::ErrorStack;

verus! {

/// The value an INTEGER holds after `set(v)`: the input widened to 64 bits.
pub open spec fn integer_after_set(v: i32) -> i64 {
    v as i64
}

/// Non-owning view of an ASN.1 INTEGER, valid only while its owner lives.
#[derive(Debug)]
pub struct Asn1IntegerRef {
    value: i64,
}

impl View for Asn1IntegerRef {
    type V = i64;

    closed spec fn view(&self) -> i64 {
        self.value
    }
}

impl Asn1IntegerRef {
    /// The value narrowed to a 64-bit signed scalar.
    pub fn get(&self) -> (r: i64)
        ensures
            r == self@,
    {
        self.value
    }

    /// Assigns the value from a 32-bit signed scalar. Never reports failure.
    pub fn set(&mut self, value: i32) -> (r: Result<(), ErrorStack>)
        ensures
            final(self)@ == integer_after_set(value),
            r is Ok,
    {
        self.value = value as i64;
        Ok(())
    }
}

/// Owning ASN.1 INTEGER. Dropping it releases the value exactly once; all
/// reads and writes go through the borrowed view.
#[derive(Debug)]
pub struct Asn1Integer {
    inner: Asn1IntegerRef,
}

impl View for Asn1Integer {
    type V = i64;

    closed spec fn view(&self) -> i64 {
        self.inner@
    }
}

impl Asn1Integer {
    /// A freshly constructed INTEGER holds zero.
    pub fn new() -> (r: Asn1Integer)
        ensures
            r@ == 0i64,
    {
        Asn1Integer { inner: Asn1IntegerRef { value: 0 } }
    }

    /// Borrows the non-owning view.
    pub fn as_ref(&self) -> (r: &Asn1IntegerRef)
        ensures
            r@ == self@,
    {
        &self.inner
    }

    /// Mutably borrows the non-owning view; the owner's value after the
    /// borrow ends is whatever the view was driven to.
    pub fn as_mut(&mut self) -> (r: &mut Asn1IntegerRef)
        ensures
            r@ == old(self)@,
            final(self)@ == final(r)@,
    {
        &mut self.inner
    }
}

/// Setting an INTEGER from any 32-bit signed value and reading it back
/// yields that same value as a 64-bit signed scalar.
pub proof fn lemma_integer_set_get(v: i32)
    ensures
        integer_after_set(v) as int == v as int,
{
}

} // verus!
