//! The ASN.1 OBJECT IDENTIFIER primitive: symbolic-identifier lookup,
//! dotted-form rendering and duplication.
//!
//! The numeric form is the sequence of arcs. A small registry of
//! well-known identifiers maps each symbolic identifier to its arcs and
//! its registered textual name; the reverse map recognizes exactly those
//! arc sequences. Rendering prefers the registered name and falls back to
//! the dotted numeric form, and is truncated past 79 characters — a
//! deliberate bounded-buffer policy of the native renderer that this layer
//! preserves.

use vstd::prelude::*;
use vstd::string::StrSliceExecFns;
use vstd::string::StringExecFns;
use crate::error::ErrorStack;
use crate::error::ERR_UNKNOWN_IDENTIFIER;
use crate::render::dec_chars;
use crate::render::push_char;
use crate::render::push_u64_dec;

verus! {

/// A well-known symbolic identifier. `Undef` is the native sentinel for
/// "no identifier": it resolves to no object identifier.
#[derive(Clone, Copy, PartialEq, Eq, Structural, Debug)]
pub enum Nid {
    Undef,
    CommonName,
    CountryName,
    LocalityName,
    StateOrProvinceName,
    OrganizationName,
    OrganizationalUnitName,
    RsaEncryption,
}

/// The arcs registered for a symbolic identifier.
pub open spec fn nid_arcs(n: Nid) -> Seq<u64> {
    match n {
        Nid::Undef => seq![],
        Nid::CommonName => seq![2u64, 5u64, 4u64, 3u64],
        Nid::CountryName => seq![2u64, 5u64, 4u64, 6u64],
        Nid::LocalityName => seq![2u64, 5u64, 4u64, 7u64],
        Nid::StateOrProvinceName => seq![2u64, 5u64, 4u64, 8u64],
        Nid::OrganizationName => seq![2u64, 5u64, 4u64, 10u64],
        Nid::OrganizationalUnitName => seq![2u64, 5u64, 4u64, 11u64],
        Nid::RsaEncryption => seq![1u64, 2u64, 840u64, 113549u64, 1u64, 1u64, 1u64],
    }
}

/// The registered textual name of a symbolic identifier.
pub open spec fn nid_long_name(n: Nid) -> Seq<char> {
    match n {
        Nid::Undef => "undefined"@,
        Nid::CommonName => "commonName"@,
        Nid::CountryName => "countryName"@,
        Nid::LocalityName => "localityName"@,
        Nid::StateOrProvinceName => "stateOrProvinceName"@,
        Nid::OrganizationName => "organizationName"@,
        Nid::OrganizationalUnitName => "organizationalUnitName"@,
        Nid::RsaEncryption => "rsaEncryption"@,
    }
}

/// The symbolic identifier registered for these arcs, if the registry
/// recognizes them exactly; the sentinel is never returned.
pub open spec fn nid_of_arcs(arcs: Seq<u64>) -> Option<Nid> {
    if arcs == nid_arcs(Nid::CommonName) {
        Some(Nid::CommonName)
    } else if arcs == nid_arcs(Nid::CountryName) {
        Some(Nid::CountryName)
    } else if arcs == nid_arcs(Nid::LocalityName) {
        Some(Nid::LocalityName)
    } else if arcs == nid_arcs(Nid::StateOrProvinceName) {
        Some(Nid::StateOrProvinceName)
    } else if arcs == nid_arcs(Nid::OrganizationName) {
        Some(Nid::OrganizationName)
    } else if arcs == nid_arcs(Nid::OrganizationalUnitName) {
        Some(Nid::OrganizationalUnitName)
    } else if arcs == nid_arcs(Nid::RsaEncryption) {
        Some(Nid::RsaEncryption)
    } else {
        None
    }
}

/// The dotted numeric rendering of the arcs, untruncated.
pub open spec fn dotted_chars(arcs: Seq<u64>) -> Seq<char>
    decreases arcs.len(),
{
    if arcs.len() == 0 {
        seq![]
    } else if arcs.len() == 1 {
        dec_chars(arcs[0] as nat)
    } else {
        dotted_chars(arcs.drop_last()) + seq!['.'] + dec_chars(arcs.last() as nat)
    }
}

/// The textual rendering before truncation: the registered name when the
/// arcs are recognized, the dotted numeric form otherwise.
pub open spec fn obj_text_full(arcs: Seq<u64>) -> Seq<char> {
    match nid_of_arcs(arcs) {
        Some(n) => nid_long_name(n),
        None => dotted_chars(arcs),
    }
}

/// The textual rendering, truncated past 79 characters.
pub open spec fn obj_text(arcs: Seq<u64>) -> Seq<char> {
    if obj_text_full(arcs).len() <= 79 {
        obj_text_full(arcs)
    } else {
        obj_text_full(arcs).take(79)
    }
}

/// Element-wise comparison of two arc buffers.
fn arcs_eq(a: &Vec<u64>, b: &Vec<u64>) -> (r: bool)
    ensures
        r == (a@ == b@),
{
    if a.len() != b.len() {
        assert(a@ != b@);
        return false;
    }
    let mut i: usize = 0;
    while i < a.len()
        invariant
            i <= a.len(),
            a@.len() == b@.len(),
            forall|j: int| 0 <= j < i ==> a@[j] == b@[j],
        decreases a.len() - i,
    {
        if a[i] != b[i] {
            assert(a@ != b@);
            return false;
        }
        i = i + 1;
    }
    proof {
        assert(a@ =~= b@);
    }
    true
}

/// The registered arcs of a symbolic identifier, as a fresh buffer.
fn nid_arcs_exec(n: Nid) -> (r: Vec<u64>)
    ensures
        r@ == nid_arcs(n),
{
    let mut out: Vec<u64> = Vec::new();
    match n {
        Nid::Undef => {},
        Nid::CommonName => {
            out.push(2);
            out.push(5);
            out.push(4);
            out.push(3);
        },
        Nid::CountryName => {
            out.push(2);
            out.push(5);
            out.push(4);
            out.push(6);
        },
        Nid::LocalityName => {
            out.push(2);
            out.push(5);
            out.push(4);
            out.push(7);
        },
        Nid::StateOrProvinceName => {
            out.push(2);
            out.push(5);
            out.push(4);
            out.push(8);
        },
        Nid::OrganizationName => {
            out.push(2);
            out.push(5);
            out.push(4);
            out.push(10);
        },
        Nid::OrganizationalUnitName => {
            out.push(2);
            out.push(5);
            out.push(4);
            out.push(11);
        },
        Nid::RsaEncryption => {
            out.push(1);
            out.push(2);
            out.push(840);
            out.push(113549);
            out.push(1);
            out.push(1);
            out.push(1);
        },
    }
    proof {
        assert(out@ =~= nid_arcs(n));
    }
    out
}

/// The registered textual name of a symbolic identifier.
fn nid_long_name_exec(n: Nid) -> (r: String)
    ensures
        r@ == nid_long_name(n),
{
    match n {
        Nid::Undef => String::from_str("undefined"),
        Nid::CommonName => String::from_str("commonName"),
        Nid::CountryName => String::from_str("countryName"),
        Nid::LocalityName => String::from_str("localityName"),
        Nid::StateOrProvinceName => String::from_str("stateOrProvinceName"),
        Nid::OrganizationName => String::from_str("organizationName"),
        Nid::OrganizationalUnitName => String::from_str("organizationalUnitName"),
        Nid::RsaEncryption => String::from_str("rsaEncryption"),
    }
}

/// Non-owning view of an OBJECT IDENTIFIER, valid only while its owner
/// lives.
#[derive(Debug)]
pub struct Asn1ObjectRef {
    arcs: Vec<u64>,
}

impl View for Asn1ObjectRef {
    type V = Seq<u64>;

    closed spec fn view(&self) -> Seq<u64> {
        self.arcs@
    }
}

impl Asn1ObjectRef {
    /// Reverse-maps the numeric form to its symbolic identifier: the one
    /// the registry holds for exactly these arcs, or nothing when the
    /// arcs are unrecognized.
    pub fn nid(&self) -> (r: Option<Nid>)
        ensures
            r == nid_of_arcs(self@),
    {
        if self.matches_nid(Nid::CommonName) {
            Some(Nid::CommonName)
        } else if self.matches_nid(Nid::CountryName) {
            Some(Nid::CountryName)
        } else if self.matches_nid(Nid::LocalityName) {
            Some(Nid::LocalityName)
        } else if self.matches_nid(Nid::StateOrProvinceName) {
            Some(Nid::StateOrProvinceName)
        } else if self.matches_nid(Nid::OrganizationName) {
            Some(Nid::OrganizationName)
        } else if self.matches_nid(Nid::OrganizationalUnitName) {
            Some(Nid::OrganizationalUnitName)
        } else if self.matches_nid(Nid::RsaEncryption) {
            Some(Nid::RsaEncryption)
        } else {
            None
        }
    }

    /// Whether the numeric form equals the registered arcs of `n`.
    fn matches_nid(&self, n: Nid) -> (r: bool)
        ensures
            r == (self@ == nid_arcs(n)),
    {
        let registered = nid_arcs_exec(n);
        arcs_eq(&self.arcs, &registered)
    }

    /// Renders the registered name, or the dotted numeric form for
    /// unrecognized arcs, truncated past 79 characters.
    pub fn text(&self) -> (r: String)
        ensures
            r@ == obj_text(self@),
    {
        let full: String = match self.nid() {
            Some(n) => nid_long_name_exec(n),
            None => self.dotted(),
        };
        let chars = full.as_str().unicode_len();
        if chars <= 79 {
            full
        } else {
            String::from_str(full.as_str().substring_char(0, 79))
        }
    }

    /// The dotted numeric form, untruncated.
    fn dotted(&self) -> (r: String)
        ensures
            r@ == dotted_chars(self@),
    {
        let mut out = String::new();
        let mut i: usize = 0;
        while i < self.arcs.len()
            invariant
                i <= self.arcs.len(),
                out@ == dotted_chars(self@.take(i as int)),
            decreases self.arcs.len() - i,
        {
            if i > 0 {
                push_char(&mut out, '.');
            }
            push_u64_dec(&mut out, self.arcs[i]);
            proof {
                lemma_dotted_step(self@, i as int);
            }
            i = i + 1;
        }
        proof {
            assert(self@.take(self.arcs@.len() as int) =~= self@);
        }
        out
    }
}

/// Appending one more arc to a prefix extends its dotted rendering by a
/// separator (after the first arc) and that arc's decimal form.
proof fn lemma_dotted_step(arcs: Seq<u64>, i: int)
    requires
        0 <= i < arcs.len(),
    ensures
        i == 0 ==> dotted_chars(arcs.take(1)) == dec_chars(arcs[0] as nat),
        i > 0 ==> dotted_chars(arcs.take(i + 1)) == dotted_chars(arcs.take(i)) + seq!['.']
            + dec_chars(arcs[i] as nat),
{
    let pre = arcs.take(i + 1);
    assert(pre.len() == i + 1);
    if i == 0 {
        assert(pre[0] == arcs[0]);
    } else {
        assert(pre.drop_last() =~= arcs.take(i));
        assert(pre.last() == arcs[i]);
    }
}

/// Owning OBJECT IDENTIFIER. Dropping it releases the value exactly once;
/// reads and rendering go through the borrowed view, and cloning
/// duplicates the numeric form into an independently owned value.
#[derive(Debug)]
pub struct Asn1Object {
    inner: Asn1ObjectRef,
}

impl View for Asn1Object {
    type V = Seq<u64>;

    closed spec fn view(&self) -> Seq<u64> {
        self.inner@
    }
}

impl Asn1Object {
    /// Allocates an empty OBJECT IDENTIFIER, with no arcs.
    pub fn new() -> (r: Asn1Object)
        ensures
            r@ == Seq::<u64>::empty(),
    {
        Asn1Object { inner: Asn1ObjectRef { arcs: Vec::new() } }
    }

    /// Resolves a symbolic identifier to its object identifier. Fails
    /// exactly on the sentinel identifier, which names nothing; the
    /// lookup error is recorded.
    pub fn from_nid(nid: Nid) -> (r: Result<Asn1Object, ErrorStack>)
        ensures
            r is Ok <==> nid != Nid::Undef,
            r matches Ok(o) ==> o@ == nid_arcs(nid),
            r matches Err(e) ==> e@ == seq![ERR_UNKNOWN_IDENTIFIER],
    {
        if let Nid::Undef = nid {
            Err(ErrorStack::from_code(ERR_UNKNOWN_IDENTIFIER))
        } else {
            Ok(Asn1Object { inner: Asn1ObjectRef { arcs: nid_arcs_exec(nid) } })
        }
    }

    /// Wraps a numeric form received from a producer of already-decoded
    /// values, taking exclusive ownership of it.
    pub fn from_arcs(arcs: Vec<u64>) -> (r: Asn1Object)
        ensures
            r@ == arcs@,
    {
        Asn1Object { inner: Asn1ObjectRef { arcs } }
    }

    /// Borrows the non-owning view.
    pub fn as_ref(&self) -> (r: &Asn1ObjectRef)
        ensures
            r@ == self@,
    {
        &self.inner
    }
}

impl Clone for Asn1Object {
    /// Duplicates the numeric form into an independently owned value;
    /// clone and original share nothing.
    fn clone(&self) -> (r: Self)
        ensures
            r@ == self@,
    {
        let mut arcs: Vec<u64> = Vec::new();
        let mut i: usize = 0;
        while i < self.inner.arcs.len()
            invariant
                i <= self.inner.arcs.len(),
                arcs@ == self.inner.arcs@.take(i as int),
            decreases self.inner.arcs.len() - i,
        {
            arcs.push(self.inner.arcs[i]);
            proof {
                assert(arcs@ =~= self.inner.arcs@.take(i + 1));
            }
            i = i + 1;
        }
        proof {
            assert(self.inner.arcs@.take(self.inner.arcs@.len() as int) =~= self.inner.arcs@);
        }
        Asn1Object { inner: Asn1ObjectRef { arcs } }
    }
}

/// Resolving a recognized symbolic identifier and reverse-mapping the
/// resulting arcs yields the identifier again: the registry round-trips
/// on everything but the sentinel.
pub proof fn lemma_nid_round_trip(n: Nid)
    requires
        n != Nid::Undef,
    ensures
        nid_of_arcs(nid_arcs(n)) == Some(n),
{
    assert(nid_arcs(Nid::CommonName)[3] == 3);
    assert(nid_arcs(Nid::CountryName)[3] == 6);
    assert(nid_arcs(Nid::LocalityName)[3] == 7);
    assert(nid_arcs(Nid::StateOrProvinceName)[3] == 8);
    assert(nid_arcs(Nid::OrganizationName)[3] == 10);
    assert(nid_arcs(Nid::OrganizationalUnitName)[3] == 11);
    assert(nid_arcs(Nid::RsaEncryption).len() == 7);
}

/// A value resolved from a recognized symbolic identifier renders as that
/// identifier's registered name: every registered name fits the bounded
/// buffer, so none is truncated.
pub proof fn lemma_recognized_identifier_text(n: Nid)
    requires
        n != Nid::Undef,
    ensures
        obj_text(nid_arcs(n)) == nid_long_name(n),
{
    lemma_nid_round_trip(n);
    reveal_strlit("commonName");
    reveal_strlit("countryName");
    reveal_strlit("localityName");
    reveal_strlit("stateOrProvinceName");
    reveal_strlit("organizationName");
    reveal_strlit("organizationalUnitName");
    reveal_strlit("rsaEncryption");
    assert(nid_long_name(n).len() <= 79);
}

} // verus!
