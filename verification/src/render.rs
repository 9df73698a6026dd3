//! Building textual renderings character by character, with a verified
//! decimal formatter shared by the identifier and timestamp renderers.

use vstd::prelude::*;

verus! {

/// The character for one decimal digit.
pub open spec fn dec_digit_char(d: int) -> char
    recommends
        0 <= d < 10,
{
    ((d + 48) as u8) as char
}

/// The decimal rendering of a non-negative integer, most significant digit
/// first, with no leading zeros (zero itself renders as one digit).
pub open spec fn dec_chars(n: nat) -> Seq<char>
    decreases n,
{
    if n < 10 {
        seq![dec_digit_char(n as int)]
    } else {
        dec_chars(n / 10) + seq![dec_digit_char((n % 10) as int)]
    }
}

/// The two-character zero-padded rendering of a value below one hundred.
pub open spec fn two_dec_chars(n: nat) -> Seq<char>
    recommends
        n < 100,
{
    seq![dec_digit_char((n / 10) as int), dec_digit_char((n % 10) as int)]
}

/// Relies on `String::push`: appends exactly the given character to the
/// string and changes nothing else.
#[verifier::external_body]
pub(crate) fn push_char(out: &mut String, c: char)
    ensures
        final(out)@ == old(out)@.push(c),
{
    out.push(c);
}

/// Appends the decimal rendering of `n`.
pub(crate) fn push_u64_dec(out: &mut String, n: u64)
    ensures
        final(out)@ == old(out)@ + dec_chars(n as nat),
    decreases n,
{
    if n >= 10 {
        push_u64_dec(out, n / 10);
        let d: u8 = (n % 10) as u8;
        push_char(out, (48 + d) as char);
        proof {
            assert(final(out)@ =~= old(out)@ + dec_chars(n as nat));
        }
    } else {
        let d: u8 = n as u8;
        push_char(out, (48 + d) as char);
        proof {
            assert(final(out)@ =~= old(out)@ + dec_chars(n as nat));
        }
    }
}

/// Appends the two-digit zero-padded rendering of `n`.
pub(crate) fn push_two_dec(out: &mut String, n: u64)
    requires
        n < 100,
    ensures
        final(out)@ == old(out)@ + two_dec_chars(n as nat),
{
    let hi: u8 = (n / 10) as u8;
    let lo: u8 = (n % 10) as u8;
    push_char(out, (48 + hi) as char);
    push_char(out, (48 + lo) as char);
    proof {
        assert(final(out)@ =~= old(out)@ + two_dec_chars(n as nat));
    }
}

} // verus!
