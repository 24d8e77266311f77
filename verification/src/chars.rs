//! Character classification and text helpers.
//!
//! The spacing rules of the serializer depend on whether a character is
//! alphabetic or alphanumeric in the Unicode sense.  Those two predicates
//! are taken from the standard library and named here; everything else in
//! this module is verified code over sequences of characters.

use vstd::prelude::*;
use vstd::string::StrSliceExecFns;

verus! {

/// Whether a character is alphabetic.
/// Names the result of `char::is_alphabetic`, which depends on the
/// character alone.
pub uninterp spec fn alphabetic(c: char) -> bool;

/// Whether a character is numeric.
/// Names the result of `char::is_numeric`, which depends on the
/// character alone.
pub uninterp spec fn numeric(c: char) -> bool;

/// Whether a character is alphanumeric: the standard library documents
/// `char::is_alphanumeric` as true exactly when the character is
/// alphabetic or numeric.
pub open spec fn alphanumeric(c: char) -> bool {
    alphabetic(c) || numeric(c)
}

/// Relies on `char::is_alphabetic`: true exactly when the character has
/// the Unicode `Alphabetic` property.
#[verifier::external_body]
pub fn char_is_alphabetic(c: char) -> (r: bool)
    ensures
        r == alphabetic(c),
{
    c.is_alphabetic()
}

/// Relies on `char::is_alphanumeric`: its documentation states it returns
/// `is_alphabetic() || is_numeric()`.
#[verifier::external_body]
pub fn char_is_alphanumeric(c: char) -> (r: bool)
    ensures
        r == (alphabetic(c) || numeric(c)),
{
    c.is_alphanumeric()
}

/// The characters the driver trims from the end of the rendered buffer:
/// the whitespace this formatter itself can leave behind.
pub open spec fn line_space(c: char) -> bool {
    c == ' ' || c == '\t' || c == '\r' || c == '\n'
}

/// Executable form of [`line_space`].
pub fn is_line_space(c: char) -> (r: bool)
    ensures
        r == line_space(c),
{
    c == ' ' || c == '\t' || c == '\r' || c == '\n'
}

/// Relies on `String`'s `FromIterator<char>` impl: the collected string
/// holds exactly the iterated characters, in order.
#[verifier::external_body]
pub fn chars_to_string(v: Vec<char>) -> (s: String)
    ensures
        s@ == v@,
{
    String::from_iter(v)
}

/// Copies the characters of a string slice into a vector.
pub fn str_to_chars(s: &str) -> (v: Vec<char>)
    ensures
        v@ == s@,
{
    let n: usize = s.unicode_len();
    let mut v: Vec<char> = Vec::new();
    let mut i: usize = 0;
    while i < n
        invariant
            i <= n,
            n == s@.len(),
            v@ == s@.take(i as int),
        decreases n - i,
    {
        let c = s.get_char(i);
        v.push(c);
        i = i + 1;
        proof {
            assert(v@ =~= s@.take(i as int));
        }
    }
    proof {
        assert(v@ =~= s@);
    }
    v
}

/// Whether two string slices hold the same characters.
pub fn str_eq(a: &str, b: &str) -> (r: bool)
    ensures
        r == (a@ == b@),
{
    let na: usize = a.unicode_len();
    let nb: usize = b.unicode_len();
    if na != nb {
        proof {
            assert(a@ != b@) by {
                assert(a@.len() != b@.len());
            }
        }
        return false;
    }
    let mut i: usize = 0;
    while i < na
        invariant
            i <= na,
            na == a@.len(),
            na == b@.len(),
            forall|j: int| 0 <= j < i ==> a@[j] == b@[j],
        decreases na - i,
    {
        if a.get_char(i) != b.get_char(i) {
            return false;
        }
        i = i + 1;
    }
    proof {
        assert(a@ =~= b@);
    }
    true
}

} // verus!
