//! Comparing pieces of text.

use vstd::prelude::*;
use vstd::string::StringSliceAdditionalSpecFns;

verus! {

/// Whether two pieces of text hold the same characters.
pub fn same_text(a: &str, b: &str) -> (same: bool)
    ensures
        same == (a@ == b@),
{
    let x = a.as_bytes();
    let y = b.as_bytes();
    if x.len() != y.len() {
        return false;
    }
    let mut i: usize = 0;
    while i < x.len()
        invariant
            i <= x.len(),
            x@.len() == y@.len(),
            x@ == a.spec_bytes(),
            y@ == b.spec_bytes(),
            forall|j: int| 0 <= j < i ==> x@[j] == y@[j],
        decreases x.len() - i,
    {
        if x[i] != y[i] {
            return false;
        }
        i += 1;
    }
    proof {
        assert(x@ =~= y@);
        vstd::utf8::encode_utf8_decode_utf8(a@);
        vstd::utf8::encode_utf8_decode_utf8(b@);
    }
    true
}

/// The ASCII code of `A`.
pub const CAPITAL_A: u8 = 65;

/// The ASCII code of `Z`.
pub const CAPITAL_Z: u8 = 90;

/// How far the small letters are behind the capital letters in ASCII.
pub const CASE_STEP: u8 = 32;

/// An ASCII capital letter as its small letter; any other byte as it is.
pub open spec fn lower_byte(b: u8) -> u8 {
    if CAPITAL_A <= b <= CAPITAL_Z {
        (b + CASE_STEP) as u8
    } else {
        b
    }
}

/// Whether two byte strings differ at most in the case of ASCII letters.
pub open spec fn same_ignoring_case(a: Seq<u8>, b: Seq<u8>) -> bool {
    &&& a.len() == b.len()
    &&& forall|i: int| 0 <= i < a.len() ==> lower_byte(#[trigger] a[i]) == lower_byte(b[i])
}

/// Whether none of the bytes is an ASCII capital letter.
pub open spec fn no_capitals(bytes: Seq<u8>) -> bool {
    forall|i: int| 0 <= i < bytes.len() ==> !(CAPITAL_A <= #[trigger] bytes[i] <= CAPITAL_Z)
}

/// Two byte strings without capital letters that differ at most in the case
/// of letters do not differ.
pub proof fn lemma_same_without_capitals(a: Seq<u8>, b: Seq<u8>)
    requires
        same_ignoring_case(a, b),
        no_capitals(a),
        no_capitals(b),
    ensures
        a == b,
{
    assert forall|i: int| 0 <= i < a.len() implies a[i] == b[i] by {}
}

/// Two pieces of text with the same UTF-8 bytes are the same text.
pub proof fn lemma_same_bytes_same_text(a: Seq<char>, b: Seq<char>)
    requires
        vstd::utf8::encode_utf8(a) == vstd::utf8::encode_utf8(b),
    ensures
        a == b,
{
    vstd::utf8::encode_utf8_decode_utf8(a);
    vstd::utf8::encode_utf8_decode_utf8(b);
}

/// An ASCII capital letter as its small letter; any other byte as it is.
pub fn to_lower(b: u8) -> (l: u8)
    ensures
        l == lower_byte(b),
{
    if CAPITAL_A <= b && b <= CAPITAL_Z {
        b + CASE_STEP
    } else {
        b
    }
}

/// Whether two pieces of text differ at most in the case of ASCII letters.
/// The comparison runs over their UTF-8 bytes.
pub fn matches_ignoring_case(a: &str, b: &str) -> (same: bool)
    ensures
        same == same_ignoring_case(a.spec_bytes(), b.spec_bytes()),
{
    let x = a.as_bytes();
    let y = b.as_bytes();
    if x.len() != y.len() {
        return false;
    }
    let mut i: usize = 0;
    while i < x.len()
        invariant
            i <= x.len(),
            x@.len() == y@.len(),
            x@ == a.spec_bytes(),
            y@ == b.spec_bytes(),
            forall|j: int| 0 <= j < i ==> lower_byte(#[trigger] x@[j]) == lower_byte(y@[j]),
        decreases x.len() - i,
    {
        if to_lower(x[i]) != to_lower(y[i]) {
            return false;
        }
        i += 1;
    }
    true
}

} // verus!
