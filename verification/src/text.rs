//! Helpers on string slices.
use vstd::prelude::*;
use vstd::std_specs::iter::IteratorSpec;
use vstd::string::StringSliceAdditionalSpecFns;
use vstd::utf8::is_char_boundary;

verus! {

/// Whether `lo..hi` is a range of byte offsets that a part of a string with
/// the given UTF-8 encoding can be taken at: the offsets are in order,
/// within the string, and at character boundaries.
pub open spec fn sliceable(bytes: Seq<u8>, lo: int, hi: int) -> bool {
    &&& 0 <= lo <= hi <= bytes.len()
    &&& is_char_boundary(bytes, lo)
    &&& is_char_boundary(bytes, hi)
}

/// The part of a string between two byte offsets, if the offsets are in
/// order, within the string and at character boundaries, and nothing
/// otherwise.
pub fn str_get<'a>(s: &'a str, lo: usize, hi: usize) -> (part: Option<&'a str>)
    ensures
        part is Some <==> sliceable(s.spec_bytes(), lo as int, hi as int),
        part matches Some(p) ==> p.spec_bytes() == s.spec_bytes().subrange(lo as int, hi as int),
{
    broadcast use vstd::utf8::encode_utf8_valid_utf8;

    let len: usize = s.as_bytes().len();
    if lo <= hi && hi <= len && s.is_char_boundary(lo) && s.is_char_boundary(hi) {
        let (head, _) = s.split_at(hi);
        proof {
            let bytes = s.spec_bytes();
            let front = head.spec_bytes();
            assert(vstd::utf8::valid_utf8(bytes));
            assert(vstd::utf8::valid_utf8(front));
            if lo < hi {
                vstd::utf8::is_char_boundary_iff_not_is_continuation_byte(bytes, lo as int);
                vstd::utf8::is_char_boundary_iff_not_is_continuation_byte(front, lo as int);
                assert(front[lo as int] == bytes[lo as int]);
            } else {
                vstd::utf8::is_char_boundary_start_end_of_seq(front);
            }
        }
        let (_, part) = head.split_at(lo);
        assert(part.spec_bytes() =~= s.spec_bytes().subrange(lo as int, hi as int));
        Some(part)
    } else {
        None
    }
}

/// Whether two string slices hold the same characters.
pub fn str_eq(a: &str, b: &str) -> (equal: bool)
    ensures
        equal == (a@ == b@),
{
    broadcast use vstd::utf8::encode_utf8_decode_utf8;

    let x = a.as_bytes();
    let y = b.as_bytes();
    if x.len() != y.len() {
        return false;
    }
    let mut i: usize = 0;
    while i < x.len()
        invariant
            i <= x.len(),
            x.len() == y.len(),
            x@ == a.spec_bytes(),
            y@ == b.spec_bytes(),
            forall|j: int| 0 <= j < i ==> x@[j] == y@[j],
        decreases x.len() - i,
    {
        if x[i] != y[i] {
            return false;
        }
        i += 1;
    }
    assert(x@ =~= y@);
    assert(vstd::utf8::decode_utf8(a.spec_bytes()) == a@);
    assert(vstd::utf8::decode_utf8(b.spec_bytes()) == b@);
    true
}

/// The characters of a string.
#[verifier::loop_isolation(false)]
pub fn chars_of(s: &str) -> (chars: Vec<char>)
    ensures
        chars@ == s@,
{
    broadcast use vstd::string::group_string_axioms;

    let mut chars: Vec<char> = Vec::new();
    for c in it: s.chars()
        invariant
            it.seq() == s@,
            chars@ == s@.subrange(0, it.index() as int),
    {
        chars.push(c);
        assert(chars@ =~= s@.subrange(0, it.index() + 1));
    }
    assert(chars@ =~= s@);
    chars
}

} // verus!
