//! Interface to the `smol_str` crate: the small-string type that holds
//! identifiers.  Nothing in this file is proved; each contract is taken from
//! the crate's source.
use vstd::prelude::*;
use smol_str::SmolStr;

verus! {

#[verifier::external_type_specification]
#[verifier::external_body]
pub struct ExSmolStr(SmolStr);

/// The characters a `SmolStr` holds.
pub uninterp spec fn smol_text(s: SmolStr) -> Seq<char>;

/// `SmolStr::as_str` borrows the text of the string: whichever of its three
/// representations the value uses, the slice is the text it was built from.
pub assume_specification<'a>[ SmolStr::as_str ](s: &'a SmolStr) -> (text: &'a str)
    ensures
        text@ == smol_text(*s),
;

/// `SmolStr::new` builds a string that holds exactly the given text, inline
/// when it is short and on the heap otherwise.
#[verifier::external_body]
pub(crate) fn smol_new(text: &str) -> (s: SmolStr)
    ensures
        smol_text(s) == text@,
{
    SmolStr::new(text)
}

/// `SmolStr::clone` copies the inline bytes or shares the heap allocation;
/// either way the copy holds the same text.
#[verifier::external_body]
pub(crate) fn smol_clone(s: &SmolStr) -> (copy: SmolStr)
    ensures
        smol_text(copy) == smol_text(*s),
{
    s.clone()
}

} // verus!
