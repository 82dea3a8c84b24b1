//! Extensions to string slices.
use vstd::prelude::*;
use vstd::string::StrSliceExecFns;

verus! {

pub trait StringExt {
    /// The characters of the string.
    spec fn chars(&self) -> Seq<char>;

    /// The first character, if there is one.
    fn first(&self) -> (first: Option<char>)
        ensures
            first == (if self.chars().len() > 0 {
                Some(self.chars()[0])
            } else {
                None
            }),
    ;

    /// The first character and the rest, if there is a first character.
    fn split_first_char(&self) -> (parts: Option<(char, &str)>)
        ensures
            parts is Some <==> self.chars().len() > 0,
            parts matches Some((first, rest)) ==> first == self.chars()[0] && rest@
                == self.chars().subrange(1, self.chars().len() as int),
    ;
}

impl StringExt for str {
    open spec fn chars(&self) -> Seq<char> {
        self@
    }

    fn first(&self) -> (first: Option<char>) {
        if self.unicode_len() > 0 {
            Some(self.get_char(0))
        } else {
            None
        }
    }

    fn split_first_char(&self) -> (parts: Option<(char, &str)>) {
        let len: usize = self.unicode_len();
        if len > 0 {
            Some((self.get_char(0), self.substring_char(1, len)))
        } else {
            None
        }
    }
}

} // verus!
