//! A scanner over the characters of a source text.
use vstd::prelude::*;
use vstd::string::{StrSliceExecFns, StringSliceAdditionalSpecFns};
use vstd::utf8::{encode_scalar, encode_utf8};

use crate::text::chars_of;

verus! {

/// The character that stands for the end of the text.
pub const EOF_CHAR: char = '\0';

/// The number of bytes that the UTF-8 encoding of a character takes.
pub open spec fn width(c: char) -> nat {
    encode_scalar(c as u32).len()
}

/// The byte offset of the character with index `k` in the UTF-8 encoding of
/// a text; for `k` the length of the text, the length of the encoding.
pub open spec fn offset_of(s: Seq<char>, k: int) -> nat {
    encode_utf8(s.subrange(0, k)).len()
}

/// The encoding of a text that is put together from two is put together
/// from the encodings of the two.
pub proof fn lemma_encode_concat(a: Seq<char>, b: Seq<char>)
    ensures
        encode_utf8(a + b) == encode_utf8(a) + encode_utf8(b),
    decreases a.len(),
{
    if a.len() == 0 {
        assert(a + b =~= b);
        assert(encode_utf8(a) + encode_utf8(b) =~= encode_utf8(b));
    } else {
        lemma_encode_concat(a.drop_first(), b);
        assert((a + b).drop_first() =~= a.drop_first() + b);
        assert(encode_utf8(a + b) =~= encode_utf8(a) + encode_utf8(b));
    }
}

/// Offsets start at 0 and grow by the width of each character.
pub proof fn lemma_offset_step(s: Seq<char>, k: int)
    requires
        0 <= k < s.len(),
    ensures
        offset_of(s, 0) == 0,
        offset_of(s, k + 1) == offset_of(s, k) + width(s[k]),
        1 <= width(s[k]) <= 4,
{
    let one = seq![s[k]];
    assert(s.subrange(0, k + 1) =~= s.subrange(0, k) + one);
    lemma_encode_concat(s.subrange(0, k), one);
    assert(one.drop_first() =~= Seq::<char>::empty());
    assert(encode_utf8(one) =~= encode_scalar(s[k] as u32)) by {
        reveal_with_fuel(encode_utf8, 2);
    }
    assert(s.subrange(0, 0) =~= Seq::<char>::empty());
}

/// No offset is beyond the length of the encoding.
pub proof fn lemma_offset_bound(s: Seq<char>, k: int)
    requires
        0 <= k <= s.len(),
    ensures
        offset_of(s, k) <= encode_utf8(s).len(),
        offset_of(s, s.len() as int) == encode_utf8(s).len(),
{
    assert(s =~= s.subrange(0, k) + s.subrange(k, s.len() as int));
    lemma_encode_concat(s.subrange(0, k), s.subrange(k, s.len() as int));
    assert(s.subrange(0, s.len() as int) =~= s);
}

/// The number of bytes that the UTF-8 encoding of a character takes.
pub fn utf8_len(c: char) -> (len: usize)
    ensures
        len == width(c),
        1 <= len <= 4,
{
    broadcast use vstd::utf8::char_is_scalar;

    let code: u32 = c as u32;
    if code < 0x80 {
        1
    } else if code < 0x800 {
        2
    } else if code < 0x10000 {
        3
    } else {
        4
    }
}

pub struct Cursor<'src> {
    /// The characters of the source.
    chars: Vec<char>,
    /// The index of the character that the next step reads.
    next: usize,
    /// The byte offset of that character.
    offset: usize,
    /// The character that the last step read, with its byte offset.
    ///
    /// Before the first step this is the end-of-file character at offset
    /// 0; after a step beyond the last character it is nothing.
    prev: Option<(usize, char)>,
    /// The source text.
    source: &'src str,
}

/// What a cursor shows after `steps` steps over a text: the character read
/// last, with its byte offset.
pub open spec fn shown(s: Seq<char>, steps: nat) -> Option<(usize, char)> {
    if steps == 0 {
        Some((0usize, EOF_CHAR))
    } else if steps <= s.len() {
        Some((offset_of(s, steps - 1) as usize, s[steps - 1]))
    } else {
        None
    }
}

impl<'src> Cursor<'src> {
    /// The text that the cursor scans.
    pub closed spec fn text(&self) -> Seq<char> {
        self.source@
    }

    /// The number of steps taken.  Steps beyond the end of the text do not count.
    pub closed spec fn steps(&self) -> nat {
        if self.prev is None {
            self.chars@.len() + 1
        } else {
            self.next as nat
        }
    }

    /// The fields agree with each other.
    pub closed spec fn wf(&self) -> bool {
        &&& self.chars@ == self.source@
        &&& self.next <= self.chars@.len()
        &&& self.prev is None ==> self.next == self.chars@.len()
        &&& self.offset == offset_of(self.source@, self.next as int)
        &&& self.prev == shown(self.source@, self.steps())
        &&& encode_utf8(self.source@).len() <= usize::MAX
    }

    /// The text of a well-formed cursor takes no more bytes than can be counted.
    pub proof fn lemma_bounded(&self)
        requires
            self.wf(),
        ensures
            encode_utf8(self.text()).len() <= usize::MAX,
    {
    }

    /// Construct cursor from given source code text.
    pub fn new(source: &'src str) -> (cursor: Self)
        ensures
            cursor.wf(),
            cursor.text() == source@,
            cursor.steps() == 0,
    {
        let chars = chars_of(source);
        let total: usize = source.as_bytes().len();
        proof {
            assert(source@.subrange(0, 0) =~= Seq::<char>::empty());
            assert(encode_utf8(source@).len() == total);
        }
        Cursor { chars, next: 0, offset: 0, prev: Some((0, EOF_CHAR)), source }
    }

    /// The source text.
    pub fn source(&self) -> (source: &'src str)
        ensures
            source@ == self.text(),
    {
        self.source
    }

    /// The text from the current character on.
    pub fn rest(&self) -> (rest: &'src str)
        requires
            self.wf(),
        ensures
            rest@ == (if self.steps() == 0 {
                self.text()
            } else if self.steps() <= self.text().len() {
                self.text().subrange(self.steps() - 1, self.text().len() as int)
            } else {
                Seq::empty()
            }),
    {
        match self.prev {
            Some(_) => {
                let from: usize = if self.next == 0 {
                    0
                } else {
                    self.next - 1
                };
                let rest = self.source.substring_char(from, self.chars.len());
                assert(self.text().subrange(0, self.text().len() as int) =~= self.text());
                rest
            },
            None => {
                let rest = self.source.substring_char(self.chars.len(), self.chars.len());
                assert(rest@ =~= Seq::<char>::empty());
                rest
            },
        }
    }

    /// Current byte offset and character.
    ///
    /// Before the first step this is the end-of-file character.  The cursor
    /// must not be at the end.
    #[inline]
    pub fn current(&self) -> (current: (usize, char))
        requires
            self.wf(),
            self.steps() <= self.text().len(),
        ensures
            Some(current) == shown(self.text(), self.steps()),
    {
        match self.prev {
            Some((pos, ch)) => (pos, ch),
            None => vstd::pervasive::unreached(),
        }
    }

    #[inline]
    pub fn try_current(&self) -> (current: Option<(usize, char)>)
        requires
            self.wf(),
        ensures
            current == shown(self.text(), self.steps()),
    {
        self.prev
    }

    /// Byte offset of the current character.  The cursor must not be at the end.
    #[inline]
    pub fn pos(&self) -> (pos: usize)
        requires
            self.wf(),
            self.steps() <= self.text().len(),
        ensures
            Some(pos) == self.spec_pos(),
    {
        self.current().0
    }

    /// Byte offset of the current character.
    pub open spec fn spec_pos(&self) -> Option<usize> {
        match shown(self.text(), self.steps()) {
            Some((pos, _)) => Some(pos),
            None => None,
        }
    }

    /// The current character.
    pub open spec fn spec_char(&self) -> Option<char> {
        match shown(self.text(), self.steps()) {
            Some((_, ch)) => Some(ch),
            None => None,
        }
    }

    /// Byte offset of the current character.
    #[inline]
    pub fn try_pos(&self) -> (pos: Option<usize>)
        requires
            self.wf(),
        ensures
            pos == self.spec_pos(),
    {
        match self.prev {
            Some((pos, _)) => Some(pos),
            None => None,
        }
    }

    /// The current character.  The cursor must not be at the end.
    #[inline]
    pub fn char(&self) -> (ch: char)
        requires
            self.wf(),
            self.steps() <= self.text().len(),
        ensures
            Some(ch) == self.spec_char(),
    {
        self.current().1
    }

    /// The current character.
    #[inline]
    pub fn try_char(&self) -> (ch: Option<char>)
        requires
            self.wf(),
        ensures
            ch == self.spec_char(),
    {
        match self.prev {
            Some((_, ch)) => Some(ch),
            None => None,
        }
    }

    /// The character that the next step reads.
    pub open spec fn spec_peek(&self) -> Option<char> {
        if self.steps() < self.text().len() {
            Some(self.text()[self.steps() as int])
        } else {
            None
        }
    }

    /// Peek the next character without advancing the cursor.
    #[inline]
    pub fn peek_char(&self) -> (ch: Option<char>)
        requires
            self.wf(),
        ensures
            ch == self.spec_peek(),
    {
        if self.next < self.chars.len() {
            Some(self.chars[self.next])
        } else {
            None
        }
    }

    /// Peek the byte offset of the next character; at the end, the length
    /// of the text in bytes.
    pub fn peek_offset(&self) -> (offset: usize)
        requires
            self.wf(),
        ensures
            offset == offset_of(
                self.text(),
                if self.steps() <= self.text().len() {
                    self.steps() as int
                } else {
                    self.text().len() as int
                },
            ),
    {
        self.offset
    }

    /// Indicates whether the cursor is at the end of the source: a step
    /// has gone beyond the last character.
    pub fn at_end(&self) -> (end: bool)
        requires
            self.wf(),
        ensures
            end == (self.steps() > self.text().len()),
    {
        self.prev.is_none()
    }

    /// Advances the cursor to the next character.
    ///
    /// Returns `None` if the cursor is end-of-file.
    pub fn bump(&mut self) -> (current: Option<(usize, char)>)
        requires
            old(self).wf(),
        ensures
            final(self).wf(),
            final(self).text() == old(self).text(),
            final(self).steps() == (if old(self).steps() <= old(self).text().len() {
                old(self).steps() + 1
            } else {
                old(self).steps()
            }),
            current == shown(final(self).text(), final(self).steps()),
    {
        if self.next < self.chars.len() {
            let ch = self.chars[self.next];
            proof {
                lemma_offset_step(self.source@, self.next as int);
                lemma_offset_bound(self.source@, self.next + 1);
            }
            self.prev = Some((self.offset, ch));
            self.offset = self.offset + utf8_len(ch);
            self.next = self.next + 1;
            self.prev
        } else {
            // The cursor is exhausted.
            self.prev = None;
            None
        }
    }
}

} // verus!
