//! Positions in a text: how character indices relate to byte offsets of the
//! UTF-8 encoding, a cursor that walks a `&str` one character at a time in
//! constant time per step, and spans that denote sub-slices of a text.

use vstd::prelude::*;
use vstd::string::*;
use vstd::utf8::*;

verus! {

/// Number of bytes in the UTF-8 encoding of `c`.
pub open spec fn char_width(c: char) -> int {
    encode_scalar(c as u32).len() as int
}

/// Byte offset, in the UTF-8 encoding of `s`, at which the character with
/// index `i` starts (the length of the encoding when `i == s.len()`).
pub open spec fn byte_offset(s: Seq<char>, i: int) -> int {
    encode_utf8(s.take(i)).len() as int
}

/// Encoding distributes over concatenation.
pub proof fn lemma_encode_concat(a: Seq<char>, b: Seq<char>)
    ensures
        encode_utf8(a + b) == encode_utf8(a) + encode_utf8(b),
    decreases a.len(),
{
    if a.len() == 0 {
        assert(a + b =~= b);
        assert(encode_utf8(a) + encode_utf8(b) =~= encode_utf8(b));
    } else {
        lemma_encode_concat(a.drop_first(), b);
        assert((a + b).drop_first() =~= a.drop_first() + b);
        assert((a + b)[0] == a[0]);
        assert(encode_utf8(a + b) =~= encode_utf8(a) + encode_utf8(b));
    }
}

/// Every character takes between one and four bytes.
pub proof fn lemma_char_width_bounds(c: char)
    ensures
        1 <= char_width(c) <= 4,
{
}

/// An encoding is at least as long as the text it encodes.
pub proof fn lemma_encode_len(s: Seq<char>)
    ensures
        encode_utf8(s).len() >= s.len(),
    decreases s.len(),
{
    if s.len() > 0 {
        lemma_encode_len(s.drop_first());
        lemma_char_width_bounds(s[0]);
    }
}

/// The encoding of a text is the encoding of its first `i` characters
/// followed by the encoding of the rest.
pub proof fn lemma_encode_split(s: Seq<char>, i: int)
    requires
        0 <= i <= s.len(),
    ensures
        encode_utf8(s) == encode_utf8(s.take(i)) + encode_utf8(s.skip(i)),
        byte_offset(s, i) <= encode_utf8(s).len(),
        encode_utf8(s).subrange(0, byte_offset(s, i)) == encode_utf8(s.take(i)),
        encode_utf8(s).subrange(byte_offset(s, i), encode_utf8(s).len() as int) == encode_utf8(
            s.skip(i),
        ),
{
    assert(s =~= s.take(i) + s.skip(i));
    lemma_encode_concat(s.take(i), s.skip(i));
    let a = encode_utf8(s.take(i));
    let b = encode_utf8(s.skip(i));
    assert((a + b).subrange(0, a.len() as int) =~= a);
    assert((a + b).subrange(a.len() as int, (a + b).len() as int) =~= b);
}

/// The bytes between the offsets of two character indices encode the
/// characters between those indices.
pub proof fn lemma_encode_subrange(s: Seq<char>, i: int, j: int)
    requires
        0 <= i <= j <= s.len(),
    ensures
        byte_offset(s, i) <= byte_offset(s, j) <= encode_utf8(s).len(),
        encode_utf8(s).subrange(byte_offset(s, i), byte_offset(s, j)) == encode_utf8(
            s.subrange(i, j),
        ),
        byte_offset(s, j) - byte_offset(s, i) >= j - i,
{
    lemma_encode_split(s, j);
    let p = s.take(j);
    lemma_encode_split(p, i);
    assert(p.take(i) =~= s.take(i));
    assert(p.skip(i) =~= s.subrange(i, j));
    let whole = encode_utf8(s);
    let bi = byte_offset(s, i);
    let bj = byte_offset(s, j);
    assert(whole.subrange(bi, bj) =~= whole.subrange(0, bj).subrange(bi, bj));
    lemma_encode_len(s.subrange(i, j));
}

/// Moving one character forward moves the byte offset by that character's
/// width.
pub proof fn lemma_byte_offset_step(s: Seq<char>, i: int)
    requires
        0 <= i < s.len(),
    ensures
        byte_offset(s, i + 1) == byte_offset(s, i) + char_width(s[i]),
        byte_offset(s, i + 1) <= encode_utf8(s).len(),
{
    lemma_encode_subrange(s, i, i + 1);
    let one = s.subrange(i, i + 1);
    assert(one.drop_first() =~= Seq::<char>::empty());
    assert(one[0] == s[i]);
    assert(encode_utf8(one) =~= encode_scalar(s[i] as u32)) by {
        reveal_with_fuel(encode_utf8, 2);
    }
}

/// The byte offset of a character index is a character boundary of the
/// encoding.
pub proof fn lemma_byte_offset_boundary(s: Seq<char>, i: int)
    requires
        0 <= i <= s.len(),
    ensures
        is_char_boundary(encode_utf8(s), byte_offset(s, i)),
    decreases i,
{
    let bytes = encode_utf8(s);
    encode_utf8_valid_utf8(s);
    if i == 0 {
        assert(s.take(0) =~= Seq::<char>::empty());
    } else {
        let tail = s.drop_first();
        encode_utf8_first_scalar(s);
        assert(pop_first_scalar(bytes) =~= encode_utf8(tail));
        lemma_byte_offset_boundary(tail, i - 1);
        assert(s.take(i).drop_first() =~= tail.take(i - 1));
        assert(s.take(i)[0] == s[0]);
        assert(byte_offset(s, i) == char_width(s[0]) + byte_offset(tail, i - 1));
        lemma_char_width_bounds(s[0]);
        lemma_encode_split(s, i);
    }
}

/// Two texts with the same encoding are the same text.
pub proof fn lemma_encode_injective(a: Seq<char>, b: Seq<char>)
    requires
        encode_utf8(a) == encode_utf8(b),
    ensures
        a == b,
{
    encode_utf8_decode_utf8(a);
    encode_utf8_decode_utf8(b);
}

/// Computes the number of bytes that `c` takes in UTF-8.
pub fn utf8_width(c: char) -> (w: usize)
    ensures
        w == char_width(c),
        1 <= w <= 4,
{
    let v: u32 = c as u32;
    if v < 0x80 {
        1
    } else if v < 0x800 {
        2
    } else if v < 0x10000 {
        3
    } else {
        4
    }
}

/// Number of bytes in the UTF-8 encoding of `s`.
pub fn byte_len(s: &str) -> (n: usize)
    ensures
        n == encode_utf8(s@).len(),
{
    s.as_bytes().len()
}

/// A range of bytes of a text, from `start` up to `end`.
#[derive(Clone, Copy, Debug, PartialEq, Eq)]
pub struct Span {
    pub start: usize,
    pub end: usize,
}

impl Span {
    /// The span lies inside the encoding of `s` and begins and ends at
    /// character boundaries.
    pub open spec fn wf(&self, s: Seq<char>) -> bool {
        &&& self.start <= self.end <= encode_utf8(s).len()
        &&& is_char_boundary(encode_utf8(s), self.start as int)
        &&& is_char_boundary(encode_utf8(s), self.end as int)
    }

    /// The characters of `s` that the span covers.
    pub open spec fn chars(&self, s: Seq<char>) -> Seq<char> {
        decode_utf8(encode_utf8(s).subrange(self.start as int, self.end as int))
    }

    /// The span between two character indices covers exactly the characters
    /// between them.
    pub proof fn lemma_between(s: Seq<char>, i: int, j: int)
        requires
            0 <= i <= j <= s.len(),
            byte_offset(s, j) <= usize::MAX,
        ensures
            (Span { start: byte_offset(s, i) as usize, end: byte_offset(s, j) as usize }).wf(s),
            (Span { start: byte_offset(s, i) as usize, end: byte_offset(s, j) as usize }).chars(s)
                == s.subrange(i, j),
    {
        lemma_encode_subrange(s, i, j);
        lemma_byte_offset_boundary(s, i);
        lemma_byte_offset_boundary(s, j);
        encode_utf8_decode_utf8(s.subrange(i, j));
    }

    /// Borrows the part of `text` that the span covers.
    pub fn slice<'a>(&self, text: &'a str) -> (r: &'a str)
        requires
            self.wf(text@),
        ensures
            r@ == self.chars(text@),
    {
        let ghost bytes = encode_utf8(text@);
        proof {
            encode_utf8_valid_utf8(text@);
            valid_utf8_split(bytes, self.end as int);
        }
        let (head, _) = text.split_at(self.end);
        proof {
            let prefix = bytes.subrange(0, self.end as int);
            assert(head.spec_bytes() == prefix);
            if self.start < self.end {
                is_char_boundary_iff_not_is_continuation_byte(bytes, self.start as int);
                is_char_boundary_iff_not_is_continuation_byte(prefix, self.start as int);
            } else {
                is_char_boundary_start_end_of_seq(prefix);
            }
        }
        let (_, r) = head.split_at(self.start);
        proof {
            assert(r.spec_bytes() =~= bytes.subrange(self.start as int, self.end as int));
            encode_utf8_decode_utf8(r@);
        }
        r
    }
}

/// A position in a text: the text, the byte offset reached, and the number
/// of characters before that offset. Stepping a cursor and slicing at it take
/// constant time.
#[derive(Clone, Copy)]
pub struct Cursor<'a> {
    text: &'a str,
    offset: usize,
    index: Ghost<int>,
}

impl<'a> Cursor<'a> {
    /// The whole text that the cursor walks.
    pub closed spec fn text(&self) -> Seq<char> {
        self.text@
    }

    /// Number of characters before the cursor.
    pub closed spec fn index(&self) -> int {
        self.index@
    }

    /// Number of bytes before the cursor.
    pub closed spec fn offset(&self) -> int {
        self.offset as int
    }

    /// The cursor stands at a character of its text, or at its end. This
    /// holds of every cursor.
    #[verifier::type_invariant]
    pub closed spec fn wf(&self) -> bool {
        &&& 0 <= self.index@ <= self.text@.len()
        &&& self.offset == byte_offset(self.text@, self.index@)
        &&& encode_utf8(self.text@).len() <= usize::MAX
    }

    /// The characters from the cursor to the end of the text.
    pub open spec fn remaining(&self) -> Seq<char> {
        self.text().skip(self.index())
    }

    /// What the character index and the byte offset of a cursor are bound
    /// by.
    pub proof fn lemma_bounds(&self)
        requires
            self.wf(),
        ensures
            0 <= self.index() <= self.text().len(),
            self.offset() == byte_offset(self.text(), self.index()),
            self.index() <= self.offset() <= usize::MAX,
    {
        lemma_encode_subrange(self.text@, 0, self.index@);
        assert(self.text@.take(0) =~= Seq::<char>::empty());
    }

    /// A cursor at the first character of `text`.
    pub fn start(text: &'a str) -> (c: Cursor<'a>)
        ensures
            c.text() == text@,
            c.index() == 0,
    {
        proof {
            assert(text@.take(0) =~= Seq::<char>::empty());
        }
        let _ = byte_len(text);
        Cursor { text, offset: 0, index: Ghost(0) }
    }

    /// The text from the cursor to the end.
    pub fn rest(&self) -> (r: &'a str)
        ensures
            r@ == self.remaining(),
    {
        proof {
            use_type_invariant(self);
            lemma_byte_offset_boundary(self.text@, self.index@);
            lemma_encode_split(self.text@, self.index@);
        }
        let (_, r) = self.text.split_at(self.offset);
        proof {
            lemma_encode_injective(r@, self.text@.skip(self.index@));
        }
        r
    }

    /// The whole text.
    pub fn whole(&self) -> (r: &'a str)
        ensures
            r@ == self.text(),
    {
        self.text
    }

    /// The character under the cursor, if the cursor is not at the end.
    pub fn peek(&self) -> (r: Option<char>)
        ensures
            r == (if self.index() < self.text().len() {
                Some(self.text()[self.index()])
            } else {
                None
            }),
            0 <= self.index() <= self.text().len(),
    {
        proof {
            use_type_invariant(self);
        }
        let r = self.rest();
        let mut it = r.chars();
        it.next()
    }

    /// The character under the cursor and the cursor behind it, if the
    /// cursor is not at the end.
    pub fn next(&self) -> (r: Option<(char, Cursor<'a>)>)
        ensures
            0 <= self.index() <= self.text().len(),
            match r {
                Some((c, after)) => {
                    &&& self.index() < self.text().len()
                    &&& c == self.text()[self.index()]
                    &&& after.text() == self.text()
                    &&& after.index() == self.index() + 1
                },
                None => self.index() == self.text().len(),
            },
    {
        match self.peek() {
            Some(c) => {
                proof {
                    use_type_invariant(self);
                    lemma_byte_offset_step(self.text@, self.index@);
                }
                let width = utf8_width(c);
                Some(
                    (
                        c,
                        Cursor {
                            text: self.text,
                            offset: self.offset + width,
                            index: Ghost(self.index@ + 1),
                        },
                    ),
                )
            },
            None => None,
        }
    }

    /// Whether the cursor is at the end of its text.
    pub fn at_end(&self) -> (r: bool)
        ensures
            r == (self.index() == self.text().len()),
            0 <= self.index() <= self.text().len(),
    {
        proof {
            use_type_invariant(self);
            lemma_encode_subrange(self.text@, self.index@, self.text@.len() as int);
            assert(self.text@.take(self.text@.len() as int) =~= self.text@);
        }
        self.offset == byte_len(self.text)
    }

    /// The cursor at which `rest` begins, where `rest` is what is left of
    /// this cursor's remaining text after some of its characters were taken.
    pub fn skip_to(&self, rest: &str) -> (r: Cursor<'a>)
        requires
            rest@.len() <= self.remaining().len(),
            rest@ == self.remaining().skip(self.remaining().len() - rest@.len()),
        ensures
            r.text() == self.text(),
            r.index() == self.text().len() - rest@.len(),
    {
        let ghost s = self.text@;
        let ghost k = s.len() - rest@.len();
        proof {
            use_type_invariant(self);
            assert(rest@ =~= s.skip(k));
            lemma_encode_split(s, k);
        }
        Cursor { text: self.text, offset: byte_len(self.text) - byte_len(rest), index: Ghost(k) }
    }

    /// The span from this cursor up to `end`.
    pub fn span_to(&self, end: &Cursor<'a>) -> (r: Span)
        requires
            end.text() == self.text(),
            self.index() <= end.index(),
        ensures
            r.wf(self.text()),
            r.chars(self.text()) == self.text().subrange(self.index(), end.index()),
    {
        proof {
            use_type_invariant(self);
            use_type_invariant(&end);
            Span::lemma_between(self.text@, self.index@, end.index@);
        }
        Span { start: self.offset, end: end.offset }
    }

    /// Whether this cursor is strictly before `other`, for two cursors into
    /// one text.
    pub fn is_before(&self, other: &Cursor<'a>) -> (r: bool)
        ensures
            r == (self.offset() < other.offset()),
            other.text() == self.text() ==> r == (self.index() < other.index()),
    {
        proof {
            use_type_invariant(self);
            use_type_invariant(&other);
            if other.text@ == self.text@ {
                if self.index@ <= other.index@ {
                    lemma_encode_subrange(self.text@, self.index@, other.index@);
                } else {
                    lemma_encode_subrange(self.text@, other.index@, self.index@);
                }
            }
        }
        self.offset < other.offset
    }
}

} // verus!
