//! Reading the attributes of a start tag, one at a time, from its raw bytes.

use crate::errors::AttrError;
use vstd::prelude::*;
use vstd::slice::{slice_subrange, slice_to_vec};

verus! {

/// A class of bytes that a scan stops at.
#[derive(Clone, Copy, Debug)]
pub enum ByteClass {
    /// Space, tab, line feed or carriage return.
    Whitespace,
    /// Any byte that is not whitespace.
    NotWhitespace,
    /// What ends an attribute's name: `=` or whitespace.
    NameEnd,
    /// One given byte.
    Byte(u8),
}

/// Whether `b` is XML whitespace.
pub open spec fn is_whitespace(b: u8) -> bool {
    b == 0x20 || b == 0x09 || b == 0x0a || b == 0x0d
}

/// Whether `b` opens or closes a quoted value.
pub open spec fn is_quote(b: u8) -> bool {
    b == 0x22 || b == 0x27
}

impl ByteClass {
    /// Whether `b` belongs to the class.
    pub open spec fn contains(self, b: u8) -> bool {
        match self {
            ByteClass::Whitespace => is_whitespace(b),
            ByteClass::NotWhitespace => !is_whitespace(b),
            ByteClass::NameEnd => b == 0x3d || is_whitespace(b),
            ByteClass::Byte(c) => b == c,
        }
    }

    /// Executable form of [`ByteClass::contains`].
    pub fn accepts(&self, b: u8) -> (r: bool)
        ensures
            r == self.contains(b),
    {
        let ws: bool = b == 0x20 || b == 0x09 || b == 0x0a || b == 0x0d;
        match self {
            ByteClass::Whitespace => ws,
            ByteClass::NotWhitespace => !ws,
            ByteClass::NameEnd => b == 0x3d || ws,
            ByteClass::Byte(c) => b == *c,
        }
    }
}

/// The least index at or after `from` whose byte belongs to `class`, or the
/// length of `s` if there is none.
pub open spec fn first_match(s: Seq<u8>, from: int, class: ByteClass) -> int
    decreases s.len() - from,
{
    if from < 0 || from >= s.len() {
        s.len() as int
    } else if class.contains(s[from]) {
        from
    } else {
        first_match(s, from + 1, class)
    }
}

/// `first_match` is the first match: nothing before it belongs to the class,
/// and the byte it points at does, unless it is the end of `s`.
pub proof fn lemma_first_match(s: Seq<u8>, from: int, class: ByteClass)
    requires
        0 <= from <= s.len(),
    ensures
        from <= first_match(s, from, class) <= s.len(),
        forall|j: int| from <= j < first_match(s, from, class) ==> !class.contains(#[trigger] s[j]),
        first_match(s, from, class) < s.len() ==> class.contains(s[first_match(s, from, class)]),
    decreases s.len() - from,
{
    if from < s.len() && !class.contains(s[from]) {
        lemma_first_match(s, from + 1, class);
    }
}

/// Scans `bytes` from `from` for the first byte of `class`.
pub fn scan(bytes: &[u8], from: usize, class: ByteClass) -> (r: usize)
    ensures
        r == first_match(bytes@, from as int, class),
{
    let len: usize = bytes.len();
    let mut i: usize = from;
    while i < len
        invariant
            len == bytes@.len(),
            from <= i,
            first_match(bytes@, from as int, class) == first_match(bytes@, i as int, class),
        decreases len - i,
    {
        if class.accepts(bytes[i]) {
            return i;
        }
        i = i + 1;
    }
    len
}

/// One attribute of a start tag: its name and its raw value, still escaped
/// and without the quotes.
#[derive(Clone, Debug, PartialEq, Eq)]
pub struct Attribute {
    pub key: Vec<u8>,
    pub value: Vec<u8>,
}

/// What one read at a position in the bytes of a tag finds.
pub enum Found {
    /// An attribute, its name at `key_start..key_end` and its value at
    /// `value_start..value_end`.
    Attr { key_start: int, key_end: int, value_start: int, value_end: int },
    /// No further attribute.
    End,
    /// A name that is not followed by `=`.
    NoEqAfterName(int),
    /// A value that is not quoted, or whose quote is not closed.
    UnquotedValue(int),
}

/// The outcome of one read: what was found, and where the next read starts.
pub struct AttrStep {
    pub found: Found,
    pub position: int,
}

/// Reads one attribute of `s` at `pos`.
///
/// What is left of the token at `pos` is passed over, then whitespace. The
/// name starts at the next byte and runs up to the first `=` or whitespace.
/// After optional whitespace comes `=`, after optional whitespace again the
/// value between two equal quotes, `"` or `'`. The next read starts behind the
/// closing quote.
///
/// Where the bytes end before the name, within it, or right after `=`, there is
/// no further attribute. A name followed by anything but `=`, and a value that
/// does not start with a quote or never closes it, are errors. Every read that
/// yields no attribute leaves the position at the end of the bytes, so nothing
/// is read after an error.
pub open spec fn read_attr(s: Seq<u8>, pos: int) -> AttrStep {
    let len = s.len() as int;
    let key_start = first_match(s, first_match(s, pos, ByteClass::Whitespace), ByteClass::NotWhitespace);
    let key_end = first_match(s, key_start + 1, ByteClass::NameEnd);
    let eq = first_match(s, key_end, ByteClass::NotWhitespace);
    let open = first_match(s, eq + 1, ByteClass::NotWhitespace);
    let close = first_match(s, open + 1, ByteClass::Byte(s[open]));
    if pos >= len {
        AttrStep { found: Found::End, position: pos }
    } else if key_start >= len || key_end >= len {
        AttrStep { found: Found::End, position: len }
    } else if eq >= len || s[eq] != 0x3d {
        AttrStep { found: Found::NoEqAfterName(eq), position: len }
    } else if open >= len {
        AttrStep { found: Found::End, position: len }
    } else if !is_quote(s[open]) || close >= len {
        AttrStep { found: Found::UnquotedValue(open), position: len }
    } else {
        AttrStep {
            found: Found::Attr { key_start, key_end, value_start: open + 1, value_end: close },
            position: close + 1,
        }
    }
}

/// A read never moves backwards and never leaves the bytes, and a read that
/// finds no attribute ends at or behind their end. An attribute lies between
/// the old and the new position: its name, which is not empty, before its
/// value, and the new position behind the closing quote. An error points into
/// the bytes that were read, or at their end.
pub proof fn lemma_read_attr_bounds(s: Seq<u8>, pos: int)
    requires
        0 <= pos <= s.len(),
    ensures
        pos <= read_attr(s, pos).position <= s.len(),
        !(read_attr(s, pos).found is Attr) ==> read_attr(s, pos).position == s.len(),
        match read_attr(s, pos).found {
            Found::Attr { key_start, key_end, value_start, value_end } => {
                &&& pos < key_start < key_end < value_start <= value_end < read_attr(s, pos).position
                &&& read_attr(s, pos).position == value_end + 1
                &&& is_whitespace(s[key_start - 1])
                &&& !is_whitespace(s[key_start])
                &&& is_quote(s[value_start - 1])
                &&& s[value_end] == s[value_start - 1]
                &&& forall|j: int| value_start <= j < value_end ==> #[trigger] s[j] != s[value_end]
            },
            Found::End => true,
            Found::NoEqAfterName(i) => pos < i <= s.len(),
            Found::UnquotedValue(i) => pos < i < s.len(),
        },
{
    let len = s.len() as int;
    if pos < len {
        let ws = first_match(s, pos, ByteClass::Whitespace);
        lemma_first_match(s, pos, ByteClass::Whitespace);
        let key_start = first_match(s, ws, ByteClass::NotWhitespace);
        lemma_first_match(s, ws, ByteClass::NotWhitespace);
        if key_start < len {
            let key_end = first_match(s, key_start + 1, ByteClass::NameEnd);
            lemma_first_match(s, key_start + 1, ByteClass::NameEnd);
            if key_end < len {
                let eq = first_match(s, key_end, ByteClass::NotWhitespace);
                lemma_first_match(s, key_end, ByteClass::NotWhitespace);
                if eq < len {
                    let open = first_match(s, eq + 1, ByteClass::NotWhitespace);
                    lemma_first_match(s, eq + 1, ByteClass::NotWhitespace);
                    if open < len {
                        lemma_first_match(s, open + 1, ByteClass::Byte(s[open]));
                    }
                }
            }
        }
    }
}

/// A cursor over the attributes of a start tag.
pub struct Attributes<'a> {
    /// The bytes of the tag: its name, then its attributes.
    pub bytes: &'a [u8],
    /// Where the next read starts.
    pub position: usize,
}

impl<'a> Attributes<'a> {
    /// A cursor over `bytes` that starts reading at `position`.
    pub fn new(bytes: &'a [u8], position: usize) -> (r: Attributes<'a>)
        ensures
            r.bytes@ == bytes@,
            r.position == position,
    {
        Attributes { bytes, position }
    }

    /// Reads the next attribute and moves the cursor behind it.
    ///
    /// Returns `None` when no attribute is left, and the syntax error when the
    /// bytes at the cursor are malformed; either way the cursor then stands at
    /// the end of the bytes, or stays where it was if it was already behind it.
    pub fn next(&mut self) -> (r: Option<Result<Attribute, AttrError>>)
        ensures
            final(self).bytes@ == old(self).bytes@,
            final(self).position == read_attr(old(self).bytes@, old(self).position as int).position,
            match read_attr(old(self).bytes@, old(self).position as int).found {
                Found::Attr { key_start, key_end, value_start, value_end } => {
                    &&& r matches Some(Ok(a))
                    &&& a.key@ == old(self).bytes@.subrange(key_start, key_end)
                    &&& a.value@ == old(self).bytes@.subrange(value_start, value_end)
                },
                Found::End => r is None,
                Found::NoEqAfterName(i) => r == Some(Err::<Attribute, AttrError>(AttrError::NoEqAfterName(i as usize))),
                Found::UnquotedValue(i) => r == Some(Err::<Attribute, AttrError>(AttrError::UnquotedValue(i as usize))),
            },
    {
        let bytes: &[u8] = self.bytes;
        let len: usize = bytes.len();
        if len <= self.position {
            return None;
        }
        proof {
            lemma_read_attr_bounds(bytes@, self.position as int);
        }
        let after_token: usize = scan(bytes, self.position, ByteClass::Whitespace);
        let key_start: usize = scan(bytes, after_token, ByteClass::NotWhitespace);
        self.position = len;
        if key_start >= len {
            return None;
        }
        let key_end: usize = scan(bytes, key_start + 1, ByteClass::NameEnd);
        if key_end >= len {
            return None;
        }
        let eq: usize = scan(bytes, key_end, ByteClass::NotWhitespace);
        if eq >= len || bytes[eq] != 0x3d {
            return Some(Err(AttrError::NoEqAfterName(eq)));
        }
        let open: usize = scan(bytes, eq + 1, ByteClass::NotWhitespace);
        if open >= len {
            return None;
        }
        let quote: u8 = bytes[open];
        if quote != 0x22 && quote != 0x27 {
            return Some(Err(AttrError::UnquotedValue(open)));
        }
        let close: usize = scan(bytes, open + 1, ByteClass::Byte(quote));
        if close >= len {
            return Some(Err(AttrError::UnquotedValue(open)));
        }
        self.position = close + 1;
        let key: Vec<u8> = slice_to_vec(slice_subrange(bytes, key_start, key_end));
        let value: Vec<u8> = slice_to_vec(slice_subrange(bytes, open + 1, close));
        Some(Ok(Attribute { key, value }))
    }
}

} // verus!
