//! Constants and names: text restricted to one byte per character, and the
//! entries of the constant pool.

use vstd::prelude::*;
use vstd::string::*;
use crate::error::EncodeError;
use crate::wire::{be64, put_bytes, put_u64, to_twos_complement, twos_complement};

verus! {

/// Whether every character of `text` fits in one byte.
pub open spec fn text_fits(text: Seq<char>) -> bool {
    forall|i: int| 0 <= i < text.len() ==> (#[trigger] text[i]) as u32 <= 255
}

/// The characters of `text`, one byte each. Meant for text that `text_fits` accepts.
pub open spec fn text_chars(text: Seq<char>) -> Seq<u8> {
    Seq::new(text.len(), |i: int| text[i] as u8)
}

/// Text on the wire: one byte per character, then a zero byte.
pub open spec fn text_bytes(text: Seq<char>) -> Seq<u8> {
    text_chars(text).push(0u8)
}

/// Two characters that fit in one byte and have the same byte are the same.
pub proof fn lemma_char_byte_injective(c: char, d: char)
    requires
        c as u32 <= 255,
        d as u32 <= 255,
        c as u8 == d as u8,
    ensures
        c == d,
{
}

/// Text that fits loses nothing on the wire: two texts that fit and have the
/// same bytes are the same text.
pub proof fn lemma_text_bytes_injective(a: Seq<char>, b: Seq<char>)
    requires
        text_fits(a),
        text_fits(b),
        text_bytes(a) == text_bytes(b),
    ensures
        a == b,
{
    assert(text_bytes(a).len() == a.len() + 1);
    assert(text_bytes(b).len() == b.len() + 1);
    assert forall|i: int| 0 <= i < a.len() implies a[i] == b[i] by {
        assert(text_bytes(a)[i] == text_chars(a)[i]);
        assert(text_bytes(b)[i] == text_chars(b)[i]);
        lemma_char_byte_injective(a[i], b[i]);
    }
    assert(a =~= b);
}

/// Encodes `text` with one byte per character and a closing zero byte.
/// Refused where a character does not fit in one byte. Text of ASCII
/// characters alone is copied as it lies in memory; other text is taken
/// character by character.
pub fn encode_text(text: &str) -> (r: Result<Vec<u8>, EncodeError>)
    ensures
        text_fits(text@) ==> r is Ok && r->Ok_0@ == text_bytes(text@),
        !text_fits(text@) ==> r == Err::<Vec<u8>, EncodeError>(
            EncodeError::UnsupportedCharacter,
        ),
{
    if text.is_ascii() {
        let mut out: Vec<u8> = text.as_bytes_vec();
        proof {
            is_ascii_spec_bytes(text);
            assert(out@ =~= text_chars(text@));
        }
        out.push(0u8);
        return Ok(out);
    }
    let n: usize = text.unicode_len();
    let mut out: Vec<u8> = Vec::new();
    let mut i: usize = 0;
    while i < n
        invariant
            i <= n,
            n == text@.len(),
            out@ == text_chars(text@.take(i as int)),
            text_fits(text@.take(i as int)),
        decreases n - i,
    {
        let c: char = text.get_char(i);
        let code: u32 = c as u32;
        if code > 255 {
            return Err(EncodeError::UnsupportedCharacter);
        }
        out.push(code as u8);
        proof {
            assert(out@ =~= text_chars(text@.take(i + 1)));
        }
        i += 1;
    }
    proof {
        assert(text@.take(i as int) =~= text@);
    }
    out.push(0u8);
    Ok(out)
}

/// A constant of the compiled program.
#[derive(Clone, Debug, PartialEq)]
pub enum Literal {
    /// A text constant.
    String(String),
    /// A signed 64-bit integer.
    Integer(i64),
    /// A double-precision number, held as its IEEE-754 bit pattern.
    Single(u64),
}

/// A constant as a mathematical value: its text as a sequence of characters.
pub enum LiteralView {
    String(Seq<char>),
    Integer(i64),
    Single(u64),
}

impl View for Literal {
    type V = LiteralView;

    open spec fn view(&self) -> LiteralView {
        match self {
            Literal::String(s) => LiteralView::String(s@),
            Literal::Integer(i) => LiteralView::Integer(*i),
            Literal::Single(bits) => LiteralView::Single(*bits),
        }
    }
}

impl LiteralView {
    /// The byte that tells the kind of constant.
    pub open spec fn tag(self) -> u8 {
        match self {
            LiteralView::String(_) => 0,
            LiteralView::Integer(_) => 1,
            LiteralView::Single(_) => 2,
        }
    }

    /// Whether the constant can be written: a text must fit one byte per character.
    pub open spec fn fits(self) -> bool {
        match self {
            LiteralView::String(text) => text_fits(text),
            _ => true,
        }
    }

    /// What follows the tag: eight bytes for a number, terminated text for a string.
    pub open spec fn payload(self) -> Seq<u8> {
        match self {
            LiteralView::String(text) => text_bytes(text),
            LiteralView::Integer(i) => be64(twos_complement(i)),
            LiteralView::Single(bits) => be64(bits),
        }
    }

    /// The constant's encoding: the tag, then the payload.
    pub open spec fn encoding(self) -> Seq<u8> {
        seq![self.tag()] + self.payload()
    }
}

impl Literal {
    /// Encodes the constant as its tag byte followed by its payload. Refused
    /// where a text constant holds a character that does not fit in one byte.
    pub fn serialize(&self) -> (r: Result<Vec<u8>, EncodeError>)
        ensures
            self@.fits() ==> r is Ok && r->Ok_0@ == self@.encoding(),
            !self@.fits() ==> r == Err::<Vec<u8>, EncodeError>(
                EncodeError::UnsupportedCharacter,
            ),
    {
        let mut out: Vec<u8> = Vec::new();
        match self {
            Literal::String(s) => {
                out.push(0u8);
                match encode_text(s.as_str()) {
                    Ok(text) => put_bytes(&mut out, &text),
                    Err(e) => {
                        return Err(e);
                    },
                }
            },
            Literal::Integer(i) => {
                out.push(1u8);
                put_u64(&mut out, to_twos_complement(*i));
            },
            Literal::Single(bits) => {
                out.push(2u8);
                put_u64(&mut out, *bits);
            },
        }
        proof {
            assert(out@ =~= self@.encoding());
        }
        Ok(out)
    }
}

} // verus!
