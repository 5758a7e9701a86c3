//! The four-byte code that says what a chunk is for.

use crate::error::Error;
use crate::text::push_char;
use std::cmp::Ordering;
use vstd::prelude::*;
use vstd::std_specs::cmp::{PartialEqSpecImpl, PartialOrdSpecImpl};
use vstd::std_specs::convert::TryFromSpecImpl;
use vstd::string::is_ascii_spec_bytes;

verus! {

/// `b` is an ASCII letter, `A` to `Z` or `a` to `z`.
pub open spec fn is_letter(b: u8) -> bool {
    (0x41 <= b <= 0x5a) || (0x61 <= b <= 0x7a)
}

/// Bit 5 of `b`, the bit that tells a lower case letter from an upper case one.
pub open spec fn bit5(b: u8) -> bool {
    b & 0x20 != 0
}

/// The text of a code: each byte read as the character with that number.
pub open spec fn type_text(code: Seq<u8>) -> Seq<char> {
    Seq::new(code.len(), |i: int| code[i] as char)
}

/// The code that reads `text`: each character taken as the byte with its number.
pub open spec fn type_code_of(text: Seq<char>) -> Seq<u8> {
    Seq::new(text.len(), |i: int| text[i] as u8)
}

/// `c` is an ASCII letter.
pub open spec fn is_letter_char(c: char) -> bool {
    (0x41 <= c as int <= 0x5a) || (0x61 <= c as int <= 0x7a)
}

/// `text` can be the text of a chunk type: four characters, all ASCII letters.
pub open spec fn is_type_text(text: Seq<char>) -> bool {
    &&& text.len() == 4
    &&& forall|i: int| 0 <= i < 4 ==> is_letter_char(#[trigger] text[i])
}

/// A chunk type code: four bytes, by convention ASCII letters.
#[derive(Debug, Clone, Copy, Eq, Ord)]
pub struct ChunkType {
    bytes: [u8; 4],
}

impl View for ChunkType {
    type V = Seq<u8>;

    /// The four bytes of the code, in wire order.
    closed spec fn view(&self) -> Seq<u8> {
        self.bytes@
    }
}

impl PartialEq for ChunkType {
    /// Two codes are equal when their bytes are.
    fn eq(&self, other: &ChunkType) -> (same: bool) {
        let same = self.bytes[0] == other.bytes[0] && self.bytes[1] == other.bytes[1]
            && self.bytes[2] == other.bytes[2] && self.bytes[3] == other.bytes[3];
        proof {
            if same {
                assert(self@ =~= other@);
            } else {
                assert(self@[0] != other@[0] || self@[1] != other@[1] || self@[2] != other@[2]
                    || self@[3] != other@[3]);
            }
        }
        same
    }
}

impl PartialEqSpecImpl for ChunkType {
    open spec fn obeys_eq_spec() -> bool {
        true
    }

    open spec fn eq_spec(&self, other: &ChunkType) -> bool {
        self@ == other@
    }
}

/// How one code stands to another: the first byte in which they differ decides.
pub open spec fn code_order(a: Seq<u8>, b: Seq<u8>) -> Ordering
    recommends
        a.len() == 4,
        b.len() == 4,
{
    if a[0] != b[0] {
        byte_order(a[0], b[0])
    } else if a[1] != b[1] {
        byte_order(a[1], b[1])
    } else if a[2] != b[2] {
        byte_order(a[2], b[2])
    } else {
        byte_order(a[3], b[3])
    }
}

/// How one byte stands to another.
pub open spec fn byte_order(a: u8, b: u8) -> Ordering {
    if a < b {
        Ordering::Less
    } else if a > b {
        Ordering::Greater
    } else {
        Ordering::Equal
    }
}

/// How one byte stands to another.
fn order_of_bytes(a: u8, b: u8) -> (order: Ordering)
    ensures
        order == byte_order(a, b),
{
    if a < b {
        Ordering::Less
    } else if a > b {
        Ordering::Greater
    } else {
        Ordering::Equal
    }
}

impl PartialOrd for ChunkType {
    /// Codes are ordered as their bytes are, the first that differs deciding.
    fn partial_cmp(&self, other: &ChunkType) -> (order: Option<Ordering>) {
        if self.bytes[0] != other.bytes[0] {
            Some(order_of_bytes(self.bytes[0], other.bytes[0]))
        } else if self.bytes[1] != other.bytes[1] {
            Some(order_of_bytes(self.bytes[1], other.bytes[1]))
        } else if self.bytes[2] != other.bytes[2] {
            Some(order_of_bytes(self.bytes[2], other.bytes[2]))
        } else {
            Some(order_of_bytes(self.bytes[3], other.bytes[3]))
        }
    }
}

impl PartialOrdSpecImpl for ChunkType {
    open spec fn obeys_partial_cmp_spec() -> bool {
        true
    }

    open spec fn partial_cmp_spec(&self, other: &ChunkType) -> Option<Ordering> {
        Some(code_order(self@, other@))
    }
}

impl TryFromSpecImpl<[u8; 4]> for ChunkType {
    open spec fn obeys_try_from_spec() -> bool {
        true
    }

    closed spec fn try_from_spec(bytes: [u8; 4]) -> Result<ChunkType, Error> {
        Ok(ChunkType { bytes })
    }
}

impl TryFrom<[u8; 4]> for ChunkType {
    type Error = Error;

    /// Takes any four bytes as a code; whether they are letters is a question
    /// for `is_valid`.
    fn try_from(bytes: [u8; 4]) -> (r: Result<ChunkType, Error>)
        ensures
            r matches Ok(t) && t@ == bytes@,
    {
        Ok(ChunkType { bytes })
    }
}

/// Whether `b` is an ASCII letter.
fn byte_is_letter(b: u8) -> (yes: bool)
    ensures
        yes == is_letter(b),
{
    (0x41 <= b && b <= 0x5a) || (0x61 <= b && b <= 0x7a)
}

/// Whether bit 5 of `b` is set.
fn byte_has_bit5(b: u8) -> (yes: bool)
    ensures
        yes == bit5(b),
{
    b & 0x20 != 0
}

impl ChunkType {
    /// A code always has four bytes.
    pub proof fn lemma_len(self)
        ensures
            self@.len() == 4,
    {
    }

    /// Reads a code from its text: exactly four ASCII letters, and nothing else.
    pub fn from_str(s: &str) -> (r: Result<ChunkType, Error>)
        ensures
            match r {
                Ok(t) => is_type_text(s@) && t@ == type_code_of(s@) && type_text(t@) == s@,
                Err(e) => !is_type_text(s@) && e == Error::BadChunkType,
            },
    {
        if !s.is_ascii() {
            return Err(Error::BadChunkType);
        }
        proof {
            is_ascii_spec_bytes(s);
        }
        let raw: &[u8] = s.as_bytes();
        if raw.len() != 4 {
            return Err(Error::BadChunkType);
        }
        let bytes: [u8; 4] = [raw[0], raw[1], raw[2], raw[3]];
        if !(byte_is_letter(bytes[0]) && byte_is_letter(bytes[1]) && byte_is_letter(bytes[2])
            && byte_is_letter(bytes[3])) {
            return Err(Error::BadChunkType);
        }
        assert(type_text(bytes@) =~= s@);
        assert(bytes@ =~= type_code_of(s@));
        Ok(ChunkType { bytes })
    }

    /// The four bytes of the code.
    pub fn bytes(&self) -> (b: [u8; 4])
        ensures
            b@ == self@,
    {
        self.bytes
    }

    /// Every byte is an ASCII letter and the reserved bit is clear.
    pub open spec fn spec_is_valid(&self) -> bool {
        &&& forall|i: int| 0 <= i < 4 ==> is_letter(#[trigger] self@[i])
        &&& !bit5(self@[2])
    }

    /// Whether the code is one that a conforming file may hold: four ASCII
    /// letters, the third of them upper case.
    pub fn is_valid(&self) -> (valid: bool)
        ensures
            valid == self.spec_is_valid(),
    {
        byte_is_letter(self.bytes[0]) && byte_is_letter(self.bytes[1]) && byte_is_letter(
            self.bytes[2],
        ) && byte_is_letter(self.bytes[3]) && self.is_reserved_bit_valid()
    }

    /// Whether a decoder must understand the chunk: bit 5 of the first byte is clear.
    pub fn is_critical(&self) -> (critical: bool)
        ensures
            critical == !bit5(self@[0]),
    {
        !byte_has_bit5(self.bytes[0])
    }

    /// Whether the type is one of the public ones: bit 5 of the second byte is clear.
    pub fn is_public(&self) -> (public: bool)
        ensures
            public == !bit5(self@[1]),
    {
        !byte_has_bit5(self.bytes[1])
    }

    /// Whether the reserved bit, bit 5 of the third byte, is clear as it must be.
    pub fn is_reserved_bit_valid(&self) -> (valid: bool)
        ensures
            valid == !bit5(self@[2]),
    {
        !byte_has_bit5(self.bytes[2])
    }

    /// Whether an editor that does not know the chunk may copy it: bit 5 of
    /// the fourth byte is set.
    pub fn is_safe_to_copy(&self) -> (safe: bool)
        ensures
            safe == bit5(self@[3]),
    {
        byte_has_bit5(self.bytes[3])
    }

    /// The code as text, one character for each byte.
    pub fn to_string(&self) -> (text: String)
        ensures
            text@ == type_text(self@),
    {
        let mut text = String::new();
        push_char(&mut text, self.bytes[0] as char);
        push_char(&mut text, self.bytes[1] as char);
        push_char(&mut text, self.bytes[2] as char);
        push_char(&mut text, self.bytes[3] as char);
        assert(text@ =~= type_text(self@));
        text
    }
}

/// For a letter, bit 5 is the case: set in lower case, clear in upper case.
pub proof fn lemma_bit5_is_case(b: u8)
    requires
        is_letter(b),
    ensures
        bit5(b) <==> 0x61 <= b <= 0x7a,
{
    assert(is_letter(b) ==> (bit5(b) <==> 0x61 <= b <= 0x7a)) by (bit_vector);
}

/// Two codes stand level exactly when they are the same code.
pub proof fn lemma_level_is_same(a: Seq<u8>, b: Seq<u8>)
    requires
        a.len() == 4,
        b.len() == 4,
    ensures
        code_order(a, b) == Ordering::Equal <==> a == b,
{
    if a[0] == b[0] && a[1] == b[1] && a[2] == b[2] && a[3] == b[3] {
        assert(a =~= b);
    }
}

/// The text of a code tells the code: different codes have different texts.
pub proof fn lemma_type_text_injective(a: Seq<u8>, b: Seq<u8>)
    requires
        type_text(a) == type_text(b),
    ensures
        a == b,
{
    assert(a.len() == type_text(a).len());
    assert(b.len() == type_text(b).len());
    assert forall|i: int| 0 <= i < a.len() implies a[i] == b[i] by {
        assert(type_text(a)[i] == a[i] as char);
        assert(type_text(b)[i] == b[i] as char);
    }
    assert(a =~= b);
}

} // verus!
