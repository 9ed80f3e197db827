//! The four-letter type code of a chunk and the property bits it carries.

use crate::text::{ascii_string, ascii_text, lemma_ascii_bytes_decode};
use std::str::FromStr;
use vstd::prelude::*;
use vstd::string::StringSliceAdditionalSpecFns;
use vstd::utf8::*;

verus! {

/// The bit of each code byte that carries a property: the lower-case bit.
pub const PROPERTY_BIT: u8 = 0x20;

/// Whether `b` is an ASCII letter, upper or lower case.
pub open spec fn is_ascii_letter(b: u8) -> bool {
    (65 <= b && b <= 90) || (97 <= b && b <= 122)
}

/// Whether `code` holds exactly four ASCII letters.
pub open spec fn valid_code(code: Seq<u8>) -> bool {
    code.len() == 4 && forall|i: int| 0 <= i < 4 ==> is_ascii_letter(#[trigger] code[i])
}

/// The first byte of `code` that is no ASCII letter.
pub open spec fn first_invalid_byte(code: Seq<u8>) -> u8
    recommends
        code.len() == 4,
        !valid_code(code),
{
    if !is_ascii_letter(code[0]) {
        code[0]
    } else if !is_ascii_letter(code[1]) {
        code[1]
    } else if !is_ascii_letter(code[2]) {
        code[2]
    } else {
        code[3]
    }
}

/// Why a chunk type code was refused.
#[derive(Debug, Clone, Copy, PartialEq, Eq, Structural)]
pub enum ChunkTypeError {
    /// The text has this many bytes, not four.
    InvalidLength(usize),
    /// This byte is not an ASCII letter.
    InvalidByte(u8),
}

/// A chunk type code: four ASCII letters.
#[derive(Debug, Clone, Copy, Eq)]
pub struct ChunkType {
    code: [u8; 4],
}

impl View for ChunkType {
    type V = Seq<u8>;

    closed spec fn view(&self) -> Seq<u8> {
        self.code@
    }
}

impl PartialEq for ChunkType {
    fn eq(&self, other: &Self) -> (r: bool) {
        let same = self.code[0] == other.code[0] && self.code[1] == other.code[1]
            && self.code[2] == other.code[2] && self.code[3] == other.code[3];
        proof {
            if same {
                assert(self.code@ =~= other.code@);
            }
        }
        same
    }
}

impl vstd::std_specs::cmp::PartialEqSpecImpl for ChunkType {
    open spec fn obeys_eq_spec() -> bool {
        true
    }

    open spec fn eq_spec(&self, other: &Self) -> bool {
        self@ == other@
    }
}

impl ChunkType {
    /// Every code is four ASCII letters.
    #[verifier::type_invariant]
    pub open spec fn well_formed(self) -> bool {
        valid_code(self@)
    }

    /// The code whose bytes are `code`.
    pub closed spec fn of(code: [u8; 4]) -> ChunkType {
        ChunkType { code }
    }

    /// `of` keeps the four bytes it is given.
    pub proof fn lemma_of_view(code: [u8; 4])
        ensures
            ChunkType::of(code)@ == code@,
    {
    }

    /// Two codes with the same bytes are the same code.
    pub proof fn lemma_view_injective(a: ChunkType, b: ChunkType)
        requires
            a@ == b@,
        ensures
            a == b,
    {
        assert(a.code@ =~= b.code@);
        assert(a.code == b.code);
    }

    /// What checking `code` gives: the code itself where all four bytes are
    /// letters, else the first byte that is none.
    pub open spec fn checked(code: [u8; 4]) -> Result<ChunkType, ChunkTypeError> {
        if valid_code(code@) {
            Ok(ChunkType::of(code))
        } else {
            Err(ChunkTypeError::InvalidByte(first_invalid_byte(code@)))
        }
    }

    /// What reading the bytes of a text as a code gives: a length other
    /// than four is refused first, then the bytes are checked.
    pub open spec fn parsed(bytes: Seq<u8>) -> Result<ChunkType, ChunkTypeError> {
        if bytes.len() != 4 {
            Err(ChunkTypeError::InvalidLength(bytes.len() as usize))
        } else {
            ChunkType::checked([bytes[0], bytes[1], bytes[2], bytes[3]])
        }
    }

    /// The code as text: each byte is one character.
    pub open spec fn text(&self) -> Seq<char> {
        ascii_text(self@)
    }

    /// Whether the property bit of the byte at `position` (1 to 4) is set.
    pub open spec fn property_bit(&self, position: int) -> bool {
        self@[position - 1] & PROPERTY_BIT != 0
    }

    /// A critical chunk: the property bit of the first byte is clear.
    pub open spec fn critical(&self) -> bool {
        !self.property_bit(1)
    }

    /// An ancillary chunk: the property bit of the first byte is set.
    pub open spec fn ancillary(&self) -> bool {
        self.property_bit(1)
    }

    /// A public chunk: the property bit of the second byte is clear.
    pub open spec fn public(&self) -> bool {
        !self.property_bit(2)
    }

    /// A private chunk: the property bit of the second byte is set.
    pub open spec fn private(&self) -> bool {
        self.property_bit(2)
    }

    /// The reserved bit, that of the third byte, is clear.
    pub open spec fn reserved_bit_valid(&self) -> bool {
        !self.property_bit(3)
    }

    /// Safe to copy: the property bit of the fourth byte is set.
    pub open spec fn safe_to_copy(&self) -> bool {
        self.property_bit(4)
    }

    /// The four bytes of the code.
    pub fn bytes(&self) -> (code: [u8; 4])
        ensures
            code@ == self@,
            valid_code(code@),
    {
        proof {
            use_type_invariant(self);
        }
        self.code
    }

    /// Reads a code from a text of four ASCII letters.
    pub fn from_str(s: &str) -> (r: Result<ChunkType, ChunkTypeError>)
        ensures
            r == ChunkType::parsed(s.spec_bytes()),
            r matches Ok(t) ==> t@ == s.spec_bytes() && t.text() == s@,
    {
        let bytes = s.as_bytes();
        if bytes.len() != 4 {
            return Err(ChunkTypeError::InvalidLength(bytes.len()));
        }
        let code: [u8; 4] = [bytes[0], bytes[1], bytes[2], bytes[3]];
        let r = ChunkType::try_from(code);
        proof {
            assert(code@ =~= s.spec_bytes());
            assert(code == [s.spec_bytes()[0], s.spec_bytes()[1], s.spec_bytes()[2], s.spec_bytes()[3]]);
            if r is Ok {
                lemma_ascii_bytes_decode(code@);
                encode_utf8_decode_utf8(s@);
            }
        }
        r
    }

    /// The code as a text of four letters.
    pub fn to_string(&self) -> (s: String)
        ensures
            s@ == self.text(),
    {
        proof {
            use_type_invariant(self);
        }
        ascii_string(self.code.as_slice())
    }

    /// Tests the property bit of the byte at `byte`, counted from 1.
    pub fn is_property_bit_on(&self, byte: usize) -> (on: bool)
        requires
            1 <= byte <= 4,
        ensures
            on == self.property_bit(byte as int),
    {
        self.code[byte - 1] & PROPERTY_BIT != 0
    }

    /// Whether the chunk is critical.
    pub fn is_critical(&self) -> (r: bool)
        ensures
            r == self.critical(),
    {
        !self.is_property_bit_on(1)
    }

    /// Whether the chunk is public.
    pub fn is_public(&self) -> (r: bool)
        ensures
            r == self.public(),
    {
        !self.is_property_bit_on(2)
    }

    /// Whether the reserved bit is clear, as a conforming code has it.
    pub fn is_reserved_bit_valid(&self) -> (r: bool)
        ensures
            r == self.reserved_bit_valid(),
    {
        !self.is_property_bit_on(3)
    }

    /// Whether the chunk is safe to copy.
    pub fn is_safe_to_copy(&self) -> (r: bool)
        ensures
            r == self.safe_to_copy(),
    {
        self.is_property_bit_on(4)
    }

    /// Whether the code conforms: the reserved bit alone decides.
    pub fn is_valid(&self) -> (r: bool)
        ensures
            r == self.reserved_bit_valid(),
    {
        self.is_reserved_bit_valid()
    }
}

impl TryFrom<[u8; 4]> for ChunkType {
    type Error = ChunkTypeError;

    /// Checks that each of the four bytes is an ASCII letter.
    fn try_from(value: [u8; 4]) -> (ret: Result<ChunkType, ChunkTypeError>)
        ensures
            ret == ChunkType::checked(value),
            ret matches Ok(t) ==> t@ == value@,
    {
        let mut i: usize = 0;
        while i < 4
            invariant
                i <= 4,
                forall|j: int| 0 <= j < i ==> is_ascii_letter(#[trigger] value@[j]),
            decreases 4 - i,
        {
            let c: u8 = value[i];
            if !((65 <= c && c <= 90) || (97 <= c && c <= 122)) {
                return Err(ChunkTypeError::InvalidByte(c));
            }
            i = i + 1;
        }
        let code = ChunkType { code: value };
        proof {
            ChunkType::lemma_of_view(value);
            ChunkType::lemma_view_injective(code, ChunkType::of(value));
        }
        Ok(code)
    }
}

impl vstd::std_specs::convert::TryFromSpecImpl<[u8; 4]> for ChunkType {
    open spec fn obeys_try_from_spec() -> bool {
        true
    }

    open spec fn try_from_spec(v: [u8; 4]) -> Result<ChunkType, ChunkTypeError> {
        ChunkType::checked(v)
    }
}

impl FromStr for ChunkType {
    type Err = ChunkTypeError;

    /// Reads a code from a text, as the method of the same name does.
    fn from_str(s: &str) -> (r: Result<ChunkType, ChunkTypeError>)
        ensures
            r == ChunkType::parsed(s.spec_bytes()),
            r matches Ok(t) ==> t@ == s.spec_bytes() && t.text() == s@,
    {
        ChunkType::from_str(s)
    }
}

/// A code made from four ASCII letters reads, as text, as those letters.
pub proof fn lemma_text_round_trip(code: [u8; 4])
    requires
        valid_code(code@),
    ensures
        ChunkType::checked(code) is Ok,
        ChunkType::checked(code)->Ok_0@ == code@,
        ChunkType::checked(code)->Ok_0.text() == ascii_text(code@),
{
    ChunkType::lemma_of_view(code);
}

/// Four bytes of which one, at any place, is no ASCII letter are refused,
/// and the error names the first such byte.
pub proof fn lemma_invalid_byte_refused(code: [u8; 4], at: int)
    requires
        0 <= at < 4,
        !is_ascii_letter(code@[at]),
    ensures
        ChunkType::checked(code) == Err::<ChunkType, ChunkTypeError>(
            ChunkTypeError::InvalidByte(first_invalid_byte(code@)),
        ),
        !is_ascii_letter(first_invalid_byte(code@)),
        exists|i: int|
            0 <= i <= at && code@[i] == first_invalid_byte(code@) && forall|j: int|
                0 <= j < i ==> is_ascii_letter(#[trigger] code@[j]),
{
    let first: int = if !is_ascii_letter(code@[0]) {
        0
    } else if !is_ascii_letter(code@[1]) {
        1
    } else if !is_ascii_letter(code@[2]) {
        2
    } else {
        3
    };
    assert(0 <= first <= at && code@[first] == first_invalid_byte(code@) && forall|j: int|
        0 <= j < first ==> is_ascii_letter(#[trigger] code@[j]));
}

/// Of critical and ancillary exactly one holds, and of public and private
/// exactly one: the property bit of the first byte decides the one, that
/// of the second byte the other.
pub proof fn lemma_exactly_one(chunk_type: ChunkType)
    ensures
        chunk_type.critical() != chunk_type.ancillary(),
        chunk_type.public() != chunk_type.private(),
        chunk_type.ancillary() == (chunk_type@[0] & PROPERTY_BIT != 0),
        chunk_type.private() == (chunk_type@[1] & PROPERTY_BIT != 0),
{
}

} // verus!
