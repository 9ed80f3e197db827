//! A chunk record: length, type code, data and checksum.

use crate::checksum::{checksum, crc32_iso_hdlc};
use crate::chunk_type::{first_invalid_byte, valid_code, ChunkType, ChunkTypeError};
use crate::error::{ChunkError, PngError};
use crate::text::{ascii_string, ascii_text, decimal, push_ascii, push_ascii_bytes, push_decimal};
use crate::wire::{
    be_bytes, be_u32, lemma_be_bytes_of_be_u32, lemma_be_u32_of_be_bytes, read_be_u32, write_be_u32,
};
use vstd::prelude::*;
use vstd::slice::slice_to_vec;
use vstd::utf8::*;

verus! {

/// What a chunk is: its type code and its data. Length and checksum follow
/// from these two.
pub struct ChunkView {
    pub code: Seq<u8>,
    pub data: Seq<u8>,
}

impl ChunkView {
    /// The code is four letters and the length of the data fits in 32 bits.
    pub open spec fn valid(self) -> bool {
        valid_code(self.code) && self.data.len() <= u32::MAX
    }

    /// The number of data bytes.
    pub open spec fn length(self) -> u32 {
        self.data.len() as u32
    }

    /// The checksum over the type code followed by the data.
    pub open spec fn crc(self) -> u32 {
        crc32_iso_hdlc(self.code + self.data)
    }

    /// The number of bytes that the record takes when written.
    pub open spec fn wire_len(self) -> int {
        12 + self.data.len() as int
    }

    /// The record described in a few lines: length, type, size of the data
    /// and checksum.
    pub open spec fn summary(self) -> Seq<char> {
        "Chunk {\n"@ + "  Length: "@ + decimal(self.length() as nat) + "\n"@ + "  Type: "@
            + ascii_text(self.code) + "\n"@ + "  Data: "@ + decimal(self.data.len()) + " bytes\n"@
            + "  Crc: "@ + decimal(self.crc() as nat) + "\n"@ + "}\n"@
    }

    /// The record as it is written: length, code, data, checksum.
    pub open spec fn wire(self) -> Seq<u8> {
        be_bytes(self.length()) + self.code + self.data + be_bytes(self.crc())
    }
}

/// The bytes that frame the data of a record: length, code and checksum.
pub const METADATA_LENGTH: usize = 12;

/// The fields of the record at the start of `bytes`: its type and data,
/// and the checksum that it carries, which is not yet held against them.
/// Bytes after the checksum are not looked at.
pub open spec fn parse_fields(bytes: Seq<u8>) -> Result<(ChunkView, u32), PngError> {
    if bytes.len() < 4 {
        Err(PngError::Chunk(ChunkError::NoDataLengthProvided))
    } else if bytes.len() < 8 {
        Err(PngError::Chunk(ChunkError::NoChunkTypeProvided))
    } else {
        let length = be_u32(bytes.subrange(0, 4));
        let code = bytes.subrange(4, 8);
        let left = bytes.len() - 8;
        if !valid_code(code) {
            Err(PngError::ChunkType(ChunkTypeError::InvalidByte(first_invalid_byte(code))))
        } else if left < length {
            Err(PngError::Chunk(ChunkError::NonMatchingDataLength(length as usize, left as usize)))
        } else if left - length < 4 {
            Err(PngError::Chunk(ChunkError::NoCrcProvided))
        } else {
            Ok(
                (
                    ChunkView { code, data: bytes.subrange(8, 8 + length) },
                    be_u32(bytes.subrange(8 + length, 12 + length)),
                ),
            )
        }
    }
}

/// A record is accepted where the checksum it carries is the one that its
/// type and data give; the error names the two, the carried one first.
pub open spec fn checked_crc(provided: u32, actual: u32) -> Result<(), PngError> {
    if provided == actual {
        Ok(())
    } else {
        Err(PngError::Chunk(ChunkError::InvalidCrc(provided, actual)))
    }
}

/// What reading one record from the start of `bytes` gives: its fields,
/// where the checksum among them is that of the type and data.
pub open spec fn parse_chunk(bytes: Seq<u8>) -> Result<ChunkView, PngError> {
    match parse_fields(bytes) {
        Err(e) => Err(e),
        Ok((view, crc)) => match checked_crc(crc, view.crc()) {
            Err(e) => Err(e),
            Ok(_) => Ok(view),
        },
    }
}

/// A chunk record whose length and checksum agree with its type and data.
#[derive(Debug)]
pub struct Chunk {
    length: u32,
    chunk_type: ChunkType,
    data: Vec<u8>,
    crc: u32,
}

impl View for Chunk {
    type V = ChunkView;

    closed spec fn view(&self) -> ChunkView {
        ChunkView { code: self.chunk_type@, data: self.data@ }
    }
}

impl Chunk {
    /// The length that the record stores.
    pub closed spec fn stored_length(self) -> u32 {
        self.length
    }

    /// The checksum that the record stores.
    pub closed spec fn stored_crc(self) -> u32 {
        self.crc
    }

    /// Every record is valid, and stores the length of its data and the
    /// checksum of its type and data.
    #[verifier::type_invariant]
    pub open spec fn well_formed(self) -> bool {
        &&& self@.valid()
        &&& self.stored_length() == self@.length()
        &&& self.stored_crc() == self@.crc()
    }

    /// A record of `data` under `chunk_type`, with its length and checksum.
    pub fn new(chunk_type: ChunkType, data: Vec<u8>) -> (chunk: Chunk)
        requires
            data@.len() <= u32::MAX,
        ensures
            chunk@ == (ChunkView { code: chunk_type@, data: data@ }),
            chunk@.valid(),
    {
        let length = data.len() as u32;
        let crc = Chunk::calculate_crc(&chunk_type, data.as_slice());
        proof {
            use_type_invariant(&chunk_type);
        }
        Chunk { length, chunk_type, data, crc }
    }

    /// The checksum over the bytes of `chunk_type` followed by `data`.
    pub fn calculate_crc(chunk_type: &ChunkType, data: &[u8]) -> (crc: u32)
        ensures
            crc == crc32_iso_hdlc(chunk_type@ + data@),
    {
        let code = chunk_type.bytes();
        let mut covered: Vec<u8> = Vec::new();
        covered.extend_from_slice(code.as_slice());
        covered.extend_from_slice(data);
        assert(covered@ =~= chunk_type@ + data@);
        checksum(covered.as_slice())
    }

    /// Reads the fields of the record at the start of `bytes`: the type,
    /// the data, and the checksum that the record carries.
    pub fn read_fields(bytes: &[u8]) -> (fields: Result<(ChunkType, Vec<u8>, u32), PngError>)
        ensures
            match fields {
                Ok((chunk_type, data, crc)) => parse_fields(bytes@) == Ok::<
                    (ChunkView, u32),
                    PngError,
                >((ChunkView { code: chunk_type@, data: data@ }, crc)),
                Err(e) => parse_fields(bytes@) == Err::<(ChunkView, u32), PngError>(e),
            },
    {
        if bytes.len() < 4 {
            return Err(PngError::Chunk(ChunkError::NoDataLengthProvided));
        }
        let length = read_be_u32(bytes, 0);
        if bytes.len() < 8 {
            return Err(PngError::Chunk(ChunkError::NoChunkTypeProvided));
        }
        let code: [u8; 4] = [bytes[4], bytes[5], bytes[6], bytes[7]];
        assert(code@ =~= bytes@.subrange(4, 8));
        let chunk_type = match ChunkType::try_from(code) {
            Ok(chunk_type) => chunk_type,
            Err(e) => {
                return Err(PngError::ChunkType(e));
            },
        };
        let left = bytes.len() - 8;
        if left < length as usize {
            return Err(PngError::Chunk(ChunkError::NonMatchingDataLength(length as usize, left)));
        }
        if left - (length as usize) < 4 {
            return Err(PngError::Chunk(ChunkError::NoCrcProvided));
        }
        let data_end = 8 + length as usize;
        let data = slice_to_vec(&bytes[8..data_end]);
        let crc = read_be_u32(bytes, data_end);
        Ok((chunk_type, data, crc))
    }

    /// Holds the checksum that a record carries against the one that its
    /// type and data give.
    pub fn check_crc(provided: u32, actual: u32) -> (checked: Result<(), PngError>)
        ensures
            checked == checked_crc(provided, actual),
    {
        if provided != actual {
            return Err(PngError::Chunk(ChunkError::InvalidCrc(provided, actual)));
        }
        Ok(())
    }

    /// The number of data bytes.
    pub fn length(&self) -> (length: u32)
        ensures
            length == self@.length(),
            length == self@.data.len(),
    {
        proof {
            use_type_invariant(self);
        }
        self.length
    }

    /// The type code.
    pub fn chunk_type(&self) -> (chunk_type: &ChunkType)
        ensures
            chunk_type@ == self@.code,
    {
        &self.chunk_type
    }

    /// The data bytes.
    pub fn data(&self) -> (data: &[u8])
        ensures
            data@ == self@.data,
    {
        self.data.as_slice()
    }

    /// The checksum over type code and data.
    pub fn crc(&self) -> (crc: u32)
        ensures
            crc == self@.crc(),
    {
        proof {
            use_type_invariant(self);
        }
        self.crc
    }

    /// The record as it is written: length, code, data, checksum.
    pub fn as_bytes(&self) -> (bytes: Vec<u8>)
        ensures
            bytes@ == self@.wire(),
    {
        proof {
            use_type_invariant(self);
        }
        let code = self.chunk_type.bytes();
        let mut bytes: Vec<u8> = Vec::new();
        write_be_u32(&mut bytes, self.length);
        bytes.extend_from_slice(code.as_slice());
        bytes.extend_from_slice(self.data.as_slice());
        write_be_u32(&mut bytes, self.crc);
        assert(bytes@ =~= self@.wire());
        bytes
    }

    /// The record described in a few lines.
    pub fn to_string(&self) -> (s: String)
        ensures
            s@ == self@.summary(),
    {
        proof {
            use_type_invariant(self);
            use_type_invariant(&self.chunk_type);
            reveal_strlit("Chunk {\n");
            reveal_strlit("  Length: ");
            reveal_strlit("\n");
            reveal_strlit("  Type: ");
            reveal_strlit("  Data: ");
            reveal_strlit(" bytes\n");
            reveal_strlit("  Crc: ");
            reveal_strlit("}\n");
        }
        let code = self.chunk_type.bytes();
        let mut out: Vec<u8> = Vec::new();
        assert(ascii_text(out@) =~= Seq::<char>::empty());
        push_ascii(&mut out, "Chunk {\n");
        push_ascii(&mut out, "  Length: ");
        push_decimal(&mut out, self.length as u64);
        push_ascii(&mut out, "\n");
        push_ascii(&mut out, "  Type: ");
        push_ascii_bytes(&mut out, code.as_slice());
        push_ascii(&mut out, "\n");
        push_ascii(&mut out, "  Data: ");
        push_decimal(&mut out, self.data.len() as u64);
        push_ascii(&mut out, " bytes\n");
        push_ascii(&mut out, "  Crc: ");
        push_decimal(&mut out, self.crc as u64);
        push_ascii(&mut out, "\n");
        push_ascii(&mut out, "}\n");
        assert(ascii_text(out@) =~= self@.summary());
        ascii_string(out.as_slice())
    }

    /// The data read as UTF-8 text.
    pub fn data_as_string(&self) -> (text: Result<String, PngError>)
        ensures
            match text {
                Ok(s) => valid_utf8(self@.data) && s@ == decode_utf8(self@.data),
                Err(e) => !valid_utf8(self@.data) && e == PngError::InvalidUtf8,
            },
    {
        match core::str::from_utf8(self.data.as_slice()) {
            Ok(s) => {
                proof {
                    encode_utf8_decode_utf8(s@);
                }
                Ok(s.to_owned())
            },
            Err(_) => Err(PngError::InvalidUtf8),
        }
    }
}

impl<'a> TryFrom<&'a [u8]> for Chunk {
    type Error = PngError;

    /// Reads one record from the start of `value`: length, type code, data,
    /// then the checksum, which must be the one that type and data give.
    fn try_from(value: &'a [u8]) -> (ret: Result<Chunk, PngError>)
        ensures
            match ret {
                Ok(chunk) => parse_chunk(value@) == Ok::<ChunkView, PngError>(chunk@)
                    && chunk@.valid(),
                Err(e) => parse_chunk(value@) == Err::<ChunkView, PngError>(e),
            },
    {
        let (chunk_type, data, crc) = match Chunk::read_fields(value) {
            Ok(fields) => fields,
            Err(e) => {
                return Err(e);
            },
        };
        let actual_crc = Chunk::calculate_crc(&chunk_type, data.as_slice());
        match Chunk::check_crc(crc, actual_crc) {
            Ok(_) => {
                proof {
                    use_type_invariant(&chunk_type);
                }
                Ok(Chunk { length: data.len() as u32, chunk_type, data, crc })
            },
            Err(e) => Err(e),
        }
    }
}

/// A record owns a `Vec`, which no spec function can build, so `try_from`
/// states what it returns itself, over views, and there is no `try_from_spec`
/// to obey.
impl<'a> vstd::std_specs::convert::TryFromSpecImpl<&'a [u8]> for Chunk {
    open spec fn obeys_try_from_spec() -> bool {
        false
    }

    open spec fn try_from_spec(v: &'a [u8]) -> Result<Chunk, PngError> {
        arbitrary()
    }
}

/// The bytes of a record of a given type and data, carrying `crc` as its
/// checksum, whether or not that is the right one.
pub open spec fn framed(code: Seq<u8>, data: Seq<u8>, crc: u32) -> Seq<u8> {
    be_bytes(data.len() as u32) + code + data + be_bytes(crc)
}

/// Reading `framed(code, data, crc)`, whatever follows it, finds the length,
/// the code, the data and the checksum that went into it.
proof fn lemma_framed_fields(code: Seq<u8>, data: Seq<u8>, crc: u32, rest: Seq<u8>)
    requires
        code.len() == 4,
        data.len() <= u32::MAX,
    ensures
        ({
            let bytes = framed(code, data, crc) + rest;
            let n = data.len() as int;
            &&& bytes.len() == 12 + n + rest.len()
            &&& be_u32(bytes.subrange(0, 4)) == n
            &&& bytes.subrange(4, 8) == code
            &&& bytes.subrange(8, 8 + n) == data
            &&& be_u32(bytes.subrange(8 + n, 12 + n)) == crc
            &&& bytes.subrange(0, 12 + n) == framed(code, data, crc)
        }),
{
    let bytes = framed(code, data, crc) + rest;
    let n = data.len() as int;
    lemma_be_u32_of_be_bytes(n as u32);
    lemma_be_u32_of_be_bytes(crc);
    assert(bytes.subrange(0, 4) =~= be_bytes(n as u32));
    assert(bytes.subrange(4, 8) =~= code);
    assert(bytes.subrange(8, 8 + n) =~= data);
    assert(bytes.subrange(8 + n, 12 + n) =~= be_bytes(crc));
    assert(bytes.subrange(0, 12 + n) =~= framed(code, data, crc));
}

/// A written record takes twelve bytes more than its data.
pub proof fn lemma_wire_len(view: ChunkView)
    requires
        view.code.len() == 4,
    ensures
        view.wire().len() == view.wire_len(),
{
    lemma_be_u32_of_be_bytes(view.length());
    lemma_be_u32_of_be_bytes(view.crc());
}

/// Writing a record and reading it back gives the record: same type, data,
/// length and checksum. Bytes that follow the record do not matter.
pub proof fn lemma_parse_wire(view: ChunkView, rest: Seq<u8>)
    requires
        view.valid(),
    ensures
        parse_chunk(view.wire() + rest) == Ok::<ChunkView, PngError>(view),
{
    lemma_framed_fields(view.code, view.data, view.crc(), rest);
    assert(view.wire() == framed(view.code, view.data, view.crc()));
    let bytes = view.wire() + rest;
    let parsed = ChunkView { code: bytes.subrange(4, 8), data: bytes.subrange(8, 8 + view.data.len() as int) };
    assert(parsed == view);
}

/// A record that was read is valid, and writing it gives back the bytes it
/// was read from: the first `12 + length` of the input.
pub proof fn lemma_wire_of_parsed(bytes: Seq<u8>)
    requires
        parse_chunk(bytes) is Ok,
    ensures
        ({
            let view = parse_chunk(bytes)->Ok_0;
            &&& view.valid()
            &&& 12 + view.data.len() <= bytes.len()
            &&& view.wire() == bytes.subrange(0, 12 + view.data.len() as int)
        }),
{
    let view = parse_chunk(bytes)->Ok_0;
    let n = view.data.len() as int;
    lemma_be_bytes_of_be_u32(bytes.subrange(0, 4));
    lemma_be_bytes_of_be_u32(bytes.subrange(8 + n, 12 + n));
    assert(n == be_u32(bytes.subrange(0, 4)));
    assert(view.wire() =~= bytes.subrange(0, 12 + n));
}

/// A record whose type or data were changed after the checksum was taken
/// is refused, wherever the checksum of what it now holds differs from the
/// one it carries. The error names both checksums.
pub proof fn lemma_changed_record_refused(code: Seq<u8>, data: Seq<u8>, crc: u32, rest: Seq<u8>)
    requires
        valid_code(code),
        data.len() <= u32::MAX,
        crc32_iso_hdlc(code + data) != crc,
    ensures
        parse_chunk(framed(code, data, crc) + rest) == Err::<ChunkView, PngError>(
            PngError::Chunk(ChunkError::InvalidCrc(crc, crc32_iso_hdlc(code + data))),
        ),
{
    lemma_framed_fields(code, data, crc, rest);
}

} // verus!
