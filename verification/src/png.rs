//! The document: the PNG signature followed by chunk records in order.

use crate::chunk::{
    lemma_parse_wire, lemma_wire_len, lemma_wire_of_parsed, parse_chunk, Chunk, ChunkView,
    METADATA_LENGTH,
};
use crate::error::PngError;
use crate::text::{
    ascii_string, ascii_text, is_ascii_bytes, lemma_ascii_bytes_decode, push_ascii, push_ascii_bytes,
};
use vstd::prelude::*;
use vstd::utf8::*;

verus! {

/// The eight bytes that every PNG file starts with.
pub const STANDARD_HEADER: [u8; 8] = [137, 80, 78, 71, 13, 10, 26, 10];

/// Every record is valid.
pub open spec fn all_valid(chunks: Seq<ChunkView>) -> bool {
    forall|i: int| 0 <= i < chunks.len() ==> (#[trigger] chunks[i]).valid()
}

/// The records of `chunks` as they are written, one after the other.
pub open spec fn chunks_wire(chunks: Seq<ChunkView>) -> Seq<u8>
    decreases chunks.len(),
{
    if chunks.len() == 0 {
        Seq::empty()
    } else {
        chunks.first().wire() + chunks_wire(chunks.drop_first())
    }
}

/// The document as it is written: the signature, then the records.
pub open spec fn png_wire(chunks: Seq<ChunkView>) -> Seq<u8> {
    STANDARD_HEADER@ + chunks_wire(chunks)
}

/// What reading records from `bytes` until none are left gives. The next
/// record starts where the last one ended, `12 + length` bytes on; bytes
/// that are left over and form no whole record are refused.
pub open spec fn parse_chunks(bytes: Seq<u8>) -> Result<Seq<ChunkView>, PngError>
    decreases bytes.len(),
{
    if bytes.len() == 0 {
        Ok(Seq::empty())
    } else {
        match parse_chunk(bytes) {
            Err(e) => Err(e),
            Ok(first) => match parse_chunks(bytes.skip(first.wire_len())) {
                Err(e) => Err(e),
                Ok(rest) => Ok(seq![first] + rest),
            },
        }
    }
}

/// What reading a document from `bytes` gives: the signature comes first,
/// then the records.
pub open spec fn parse_png(bytes: Seq<u8>) -> Result<Seq<ChunkView>, PngError> {
    if bytes.len() < 8 || bytes.subrange(0, 8) != STANDARD_HEADER@ {
        Err(PngError::InvalidSignature)
    } else {
        parse_chunks(bytes.skip(8))
    }
}

/// `head` in front of the records that `tail` holds, or the error of `tail`.
spec fn prepend(head: Seq<ChunkView>, tail: Result<Seq<ChunkView>, PngError>) -> Result<
    Seq<ChunkView>,
    PngError,
> {
    match tail {
        Ok(rest) => Ok(head + rest),
        Err(e) => Err(e),
    }
}

/// Whether the type code of `chunk`, read as text, is `code`.
pub open spec fn has_code(chunk: ChunkView, code: Seq<char>) -> bool {
    ascii_text(chunk.code) == code
}

/// The place of the first record of `chunks` whose type code is `code`,
/// or the length of `chunks` where there is none.
pub open spec fn first_match(chunks: Seq<ChunkView>, code: Seq<char>) -> int
    decreases chunks.len(),
{
    if chunks.len() == 0 {
        0
    } else if has_code(chunks.first(), code) {
        0
    } else {
        1 + first_match(chunks.drop_first(), code)
    }
}

/// The type codes of `chunks` in order, one to a line.
pub open spec fn listing(chunks: Seq<ChunkView>) -> Seq<char>
    decreases chunks.len(),
{
    if chunks.len() == 0 {
        Seq::empty()
    } else {
        listing(chunks.drop_last()) + ascii_text(chunks.last().code) + "\n"@
    }
}

/// A PNG document: its chunk records in the order of the file.
#[derive(Debug)]
pub struct Png {
    chunks: Vec<Chunk>,
}

impl View for Png {
    type V = Seq<ChunkView>;

    closed spec fn view(&self) -> Seq<ChunkView> {
        self.chunks@.map_values(|c: Chunk| c@)
    }
}

impl Png {
    /// The document that holds `chunks` in this order.
    pub fn from_chunks(chunks: Vec<Chunk>) -> (png: Png)
        ensures
            png@ == chunks@.map_values(|c: Chunk| c@),
    {
        Png { chunks }
    }

    /// Puts `chunk` behind the records that the document holds.
    pub fn append_chunk(&mut self, chunk: Chunk)
        ensures
            final(self)@ == old(self)@.push(chunk@),
    {
        self.chunks.push(chunk);
        proof {
            assert(self@ =~= old(self)@.push(chunk@));
        }
    }

    /// Whether the type code of `chunk`, as text, is `code`.
    fn chunk_has_code(chunk: &Chunk, code: &str) -> (same: bool)
        ensures
            same == has_code(chunk@, code@),
    {
        let wanted = code.as_bytes();
        let chunk_type = chunk.chunk_type();
        let held = chunk_type.bytes();
        proof {
            use_type_invariant(chunk_type);
            lemma_ascii_bytes_decode(held@);
            encode_utf8_decode_utf8(code@);
        }
        if wanted.len() != 4 {
            return false;
        }
        let same = wanted[0] == held[0] && wanted[1] == held[1] && wanted[2] == held[2]
            && wanted[3] == held[3];
        proof {
            if same {
                assert(wanted@ =~= held@);
            }
        }
        same
    }

    /// The place of the first record whose type code is `code`.
    fn position(&self, code: &str) -> (at: usize)
        ensures
            at == first_match(self@, code@),
            at <= self@.len(),
    {
        let mut at: usize = 0;
        while at < self.chunks.len()
            invariant
                at <= self.chunks@.len(),
                forall|i: int| 0 <= i < at ==> !has_code(#[trigger] self@[i], code@),
            decreases self.chunks@.len() - at,
        {
            if Png::chunk_has_code(&self.chunks[at], code) {
                proof {
                    lemma_first_match_is(self@, code@, at as int);
                }
                return at;
            }
            at = at + 1;
        }
        proof {
            lemma_first_match_is(self@, code@, at as int);
        }
        at
    }

    /// The first record whose type code is `code`, if there is one.
    pub fn chunk_by_type(&self, code: &str) -> (found: Option<&Chunk>)
        ensures
            match found {
                Some(chunk) => first_match(self@, code@) < self@.len() && chunk@
                    == self@[first_match(self@, code@)],
                None => first_match(self@, code@) == self@.len(),
            },
    {
        let at = self.position(code);
        if at < self.chunks.len() {
            Some(&self.chunks[at])
        } else {
            None
        }
    }

    /// Takes the first record whose type code is `code` out of the document
    /// and hands it over; the others keep their order. Where no record has
    /// the code, the document stays as it is.
    pub fn remove_chunk(&mut self, code: &str) -> (removed: Result<Chunk, PngError>)
        ensures
            match removed {
                Ok(chunk) => {
                    let at = first_match(old(self)@, code@);
                    &&& at < old(self)@.len()
                    &&& chunk@ == old(self)@[at]
                    &&& final(self)@ == old(self)@.remove(at)
                },
                Err(e) => {
                    &&& first_match(old(self)@, code@) == old(self)@.len()
                    &&& final(self)@ == old(self)@
                    &&& e matches PngError::ChunkNotFound(wanted)
                    &&& wanted@ == code@
                },
            },
    {
        let at = self.position(code);
        if at < self.chunks.len() {
            let chunk = self.chunks.remove(at);
            proof {
                assert(self@ =~= old(self)@.remove(at as int));
            }
            Ok(chunk)
        } else {
            Err(PngError::ChunkNotFound(code.to_owned()))
        }
    }

    /// The document as it is written: the signature, then each record.
    pub fn as_bytes(&self) -> (bytes: Vec<u8>)
        ensures
            bytes@ == png_wire(self@),
            all_valid(self@),
    {
        let mut bytes: Vec<u8> = Vec::new();
        bytes.extend_from_slice(STANDARD_HEADER.as_slice());
        let mut i: usize = 0;
        while i < self.chunks.len()
            invariant
                i <= self.chunks@.len(),
                bytes@ == png_wire(self@.take(i as int)),
                forall|j: int| 0 <= j < i ==> (#[trigger] self@[j]).valid(),
            decreases self.chunks@.len() - i,
        {
            let chunk = &self.chunks[i];
            let record = chunk.as_bytes();
            bytes.extend_from_slice(record.as_slice());
            proof {
                use_type_invariant(chunk);
                lemma_chunks_wire_push(self@.take(i as int), chunk@);
                assert(self@.take(i as int).push(chunk@) =~= self@.take(i + 1));
            }
            i = i + 1;
        }
        proof {
            assert(self@.take(i as int) =~= self@);
        }
        bytes
    }

    /// The type codes of the records in order, one to a line.
    pub fn to_string(&self) -> (s: String)
        ensures
            s@ == listing(self@),
    {
        let mut out: Vec<u8> = Vec::new();
        assert(ascii_text(out@) =~= Seq::<char>::empty());
        let mut i: usize = 0;
        while i < self.chunks.len()
            invariant
                i <= self.chunks@.len(),
                is_ascii_bytes(out@),
                ascii_text(out@) == listing(self@.take(i as int)),
            decreases self.chunks@.len() - i,
        {
            let chunk_type = self.chunks[i].chunk_type();
            let code = chunk_type.bytes();
            proof {
                use_type_invariant(chunk_type);
                reveal_strlit("\n");
                let next = self@.take(i + 1);
                assert(next.drop_last() =~= self@.take(i as int));
                assert(next.last() == self@[i as int]);
            }
            push_ascii_bytes(&mut out, code.as_slice());
            push_ascii(&mut out, "\n");
            i = i + 1;
        }
        proof {
            assert(self@.take(i as int) =~= self@);
        }
        ascii_string(out.as_slice())
    }

    /// The signature that the document is written with.
    pub fn header(&self) -> (header: &[u8; 8])
        ensures
            header@ == STANDARD_HEADER@,
    {
        &STANDARD_HEADER
    }

    /// The records of the document, in order.
    pub fn chunks(&self) -> (chunks: &[Chunk])
        ensures
            chunks@.map_values(|c: Chunk| c@) == self@,
    {
        self.chunks.as_slice()
    }
}

/// Whether `bytes` starts with the PNG signature.
fn has_signature(bytes: &[u8]) -> (has: bool)
    ensures
        has == (bytes@.len() >= 8 && bytes@.subrange(0, 8) == STANDARD_HEADER@),
{
    if bytes.len() < 8 {
        return false;
    }
    let mut i: usize = 0;
    while i < 8
        invariant
            i <= 8 <= bytes@.len(),
            forall|j: int| 0 <= j < i ==> bytes@[j] == #[trigger] STANDARD_HEADER@[j],
        decreases 8 - i,
    {
        if bytes[i] != STANDARD_HEADER[i] {
            proof {
                assert(bytes@.subrange(0, 8)[i as int] != STANDARD_HEADER@[i as int]);
            }
            return false;
        }
        i = i + 1;
    }
    proof {
        assert(bytes@.subrange(0, 8) =~= STANDARD_HEADER@);
    }
    true
}

impl<'a> TryFrom<&'a [u8]> for Png {
    type Error = PngError;

    /// Reads a document: the signature, then records back to back until
    /// the bytes are used up. The first record that is refused, or a missing
    /// signature, fails the whole.
    fn try_from(value: &'a [u8]) -> (ret: Result<Png, PngError>)
        ensures
            match ret {
                Ok(png) => parse_png(value@) == Ok::<Seq<ChunkView>, PngError>(png@) && all_valid(
                    png@,
                ),
                Err(e) => parse_png(value@) == Err::<Seq<ChunkView>, PngError>(e),
            },
    {
        if !has_signature(value) {
            return Err(PngError::InvalidSignature);
        }
        let mut chunks: Vec<Chunk> = Vec::new();
        let mut at: usize = 8;
        proof {
            assert(Seq::<ChunkView>::empty() + parse_chunks(value@.skip(8))->Ok_0
                =~= parse_chunks(value@.skip(8))->Ok_0);
        }
        while at < value.len()
            invariant
                8 <= at <= value@.len(),
                parse_png(value@) == parse_chunks(value@.skip(8)),
                parse_chunks(value@.skip(8)) == prepend(
                    chunks@.map_values(|c: Chunk| c@),
                    parse_chunks(value@.skip(at as int)),
                ),
                forall|j: int| 0 <= j < chunks@.len() ==> (#[trigger] chunks@[j])@.valid(),
            decreases value@.len() - at,
        {
            let left = &value[at..value.len()];
            assert(left@ =~= value@.skip(at as int));
            match Chunk::try_from(left) {
                Err(e) => {
                    return Err(e);
                },
                Ok(chunk) => {
                    proof {
                        lemma_wire_of_parsed(left@);
                        let held = chunks@.map_values(|c: Chunk| c@);
                        let next = parse_chunks(left@.skip(chunk@.wire_len()));
                        assert(left@.skip(chunk@.wire_len()) =~= value@.skip(
                            at + chunk@.wire_len(),
                        ));
                        assert(chunks@.push(chunk).map_values(|c: Chunk| c@) =~= held.push(
                            chunk@,
                        ));
                        if next is Ok {
                            assert(held + (seq![chunk@] + next->Ok_0) =~= held.push(chunk@)
                                + next->Ok_0);
                        }
                    }
                    at = at + METADATA_LENGTH + chunk.length() as usize;
                    chunks.push(chunk);
                },
            }
        }
        proof {
            assert(value@.skip(at as int).len() == 0);
            assert(chunks@.map_values(|c: Chunk| c@) + Seq::<ChunkView>::empty()
                =~= chunks@.map_values(|c: Chunk| c@));
        }
        Ok(Png { chunks })
    }
}

/// A document owns a `Vec`, which no spec function can build, so `try_from`
/// states what it returns itself, over views, and there is no `try_from_spec`
/// to obey.
impl<'a> vstd::std_specs::convert::TryFromSpecImpl<&'a [u8]> for Png {
    open spec fn obeys_try_from_spec() -> bool {
        false
    }

    open spec fn try_from_spec(v: &'a [u8]) -> Result<Png, PngError> {
        arbitrary()
    }
}

/// Writing one more record appends its bytes.
pub proof fn lemma_chunks_wire_push(chunks: Seq<ChunkView>, last: ChunkView)
    ensures
        chunks_wire(chunks.push(last)) == chunks_wire(chunks) + last.wire(),
    decreases chunks.len(),
{
    if chunks.len() == 0 {
        assert(chunks.push(last).drop_first() =~= Seq::<ChunkView>::empty());
        assert(chunks_wire(Seq::<ChunkView>::empty()) =~= Seq::<u8>::empty());
        assert(chunks.push(last).first() == last);
        assert(chunks_wire(chunks.push(last)) =~= chunks_wire(chunks) + last.wire());
    } else {
        lemma_chunks_wire_push(chunks.drop_first(), last);
        assert(chunks.push(last).drop_first() =~= chunks.drop_first().push(last));
        assert(chunks_wire(chunks.push(last)) =~= chunks_wire(chunks) + last.wire());
    }
}

/// `first_match` is in range, no record before it has the code, and the
/// record at it, if there is one, has the code.
pub proof fn lemma_first_match(chunks: Seq<ChunkView>, code: Seq<char>)
    ensures
        0 <= first_match(chunks, code) <= chunks.len(),
        forall|i: int| 0 <= i < first_match(chunks, code) ==> !has_code(#[trigger] chunks[i], code),
        first_match(chunks, code) < chunks.len() ==> has_code(
            chunks[first_match(chunks, code)],
            code,
        ),
    decreases chunks.len(),
{
    if chunks.len() != 0 && !has_code(chunks.first(), code) {
        let rest = chunks.drop_first();
        lemma_first_match(rest, code);
        assert forall|i: int| 0 <= i < first_match(chunks, code) implies !has_code(
            #[trigger] chunks[i],
            code,
        ) by {
            if i > 0 {
                assert(chunks[i] == rest[i - 1]);
            }
        }
        if first_match(chunks, code) < chunks.len() {
            assert(chunks[first_match(chunks, code)] == rest[first_match(rest, code)]);
        }
    }
}

/// The place `at` is the first match where the record there has the code
/// and none before it has; the length is, where no record has the code.
pub proof fn lemma_first_match_is(chunks: Seq<ChunkView>, code: Seq<char>, at: int)
    requires
        0 <= at <= chunks.len(),
        forall|i: int| 0 <= i < at ==> !has_code(#[trigger] chunks[i], code),
        at < chunks.len() ==> has_code(chunks[at], code),
    ensures
        first_match(chunks, code) == at,
{
    lemma_first_match(chunks, code);
    let found = first_match(chunks, code);
    if found < at {
        assert(!has_code(chunks[found], code));
    } else if at < found {
        assert(has_code(chunks[at], code));
    }
}

/// Writing records and reading them back gives the same records in the
/// same order.
pub proof fn lemma_parse_chunks_wire(chunks: Seq<ChunkView>)
    requires
        all_valid(chunks),
    ensures
        parse_chunks(chunks_wire(chunks)) == Ok::<Seq<ChunkView>, PngError>(chunks),
    decreases chunks.len(),
{
    if chunks.len() == 0 {
        assert(chunks =~= Seq::<ChunkView>::empty());
    } else {
        let first = chunks.first();
        let rest = chunks.drop_first();
        let bytes = chunks_wire(chunks);
        assert(first.valid());
        assert(all_valid(rest)) by {
            assert forall|i: int| 0 <= i < rest.len() implies (#[trigger] rest[i]).valid() by {
                assert(rest[i] == chunks[i + 1]);
            }
        }
        lemma_parse_wire(first, chunks_wire(rest));
        lemma_parse_chunks_wire(rest);
        lemma_wire_len(first);
        assert(first.wire().len() == first.wire_len());
        assert(bytes.skip(first.wire_len()) =~= chunks_wire(rest));
        assert(seq![first] + rest =~= chunks);
    }
}

/// Records that were read are valid, and writing them gives back the bytes
/// they were read from.
pub proof fn lemma_wire_of_parsed_chunks(bytes: Seq<u8>)
    requires
        parse_chunks(bytes) is Ok,
    ensures
        all_valid(parse_chunks(bytes)->Ok_0),
        chunks_wire(parse_chunks(bytes)->Ok_0) == bytes,
    decreases bytes.len(),
{
    let chunks = parse_chunks(bytes)->Ok_0;
    if bytes.len() == 0 {
        assert(chunks_wire(chunks) =~= bytes);
    } else {
        let first = parse_chunk(bytes)->Ok_0;
        let left = bytes.skip(first.wire_len());
        let rest = parse_chunks(left)->Ok_0;
        lemma_wire_of_parsed(bytes);
        lemma_wire_of_parsed_chunks(left);
        assert(chunks == seq![first] + rest);
        assert(chunks.first() == first);
        assert(chunks.drop_first() =~= rest);
        assert(all_valid(chunks)) by {
            assert forall|i: int| 0 <= i < chunks.len() implies (#[trigger] chunks[i]).valid() by {
                if i > 0 {
                    assert(chunks[i] == rest[i - 1]);
                }
            }
        }
        assert(chunks_wire(chunks) =~= bytes.subrange(0, first.wire_len()) + left);
        assert(bytes.subrange(0, first.wire_len()) + left =~= bytes);
    }
}

/// Writing a document and reading it back gives the same records, so
/// writing it once more gives the same bytes.
pub proof fn lemma_parse_png_wire(chunks: Seq<ChunkView>)
    requires
        all_valid(chunks),
    ensures
        parse_png(png_wire(chunks)) == Ok::<Seq<ChunkView>, PngError>(chunks),
        png_wire(parse_png(png_wire(chunks))->Ok_0) == png_wire(chunks),
{
    let bytes = png_wire(chunks);
    lemma_parse_chunks_wire(chunks);
    assert(bytes.subrange(0, 8) =~= STANDARD_HEADER@);
    assert(bytes.skip(8) =~= chunks_wire(chunks));
}

/// A document that was read holds valid records, and writing it without
/// a change gives back the bytes it was read from.
pub proof fn lemma_png_wire_of_parsed(bytes: Seq<u8>)
    requires
        parse_png(bytes) is Ok,
    ensures
        all_valid(parse_png(bytes)->Ok_0),
        png_wire(parse_png(bytes)->Ok_0) == bytes,
{
    lemma_wire_of_parsed_chunks(bytes.skip(8));
    assert(bytes.subrange(0, 8) + bytes.skip(8) =~= bytes);
}

/// In a document that holds no record of the type of `chunk`, `chunk` is
/// found once it is appended, as the last record; and once it is removed
/// again, no record of its type is found.
pub proof fn lemma_append_find_remove(chunks: Seq<ChunkView>, chunk: ChunkView)
    requires
        first_match(chunks, ascii_text(chunk.code)) == chunks.len(),
    ensures
        ({
            let code = ascii_text(chunk.code);
            let appended = chunks.push(chunk);
            let at = first_match(appended, code);
            &&& at == chunks.len()
            &&& appended[at] == chunk
            &&& appended.remove(at) == chunks
            &&& first_match(appended.remove(at), code) == appended.remove(at).len()
        }),
{
    let code = ascii_text(chunk.code);
    let appended = chunks.push(chunk);
    lemma_first_match(chunks, code);
    assert forall|i: int| 0 <= i < chunks.len() implies !has_code(#[trigger] appended[i], code) by {
        assert(appended[i] == chunks[i]);
    }
    lemma_first_match_is(appended, code, chunks.len() as int);
    assert(appended.remove(chunks.len() as int) =~= chunks);
}

} // verus!
