//! A PNG file as its chunks, in order.

use crate::chunk::{lemma_parse_of_wire, lemma_wire_of_parse, parse_chunk, Chunk, ChunkView};
use crate::chunk_type::type_text;
use crate::constants::{STANDARD_CHUNK_TYPES, STANDARD_HEADER};
use crate::error::Error;
use vstd::prelude::*;
use vstd::string::StringExecFns;

verus! {

/// The views of a run of chunks.
pub open spec fn views(chunks: Seq<Chunk>) -> Seq<ChunkView> {
    Seq::new(chunks.len(), |i: int| chunks[i]@)
}

/// Every chunk is sealed: it carries the checksum of its type and payload.
pub open spec fn all_sealed(chunks: Seq<ChunkView>) -> bool {
    forall|i: int| 0 <= i < chunks.len() ==> (#[trigger] chunks[i]).sealed()
}

/// Every chunk is one that the format admits.
pub open spec fn all_wf(chunks: Seq<ChunkView>) -> bool {
    forall|i: int| 0 <= i < chunks.len() ==> (#[trigger] chunks[i]).wf()
}

/// The chunks on the wire, one after the other.
pub open spec fn chunks_wire(chunks: Seq<ChunkView>) -> Seq<u8>
    decreases chunks.len(),
{
    if chunks.len() == 0 {
        Seq::empty()
    } else {
        chunks_wire(chunks.drop_last()) + chunks.last().wire()
    }
}

/// A file on the wire: the signature, then the chunks.
pub open spec fn png_wire(chunks: Seq<ChunkView>) -> Seq<u8> {
    STANDARD_HEADER@ + chunks_wire(chunks)
}

/// What reading chunks from `bytes` until none are left gives. The first
/// chunk that cannot be read fails the whole.
pub open spec fn parse_chunks(bytes: Seq<u8>) -> Result<Seq<ChunkView>, Error>
    decreases bytes.len(),
{
    if bytes.len() == 0 {
        Ok(Seq::empty())
    } else {
        match parse_chunk(bytes) {
            Err(e) => Err(e),
            Ok(first) => match parse_chunks(bytes.skip(12 + first.length)) {
                Err(e) => Err(e),
                Ok(rest) => Ok(seq![first] + rest),
            },
        }
    }
}

/// What reading a file gives: the signature is checked, then the chunks are
/// read to the end of the input.
pub open spec fn parse_png(bytes: Seq<u8>) -> Result<Seq<ChunkView>, Error> {
    if bytes.len() < 8 {
        Err(Error::Truncated { needed: 8, available: bytes.len() as u64 })
    } else if bytes.subrange(0, 8) != STANDARD_HEADER@ {
        Err(Error::BadSignature)
    } else {
        parse_chunks(bytes.skip(8))
    }
}

/// The chunks `done`, followed by what `more` gives, if it gives anything.
spec fn after(done: Seq<ChunkView>, more: Result<Seq<ChunkView>, Error>) -> Result<
    Seq<ChunkView>,
    Error,
> {
    match more {
        Ok(rest) => Ok(done + rest),
        Err(e) => Err(e),
    }
}

/// `i` is the place of the first chunk that `wanted` holds of.
pub open spec fn is_first_where(
    chunks: Seq<ChunkView>,
    wanted: spec_fn(ChunkView) -> bool,
    i: int,
) -> bool {
    &&& 0 <= i < chunks.len()
    &&& wanted(chunks[i])
    &&& forall|j: int| 0 <= j < i ==> !wanted(#[trigger] chunks[j])
}

/// The place of the first chunk that `wanted` holds of, if there is one.
pub open spec fn first_where(chunks: Seq<ChunkView>, wanted: spec_fn(ChunkView) -> bool) -> Option<
    int,
> {
    if exists|i: int| is_first_where(chunks, wanted, i) {
        Some(choose|i: int| is_first_where(chunks, wanted, i))
    } else {
        None
    }
}

/// The chunks whose type reads `text`.
pub open spec fn has_type(text: Seq<char>) -> spec_fn(ChunkView) -> bool {
    |c: ChunkView| type_text(c.type_code) == text
}

/// `code` is one of the codes in `known`.
pub open spec fn is_listed(known: Seq<[u8; 4]>, code: Seq<u8>) -> bool {
    exists|k: int| 0 <= k < known.len() && (#[trigger] known[k])@ == code
}

/// The chunks whose type is none of `known`.
pub open spec fn is_unlisted(known: Seq<[u8; 4]>) -> spec_fn(ChunkView) -> bool {
    |c: ChunkView| !is_listed(known, c.type_code)
}

/// The summaries of the chunks, each on lines of its own.
pub open spec fn chunks_text(chunks: Seq<ChunkView>) -> Seq<char>
    decreases chunks.len(),
{
    if chunks.len() == 0 {
        Seq::empty()
    } else {
        chunks_text(chunks.drop_last()) + "\n"@ + chunks.last().text()
    }
}

/// The summary of a file: the signature, then each chunk.
pub open spec fn png_text(chunks: Seq<ChunkView>) -> Seq<char> {
    "Header: [137, 80, 78, 71, 13, 10, 26, 10]"@ + chunks_text(chunks)
}

/// A PNG file: its chunks, in the order of the file.
#[derive(Debug)]
pub struct Png {
    chunks: Vec<Chunk>,
}

impl View for Png {
    type V = Seq<ChunkView>;

    closed spec fn view(&self) -> Seq<ChunkView> {
        views(self.chunks@)
    }
}

/// Whether `code` is one of `known`.
fn code_is_listed(known: &[[u8; 4]], code: [u8; 4]) -> (listed: bool)
    ensures
        listed == is_listed(known@, code@),
{
    let mut k: usize = 0;
    while k < known.len()
        invariant
            k <= known@.len(),
            forall|j: int| 0 <= j < k ==> (#[trigger] known@[j])@ != code@,
        decreases known@.len() - k,
    {
        let entry: [u8; 4] = known[k];
        if entry[0] == code[0] && entry[1] == code[1] && entry[2] == code[2] && entry[3]
            == code[3] {
            assert(known@[k as int]@ =~= code@);
            return true;
        }
        assert(entry@[0] != code@[0] || entry@[1] != code@[1] || entry@[2] != code@[2]
            || entry@[3] != code@[3]);
        k = k + 1;
    }
    false
}

impl Png {
    /// A file with no chunks yet.
    pub fn new() -> (png: Png)
        ensures
            png@ == Seq::<ChunkView>::empty(),
    {
        let png = Png { chunks: Vec::new() };
        assert(png@ =~= Seq::<ChunkView>::empty());
        png
    }

    /// The file that holds the given chunks, in their order.
    pub fn from_chunks(chunks: Vec<Chunk>) -> (png: Png)
        ensures
            png@ == views(chunks@),
    {
        Png { chunks }
    }

    /// Reads a file: the signature, then chunks to the end of the input. An
    /// end marker (`IEND`) is a chunk like any other and need not be there:
    /// what stands behind it, such as a hidden message, is read too. The
    /// chunks of a file that was read are well-formed, and written out they
    /// are the input again.
    pub fn from_bytes(bytes: &[u8]) -> (r: Result<Png, Error>)
        ensures
            match parse_png(bytes@) {
                Ok(v) => r matches Ok(png) && png@ == v,
                Err(e) => r matches Err(f) && f == e,
            },
            r matches Ok(png) ==> all_wf(png@) && png_wire(png@) == bytes@,
    {
        proof {
            if parse_png(bytes@) is Ok {
                lemma_png_wire_of_parse(bytes@, parse_png(bytes@)->Ok_0);
            }
        }
        if bytes.len() < 8 {
            return Err(Error::Truncated { needed: 8, available: bytes.len() as u64 });
        }
        let mut i: usize = 0;
        while i < 8
            invariant
                i <= 8 <= bytes@.len(),
                forall|j: int| 0 <= j < i ==> bytes@[j] == STANDARD_HEADER@[j],
            decreases 8 - i,
        {
            if bytes[i] != STANDARD_HEADER[i] {
                assert(bytes@.subrange(0, 8)[i as int] != STANDARD_HEADER@[i as int]);
                return Err(Error::BadSignature);
            }
            i = i + 1;
        }
        assert(bytes@.subrange(0, 8) =~= STANDARD_HEADER@);
        let mut chunks: Vec<Chunk> = Vec::new();
        let mut pos: usize = 8;
        assert(views(chunks@) + Seq::<ChunkView>::empty() =~= Seq::<ChunkView>::empty());
        while pos < bytes.len()
            invariant
                8 <= pos <= bytes@.len(),
                bytes@.subrange(0, 8) == STANDARD_HEADER@,
                parse_chunks(bytes@.skip(8)) == after(
                    views(chunks@),
                    parse_chunks(bytes@.skip(pos as int)),
                ),
            decreases bytes@.len() - pos,
        {
            let ghost rest = bytes@.skip(pos as int);
            let ghost done = views(chunks@);
            match Chunk::parse_at(bytes, pos) {
                Err(e) => {
                    return Err(e);
                },
                Ok(chunk) => {
                    let step: usize = 12 + chunk.length() as usize;
                    assert(rest.skip(step as int) =~= bytes@.skip(pos + step));
                    pos = pos + step;
                    let ghost first = chunk@;
                    chunks.push(chunk);
                    assert(views(chunks@) =~= done.push(first));
                    assert forall|more: Seq<ChunkView>|
                        done + (seq![first] + more) == #[trigger] (done.push(first) + more) by {
                        assert(done + (seq![first] + more) =~= done.push(first) + more);
                    }
                },
            }
        }
        assert(bytes@.skip(pos as int).len() == 0);
        assert(views(chunks@) + Seq::<ChunkView>::empty() =~= views(chunks@));
        Ok(Png { chunks })
    }

    /// Puts `chunk` at the end of the file.
    pub fn append_chunk(&mut self, chunk: Chunk)
        ensures
            final(self)@ == old(self)@.push(chunk@),
    {
        self.chunks.push(chunk);
        assert(self@ =~= old(self)@.push(chunk@));
    }

    /// The place of the first chunk whose type reads `chunk_type`.
    fn position_of_type(&self, chunk_type: &str) -> (r: Option<usize>)
        ensures
            match r {
                Some(i) => i < self.chunks@.len() && first_where(self@, has_type(chunk_type@))
                    == Some(i as int),
                None => first_where(self@, has_type(chunk_type@)) is None,
            },
    {
        let wanted: String = String::from_str(chunk_type);
        let mut i: usize = 0;
        while i < self.chunks.len()
            invariant
                i <= self.chunks@.len(),
                wanted@ == chunk_type@,
                forall|j: int| 0 <= j < i ==> !has_type(chunk_type@)(#[trigger] self@[j]),
            decreases self.chunks@.len() - i,
        {
            let text: String = self.chunks[i].chunk_type().to_string();
            if text == wanted {
                proof {
                    assert(has_type(chunk_type@)(self@[i as int]));
                    lemma_first_where_found(self@, has_type(chunk_type@), i as int);
                }
                return Some(i);
            }
            assert(!has_type(chunk_type@)(self@[i as int]));
            i = i + 1;
        }
        proof {
            lemma_first_where_none(self@, has_type(chunk_type@));
        }
        None
    }

    /// Takes the first chunk whose type reads `chunk_type` out of the file
    /// and returns it. The other chunks keep their order. Where there is no
    /// such chunk the file stays as it is.
    pub fn remove_first_chunk(&mut self, chunk_type: &str) -> (r: Result<Chunk, Error>)
        ensures
            match first_where(old(self)@, has_type(chunk_type@)) {
                Some(i) => r matches Ok(c) && c@ == old(self)@[i] && final(self)@ == old(
                    self,
                )@.remove(i),
                None => r matches Err(e) && e == Error::ChunkNotFound && final(self)@ == old(
                    self,
                )@,
            },
    {
        match self.position_of_type(chunk_type) {
            Some(i) => {
                let chunk = self.chunks.remove(i);
                assert(self@ =~= old(self)@.remove(i as int));
                Ok(chunk)
            },
            None => Err(Error::ChunkNotFound),
        }
    }

    /// The first chunk whose type reads `chunk_type`, if there is one.
    pub fn chunk_by_type(&self, chunk_type: &str) -> (r: Option<&Chunk>)
        ensures
            match first_where(self@, has_type(chunk_type@)) {
                Some(i) => r matches Some(c) && c@ == self@[i],
                None => r is None,
            },
    {
        match self.position_of_type(chunk_type) {
            Some(i) => {
                assert(self@[i as int] == self.chunks@[i as int]@);
                Some(&self.chunks[i])
            },
            None => None,
        }
    }

    /// The first chunk whose type is none of `known`, if there is one.
    pub fn first_chunk_outside(&self, known: &[[u8; 4]]) -> (r: Option<&Chunk>)
        ensures
            match first_where(self@, is_unlisted(known@)) {
                Some(i) => r matches Some(c) && c@ == self@[i],
                None => r is None,
            },
    {
        let mut i: usize = 0;
        while i < self.chunks.len()
            invariant
                i <= self.chunks@.len(),
                forall|j: int| 0 <= j < i ==> !is_unlisted(known@)(#[trigger] self@[j]),
            decreases self.chunks@.len() - i,
        {
            let code: [u8; 4] = self.chunks[i].chunk_type().bytes();
            if !code_is_listed(known, code) {
                proof {
                    assert(is_unlisted(known@)(self@[i as int]));
                    lemma_first_where_found(self@, is_unlisted(known@), i as int);
                }
                return Some(&self.chunks[i]);
            }
            assert(!is_unlisted(known@)(self@[i as int]));
            i = i + 1;
        }
        proof {
            lemma_first_where_none(self@, is_unlisted(known@));
        }
        None
    }

    /// The first chunk whose type the PNG standard does not define: the
    /// likely place of a hidden message.
    pub fn auto_chunk_detect(&self) -> (r: Option<&Chunk>)
        ensures
            match first_where(self@, is_unlisted(STANDARD_CHUNK_TYPES@)) {
                Some(i) => r matches Some(c) && c@ == self@[i],
                None => r is None,
            },
    {
        self.first_chunk_outside(STANDARD_CHUNK_TYPES.as_slice())
    }

    /// The signature that every file starts with.
    pub fn header(&self) -> (header: &[u8; 8])
        ensures
            header@ == STANDARD_HEADER@,
    {
        &STANDARD_HEADER
    }

    /// The chunks, in the order of the file.
    pub fn chunks(&self) -> (chunks: &[Chunk])
        ensures
            views(chunks@) == self@,
    {
        self.chunks.as_slice()
    }

    /// The file on the wire: the signature, then each chunk in order. Every
    /// chunk is sealed, so where each length field counts its payload and the
    /// chunks are thus well-formed, reading the bytes gives the file again.
    pub fn as_bytes(&self) -> (out: Vec<u8>)
        ensures
            out@ == png_wire(self@),
            all_sealed(self@),
            all_wf(self@) ==> parse_png(out@) == Ok::<Seq<ChunkView>, Error>(self@),
    {
        let mut out: Vec<u8> = Vec::new();
        let mut k: usize = 0;
        while k < 8
            invariant
                k <= 8,
                out@ == STANDARD_HEADER@.subrange(0, k as int),
            decreases 8 - k,
        {
            out.push(STANDARD_HEADER[k]);
            k = k + 1;
        }
        assert(STANDARD_HEADER@.subrange(0, 8) == STANDARD_HEADER@);
        let mut i: usize = 0;
        while i < self.chunks.len()
            invariant
                i <= self.chunks@.len(),
                out@ == png_wire(self@.subrange(0, i as int)),
                forall|j: int| 0 <= j < i ==> (#[trigger] self@[j]).sealed(),
            decreases self.chunks@.len() - i,
        {
            let mut bytes: Vec<u8> = self.chunks[i].as_bytes();
            assert(self@[i as int] == self.chunks@[i as int]@);
            out.append(&mut bytes);
            proof {
                let upto = self@.subrange(0, i + 1);
                assert(upto.drop_last() == self@.subrange(0, i as int));
                assert(upto.last() == self@[i as int]);
            }
            i = i + 1;
        }
        assert(self@.subrange(0, i as int) == self@);
        proof {
            if all_wf(self@) {
                lemma_png_round_trip(self@);
            }
        }
        out
    }

    /// The summary of the file for a reader: the signature, then each chunk.
    pub fn to_string(&self) -> (text: String)
        ensures
            text@ == png_text(self@),
    {
        let mut text = String::from_str("Header: [137, 80, 78, 71, 13, 10, 26, 10]");
        let mut i: usize = 0;
        while i < self.chunks.len()
            invariant
                i <= self.chunks@.len(),
                text@ == png_text(self@.subrange(0, i as int)),
            decreases self.chunks@.len() - i,
        {
            let summary: String = self.chunks[i].to_string();
            text.append("\n");
            text.append(summary.as_str());
            proof {
                let upto = self@.subrange(0, i + 1);
                assert(upto.drop_last() == self@.subrange(0, i as int));
                assert(upto.last() == self@[i as int]);
            }
            i = i + 1;
        }
        assert(self@.subrange(0, i as int) == self@);
        text
    }
}

/// Only one place can be the first.
pub proof fn lemma_first_where_found(
    chunks: Seq<ChunkView>,
    wanted: spec_fn(ChunkView) -> bool,
    i: int,
)
    requires
        is_first_where(chunks, wanted, i),
    ensures
        first_where(chunks, wanted) == Some(i),
{
    let j = choose|j: int| is_first_where(chunks, wanted, j);
    assert(is_first_where(chunks, wanted, j));
    if j < i {
        assert(!wanted(chunks[j]));
    } else if i < j {
        assert(!wanted(chunks[i]));
    }
}

/// Where `wanted` holds of no chunk, there is no first.
pub proof fn lemma_first_where_none(chunks: Seq<ChunkView>, wanted: spec_fn(ChunkView) -> bool)
    requires
        forall|j: int| 0 <= j < chunks.len() ==> !wanted(#[trigger] chunks[j]),
    ensures
        first_where(chunks, wanted) is None,
{
}

/// Where `wanted` holds of some chunk, it holds of a first one.
pub proof fn lemma_first_where_some(
    chunks: Seq<ChunkView>,
    wanted: spec_fn(ChunkView) -> bool,
    j: int,
)
    requires
        0 <= j < chunks.len(),
        wanted(chunks[j]),
    ensures
        first_where(chunks, wanted) is Some,
    decreases j,
{
    if exists|i: int| 0 <= i < j && wanted(#[trigger] chunks[i]) {
        let i = choose|i: int| 0 <= i < j && wanted(#[trigger] chunks[i]);
        lemma_first_where_some(chunks, wanted, i);
    } else {
        assert(is_first_where(chunks, wanted, j));
    }
}

/// The chunks on the wire start with the first chunk.
pub proof fn lemma_chunks_wire_front(first: ChunkView, rest: Seq<ChunkView>)
    ensures
        chunks_wire(seq![first] + rest) == first.wire() + chunks_wire(rest),
    decreases rest.len(),
{
    let all = seq![first] + rest;
    if rest.len() == 0 {
        assert(all.drop_last() =~= Seq::<ChunkView>::empty());
        assert(all.last() == first);
        assert(chunks_wire(all.drop_last()) =~= Seq::<u8>::empty());
        assert(chunks_wire(rest) =~= Seq::<u8>::empty());
        assert(chunks_wire(all) =~= first.wire() + chunks_wire(rest));
    } else {
        lemma_chunks_wire_front(first, rest.drop_last());
        assert(all.drop_last() =~= seq![first] + rest.drop_last());
        assert(all.last() == rest.last());
        assert(chunks_wire(all) =~= first.wire() + chunks_wire(rest));
    }
}

/// Well-formed chunks, written out one after the other and read again, are
/// the same chunks in the same order.
pub proof fn lemma_parse_of_chunks_wire(chunks: Seq<ChunkView>)
    requires
        all_wf(chunks),
    ensures
        parse_chunks(chunks_wire(chunks)) == Ok::<Seq<ChunkView>, Error>(chunks),
    decreases chunks.len(),
{
    if chunks.len() == 0 {
        assert(chunks =~= Seq::<ChunkView>::empty());
    } else {
        let first = chunks[0];
        let rest = chunks.drop_first();
        assert(chunks =~= seq![first] + rest);
        lemma_chunks_wire_front(first, rest);
        lemma_parse_of_wire(first, chunks_wire(rest));
        assert forall|i: int| 0 <= i < rest.len() implies (#[trigger] rest[i]).wf() by {
            assert(rest[i] == chunks[i + 1]);
        }
        lemma_parse_of_chunks_wire(rest);
    }
}

/// A file of well-formed chunks, written out and read again, is the same
/// chunks in the same order.
pub proof fn lemma_png_round_trip(chunks: Seq<ChunkView>)
    requires
        all_wf(chunks),
    ensures
        parse_png(png_wire(chunks)) == Ok::<Seq<ChunkView>, Error>(chunks),
{
    let bytes = png_wire(chunks);
    lemma_parse_of_chunks_wire(chunks);
    assert(bytes.subrange(0, 8) =~= STANDARD_HEADER@);
    assert(bytes.skip(8) =~= chunks_wire(chunks));
}

/// Chunks that were read are well-formed, and written out again they are
/// the bytes that they were read from.
pub proof fn lemma_chunks_wire_of_parse(bytes: Seq<u8>, chunks: Seq<ChunkView>)
    requires
        parse_chunks(bytes) == Ok::<Seq<ChunkView>, Error>(chunks),
    ensures
        chunks_wire(chunks) == bytes,
        all_wf(chunks),
    decreases bytes.len(),
{
    if bytes.len() == 0 {
        assert(chunks_wire(chunks) =~= bytes);
    } else {
        let first = parse_chunk(bytes)->Ok_0;
        lemma_wire_of_parse(bytes, first);
        let tail = bytes.skip(12 + first.length);
        let rest = parse_chunks(tail)->Ok_0;
        lemma_chunks_wire_of_parse(tail, rest);
        lemma_chunks_wire_front(first, rest);
        assert(chunks == seq![first] + rest);
        assert(chunks_wire(chunks) =~= bytes);
        assert forall|i: int| 0 <= i < chunks.len() implies (#[trigger] chunks[i]).wf() by {
            if i > 0 {
                assert(chunks[i] == rest[i - 1]);
            }
        }
    }
}

/// A file that was read, written out again, is the bytes that it was read
/// from, and every chunk of it is well-formed.
pub proof fn lemma_png_wire_of_parse(bytes: Seq<u8>, chunks: Seq<ChunkView>)
    requires
        parse_png(bytes) == Ok::<Seq<ChunkView>, Error>(chunks),
    ensures
        png_wire(chunks) == bytes,
        all_wf(chunks),
{
    lemma_chunks_wire_of_parse(bytes.skip(8), chunks);
    assert(bytes =~= bytes.subrange(0, 8) + bytes.skip(8));
}

/// A chunk put at the end of a file that has none of its type is the one
/// that removing that type takes out, and the file is then as it was.
pub proof fn lemma_append_then_remove(chunks: Seq<ChunkView>, added: ChunkView)
    requires
        forall|j: int|
            0 <= j < chunks.len() ==> type_text((#[trigger] chunks[j]).type_code) != type_text(
                added.type_code,
            ),
    ensures
        first_where(chunks.push(added), has_type(type_text(added.type_code))) == Some(
            chunks.len() as int,
        ),
        chunks.push(added).remove(chunks.len() as int) == chunks,
{
    let wanted = has_type(type_text(added.type_code));
    let longer = chunks.push(added);
    assert forall|j: int| 0 <= j < chunks.len() implies !wanted(#[trigger] longer[j]) by {
        assert(longer[j] == chunks[j]);
    }
    assert(wanted(longer[chunks.len() as int]));
    lemma_first_where_found(longer, wanted, chunks.len() as int);
    assert(longer.remove(chunks.len() as int) =~= chunks);
}

/// In a file whose chunk types are all among `known` no chunk is found to be
/// outside them; once a chunk of another type is put at its end, that chunk
/// is the one found.
pub proof fn lemma_detect_after_append(
    chunks: Seq<ChunkView>,
    known: Seq<[u8; 4]>,
    added: ChunkView,
)
    requires
        forall|j: int| 0 <= j < chunks.len() ==> is_listed(known, (#[trigger] chunks[j]).type_code),
        !is_listed(known, added.type_code),
    ensures
        first_where(chunks, is_unlisted(known)) is None,
        first_where(chunks.push(added), is_unlisted(known)) == Some(chunks.len() as int),
{
    let wanted = is_unlisted(known);
    let longer = chunks.push(added);
    assert forall|j: int| 0 <= j < chunks.len() implies !wanted(#[trigger] chunks[j]) by {
        assert(is_listed(known, chunks[j].type_code));
    }
    lemma_first_where_none(chunks, wanted);
    assert forall|j: int| 0 <= j < chunks.len() implies !wanted(#[trigger] longer[j]) by {
        assert(longer[j] == chunks[j]);
    }
    assert(wanted(longer[chunks.len() as int]));
    lemma_first_where_found(longer, wanted, chunks.len() as int);
}

} // verus!
