//! One record of the chunk stream: length, type, data and checksum.

use crate::checksum::{checksum, crc32_iso_hdlc};
use crate::chunk_type::{type_text, ChunkType};
use crate::error::{Error, ErrorKind};
use crate::text::{decimal, push_decimal, string_from_utf8};
use crate::wire::{
    be32, be32_bytes, lemma_be32_of_bytes, lemma_bytes_of_be32, read_be32, write_be32,
};
use vstd::prelude::*;
use vstd::slice::{slice_subrange, slice_to_vec};
use vstd::std_specs::convert::TryFromSpecImpl;
use vstd::string::StringExecFns;
use vstd::utf8::{decode_utf8, valid_utf8};

verus! {

/// What a chunk is, as mathematics: its four fields.
pub struct ChunkView {
    /// The length field.
    pub length: u32,
    /// The four bytes of the type code.
    pub type_code: Seq<u8>,
    /// The payload.
    pub data: Seq<u8>,
    /// The checksum field.
    pub crc: u32,
}

impl ChunkView {
    /// The bytes that the checksum covers: the type code, then the payload.
    pub open spec fn covered(self) -> Seq<u8> {
        self.type_code + self.data
    }

    /// The chunk is sealed: it has a four-byte type, and its checksum field
    /// is the checksum of its type and payload.
    pub open spec fn sealed(self) -> bool {
        &&& self.type_code.len() == 4
        &&& self.crc == crc32_iso_hdlc(self.covered())
    }

    /// The chunk is one that the format admits: it is sealed, and its length
    /// field counts the payload.
    pub open spec fn wf(self) -> bool {
        &&& self.sealed()
        &&& self.length == self.data.len()
    }

    /// The chunk on the wire: length, type, payload, checksum.
    pub open spec fn wire(self) -> Seq<u8> {
        be32_bytes(self.length) + self.type_code + self.data + be32_bytes(self.crc)
    }

    /// The summary of the chunk for a reader: its fields, and of the payload
    /// only the size.
    pub open spec fn text(self) -> Seq<char> {
        "Data {\nLength: "@ + decimal(self.length as nat) + "\nType: "@ + type_text(self.type_code)
            + "\nData "@ + decimal(self.data.len()) + " bytes\nCrc: "@ + decimal(self.crc as nat)
            + "\n}"@
    }
}

/// The chunk that is made from a type code and a payload: the length field
/// is the payload's length as far as 32 bits hold it, and the checksum is
/// that of the type and the payload.
pub open spec fn new_chunk(type_code: Seq<u8>, data: Seq<u8>) -> ChunkView {
    ChunkView {
        length: (data.len() % 0x1_0000_0000) as u32,
        type_code,
        data,
        crc: crc32_iso_hdlc(type_code + data),
    }
}

/// What reading one chunk from the front of `bytes` gives. Bytes behind the
/// chunk are not looked at.
pub open spec fn parse_chunk(bytes: Seq<u8>) -> Result<ChunkView, Error> {
    if bytes.len() < 8 {
        Err(Error::Truncated { needed: 8, available: bytes.len() as u64 })
    } else {
        let length = be32(bytes.subrange(0, 4));
        if bytes.len() < 12 + length {
            Err(Error::Truncated { needed: (12 + length) as u64, available: bytes.len() as u64 })
        } else {
            let type_code = bytes.subrange(4, 8);
            let data = bytes.subrange(8, 8 + length);
            let stored = be32(bytes.subrange(8 + length, 12 + length));
            let computed = crc32_iso_hdlc(type_code + data);
            if stored != computed {
                Err(Error::CrcMismatch { stored, computed })
            } else {
                Ok(ChunkView { length, type_code, data, crc: stored })
            }
        }
    }
}

/// A chunk: a type code and a payload, with the length and checksum that go
/// with them on the wire.
#[derive(Debug)]
pub struct Chunk {
    data: Vec<u8>,
    length: u32,
    crc: u32,
    chunk_type: ChunkType,
}

impl View for Chunk {
    type V = ChunkView;

    closed spec fn view(&self) -> ChunkView {
        ChunkView {
            length: self.length,
            type_code: self.chunk_type@,
            data: self.data@,
            crc: self.crc,
        }
    }
}

/// Holds the checksum that a chunk carries against the one that its type
/// and payload give: they must be the same.
pub fn check_crc(stored: u32, computed: u32) -> (r: Result<(), Error>)
    ensures
        r == if stored == computed {
            Ok::<(), Error>(())
        } else {
            Err::<(), Error>(Error::CrcMismatch { stored, computed })
        },
{
    if stored != computed {
        Err(Error::CrcMismatch { stored, computed })
    } else {
        Ok(())
    }
}

/// The type code followed by the payload, in one buffer.
fn covered_bytes(chunk_type: &ChunkType, data: &Vec<u8>) -> (out: Vec<u8>)
    ensures
        out@ == chunk_type@ + data@,
{
    let code: [u8; 4] = chunk_type.bytes();
    let mut out: Vec<u8> = Vec::new();
    out.push(code[0]);
    out.push(code[1]);
    out.push(code[2]);
    out.push(code[3]);
    let mut i: usize = 0;
    while i < data.len()
        invariant
            i <= data@.len(),
            out@ == chunk_type@ + data@.subrange(0, i as int),
        decreases data@.len() - i,
    {
        out.push(data[i]);
        i = i + 1;
    }
    out
}

impl Chunk {
    /// What holds of every chunk that exists: the checksum is that of the
    /// type and payload, and the length field is the payload's length as far
    /// as 32 bits hold it.
    #[verifier::type_invariant]
    spec fn inv(self) -> bool {
        &&& self.crc == crc32_iso_hdlc(self.chunk_type@ + self.data@)
        &&& self.length as int == self.data@.len() % 0x1_0000_0000
    }

    /// Makes the chunk of the given type and payload. The length is the
    /// payload's, kept to 32 bits, and the checksum is computed here.
    pub fn new(chunk_type: ChunkType, data: Vec<u8>) -> (c: Chunk)
        ensures
            c@ == new_chunk(chunk_type@, data@),
            c@.sealed(),
            data@.len() <= u32::MAX ==> c@.wf(),
    {
        let length: u32 = ((data.len() as u64) % 0x1_0000_0000) as u32;
        let covered = covered_bytes(&chunk_type, &data);
        let crc: u32 = checksum(covered.as_slice());
        proof {
            chunk_type.lemma_len();
        }
        Chunk { data, length, crc, chunk_type }
    }

    /// The payload.
    pub fn data(&self) -> (data: &[u8])
        ensures
            data@ == self@.data,
    {
        self.data.as_slice()
    }

    /// The chunk on the wire: the length and the checksum as four bytes each,
    /// most significant first, around the type and the payload. Every chunk
    /// is sealed, so where the length field counts the payload, reading the
    /// bytes gives the chunk again.
    pub fn as_bytes(&self) -> (out: Vec<u8>)
        ensures
            out@ == self@.wire(),
            self@.sealed(),
            self@.length == self@.data.len() ==> parse_chunk(out@) == Ok::<ChunkView, Error>(self@),
    {
        let mut out: Vec<u8> = Vec::new();
        write_be32(&mut out, self.length);
        let code: [u8; 4] = self.chunk_type.bytes();
        out.push(code[0]);
        out.push(code[1]);
        out.push(code[2]);
        out.push(code[3]);
        assert(out@ == be32_bytes(self.length) + self.chunk_type@);
        let mut i: usize = 0;
        while i < self.data.len()
            invariant
                i <= self.data@.len(),
                out@ == be32_bytes(self.length) + self.chunk_type@ + self.data@.subrange(
                    0,
                    i as int,
                ),
            decreases self.data@.len() - i,
        {
            out.push(self.data[i]);
            i = i + 1;
        }
        assert(self.data@.subrange(0, i as int) == self.data@);
        write_be32(&mut out, self.crc);
        proof {
            use_type_invariant(self);
            self.chunk_type.lemma_len();
            if self@.length == self@.data.len() {
                lemma_chunk_round_trip(self@);
            }
        }
        out
    }

    /// The payload as text, where it is UTF-8.
    pub fn data_as_string(&self) -> (r: Result<String, Error>)
        ensures
            match r {
                Ok(text) => valid_utf8(self@.data) && text@ == decode_utf8(self@.data),
                Err(e) => !valid_utf8(self@.data) && e == Error::InvalidUtf8,
            },
    {
        match string_from_utf8(self.data.as_slice()) {
            Some(text) => Ok(text),
            None => Err(Error::InvalidUtf8),
        }
    }

    /// The length field: the payload's length, as far as 32 bits hold it.
    pub fn length(&self) -> (length: u32)
        ensures
            length == self@.length,
            length as int == self@.data.len() % 0x1_0000_0000,
    {
        proof {
            use_type_invariant(self);
        }
        self.length
    }

    /// The checksum field, which is the checksum of the type and the payload.
    pub fn crc(&self) -> (crc: u32)
        ensures
            crc == self@.crc,
            self@.sealed(),
    {
        proof {
            use_type_invariant(self);
            self.chunk_type.lemma_len();
        }
        self.crc
    }

    /// The type code.
    pub fn chunk_type(&self) -> (chunk_type: &ChunkType)
        ensures
            chunk_type@ == self@.type_code,
    {
        &self.chunk_type
    }

    /// The summary of the chunk for a reader.
    pub fn to_string(&self) -> (text: String)
        ensures
            text@ == self@.text(),
    {
        let mut text = String::new();
        text.append("Data {\nLength: ");
        push_decimal(&mut text, self.length as u64);
        text.append("\nType: ");
        let code = self.chunk_type.to_string();
        text.append(code.as_str());
        text.append("\nData ");
        push_decimal(&mut text, self.data.len() as u64);
        text.append(" bytes\nCrc: ");
        push_decimal(&mut text, self.crc as u64);
        text.append("\n}");
        assert(text@ =~= self@.text());
        text
    }

    /// Reads the chunk that starts at `bytes[pos]`.
    pub(crate) fn parse_at(bytes: &[u8], pos: usize) -> (r: Result<Chunk, Error>)
        requires
            pos <= bytes@.len(),
        ensures
            match parse_chunk(bytes@.skip(pos as int)) {
                Ok(v) => r matches Ok(c) && c@ == v,
                Err(e) => r matches Err(f) && f == e,
            },
    {
        let ghost rest = bytes@.skip(pos as int);
        let available: usize = bytes.len() - pos;
        if available < 8 {
            return Err(Error::Truncated { needed: 8, available: available as u64 });
        }
        let length: u32 = read_be32(bytes, pos);
        assert(bytes@.subrange(pos as int, pos + 4) == rest.subrange(0, 4));
        let needed: u64 = 12 + length as u64;
        if (available as u64) < needed {
            return Err(Error::Truncated { needed, available: available as u64 });
        }
        let n: usize = length as usize;
        let code: [u8; 4] = [bytes[pos + 4], bytes[pos + 5], bytes[pos + 6], bytes[pos + 7]];
        assert(code@ == rest.subrange(4, 8));
        let chunk_type = match ChunkType::try_from(code) {
            Ok(t) => t,
            Err(e) => { return Err(e); },
        };
        let data: Vec<u8> = slice_to_vec(slice_subrange(bytes, pos + 8, pos + 8 + n));
        assert(data@ == rest.subrange(8, 8 + length));
        let stored: u32 = read_be32(bytes, pos + 8 + n);
        assert(bytes@.subrange(pos + 8 + n, pos + 8 + n + 4) == rest.subrange(
            8 + length,
            12 + length,
        ));
        let covered = covered_bytes(&chunk_type, &data);
        let computed: u32 = checksum(covered.as_slice());
        match check_crc(stored, computed) {
            Ok(()) => Ok(Chunk { data, length, crc: stored, chunk_type }),
            Err(e) => Err(e),
        }
    }
}

/// A chunk owns its payload, and two buffers that hold the same bytes are
/// not one value to the verifier. So `try_from` is not held to returning the
/// very value below: its own `ensures` says the same of the result's view.
impl TryFromSpecImpl<&[u8]> for Chunk {
    open spec fn obeys_try_from_spec() -> bool {
        false
    }

    open spec fn try_from_spec(bytes: &[u8]) -> Result<Chunk, Error> {
        match parse_chunk(bytes@) {
            Ok(v) => Ok(choose|c: Chunk| c@ == v),
            Err(e) => Err(e),
        }
    }
}

impl TryFrom<&[u8]> for Chunk {
    type Error = Error;

    /// Reads one chunk from the front of `bytes`: the length, the type, as
    /// many bytes of payload as the length says, and the checksum, which must
    /// be that of the type and the payload. Bytes behind the chunk are not
    /// looked at.
    fn try_from(bytes: &[u8]) -> (r: Result<Chunk, Error>)
        ensures
            match parse_chunk(bytes@) {
                Ok(v) => r matches Ok(c) && c@ == v,
                Err(e) => r matches Err(f) && f == e,
            },
            r matches Ok(c) ==> c@.wf() && c@.wire() == bytes@.subrange(0, 12 + c@.length),
    {
        proof {
            if parse_chunk(bytes@) is Ok {
                lemma_wire_of_parse(bytes@, parse_chunk(bytes@)->Ok_0);
            }
        }
        assert(bytes@.skip(0) == bytes@);
        Chunk::parse_at(bytes, 0)
    }
}

/// `bytes` with bit `bit` of the byte at `at` turned over.
pub open spec fn flip_bit(bytes: Seq<u8>, at: int, bit: u8) -> Seq<u8>
    recommends
        0 <= at < bytes.len(),
        bit < 8,
{
    bytes.update(at, bytes[at] ^ (1u8 << bit))
}

/// A well-formed chunk, written out and read again, is the same chunk,
/// whatever follows it in the input.
pub proof fn lemma_parse_of_wire(c: ChunkView, rest: Seq<u8>)
    requires
        c.wf(),
    ensures
        parse_chunk(c.wire() + rest) == Ok::<ChunkView, Error>(c),
        (c.wire() + rest).skip(12 + c.length) == rest,
        c.wire().len() == 12 + c.length,
{
    let bytes = c.wire() + rest;
    lemma_be32_of_bytes(c.length);
    lemma_be32_of_bytes(c.crc);
    assert(bytes.subrange(0, 4) =~= be32_bytes(c.length));
    assert(bytes.subrange(4, 8) =~= c.type_code);
    assert(bytes.subrange(8, 8 + c.length) =~= c.data);
    assert(bytes.subrange(8 + c.length, 12 + c.length) =~= be32_bytes(c.crc));
    assert(bytes.skip(12 + c.length) =~= rest);
}

/// A well-formed chunk, written out and read again, is the same chunk:
/// length, type, data and checksum.
pub proof fn lemma_chunk_round_trip(c: ChunkView)
    requires
        c.wf(),
    ensures
        parse_chunk(c.wire()) == Ok::<ChunkView, Error>(c),
{
    lemma_parse_of_wire(c, Seq::empty());
    assert(c.wire() + Seq::<u8>::empty() =~= c.wire());
}

/// A chunk that was read is well-formed, and written out again it is the
/// bytes that it was read from.
pub proof fn lemma_wire_of_parse(bytes: Seq<u8>, c: ChunkView)
    requires
        parse_chunk(bytes) == Ok::<ChunkView, Error>(c),
    ensures
        c.wf(),
        12 + c.length <= bytes.len(),
        c.wire() == bytes.subrange(0, 12 + c.length),
{
    lemma_bytes_of_be32(bytes.subrange(0, 4));
    lemma_bytes_of_be32(bytes.subrange(8 + c.length, 12 + c.length));
    assert(c.wire() =~= bytes.subrange(0, 12 + c.length));
}

/// Turning over any one bit of the checksum field of a written chunk makes
/// the chunk unreadable: the stored checksum no longer matches.
pub proof fn lemma_flip_in_crc_is_rejected(c: ChunkView, at: int, bit: u8)
    requires
        c.wf(),
        8 + c.length <= at < 12 + c.length,
        bit < 8,
    ensures
        parse_chunk(flip_bit(c.wire(), at, bit)) matches Err(e) && e == (Error::CrcMismatch {
            stored: be32(flip_bit(be32_bytes(c.crc), at - 8 - c.length, bit)),
            computed: c.crc,
        }) && e.spec_kind() == ErrorKind::Validation,
{
    let wire = c.wire();
    let bytes = flip_bit(wire, at, bit);
    let field = be32_bytes(c.crc);
    let changed = flip_bit(field, at - 8 - c.length, bit);
    lemma_be32_of_bytes(c.length);
    lemma_be32_of_bytes(c.crc);
    assert(bytes.subrange(0, 4) =~= be32_bytes(c.length));
    assert(bytes.subrange(4, 8) =~= c.type_code);
    assert(bytes.subrange(8, 8 + c.length) =~= c.data);
    assert(bytes.subrange(8 + c.length, 12 + c.length) =~= changed);
    let old_byte = field[at - 8 - c.length];
    assert(old_byte ^ (1u8 << bit) != old_byte) by (bit_vector)
        requires
            bit < 8,
    ;
    assert(changed[at - 8 - c.length] != field[at - 8 - c.length]);
    if be32(changed) == c.crc {
        lemma_bytes_of_be32(changed);
        assert(false);
    }
}

/// Turning over one bit of the payload of a written chunk leaves the stored
/// checksum in place and changes what it is compared with: the chunk is
/// rejected exactly when the checksum of the changed payload is another one.
pub proof fn lemma_flip_in_data_meets_checksum(c: ChunkView, at: int, bit: u8)
    requires
        c.wf(),
        8 <= at < 8 + c.length,
        bit < 8,
    ensures
        ({
            let data = flip_bit(c.data, at - 8, bit);
            let computed = crc32_iso_hdlc(c.type_code + data);
            &&& data != c.data
            &&& parse_chunk(flip_bit(c.wire(), at, bit)) == if computed == c.crc {
                Ok::<ChunkView, Error>(ChunkView { data, ..c })
            } else {
                Err::<ChunkView, Error>(Error::CrcMismatch { stored: c.crc, computed })
            }
        }),
{
    let bytes = flip_bit(c.wire(), at, bit);
    let data = flip_bit(c.data, at - 8, bit);
    lemma_be32_of_bytes(c.length);
    lemma_be32_of_bytes(c.crc);
    assert(bytes.subrange(0, 4) =~= be32_bytes(c.length));
    assert(bytes.subrange(4, 8) =~= c.type_code);
    assert(bytes.subrange(8, 8 + c.length) =~= data);
    assert(bytes.subrange(8 + c.length, 12 + c.length) =~= be32_bytes(c.crc));
    let old_byte = c.data[at - 8];
    assert(old_byte ^ (1u8 << bit) != old_byte) by (bit_vector)
        requires
            bit < 8,
    ;
    assert(data[at - 8] != c.data[at - 8]);
}

} // verus!
