//! The four commands, from the bytes of the file that was read to what is
//! to be written or printed. Reading and writing files is the caller's part.

use crate::args::{DecodeArgs, EncodeArgs, PrintArgs, RemoveArgs};
use crate::chunk::{new_chunk, Chunk, ChunkView};
use crate::chunk_type::{is_type_text, type_code_of, type_text, ChunkType};
use crate::constants::STANDARD_CHUNK_TYPES;
use crate::error::Error;
use crate::png::{
    all_wf, first_where, has_type, is_listed, is_unlisted, lemma_append_then_remove,
    lemma_detect_after_append, lemma_first_where_some, lemma_png_round_trip,
    lemma_png_wire_of_parse, parse_png, png_text, png_wire, Png,
};
use std::path::PathBuf;
use vstd::prelude::*;
use vstd::string::{StrSliceExecFns, StringExecFns};
use vstd::utf8::{
    decode_utf8, encode_utf8, encode_utf8_decode_utf8, encode_utf8_valid_utf8, valid_utf8,
};

verus! {

/// The file that `encode` writes: the file that was read, with one more
/// chunk at its end that holds the message as UTF-8.
pub open spec fn encoded(input: Seq<u8>, chunk_type: Seq<char>, message: Seq<char>) -> Result<
    Seq<u8>,
    Error,
> {
    match parse_png(input) {
        Err(e) => Err(e),
        Ok(chunks) => if is_type_text(chunk_type) {
            Ok(png_wire(chunks.push(new_chunk(type_code_of(chunk_type), encode_utf8(message)))))
        } else {
            Err(Error::BadChunkType)
        },
    }
}

/// Where `encode` writes: the output file where one is named, else the file
/// that was read.
pub open spec fn target(args: EncodeArgs) -> PathBuf {
    match args.output_file {
        Some(path) => path,
        None => args.file_path,
    }
}

/// The text of a payload: what it says where it is UTF-8, and nothing where
/// it is not.
pub open spec fn message_text(data: Seq<u8>) -> Seq<char> {
    if valid_utf8(data) {
        decode_utf8(data)
    } else {
        Seq::empty()
    }
}

/// The line that `decode` prints for a payload. A chunk that was found by
/// its type not being a standard one is announced as a guess.
pub open spec fn decoded_line(guessed: bool, data: Seq<u8>) -> Seq<char> {
    if guessed {
        "potential hidden message: "@ + message_text(data)
    } else {
        message_text(data)
    }
}

/// What `decode` prints: the text of the first chunk of the type that was
/// asked for or, where none was, of the first chunk that is not of a
/// standard type.
pub open spec fn decoded(input: Seq<u8>, chunk_type: Option<Seq<char>>) -> Result<
    Seq<char>,
    Error,
> {
    match parse_png(input) {
        Err(e) => Err(e),
        Ok(chunks) => {
            let found = match chunk_type {
                Some(text) => first_where(chunks, has_type(text)),
                None => first_where(chunks, is_unlisted(STANDARD_CHUNK_TYPES@)),
            };
            match found {
                Some(i) => Ok(decoded_line(chunk_type is None, chunks[i].data)),
                None => Err(Error::ChunkNotFound),
            }
        },
    }
}

/// The chunks that `remove` leaves, and writes back: those of the file
/// without the first chunk of the given type.
pub open spec fn removed(input: Seq<u8>, chunk_type: Seq<char>) -> Result<Seq<ChunkView>, Error> {
    match parse_png(input) {
        Err(e) => Err(e),
        Ok(chunks) => match first_where(chunks, has_type(chunk_type)) {
            Some(i) => Ok(chunks.remove(i)),
            None => Err(Error::ChunkNotFound),
        },
    }
}

/// What `print_chunks` prints: the summary of the file.
pub open spec fn printed(input: Seq<u8>) -> Result<Seq<char>, Error> {
    match parse_png(input) {
        Err(e) => Err(e),
        Ok(chunks) => Ok(png_text(chunks)),
    }
}

/// The text of an optional string.
pub open spec fn text_of(s: Option<String>) -> Option<Seq<char>> {
    match s {
        Some(s) => Some(s@),
        None => None,
    }
}

/// Hides `args.message` in the file whose bytes are `input`: returns where
/// to write, and the bytes to write there.
pub fn encode(args: EncodeArgs, input: &[u8]) -> (r: Result<(PathBuf, Vec<u8>), Error>)
    ensures
        match encoded(input@, args.chunk_type@, args.message@) {
            Ok(bytes) => r matches Ok(out) && out.0 == target(args) && out.1@ == bytes,
            Err(e) => r matches Err(f) && f == e,
        },
{
    let mut png = match Png::from_bytes(input) {
        Ok(png) => png,
        Err(e) => {
            return Err(e);
        },
    };
    let chunk_type = match ChunkType::from_str(args.chunk_type.as_str()) {
        Ok(chunk_type) => chunk_type,
        Err(e) => {
            return Err(e);
        },
    };
    let message: Vec<u8> = args.message.as_str().as_bytes_vec();
    let chunk = Chunk::new(chunk_type, message);
    png.append_chunk(chunk);
    let output_path = args.output_file.unwrap_or(args.file_path);
    Ok((output_path, png.as_bytes()))
}

/// Finds the message in the file whose bytes are `input`: returns the line
/// to print.
pub fn decode(args: DecodeArgs, input: &[u8]) -> (r: Result<String, Error>)
    ensures
        match decoded(input@, text_of(args.chunk_type)) {
            Ok(line) => r matches Ok(text) && text@ == line,
            Err(e) => r matches Err(f) && f == e,
        },
{
    let png = match Png::from_bytes(input) {
        Ok(png) => png,
        Err(e) => {
            return Err(e);
        },
    };
    let mut potential_message = false;
    let chunk = match &args.chunk_type {
        Some(chunk_type) => png.chunk_by_type(chunk_type.as_str()),
        None => {
            potential_message = true;
            png.auto_chunk_detect()
        },
    };
    match chunk {
        Some(chunk) => {
            let message = match chunk.data_as_string() {
                Ok(message) => message,
                Err(_) => String::new(),
            };
            if potential_message {
                let line = String::from_str("potential hidden message: ");
                Ok(line.concat(message.as_str()))
            } else {
                Ok(message)
            }
        },
        None => Err(Error::ChunkNotFound),
    }
}

/// Takes the first chunk of type `args.chunk_type` out of the file whose
/// bytes are `input`: returns where to write, which is the file that was
/// read, and the bytes to write there, which are the file without that
/// chunk. Later chunks of the same type stay.
pub fn remove(args: RemoveArgs, input: &[u8]) -> (r: Result<(PathBuf, Vec<u8>), Error>)
    ensures
        match removed(input@, args.chunk_type@) {
            Ok(chunks) => r matches Ok(out) && out.0 == args.file_path && out.1@ == png_wire(
                chunks,
            ),
            Err(e) => r matches Err(f) && f == e,
        },
{
    let mut png = match Png::from_bytes(input) {
        Ok(png) => png,
        Err(e) => {
            return Err(e);
        },
    };
    match png.remove_first_chunk(args.chunk_type.as_str()) {
        Ok(_) => Ok((args.file_path, png.as_bytes())),
        Err(e) => Err(e),
    }
}

/// Lists the chunks of the file whose bytes are `input`: returns the text
/// to print.
pub fn print_chunks(args: PrintArgs, input: &[u8]) -> (r: Result<String, Error>)
    ensures
        match printed(input@) {
            Ok(summary) => r matches Ok(text) && text@ == summary,
            Err(e) => r matches Err(f) && f == e,
        },
{
    match Png::from_bytes(input) {
        Ok(png) => Ok(png.to_string()),
        Err(e) => Err(e),
    }
}

/// What `encode` writes is read again as the chunks of the input with the
/// new chunk at their end, and the new chunk's payload reads as the message.
proof fn lemma_encoded_is_read(input: Seq<u8>, chunk_type: Seq<char>, message: Seq<char>)
    requires
        parse_png(input) is Ok,
        is_type_text(chunk_type),
        encode_utf8(message).len() <= u32::MAX,
    ensures
        ({
            let added = new_chunk(type_code_of(chunk_type), encode_utf8(message));
            let longer = parse_png(input)->Ok_0.push(added);
            &&& encoded(input, chunk_type, message) == Ok::<Seq<u8>, Error>(png_wire(longer))
            &&& parse_png(png_wire(longer)) == Ok::<Seq<ChunkView>, Error>(longer)
            &&& message_text(added.data) == message
        }),
{
    let chunks = parse_png(input)->Ok_0;
    let added = new_chunk(type_code_of(chunk_type), encode_utf8(message));
    let longer = chunks.push(added);
    lemma_png_wire_of_parse(input, chunks);
    assert(added.wf());
    assert(all_wf(longer)) by {
        assert forall|i: int| 0 <= i < longer.len() implies (#[trigger] longer[i]).wf() by {
            if i < chunks.len() {
                assert(longer[i] == chunks[i]);
            }
        }
    }
    lemma_png_round_trip(longer);
    encode_utf8_valid_utf8(message);
    encode_utf8_decode_utf8(message);
}

/// A message hidden by `encode`, under a type that the file had no chunk of,
/// is the message that `decode` finds when asked for that type.
pub proof fn lemma_encode_then_decode(input: Seq<u8>, chunk_type: Seq<char>, message: Seq<char>)
    requires
        parse_png(input) matches Ok(chunks) && first_where(chunks, has_type(chunk_type)) is None,
        is_type_text(chunk_type),
        encode_utf8(message).len() <= u32::MAX,
    ensures
        encoded(input, chunk_type, message) matches Ok(bytes) && decoded(bytes, Some(chunk_type))
            == Ok::<Seq<char>, Error>(message),
{
    let chunks = parse_png(input)->Ok_0;
    let added = new_chunk(type_code_of(chunk_type), encode_utf8(message));
    let longer = chunks.push(added);
    assert(type_text(added.type_code) =~= chunk_type);
    assert forall|j: int| 0 <= j < chunks.len() implies type_text((#[trigger] chunks[j]).type_code)
        != type_text(added.type_code) by {
        if type_text(chunks[j].type_code) == chunk_type {
            assert(has_type(chunk_type)(chunks[j]));
            lemma_first_where_some(chunks, has_type(chunk_type), j);
        }
    }
    lemma_append_then_remove(chunks, added);
    assert(first_where(longer, has_type(chunk_type)) == Some(chunks.len() as int));
    assert(longer[chunks.len() as int] == added);
    lemma_encoded_is_read(input, chunk_type, message);
}

/// A message hidden by `encode` under a type that is not a standard one, in
/// a file whose chunks are all of standard types, is the message that
/// `decode` comes upon when it is given no type.
pub proof fn lemma_encode_then_guess(input: Seq<u8>, chunk_type: Seq<char>, message: Seq<char>)
    requires
        parse_png(input) matches Ok(chunks) && forall|i: int|
            0 <= i < chunks.len() ==> is_listed(
                STANDARD_CHUNK_TYPES@,
                (#[trigger] chunks[i]).type_code,
            ),
        is_type_text(chunk_type),
        !is_listed(STANDARD_CHUNK_TYPES@, type_code_of(chunk_type)),
        encode_utf8(message).len() <= u32::MAX,
    ensures
        encoded(input, chunk_type, message) matches Ok(bytes) && decoded(bytes, None) == Ok::<
            Seq<char>,
            Error,
        >("potential hidden message: "@ + message),
{
    let chunks = parse_png(input)->Ok_0;
    let added = new_chunk(type_code_of(chunk_type), encode_utf8(message));
    let longer = chunks.push(added);
    let known = STANDARD_CHUNK_TYPES@;
    lemma_detect_after_append(chunks, known, added);
    assert(first_where(longer, is_unlisted(known)) == Some(chunks.len() as int));
    assert(longer[chunks.len() as int] == added);
    lemma_encoded_is_read(input, chunk_type, message);
}

/// Taking out the type of a message that `encode` has hidden, in a file
/// that had no chunk of that type, writes back the file as it was before.
pub proof fn lemma_encode_then_remove(input: Seq<u8>, chunk_type: Seq<char>, message: Seq<char>)
    requires
        parse_png(input) matches Ok(chunks) && first_where(chunks, has_type(chunk_type)) is None,
        is_type_text(chunk_type),
        encode_utf8(message).len() <= u32::MAX,
    ensures
        encoded(input, chunk_type, message) matches Ok(bytes) && removed(bytes, chunk_type)
            matches Ok(left) && png_wire(left) == input,
{
    let chunks = parse_png(input)->Ok_0;
    let added = new_chunk(type_code_of(chunk_type), encode_utf8(message));
    let longer = chunks.push(added);
    assert(type_text(added.type_code) =~= chunk_type);
    assert forall|j: int| 0 <= j < chunks.len() implies type_text((#[trigger] chunks[j]).type_code)
        != type_text(added.type_code) by {
        if type_text(chunks[j].type_code) == chunk_type {
            assert(has_type(chunk_type)(chunks[j]));
            lemma_first_where_some(chunks, has_type(chunk_type), j);
        }
    }
    lemma_append_then_remove(chunks, added);
    assert(first_where(longer, has_type(chunk_type)) == Some(chunks.len() as int));
    assert(longer.remove(chunks.len() as int) == chunks);
    lemma_encoded_is_read(input, chunk_type, message);
    lemma_png_wire_of_parse(input, chunks);
}

/// Of two chunks of one type, `remove` takes the first and leaves the
/// second, together with every other chunk, in the order they had.
pub proof fn lemma_remove_takes_the_first(chunks: Seq<ChunkView>, chunk_type: Seq<char>, i: int)
    requires
        all_wf(chunks),
        first_where(chunks, has_type(chunk_type)) == Some(i),
    ensures
        0 <= i < chunks.len(),
        removed(png_wire(chunks), chunk_type) == Ok::<Seq<ChunkView>, Error>(chunks.remove(i)),
        chunks.remove(i).len() == chunks.len() - 1,
        forall|j: int| 0 <= j < i ==> chunks.remove(i)[j] == chunks[j],
        forall|j: int| i <= j < chunks.len() - 1 ==> chunks.remove(i)[j] == chunks[j + 1],
{
    lemma_png_round_trip(chunks);
}

} // verus!
