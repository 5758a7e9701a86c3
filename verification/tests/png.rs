use pngme::chunk::Chunk;
use pngme::chunk_type::ChunkType;
use pngme::constants::{STANDARD_CHUNK_TYPES, STANDARD_HEADER};
use pngme::error::{Error, ErrorKind};
use pngme::png::Png;

/// A picture of one transparent pixel: signature, IHDR, IDAT, IEND.
const ONE_PIXEL: [u8; 67] = [
    137, 80, 78, 71, 13, 10, 26, 10, 0, 0, 0, 13, 73, 72, 68, 82, 0, 0, 0, 1, 0, 0, 0, 1, 8, 6, 0,
    0, 0, 31, 21, 196, 137, 0, 0, 0, 10, 73, 68, 65, 84, 120, 156, 99, 0, 1, 0, 0, 5, 0, 1, 13, 10,
    45, 180, 0, 0, 0, 0, 73, 69, 78, 68, 174, 66, 96, 130,
];

fn chunk_from_strings(chunk_type: &str, data: &str) -> Chunk {
    Chunk::new(ChunkType::from_str(chunk_type).unwrap(), data.bytes().collect())
}

fn testing_chunks() -> Vec<Chunk> {
    vec![
        chunk_from_strings("FrSt", "I am the first chunk"),
        chunk_from_strings("miDl", "I am another chunk"),
        chunk_from_strings("LASt", "I am the last chunk"),
    ]
}

fn testing_png() -> Png {
    Png::from_chunks(testing_chunks())
}

fn types_of(png: &Png) -> Vec<String> {
    png.chunks().iter().map(|c| c.chunk_type().to_string()).collect()
}

#[test]
fn signature_is_the_png_one() {
    assert_eq!(STANDARD_HEADER, [0x89, b'P', b'N', b'G', b'\r', b'\n', 0x1a, b'\n']);
    assert_eq!(Png::new().header(), &STANDARD_HEADER);
}

#[test]
fn standard_types_are_valid_types() {
    assert_eq!(STANDARD_CHUNK_TYPES.len(), 18);
    for code in STANDARD_CHUNK_TYPES {
        assert!(ChunkType::try_from(code).unwrap().is_valid());
    }
    assert_eq!(&STANDARD_CHUNK_TYPES[0], b"IHDR");
    assert_eq!(&STANDARD_CHUNK_TYPES[3], b"IEND");
    assert!(STANDARD_CHUNK_TYPES.contains(b"tEXt"));
    assert!(!STANDARD_CHUNK_TYPES.contains(b"ruSt"));
}

#[test]
fn from_chunks_keeps_the_chunks() {
    let png = testing_png();
    assert_eq!(png.chunks().len(), 3);
    assert_eq!(types_of(&png), ["FrSt", "miDl", "LASt"]);
}

#[test]
fn empty_png_is_the_signature() {
    let png = Png::new();
    assert_eq!(png.chunks().len(), 0);
    assert_eq!(png.as_bytes(), STANDARD_HEADER.to_vec());
    let again = Png::from_bytes(&STANDARD_HEADER).unwrap();
    assert_eq!(again.chunks().len(), 0);
}

#[test]
fn valid_from_bytes() {
    let chunk_bytes: Vec<u8> = testing_chunks().into_iter().flat_map(|c| c.as_bytes()).collect();
    let bytes: Vec<u8> = STANDARD_HEADER.iter().chain(chunk_bytes.iter()).copied().collect();
    let png = Png::from_bytes(bytes.as_ref()).unwrap();
    assert_eq!(types_of(&png), ["FrSt", "miDl", "LASt"]);
    assert_eq!(png.chunks()[1].data_as_string().unwrap(), "I am another chunk");
}

#[test]
fn one_pixel_file_is_read() {
    let png = Png::from_bytes(&ONE_PIXEL).unwrap();
    assert_eq!(types_of(&png), ["IHDR", "IDAT", "IEND"]);
    assert_eq!(png.chunks()[0].length(), 13);
    assert_eq!(png.chunks()[0].crc(), 521520265);
    assert_eq!(png.chunks()[1].data(), &[120, 156, 99, 0, 1, 0, 0, 5, 0, 1]);
    assert_eq!(png.chunks()[2].length(), 0);
    assert_eq!(png.as_bytes(), ONE_PIXEL.to_vec());
}

#[test]
fn invalid_header() {
    let chunk_bytes: Vec<u8> = testing_chunks().into_iter().flat_map(|c| c.as_bytes()).collect();
    let bytes: Vec<u8> =
        [13, 80, 78, 71, 13, 10, 26, 10].iter().chain(chunk_bytes.iter()).copied().collect();
    let err = Png::from_bytes(bytes.as_ref()).unwrap_err();
    assert_eq!(err, Error::BadSignature);
    assert_eq!(err.kind(), ErrorKind::Format);
}

#[test]
fn every_byte_of_the_signature_is_checked() {
    for at in 0..8 {
        let mut bytes = ONE_PIXEL.to_vec();
        bytes[at] ^= 1;
        assert_eq!(Png::from_bytes(&bytes).unwrap_err(), Error::BadSignature);
    }
}

#[test]
fn input_shorter_than_the_signature() {
    for have in 0..8 {
        let err = Png::from_bytes(&ONE_PIXEL[..have]).unwrap_err();
        assert_eq!(err, Error::Truncated { needed: 8, available: have as u64 });
    }
}

#[test]
fn invalid_chunk_fails_the_file() {
    let mut chunk_bytes: Vec<u8> =
        testing_chunks().into_iter().flat_map(|c| c.as_bytes()).collect();
    let at = chunk_bytes.len() - 1;
    chunk_bytes[at] ^= 1;
    let bytes: Vec<u8> = STANDARD_HEADER.iter().chain(chunk_bytes.iter()).copied().collect();
    let err = Png::from_bytes(bytes.as_ref()).unwrap_err();
    assert!(matches!(err, Error::CrcMismatch { .. }));
}

#[test]
fn cut_file_fails() {
    for have in 9..ONE_PIXEL.len() {
        if have == 33 || have == 55 {
            // The cut falls between two chunks: what is left is a shorter file.
            assert!(Png::from_bytes(&ONE_PIXEL[..have]).is_ok());
            continue;
        }
        let err = Png::from_bytes(&ONE_PIXEL[..have]).unwrap_err();
        assert_eq!(err.kind(), ErrorKind::Format);
        assert!(matches!(err, Error::Truncated { .. }));
    }
    let err = Png::from_bytes(&ONE_PIXEL[..20]).unwrap_err();
    assert_eq!(err, Error::Truncated { needed: 25, available: 12 });
    let err = Png::from_bytes(&ONE_PIXEL[..36]).unwrap_err();
    assert_eq!(err, Error::Truncated { needed: 8, available: 3 });
}

#[test]
fn bytes_behind_the_last_chunk_fail_the_file() {
    let mut bytes = ONE_PIXEL.to_vec();
    bytes.extend_from_slice(&[0, 0, 0]);
    let err = Png::from_bytes(&bytes).unwrap_err();
    assert_eq!(err, Error::Truncated { needed: 8, available: 3 });
}

#[test]
fn chunks_behind_the_end_marker_are_read() {
    let mut bytes = ONE_PIXEL.to_vec();
    bytes.extend_from_slice(&chunk_from_strings("ruSt", "hello").as_bytes());
    let png = Png::from_bytes(&bytes).unwrap();
    assert_eq!(types_of(&png), ["IHDR", "IDAT", "IEND", "ruSt"]);
}

#[test]
fn file_without_an_end_marker_is_read() {
    let png = Png::from_bytes(&ONE_PIXEL[..55]).unwrap();
    assert_eq!(types_of(&png), ["IHDR", "IDAT"]);
}

#[test]
fn list_chunks() {
    let png = testing_png();
    let chunks = png.chunks();
    assert_eq!(chunks.len(), 3);
}

#[test]
fn chunk_by_type() {
    let png = testing_png();
    let chunk = png.chunk_by_type("FrSt").unwrap();
    assert_eq!(&chunk.chunk_type().to_string(), "FrSt");
    assert_eq!(&chunk.data_as_string().unwrap(), "I am the first chunk");
}

#[test]
fn chunk_by_type_is_the_first_of_that_type() {
    let mut png = testing_png();
    png.append_chunk(chunk_from_strings("miDl", "I am a later chunk"));
    let chunk = png.chunk_by_type("miDl").unwrap();
    assert_eq!(chunk.data_as_string().unwrap(), "I am another chunk");
}

#[test]
fn chunk_by_type_of_an_absent_type() {
    let png = testing_png();
    assert!(png.chunk_by_type("TeSt").is_none());
    assert!(png.chunk_by_type("frSt").is_none());
    assert!(png.chunk_by_type("FrS").is_none());
    assert!(png.chunk_by_type("FrStX").is_none());
    assert!(png.chunk_by_type("").is_none());
}

#[test]
fn append_chunk() {
    let mut png = testing_png();
    png.append_chunk(chunk_from_strings("TeSt", "Message"));
    let chunk = png.chunk_by_type("TeSt").unwrap();
    assert_eq!(&chunk.chunk_type().to_string(), "TeSt");
    assert_eq!(&chunk.data_as_string().unwrap(), "Message");
    assert_eq!(types_of(&png), ["FrSt", "miDl", "LASt", "TeSt"]);
}

#[test]
fn remove_first_chunk() {
    let mut png = testing_png();
    png.append_chunk(chunk_from_strings("TeSt", "Message"));
    let removed = png.remove_first_chunk("TeSt").unwrap();
    assert_eq!(removed.data_as_string().unwrap(), "Message");
    let chunk = png.chunk_by_type("TeSt");
    assert!(chunk.is_none());
}

#[test]
fn append_then_remove_restores_the_file() {
    let mut png = testing_png();
    let before = png.as_bytes();
    png.append_chunk(chunk_from_strings("TeSt", "Message"));
    assert_ne!(png.as_bytes(), before);
    png.remove_first_chunk("TeSt").unwrap();
    assert_eq!(png.as_bytes(), before);
    assert_eq!(types_of(&png), ["FrSt", "miDl", "LASt"]);
}

#[test]
fn remove_takes_the_first_of_a_type_and_keeps_the_order() {
    let mut png = testing_png();
    png.append_chunk(chunk_from_strings("miDl", "I am a later chunk"));
    let removed = png.remove_first_chunk("miDl").unwrap();
    assert_eq!(removed.data_as_string().unwrap(), "I am another chunk");
    assert_eq!(types_of(&png), ["FrSt", "LASt", "miDl"]);
    assert_eq!(png.chunk_by_type("miDl").unwrap().data_as_string().unwrap(), "I am a later chunk");
}

#[test]
fn remove_of_an_absent_type_changes_nothing() {
    let mut png = testing_png();
    let before = png.as_bytes();
    let err = png.remove_first_chunk("TeSt").unwrap_err();
    assert_eq!(err, Error::ChunkNotFound);
    assert_eq!(err.kind(), ErrorKind::NotFound);
    assert_eq!(png.as_bytes(), before);
    assert_eq!(png.chunks().len(), 3);
}

#[test]
fn png_round_trip() {
    let png = testing_png();
    let bytes = png.as_bytes();
    let again = Png::from_bytes(&bytes).unwrap();
    assert_eq!(again.chunks().len(), 3);
    for (a, b) in png.chunks().iter().zip(again.chunks()) {
        assert_eq!(a.length(), b.length());
        assert_eq!(a.chunk_type(), b.chunk_type());
        assert_eq!(a.data(), b.data());
        assert_eq!(a.crc(), b.crc());
    }
    assert_eq!(again.as_bytes(), bytes);
}

#[test]
fn as_bytes_is_signature_then_chunks() {
    let png = testing_png();
    let mut expected = STANDARD_HEADER.to_vec();
    for chunk in testing_chunks() {
        expected.extend_from_slice(&chunk.as_bytes());
    }
    assert_eq!(png.as_bytes(), expected);
    assert_eq!(png.as_bytes().len(), 8 + 3 * 12 + 20 + 18 + 19);
}

#[test]
fn message_appended_to_a_picture_is_read_back() {
    let mut png = Png::from_bytes(&ONE_PIXEL).unwrap();
    png.append_chunk(chunk_from_strings("ruSt", "hello"));
    let bytes = png.as_bytes();
    assert_eq!(bytes.len(), 67 + 17);
    let again = Png::from_bytes(&bytes).unwrap();
    assert_eq!(again.chunk_by_type("ruSt").unwrap().data_as_string().unwrap(), "hello");
}

#[test]
fn auto_chunk_detect_finds_nothing_among_standard_types() {
    let png = Png::from_bytes(&ONE_PIXEL).unwrap();
    assert!(png.auto_chunk_detect().is_none());
    assert!(Png::new().auto_chunk_detect().is_none());
    let mut all = Png::new();
    for code in STANDARD_CHUNK_TYPES {
        all.append_chunk(Chunk::new(ChunkType::try_from(code).unwrap(), vec![1, 2, 3]));
    }
    assert_eq!(all.chunks().len(), 18);
    assert!(all.auto_chunk_detect().is_none());
}

#[test]
fn auto_chunk_detect_finds_the_added_chunk() {
    let mut png = Png::from_bytes(&ONE_PIXEL).unwrap();
    png.append_chunk(chunk_from_strings("ruSt", "hello"));
    let found = png.auto_chunk_detect().unwrap();
    assert_eq!(found.chunk_type().to_string(), "ruSt");
    assert_eq!(found.data_as_string().unwrap(), "hello");
}

#[test]
fn auto_chunk_detect_finds_the_first_of_several() {
    let mut png = Png::new();
    png.append_chunk(chunk_from_strings("IHDR", ""));
    png.append_chunk(chunk_from_strings("ihdr", "lower case is another type"));
    png.append_chunk(chunk_from_strings("ruSt", "hello"));
    png.append_chunk(chunk_from_strings("IEND", ""));
    assert_eq!(png.auto_chunk_detect().unwrap().chunk_type().to_string(), "ihdr");
}

#[test]
fn first_chunk_outside_a_table_of_ones_own() {
    let png = testing_png();
    assert_eq!(png.first_chunk_outside(&[]).unwrap().chunk_type().to_string(), "FrSt");
    assert_eq!(png.first_chunk_outside(&[*b"FrSt"]).unwrap().chunk_type().to_string(), "miDl");
    assert_eq!(
        png.first_chunk_outside(&[*b"miDl", *b"FrSt"]).unwrap().chunk_type().to_string(),
        "LASt"
    );
    assert!(png.first_chunk_outside(&[*b"LASt", *b"miDl", *b"FrSt"]).is_none());
}

#[test]
fn png_summary_is_exact() {
    let png = Png::from_bytes(&ONE_PIXEL).unwrap();
    assert_eq!(
        png.to_string(),
        "Header: [137, 80, 78, 71, 13, 10, 26, 10]\n\
         Data {\nLength: 13\nType: IHDR\nData 13 bytes\nCrc: 521520265\n}\n\
         Data {\nLength: 10\nType: IDAT\nData 10 bytes\nCrc: 218770868\n}\n\
         Data {\nLength: 0\nType: IEND\nData 0 bytes\nCrc: 2923585666\n}"
    );
    assert_eq!(Png::new().to_string(), "Header: [137, 80, 78, 71, 13, 10, 26, 10]");
}
