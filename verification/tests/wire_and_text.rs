use pngme::error::{Error, ErrorKind};
use pngme::text::push_decimal;
use pngme::wire::{read_be32, write_be32};

#[test]
fn read_be32_is_most_significant_first() {
    let bytes = [0xaa, 0x01, 0x02, 0x03, 0x04, 0xbb];
    assert_eq!(read_be32(&bytes, 1), 0x01020304);
    assert_eq!(read_be32(&bytes, 0), 0xaa010203);
    assert_eq!(read_be32(&[0, 0, 0, 42], 0), 42);
    assert_eq!(read_be32(&[255, 255, 255, 255], 0), u32::MAX);
    assert_eq!(read_be32(&[0, 0, 1, 0], 0), 256);
}

#[test]
fn write_be32_appends_four_bytes() {
    let mut out = vec![9];
    write_be32(&mut out, 0x01020304);
    assert_eq!(out, vec![9, 1, 2, 3, 4]);
    write_be32(&mut out, 2882656334);
    assert_eq!(&out[5..], &2882656334u32.to_be_bytes());
    let mut zero = Vec::new();
    write_be32(&mut zero, 0);
    assert_eq!(zero, vec![0, 0, 0, 0]);
}

#[test]
fn be32_round_trip() {
    let samples = [
        0u32, 1, 255, 256, 65535, 65536, 0x00ff_ffff, 0x0100_0000, 0x7fff_ffff, 0x8000_0000,
        u32::MAX,
    ];
    for n in samples {
        let mut out = Vec::new();
        write_be32(&mut out, n);
        assert_eq!(out, n.to_be_bytes().to_vec());
        assert_eq!(read_be32(&out, 0), n);
    }
}

#[test]
fn decimal_text_has_no_leading_zeros() {
    for (n, text) in [
        (0u64, "0"),
        (7, "7"),
        (9, "9"),
        (10, "10"),
        (42, "42"),
        (100, "100"),
        (1009, "1009"),
        (2882656334, "2882656334"),
        (4294967295, "4294967295"),
        (u64::MAX, "18446744073709551615"),
    ] {
        let mut s = String::new();
        push_decimal(&mut s, n);
        assert_eq!(s, text);
    }
}

#[test]
fn decimal_text_is_put_behind_what_is_there() {
    let mut s = String::from("n = ");
    push_decimal(&mut s, 120);
    push_decimal(&mut s, 3);
    assert_eq!(s, "n = 1203");
}

#[test]
fn every_error_has_its_kind_and_message() {
    let all = [
        (
            Error::Truncated { needed: 8, available: 3 },
            ErrorKind::Format,
            "input ends before the field does",
        ),
        (Error::BadSignature, ErrorKind::Format, "not a PNG file: the signature is wrong"),
        (Error::CrcMismatch { stored: 1, computed: 2 }, ErrorKind::Validation, "crc is not valid"),
        (Error::BadChunkType, ErrorKind::Validation, "a chunk type is four ASCII letters"),
        (Error::ChunkNotFound, ErrorKind::NotFound, "no chunk of that type"),
        (Error::InvalidUtf8, ErrorKind::Encoding, "the chunk's data is not valid UTF-8"),
    ];
    for (error, kind, message) in all {
        assert_eq!(error.kind(), kind);
        assert_eq!(error.message(), message);
    }
}
