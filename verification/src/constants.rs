//! The fixed values of the format.

use vstd::prelude::*;

verus! {

/// The eight bytes that every PNG file starts with.
pub const STANDARD_HEADER: [u8; 8] = [137, 80, 78, 71, 13, 10, 26, 10];

/// The chunk types that the PNG standard defines, critical ones first. A
/// chunk of any other type is an addition to the image, such as a hidden
/// message.
pub const STANDARD_CHUNK_TYPES: [[u8; 4]; 18] = [
    [73, 72, 68, 82],  // IHDR
    [80, 76, 84, 69],  // PLTE
    [73, 68, 65, 84],  // IDAT
    [73, 69, 78, 68],  // IEND
    [116, 82, 78, 83],  // tRNS
    [99, 72, 82, 77],  // cHRM
    [103, 65, 77, 65],  // gAMA
    [105, 67, 67, 80],  // iCCP
    [115, 66, 73, 84],  // sBIT
    [115, 82, 71, 66],  // sRGB
    [116, 69, 88, 116],  // tEXt
    [122, 84, 88, 116],  // zTXt
    [105, 84, 88, 116],  // iTXt
    [98, 75, 71, 68],  // bKGD
    [104, 73, 83, 84],  // hIST
    [112, 72, 89, 115],  // pHYs
    [115, 80, 76, 84],  // sPLT
    [116, 73, 77, 69],  // tIME
];

} // verus!
