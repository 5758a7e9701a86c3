//! The commands, as the command line hands them over.

use std::path::PathBuf;
use vstd::prelude::*;

verus! {

/// `std::path::PathBuf` of the standard library, made known to the verifier
/// as a type without contents: a path is carried from the command line to
/// the file system and never looked into.
#[verifier::external_type_specification]
#[verifier::external_body]
pub struct ExPathBuf(std::path::PathBuf);

/// One of the four commands, with its arguments.
#[derive(Debug)]
pub enum PngmeArgs {
    /// Hide a message in a file.
    Encode(EncodeArgs),
    /// Find a message in a file.
    Decode(DecodeArgs),
    /// Take a chunk out of a file.
    Remove(RemoveArgs),
    /// List the chunks of a file.
    Print(PrintArgs),
}

/// What `encode` is told.
#[derive(Debug)]
pub struct EncodeArgs {
    /// The file to read.
    pub file_path: PathBuf,
    /// The type of the chunk to add, as text.
    pub chunk_type: String,
    /// The message to put into the chunk.
    pub message: String,
    /// The file to write, where it is not the file that was read.
    pub output_file: Option<PathBuf>,
}

/// What `decode` is told.
#[derive(Debug)]
pub struct DecodeArgs {
    /// The file to read.
    pub file_path: PathBuf,
    /// The type of the chunk that holds the message, where it is known.
    pub chunk_type: Option<String>,
}

/// What `remove` is told.
#[derive(Debug)]
pub struct RemoveArgs {
    /// The file to read.
    pub file_path: PathBuf,
    /// The type of the chunk to take out, as text.
    pub chunk_type: String,
}

/// What `print_chunks` is told.
#[derive(Debug)]
pub struct PrintArgs {
    /// The file to read.
    pub file_path: PathBuf,
}

impl PngmeArgs {
    /// The file that the command reads.
    pub open spec fn spec_file_path(&self) -> PathBuf {
        match self {
            PngmeArgs::Encode(args) => args.file_path,
            PngmeArgs::Decode(args) => args.file_path,
            PngmeArgs::Remove(args) => args.file_path,
            PngmeArgs::Print(args) => args.file_path,
        }
    }

    /// The file that the command reads.
    pub fn file_path(&self) -> (path: &PathBuf)
        ensures
            *path == self.spec_file_path(),
    {
        match self {
            PngmeArgs::Encode(args) => &args.file_path,
            PngmeArgs::Decode(args) => &args.file_path,
            PngmeArgs::Remove(args) => &args.file_path,
            PngmeArgs::Print(args) => &args.file_path,
        }
    }
}

} // verus!
