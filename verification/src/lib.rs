//! Reading, editing and writing the chunk stream of a PNG file, so that a
//! message can be hidden in an extra chunk and found again.

pub mod args;
pub mod checksum;
pub mod chunk;
pub mod chunk_type;
pub mod commands;
pub mod constants;
pub mod error;
pub mod png;
pub mod text;
pub mod wire;

use crate::args::PngmeArgs;
use crate::commands::{
    decode, decoded, encode, encoded, print_chunks, printed, remove, removed, target, text_of,
};
use crate::error::Error;
use crate::png::png_wire;
use std::path::PathBuf;
use vstd::prelude::*;

verus! {

/// What is left to do when a command has run.
#[derive(Debug)]
pub enum Outcome {
    /// Write `bytes` to the file at `path`.
    Write { path: PathBuf, bytes: Vec<u8> },
    /// Print `text` on a line of its own.
    Print { text: String },
}

/// An outcome, as mathematics.
pub enum OutcomeView {
    /// Write `bytes` to the file at `path`.
    Write { path: PathBuf, bytes: Seq<u8> },
    /// Print `text` on a line of its own.
    Print { text: Seq<char> },
}

impl View for Outcome {
    type V = OutcomeView;

    open spec fn view(&self) -> OutcomeView {
        match self {
            Outcome::Write { path, bytes } => OutcomeView::Write { path: *path, bytes: bytes@ },
            Outcome::Print { text } => OutcomeView::Print { text: text@ },
        }
    }
}

/// What `command` comes to on the file whose bytes are `input`. Hiding a
/// message and taking a chunk out both end in a write of the changed file;
/// finding a message and listing the chunks end in a line to print.
pub open spec fn ran(command: PngmeArgs, input: Seq<u8>) -> Result<OutcomeView, Error> {
    match command {
        PngmeArgs::Encode(args) => match encoded(input, args.chunk_type@, args.message@) {
            Ok(bytes) => Ok(OutcomeView::Write { path: target(args), bytes }),
            Err(e) => Err(e),
        },
        PngmeArgs::Decode(args) => match decoded(input, text_of(args.chunk_type)) {
            Ok(text) => Ok(OutcomeView::Print { text }),
            Err(e) => Err(e),
        },
        PngmeArgs::Remove(args) => match removed(input, args.chunk_type@) {
            Ok(chunks) => Ok(OutcomeView::Write { path: args.file_path, bytes: png_wire(chunks) }),
            Err(e) => Err(e),
        },
        PngmeArgs::Print(_) => match printed(input) {
            Ok(text) => Ok(OutcomeView::Print { text }),
            Err(e) => Err(e),
        },
    }
}

/// Runs `command` on the file whose bytes are `input`, which the caller has
/// read from `command.file_path()`, and returns what is left for the caller
/// to do.
pub fn run(command: PngmeArgs, input: &[u8]) -> (r: Result<Outcome, Error>)
    ensures
        match ran(command, input@) {
            Ok(outcome) => r matches Ok(o) && o@ == outcome,
            Err(e) => r matches Err(f) && f == e,
        },
{
    match command {
        PngmeArgs::Encode(args) => match encode(args, input) {
            Ok((path, bytes)) => Ok(Outcome::Write { path, bytes }),
            Err(e) => Err(e),
        },
        PngmeArgs::Decode(args) => match decode(args, input) {
            Ok(text) => Ok(Outcome::Print { text }),
            Err(e) => Err(e),
        },
        PngmeArgs::Remove(args) => match remove(args, input) {
            Ok((path, bytes)) => Ok(Outcome::Write { path, bytes }),
            Err(e) => Err(e),
        },
        PngmeArgs::Print(args) => match print_chunks(args, input) {
            Ok(text) => Ok(Outcome::Print { text }),
            Err(e) => Err(e),
        },
    }
}

} // verus!
