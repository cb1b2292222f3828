//! The types of the compressed trace writer's interface. A trace file is a
//! run of blocks, each compressed by itself and preceded by a header of two
//! 32-bit words.
use vstd::prelude::*;

verus! {

/// Whether a write waits until the data has reached the file.
#[derive(Clone, Copy, Debug, PartialEq, Eq, Structural)]
pub enum Sync {
    DontSync,
    Sync,
}

/// Whether the producer waits for the compressing threads.
#[derive(Clone, Copy, Debug, PartialEq, Eq, Structural)]
pub enum WaitFlag {
    Wait,
    NoWait,
}

/// What precedes each block in the file: the length of the compressed data
/// that follows, header excluded, and the length it has when uncompressed.
#[derive(Clone, Copy, Debug, PartialEq, Eq, Structural)]
pub struct BlockHeader {
    pub compressed_length: u32,
    pub uncompressed_length: u32,
}

/// Opens an output file and writes blocks of compressed data to it.
#[derive(Debug)]
pub struct CompressedWriter;

} // verus!
