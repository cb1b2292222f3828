//! Writing traces.

pub mod compressed_writer;
