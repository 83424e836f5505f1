//! The numbers and names that the GGUF format fixes.
use vstd::prelude::*;

verus! {

/// The first four bytes of a file, `GGUF`, as a little-endian number.
pub const GGUF_MAGIC: u32 = 0x46554747;

pub const GGUF_TYPE_UINT8: u32 = 0;
pub const GGUF_TYPE_INT8: u32 = 1;
pub const GGUF_TYPE_UINT16: u32 = 2;
pub const GGUF_TYPE_INT16: u32 = 3;
pub const GGUF_TYPE_UINT32: u32 = 4;
pub const GGUF_TYPE_INT32: u32 = 5;
pub const GGUF_TYPE_FLOAT32: u32 = 6;
pub const GGUF_TYPE_BOOL: u32 = 7;
pub const GGUF_TYPE_STRING: u32 = 8;
pub const GGUF_TYPE_ARRAY: u32 = 9;
pub const GGUF_TYPE_UINT64: u32 = 10;
pub const GGUF_TYPE_INT64: u32 = 11;
pub const GGUF_TYPE_FLOAT64: u32 = 12;

/// The data section starts at a multiple of this.
pub const GGUF_ALIGNMENT: u64 = 32;

/// The vocabulary size of a file that gives none and whose embedding is empty.
pub const DEFAULT_GGUF_VOCAB_SIZE: usize = 262_144;

/// The per-head width of the `gemma4` architecture, whose metadata gives the
/// global key length instead.
pub const GEMMA4_GGUF_HEAD_DIM: u32 = 256;

} // verus!
