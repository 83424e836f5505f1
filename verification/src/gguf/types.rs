//! The parts of a GGUF file: metadata values, tensor descriptions, shards.
use vstd::prelude::*;

use crate::table::TextMap;

verus! {

/// A metadata value.  Floating-point numbers are kept as their IEEE 754 bit
/// patterns.
#[derive(Debug)]
pub enum GgufValue {
    U8(u8),
    I8(i8),
    U16(u16),
    I16(i16),
    U32(u32),
    I32(i32),
    /// The bits of a single-precision number.
    F32(u32),
    Bool(bool),
    String(String),
    U64(u64),
    I64(i64),
    /// The bits of a double-precision number.
    F64(u64),
    Array(Vec<GgufValue>),
}

/// What a [`GgufValue`] holds, as plain values.
pub enum Datum {
    U8(u8),
    I8(i8),
    U16(u16),
    I16(i16),
    U32(u32),
    I32(i32),
    F32(u32),
    Bool(bool),
    Text(Seq<char>),
    U64(u64),
    I64(i64),
    F64(u64),
    Array(Seq<Datum>),
}

impl View for GgufValue {
    type V = Datum;

    open spec fn view(&self) -> Datum
        decreases self,
    {
        match self {
            GgufValue::U8(v) => Datum::U8(*v),
            GgufValue::I8(v) => Datum::I8(*v),
            GgufValue::U16(v) => Datum::U16(*v),
            GgufValue::I16(v) => Datum::I16(*v),
            GgufValue::U32(v) => Datum::U32(*v),
            GgufValue::I32(v) => Datum::I32(*v),
            GgufValue::F32(v) => Datum::F32(*v),
            GgufValue::Bool(v) => Datum::Bool(*v),
            GgufValue::String(s) => Datum::Text(s@),
            GgufValue::U64(v) => Datum::U64(*v),
            GgufValue::I64(v) => Datum::I64(*v),
            GgufValue::F64(v) => Datum::F64(*v),
            GgufValue::Array(a) => Datum::Array(
                Seq::new(
                    a@.len(),
                    |i: int|
                        if 0 <= i < a@.len() {
                            a@[i].view()
                        } else {
                            arbitrary()
                        },
                ),
            ),
        }
    }
}

/// A floating-point number of either width, as its bits.
#[derive(Debug, Clone, Copy, PartialEq, Eq, Structural)]
pub enum FloatBits {
    Single(u32),
    Double(u64),
}

/// The number that a datum gives where 32 unsigned bits are wanted: the low
/// 32 bits of the three integer kinds that may stand there.
pub open spec fn datum_u32(d: Datum) -> Option<int> {
    match d {
        Datum::U32(v) => Some(v as int),
        Datum::I32(v) => Some(if v >= 0 {
            v as int
        } else {
            v + 0x1_0000_0000
        }),
        Datum::U64(v) => Some(v as int % 0x1_0000_0000),
        _ => None,
    }
}

/// The text of a text datum.
pub open spec fn datum_text(d: Datum) -> Option<Seq<char>> {
    match d {
        Datum::Text(s) => Some(s),
        _ => None,
    }
}

/// The bits of a floating-point datum.
pub open spec fn datum_float(d: Datum) -> Option<FloatBits> {
    match d {
        Datum::F32(v) => Some(FloatBits::Single(v)),
        Datum::F64(v) => Some(FloatBits::Double(v)),
        _ => None,
    }
}

impl GgufValue {
    /// The low 32 bits of a 32-bit or unsigned 64-bit integer.
    pub fn as_u32(&self) -> (r: Option<u32>)
        ensures
            match r {
                Some(n) => datum_u32(self@) == Some(n as int),
                None => datum_u32(self@) is None,
            },
    {
        match self {
            GgufValue::U32(v) => Some(*v),
            GgufValue::I32(v) => Some(
                if *v >= 0 {
                    *v as u32
                } else {
                    (*v as i64 + 0x1_0000_0000) as u32
                },
            ),
            GgufValue::U64(v) => Some((*v % 0x1_0000_0000) as u32),
            _ => None,
        }
    }

    /// The text of a string value.
    pub fn as_str(&self) -> (r: Option<&str>)
        ensures
            match r {
                Some(s) => datum_text(self@) == Some(s@),
                None => datum_text(self@) is None,
            },
    {
        match self {
            GgufValue::String(s) => Some(s.as_str()),
            _ => None,
        }
    }

    /// The bits of a floating-point value, in the width in which it is kept.
    pub fn as_f64(&self) -> (r: Option<FloatBits>)
        ensures
            r == datum_float(self@),
    {
        match self {
            GgufValue::F32(v) => Some(FloatBits::Single(*v)),
            GgufValue::F64(v) => Some(FloatBits::Double(*v)),
            _ => None,
        }
    }
}

/// The description of one tensor.
#[derive(Debug)]
pub struct GgufTensorInfo {
    pub name: String,
    pub n_dims: u32,
    pub dims: Vec<u64>,
    pub tensor_type: u32,
    pub offset: u64,
    /// The file of the split that holds the tensor's data; 0 where there is
    /// only one.
    pub shard_idx: usize,
}

/// What a [`GgufTensorInfo`] says, as plain values.
pub struct TensorDesc {
    pub name: Seq<char>,
    pub n_dims: nat,
    pub dims: Seq<u64>,
    pub tensor_type: u32,
    pub offset: u64,
    pub shard_idx: nat,
}

impl View for GgufTensorInfo {
    type V = TensorDesc;

    open spec fn view(&self) -> TensorDesc {
        TensorDesc {
            name: self.name@,
            n_dims: self.n_dims as nat,
            dims: self.dims@,
            tensor_type: self.tensor_type,
            offset: self.offset,
            shard_idx: self.shard_idx as nat,
        }
    }
}

impl GgufTensorInfo {
    /// The name as the file has it, such as `blk.0.attn_q.weight`.
    pub fn name(&self) -> (r: &str)
        ensures
            r@ == self@.name,
    {
        self.name.as_str()
    }

    /// The number of dimensions.
    pub fn n_dims(&self) -> (r: u32)
        ensures
            r == self@.n_dims,
    {
        self.n_dims
    }

    /// The extents, the fastest-moving first.
    pub fn dims(&self) -> (r: &[u64])
        ensures
            r@ == self@.dims,
    {
        self.dims.as_slice()
    }

    /// The id of the element encoding.
    pub fn tensor_type(&self) -> (r: u32)
        ensures
            r == self@.tensor_type,
    {
        self.tensor_type
    }

    /// Where the data starts, counted from the start of its file's data
    /// section.
    pub fn offset(&self) -> (r: u64)
        ensures
            r == self@.offset,
    {
        self.offset
    }

    /// The file of the split that holds the data.
    pub fn shard_idx(&self) -> (r: usize)
        ensures
            r == self@.shard_idx,
    {
        self.shard_idx
    }
}

/// The descriptions that a list of tensor infos gives.
pub open spec fn descs(v: Seq<GgufTensorInfo>) -> Seq<TensorDesc> {
    v.map_values(|t: GgufTensorInfo| t@)
}

/// One file of a (possibly split) model.
#[derive(Debug)]
pub struct ShardInfo {
    /// The path of the file.
    pub path: String,
    /// Where the file's data section starts.
    pub data_offset: u64,
}

/// What a list of [`ShardInfo`] says: each path with its data offset.
pub open spec fn shard_list(v: Seq<ShardInfo>) -> Seq<(Seq<char>, u64)> {
    v.map_values(|s: ShardInfo| (s.path@, s.data_offset))
}

/// The header of a model file, or of a model split over several files.
pub struct GgufFile {
    pub metadata: TextMap<GgufValue>,
    pub tensor_infos: Vec<GgufTensorInfo>,
    /// The data offset of the first (or only) file.
    pub data_offset: u64,
    /// The path of the file that was opened.
    pub path: String,
    /// All files of the model; never empty.
    pub shards: Vec<ShardInfo>,
}

} // verus!
