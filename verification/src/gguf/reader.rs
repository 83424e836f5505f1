//! Reading GGUF values out of bytes.
//!
//! Each reading is modelled by a spec function of the bytes and of the index
//! at which it starts: the value with the index behind it, or the failure.
use vstd::prelude::*;
use vstd::utf8::{decode_utf8, valid_utf8};

use crate::error::{Fault, ModelError};
use crate::gguf::constants::{
    GGUF_TYPE_ARRAY, GGUF_TYPE_BOOL, GGUF_TYPE_FLOAT32, GGUF_TYPE_FLOAT64, GGUF_TYPE_INT16,
    GGUF_TYPE_INT32, GGUF_TYPE_INT64, GGUF_TYPE_INT8, GGUF_TYPE_STRING, GGUF_TYPE_UINT16,
    GGUF_TYPE_UINT32, GGUF_TYPE_UINT64, GGUF_TYPE_UINT8,
};
use crate::gguf::types::{Datum, GgufValue};
use crate::text::{concat, decimal, decimal_string};

verus! {

/// Bytes with the index of the next one to read.
pub struct ByteReader<'a> {
    pub bytes: &'a [u8],
    pub pos: usize,
}

impl<'a> ByteReader<'a> {
    /// The next index lies within the bytes or just behind them.
    pub open spec fn wf(&self) -> bool {
        self.pos <= self.bytes@.len()
    }

    /// A reader at the start of `bytes`.
    pub fn new(bytes: &'a [u8]) -> (r: ByteReader<'a>)
        ensures
            r.wf(),
            r.bytes == bytes,
            r.pos == 0,
    {
        ByteReader { bytes, pos: 0 }
    }
}

/// The reading `x` gave `v` and ended at `pos`.
pub open spec fn gave<T>(x: Result<(T, int), Fault>, v: T, pos: int) -> bool {
    x == Ok::<(T, int), Fault>((v, pos))
}

/// The reading `x` failed with `e`.
pub open spec fn failed<T>(x: Result<(T, int), Fault>, e: Fault) -> bool {
    x == Err::<(T, int), Fault>(e)
}

/// What the reading `x` does to a reader: it goes forward over the same bytes
/// and gives what `x` says.
pub open spec fn reading<T>(
    before: ByteReader<'_>,
    after: ByteReader<'_>,
    x: Result<(T, int), Fault>,
    r: Result<T, ModelError>,
) -> bool {
    &&& after.wf()
    &&& after.bytes == before.bytes
    &&& before.pos <= after.pos
    &&& match r {
        Ok(v) => gave(x, v, after.pos as int),
        Err(e) => failed(x, e@),
    }
}

/// Two bytes, the low one first.
pub open spec fn le_u16(b: Seq<u8>, p: int) -> int {
    b[p] + 0x100 * b[p + 1]
}

/// Four bytes, the low one first.
pub open spec fn le_u32(b: Seq<u8>, p: int) -> int {
    le_u16(b, p) + 0x1_0000 * le_u16(b, p + 2)
}

/// Eight bytes, the low one first.
pub open spec fn le_u64(b: Seq<u8>, p: int) -> int {
    le_u32(b, p) + 0x1_0000_0000 * le_u32(b, p + 4)
}

/// The signed number of `bits` two's-complement bits that has the unsigned
/// value `v`, where `half` is the weight of the sign bit.
pub open spec fn signed(v: int, half: int) -> int {
    if v < half {
        v
    } else {
        v - 2 * half
    }
}

pub open spec fn u8_at(b: Seq<u8>, p: int) -> Result<(u8, int), Fault> {
    if p + 1 <= b.len() {
        Ok((b[p], p + 1))
    } else {
        Err(Fault::Io)
    }
}

pub open spec fn i8_at(b: Seq<u8>, p: int) -> Result<(i8, int), Fault> {
    if p + 1 <= b.len() {
        Ok((signed(b[p] as int, 0x80) as i8, p + 1))
    } else {
        Err(Fault::Io)
    }
}

pub open spec fn u16_at(b: Seq<u8>, p: int) -> Result<(u16, int), Fault> {
    if p + 2 <= b.len() {
        Ok((le_u16(b, p) as u16, p + 2))
    } else {
        Err(Fault::Io)
    }
}

pub open spec fn i16_at(b: Seq<u8>, p: int) -> Result<(i16, int), Fault> {
    if p + 2 <= b.len() {
        Ok((signed(le_u16(b, p), 0x8000) as i16, p + 2))
    } else {
        Err(Fault::Io)
    }
}

pub open spec fn u32_at(b: Seq<u8>, p: int) -> Result<(u32, int), Fault> {
    if p + 4 <= b.len() {
        Ok((le_u32(b, p) as u32, p + 4))
    } else {
        Err(Fault::Io)
    }
}

pub open spec fn i32_at(b: Seq<u8>, p: int) -> Result<(i32, int), Fault> {
    if p + 4 <= b.len() {
        Ok((signed(le_u32(b, p), 0x8000_0000) as i32, p + 4))
    } else {
        Err(Fault::Io)
    }
}

pub open spec fn u64_at(b: Seq<u8>, p: int) -> Result<(u64, int), Fault> {
    if p + 8 <= b.len() {
        Ok((le_u64(b, p) as u64, p + 8))
    } else {
        Err(Fault::Io)
    }
}

pub open spec fn i64_at(b: Seq<u8>, p: int) -> Result<(i64, int), Fault> {
    if p + 8 <= b.len() {
        Ok((signed(le_u64(b, p), 0x8000_0000_0000_0000) as i64, p + 8))
    } else {
        Err(Fault::Io)
    }
}

/// What the standard library says of bytes that are not UTF-8.
pub uninterp spec fn utf8_error_text(b: Seq<u8>) -> Seq<char>;

/// A text: its length in bytes, then the bytes, which must be UTF-8.
pub open spec fn text_at(b: Seq<u8>, p: int) -> Result<(Seq<char>, int), Fault> {
    match u64_at(b, p) {
        Err(e) => Err(e),
        Ok((n, q)) => if q + n > b.len() {
            Err(Fault::Io)
        } else {
            let raw = b.subrange(q, q + n);
            if valid_utf8(raw) {
                Ok((decode_utf8(raw), q + n))
            } else {
                Err(Fault::Parse(utf8_error_text(raw)))
            }
        },
    }
}

/// A reading with its value put into a datum.
pub open spec fn datum_of<T>(x: Result<(T, int), Fault>, f: spec_fn(T) -> Datum) -> Result<
    (Datum, int),
    Fault,
> {
    match x {
        Ok((v, q)) => Ok((f(v), q)),
        Err(e) => Err(e),
    }
}

/// A single value of the type `t`; nothing for a type that has none.
pub open spec fn scalar_at(b: Seq<u8>, p: int, t: u32) -> Option<Result<(Datum, int), Fault>> {
    if t == GGUF_TYPE_UINT8 {
        Some(datum_of(u8_at(b, p), |v: u8| Datum::U8(v)))
    } else if t == GGUF_TYPE_INT8 {
        Some(datum_of(i8_at(b, p), |v: i8| Datum::I8(v)))
    } else if t == GGUF_TYPE_UINT16 {
        Some(datum_of(u16_at(b, p), |v: u16| Datum::U16(v)))
    } else if t == GGUF_TYPE_INT16 {
        Some(datum_of(i16_at(b, p), |v: i16| Datum::I16(v)))
    } else if t == GGUF_TYPE_UINT32 {
        Some(datum_of(u32_at(b, p), |v: u32| Datum::U32(v)))
    } else if t == GGUF_TYPE_INT32 {
        Some(datum_of(i32_at(b, p), |v: i32| Datum::I32(v)))
    } else if t == GGUF_TYPE_FLOAT32 {
        Some(datum_of(u32_at(b, p), |v: u32| Datum::F32(v)))
    } else if t == GGUF_TYPE_BOOL {
        Some(datum_of(u8_at(b, p), |v: u8| Datum::Bool(v != 0)))
    } else if t == GGUF_TYPE_STRING {
        Some(datum_of(text_at(b, p), |v: Seq<char>| Datum::Text(v)))
    } else if t == GGUF_TYPE_UINT64 {
        Some(datum_of(u64_at(b, p), |v: u64| Datum::U64(v)))
    } else if t == GGUF_TYPE_INT64 {
        Some(datum_of(i64_at(b, p), |v: i64| Datum::I64(v)))
    } else if t == GGUF_TYPE_FLOAT64 {
        Some(datum_of(u64_at(b, p), |v: u64| Datum::F64(v)))
    } else {
        None
    }
}

/// An array element of the type `t`.
pub open spec fn element_at(b: Seq<u8>, p: int, t: u32) -> Result<(Datum, int), Fault> {
    match scalar_at(b, p, t) {
        Some(x) => x,
        None => Err(Fault::Parse("unknown GGUF array element type: "@ + decimal(t as nat))),
    }
}

/// `n` array elements of the type `t` in a row.
pub open spec fn elements_at(b: Seq<u8>, p: int, t: u32, n: nat) -> Result<(Seq<Datum>, int), Fault>
    decreases n,
{
    if n == 0 {
        Ok((Seq::empty(), p))
    } else {
        match elements_at(b, p, t, (n - 1) as nat) {
            Err(e) => Err(e),
            Ok((s, q)) => match element_at(b, q, t) {
                Err(e) => Err(e),
                Ok((v, r)) => Ok((s.push(v), r)),
            },
        }
    }
}

/// An array: the type of its elements, how many there are, then the elements.
pub open spec fn array_at(b: Seq<u8>, p: int) -> Result<(Seq<Datum>, int), Fault> {
    match u32_at(b, p) {
        Err(e) => Err(e),
        Ok((t, q)) => match u64_at(b, q) {
            Err(e) => Err(e),
            Ok((n, r)) => elements_at(b, r, t, n as nat),
        },
    }
}

/// A metadata value: its type, then what the type asks for.
pub open spec fn value_at(b: Seq<u8>, p: int) -> Result<(Datum, int), Fault> {
    match u32_at(b, p) {
        Err(e) => Err(e),
        Ok((t, q)) => if t == GGUF_TYPE_ARRAY {
            datum_of(array_at(b, q), |s: Seq<Datum>| Datum::Array(s))
        } else {
            match scalar_at(b, q, t) {
                Some(x) => x,
                None => Err(Fault::Parse("unknown GGUF metadata type: "@ + decimal(t as nat))),
            }
        },
    }
}

/// Goes over `n` bytes and gives the index of the first.
fn advance(r: &mut ByteReader<'_>, n: u64) -> (res: Result<usize, ModelError>)
    requires
        old(r).wf(),
    ensures
        final(r).wf(),
        final(r).bytes == old(r).bytes,
        match res {
            Ok(p) => p == old(r).pos && final(r).pos == p + n,
            Err(e) => e@ == Fault::Io && old(r).pos + n > old(r).bytes@.len() && final(r).pos
                == old(r).pos,
        },
{
    let left: usize = r.bytes.len() - r.pos;
    if n > left as u64 {
        return Err(ModelError::Io);
    }
    let p: usize = r.pos;
    r.pos = p + n as usize;
    Ok(p)
}

/// The two bytes at `p`.
fn le_u16_of(b: &[u8], p: usize) -> (v: u16)
    requires
        p + 2 <= b@.len(),
    ensures
        v == le_u16(b@, p as int),
{
    b[p] as u16 + 0x100 * (b[p + 1] as u16)
}

/// The four bytes at `p`.
fn le_u32_of(b: &[u8], p: usize) -> (v: u32)
    requires
        p + 4 <= b@.len(),
    ensures
        v == le_u32(b@, p as int),
{
    assert(b@.len() == b.len());
    le_u16_of(b, p) as u32 + 0x1_0000 * (le_u16_of(b, p + 2) as u32)
}

/// The eight bytes at `p`.
pub(crate) fn le_u64_of(b: &[u8], p: usize) -> (v: u64)
    requires
        p + 8 <= b@.len(),
    ensures
        v == le_u64(b@, p as int),
{
    assert(b@.len() == b.len());
    le_u32_of(b, p) as u64 + 0x1_0000_0000 * (le_u32_of(b, p + 4) as u64)
}

pub fn read_u8(r: &mut ByteReader<'_>) -> (res: Result<u8, ModelError>)
    requires
        old(r).wf(),
    ensures
        reading(*old(r), *final(r), u8_at(old(r).bytes@, old(r).pos as int), res),
{
    match advance(r, 1) {
        Ok(p) => Ok(r.bytes[p]),
        Err(e) => Err(e),
    }
}

pub fn read_i8(r: &mut ByteReader<'_>) -> (res: Result<i8, ModelError>)
    requires
        old(r).wf(),
    ensures
        reading(*old(r), *final(r), i8_at(old(r).bytes@, old(r).pos as int), res),
{
    match read_u8(r) {
        Ok(v) => Ok(
            if v < 0x80 {
                v as i8
            } else {
                (v as i16 - 0x100) as i8
            },
        ),
        Err(e) => Err(e),
    }
}

pub fn read_u16(r: &mut ByteReader<'_>) -> (res: Result<u16, ModelError>)
    requires
        old(r).wf(),
    ensures
        reading(*old(r), *final(r), u16_at(old(r).bytes@, old(r).pos as int), res),
{
    match advance(r, 2) {
        Ok(p) => Ok(le_u16_of(r.bytes, p)),
        Err(e) => Err(e),
    }
}

pub fn read_i16(r: &mut ByteReader<'_>) -> (res: Result<i16, ModelError>)
    requires
        old(r).wf(),
    ensures
        reading(*old(r), *final(r), i16_at(old(r).bytes@, old(r).pos as int), res),
{
    match read_u16(r) {
        Ok(v) => Ok(
            if v < 0x8000 {
                v as i16
            } else {
                (v as i32 - 0x1_0000) as i16
            },
        ),
        Err(e) => Err(e),
    }
}

pub fn read_u32(r: &mut ByteReader<'_>) -> (res: Result<u32, ModelError>)
    requires
        old(r).wf(),
    ensures
        reading(*old(r), *final(r), u32_at(old(r).bytes@, old(r).pos as int), res),
{
    match advance(r, 4) {
        Ok(p) => Ok(le_u32_of(r.bytes, p)),
        Err(e) => Err(e),
    }
}

pub fn read_i32(r: &mut ByteReader<'_>) -> (res: Result<i32, ModelError>)
    requires
        old(r).wf(),
    ensures
        reading(*old(r), *final(r), i32_at(old(r).bytes@, old(r).pos as int), res),
{
    match read_u32(r) {
        Ok(v) => Ok(
            if v < 0x8000_0000 {
                v as i32
            } else {
                (v as i64 - 0x1_0000_0000) as i32
            },
        ),
        Err(e) => Err(e),
    }
}

pub fn read_u64(r: &mut ByteReader<'_>) -> (res: Result<u64, ModelError>)
    requires
        old(r).wf(),
    ensures
        reading(*old(r), *final(r), u64_at(old(r).bytes@, old(r).pos as int), res),
{
    match advance(r, 8) {
        Ok(p) => Ok(le_u64_of(r.bytes, p)),
        Err(e) => Err(e),
    }
}

pub fn read_i64(r: &mut ByteReader<'_>) -> (res: Result<i64, ModelError>)
    requires
        old(r).wf(),
    ensures
        reading(*old(r), *final(r), i64_at(old(r).bytes@, old(r).pos as int), res),
{
    match read_u64(r) {
        Ok(v) => Ok(
            if v < 0x8000_0000_0000_0000 {
                v as i64
            } else {
                (v as i128 - 0x1_0000_0000_0000_0000) as i64
            },
        ),
        Err(e) => Err(e),
    }
}

/// The bits of a single-precision number.
pub fn read_f32(r: &mut ByteReader<'_>) -> (res: Result<u32, ModelError>)
    requires
        old(r).wf(),
    ensures
        reading(*old(r), *final(r), u32_at(old(r).bytes@, old(r).pos as int), res),
{
    read_u32(r)
}

/// The bits of a double-precision number.
pub fn read_f64(r: &mut ByteReader<'_>) -> (res: Result<u64, ModelError>)
    requires
        old(r).wf(),
    ensures
        reading(*old(r), *final(r), u64_at(old(r).bytes@, old(r).pos as int), res),
{
    read_u64(r)
}

/// `String::from_utf8`: the text that the bytes encode if they are UTF-8, else
/// what the error says of itself.
#[verifier::external_body]
fn text_from_utf8(bytes: Vec<u8>) -> (res: Result<String, String>)
    ensures
        match res {
            Ok(s) => valid_utf8(bytes@) && s@ == decode_utf8(bytes@),
            Err(e) => !valid_utf8(bytes@) && e@ == utf8_error_text(bytes@),
        },
{
    String::from_utf8(bytes).map_err(|e| e.to_string())
}

pub fn read_string(r: &mut ByteReader<'_>) -> (res: Result<String, ModelError>)
    requires
        old(r).wf(),
    ensures
        final(r).wf(),
        final(r).bytes == old(r).bytes,
        old(r).pos <= final(r).pos,
        match res {
            Ok(s) => gave(
                text_at(old(r).bytes@, old(r).pos as int),
                s@,
                final(r).pos as int,
            ),
            Err(e) => failed(text_at(old(r).bytes@, old(r).pos as int), e@),
        },
{
    let n = match read_u64(r) {
        Ok(n) => n,
        Err(e) => return Err(e),
    };
    let p = match advance(r, n) {
        Ok(p) => p,
        Err(e) => return Err(e),
    };
    let raw = vstd::slice::slice_subrange(r.bytes, p, r.pos);
    let bytes = vstd::slice::slice_to_vec(raw);
    match text_from_utf8(bytes) {
        Ok(s) => Ok(s),
        Err(text) => Err(ModelError::Parse(text)),
    }
}

/// A single value of the type `t`; nothing for a type that has none.
fn read_scalar(r: &mut ByteReader<'_>, t: u32) -> (res: Result<Option<GgufValue>, ModelError>)
    requires
        old(r).wf(),
    ensures
        final(r).wf(),
        final(r).bytes == old(r).bytes,
        old(r).pos <= final(r).pos,
        match scalar_at(old(r).bytes@, old(r).pos as int, t) {
            None => res matches Ok(v) && v is None,
            Some(x) => match res {
                Ok(v) => v matches Some(d) && gave(x, d@, final(r).pos as int),
                Err(e) => failed(x, e@),
            },
        },
{
    let v = if t == GGUF_TYPE_UINT8 {
        GgufValue::U8(read_u8(r)?)
    } else if t == GGUF_TYPE_INT8 {
        GgufValue::I8(read_i8(r)?)
    } else if t == GGUF_TYPE_UINT16 {
        GgufValue::U16(read_u16(r)?)
    } else if t == GGUF_TYPE_INT16 {
        GgufValue::I16(read_i16(r)?)
    } else if t == GGUF_TYPE_UINT32 {
        GgufValue::U32(read_u32(r)?)
    } else if t == GGUF_TYPE_INT32 {
        GgufValue::I32(read_i32(r)?)
    } else if t == GGUF_TYPE_FLOAT32 {
        GgufValue::F32(read_f32(r)?)
    } else if t == GGUF_TYPE_BOOL {
        GgufValue::Bool(read_u8(r)? != 0)
    } else if t == GGUF_TYPE_STRING {
        GgufValue::String(read_string(r)?)
    } else if t == GGUF_TYPE_UINT64 {
        GgufValue::U64(read_u64(r)?)
    } else if t == GGUF_TYPE_INT64 {
        GgufValue::I64(read_i64(r)?)
    } else if t == GGUF_TYPE_FLOAT64 {
        GgufValue::F64(read_f64(r)?)
    } else {
        return Ok(None);
    };
    Ok(Some(v))
}

/// An array element of the type `elem_type`.
pub fn read_array_element(r: &mut ByteReader<'_>, elem_type: u32) -> (res: Result<
    GgufValue,
    ModelError,
>)
    requires
        old(r).wf(),
    ensures
        final(r).wf(),
        final(r).bytes == old(r).bytes,
        old(r).pos <= final(r).pos,
        match res {
            Ok(v) => gave(
                element_at(old(r).bytes@, old(r).pos as int, elem_type),
                v@,
                final(r).pos as int,
            ),
            Err(e) => failed(element_at(old(r).bytes@, old(r).pos as int, elem_type), e@),
        },
{
    match read_scalar(r, elem_type) {
        Ok(Some(v)) => Ok(v),
        Ok(None) => {
            let n = decimal_string(elem_type as u64);
            Err(ModelError::Parse(concat("unknown GGUF array element type: ", n.as_str())))
        },
        Err(e) => Err(e),
    }
}

/// The elements that a list of values holds.
pub open spec fn data_of(v: Seq<GgufValue>) -> Seq<Datum> {
    Seq::new(v.len(), |i: int| v[i]@)
}

/// Once the first `k` elements fail, so do the first `n`.
proof fn elements_keep_failing(b: Seq<u8>, p: int, t: u32, k: nat, n: nat)
    requires
        k <= n,
        elements_at(b, p, t, k) is Err,
    ensures
        elements_at(b, p, t, n) == elements_at(b, p, t, k),
    decreases n,
{
    if k < n {
        elements_keep_failing(b, p, t, k, (n - 1) as nat);
    }
}

/// An array's elements, behind its element type and length.
fn read_array(r: &mut ByteReader<'_>) -> (res: Result<Vec<GgufValue>, ModelError>)
    requires
        old(r).wf(),
    ensures
        final(r).wf(),
        final(r).bytes == old(r).bytes,
        old(r).pos <= final(r).pos,
        match res {
            Ok(v) => gave(
                array_at(old(r).bytes@, old(r).pos as int),
                data_of(v@),
                final(r).pos as int,
            ),
            Err(e) => failed(array_at(old(r).bytes@, old(r).pos as int), e@),
        },
{
    let ghost b = r.bytes@;
    let t = read_u32(r)?;
    let n = read_u64(r)?;
    let mut out: Vec<GgufValue> = Vec::new();
    let mut i: u64 = 0;
    let ghost start = r.pos as int;
    assert(data_of(out@) =~= Seq::empty());
    while i < n
        invariant
            0 <= i <= n,
            r.wf(),
            r.bytes == old(r).bytes,
            old(r).pos <= r.pos,
            b == r.bytes@,
            array_at(b, old(r).pos as int) == elements_at(b, start, t, n as nat),
            gave(elements_at(b, start, t, i as nat), data_of(out@), r.pos as int),
        decreases n - i,
    {
        let ghost before = out@;
        match read_array_element(r, t) {
            Ok(v) => {
                out.push(v);
                assert(data_of(out@) =~= data_of(before).push(v@));
            },
            Err(e) => {
                proof {
                    elements_keep_failing(b, start, t, (i + 1) as nat, n as nat);
                }
                return Err(e);
            },
        }
        i += 1;
    }
    Ok(out)
}

/// A metadata value: its type, then what the type asks for.
pub fn read_value(r: &mut ByteReader<'_>) -> (res: Result<GgufValue, ModelError>)
    requires
        old(r).wf(),
    ensures
        final(r).wf(),
        final(r).bytes == old(r).bytes,
        old(r).pos <= final(r).pos,
        match res {
            Ok(v) => gave(value_at(old(r).bytes@, old(r).pos as int), v@, final(r).pos as int),
            Err(e) => failed(value_at(old(r).bytes@, old(r).pos as int), e@),
        },
{
    let vtype = read_u32(r)?;
    if vtype == GGUF_TYPE_ARRAY {
        let items = read_array(r)?;
        let v = GgufValue::Array(items);
        assert(v@ == Datum::Array(data_of(items@))) by {
            reveal_with_fuel(<GgufValue as View>::view, 2);
            assert(v@->Array_0 =~= data_of(items@));
        }
        return Ok(v);
    }
    match read_scalar(r, vtype) {
        Ok(Some(v)) => Ok(v),
        Ok(None) => {
            let n = decimal_string(vtype as u64);
            Err(ModelError::Parse(concat("unknown GGUF metadata type: ", n.as_str())))
        },
        Err(e) => Err(e),
    }
}

} // verus!
