//! How a header is written, and that reading one gives back what was written.
use vstd::prelude::*;
use vstd::utf8::{encode_utf8, encode_utf8_decode_utf8, encode_utf8_valid_utf8};

use crate::error::Fault;
use crate::gguf::parser::{
    dims_at, entries_at, header_of, leading_at, tensor_at, tensors_at, Header,
};
use crate::gguf::reader::{
    array_at, element_at, elements_at, le_u16, le_u32, le_u64, scalar_at, text_at, u32_at, u64_at,
    value_at,
};
use crate::gguf::types::{Datum, TensorDesc};

verus! {

/// A number below 2 to the 16th: the low byte, then the high byte.
pub open spec fn two_bytes(v: int) -> Seq<u8> {
    seq![(v % 0x100) as u8, (v / 0x100) as u8]
}

/// A number below 2 to the 32nd: the low half, then the high half.
pub open spec fn four_bytes(v: int) -> Seq<u8> {
    two_bytes(v % 0x1_0000) + two_bytes(v / 0x1_0000)
}

/// A number below 2 to the 64th: the low half, then the high half.
pub open spec fn eight_bytes(v: int) -> Seq<u8> {
    four_bytes(v % 0x1_0000_0000) + four_bytes(v / 0x1_0000_0000)
}

/// A signed number as the unsigned one with the same bits, where there are
/// `all` bit patterns.
pub open spec fn unsigned(v: int, all: int) -> int {
    if v < 0 {
        v + all
    } else {
        v
    }
}

/// A text: its length in bytes, then the bytes.
pub open spec fn text_bytes(s: Seq<char>) -> Seq<u8> {
    eight_bytes(encode_utf8(s).len() as int) + encode_utf8(s)
}

/// The code of a value's type.
pub open spec fn type_code(d: Datum) -> u32 {
    match d {
        Datum::U8(_) => 0,
        Datum::I8(_) => 1,
        Datum::U16(_) => 2,
        Datum::I16(_) => 3,
        Datum::U32(_) => 4,
        Datum::I32(_) => 5,
        Datum::F32(_) => 6,
        Datum::Bool(_) => 7,
        Datum::Text(_) => 8,
        Datum::Array(_) => 9,
        Datum::U64(_) => 10,
        Datum::I64(_) => 11,
        Datum::F64(_) => 12,
    }
}

/// A single value.
pub open spec fn scalar_bytes(d: Datum) -> Seq<u8> {
    match d {
        Datum::U8(v) => seq![v],
        Datum::I8(v) => seq![unsigned(v as int, 0x100) as u8],
        Datum::U16(v) => two_bytes(v as int),
        Datum::I16(v) => two_bytes(unsigned(v as int, 0x1_0000)),
        Datum::U32(v) => four_bytes(v as int),
        Datum::I32(v) => four_bytes(unsigned(v as int, 0x1_0000_0000)),
        Datum::F32(v) => four_bytes(v as int),
        Datum::Bool(v) => seq![if v {
            1u8
        } else {
            0
        }],
        Datum::Text(s) => text_bytes(s),
        Datum::U64(v) => eight_bytes(v as int),
        Datum::I64(v) => eight_bytes(unsigned(v as int, 0x1_0000_0000_0000_0000)),
        Datum::F64(v) => eight_bytes(v as int),
        Datum::Array(_) => Seq::empty(),
    }
}

/// Single values, one behind the other.
pub open spec fn row_bytes(s: Seq<Datum>) -> Seq<u8>
    decreases s.len(),
{
    if s.len() == 0 {
        Seq::empty()
    } else {
        row_bytes(s.drop_last()) + scalar_bytes(s.last())
    }
}

/// A text whose length can be written.
pub open spec fn writable_text(s: Seq<char>) -> bool {
    encode_utf8(s).len() <= u64::MAX
}

/// A single value that can be written.
pub open spec fn writable_scalar(d: Datum) -> bool {
    !(d is Array) && (d matches Datum::Text(s) ==> writable_text(s))
}

/// A value that can be written: an array has single values of one type.
pub open spec fn writable(d: Datum) -> bool {
    match d {
        Datum::Array(s) => {
            &&& 0 < s.len() <= u64::MAX
            &&& forall|i: int|
                0 <= i < s.len() ==> writable_scalar(#[trigger] s[i]) && type_code(s[i])
                    == type_code(s[0])
        },
        _ => writable_scalar(d),
    }
}

/// A value: the code of its type, then what it holds.
pub open spec fn value_bytes(d: Datum) -> Seq<u8> {
    match d {
        Datum::Array(s) => four_bytes(9) + (four_bytes(type_code(s[0]) as int) + (eight_bytes(
            s.len() as int,
        ) + row_bytes(s))),
        _ => four_bytes(type_code(d) as int) + scalar_bytes(d),
    }
}

/// The bytes hold `x` at index `p`.
pub open spec fn holds(b: Seq<u8>, p: int, x: Seq<u8>) -> bool {
    0 <= p && p + x.len() <= b.len() && b.subrange(p, p + x.len()) == x
}

/// What holds two parts holds each of them.
proof fn holds_both(b: Seq<u8>, p: int, x: Seq<u8>, y: Seq<u8>)
    requires
        holds(b, p, x + y),
    ensures
        holds(b, p, x),
        holds(b, p + x.len(), y),
{
    let all = b.subrange(p, p + (x + y).len());
    assert(b.subrange(p, p + x.len()) =~= x) by {
        assert forall|i: int| 0 <= i < x.len() implies b[p + i] == x[i] by {
            assert(all[i] == (x + y)[i]);
        }
    }
    assert(b.subrange(p + x.len(), p + x.len() + y.len()) =~= y) by {
        assert forall|i: int| 0 <= i < y.len() implies b[p + x.len() + i] == y[i] by {
            assert(all[x.len() + i] == (x + y)[x.len() + i]);
        }
    }
}

/// A byte that is held.
proof fn held_byte(b: Seq<u8>, p: int, x: Seq<u8>, i: int)
    requires
        holds(b, p, x),
        0 <= i < x.len(),
    ensures
        b[p + i] == x[i],
{
    assert(b.subrange(p, p + x.len())[i] == b[p + i]);
}

/// Two bytes are read back.
proof fn two_read(b: Seq<u8>, p: int, v: int)
    requires
        0 <= v < 0x1_0000,
        holds(b, p, two_bytes(v)),
    ensures
        le_u16(b, p) == v,
{
    held_byte(b, p, two_bytes(v), 0);
    held_byte(b, p, two_bytes(v), 1);
}

/// Four bytes are read back.
proof fn four_read(b: Seq<u8>, p: int, v: int)
    requires
        0 <= v < 0x1_0000_0000,
        holds(b, p, four_bytes(v)),
    ensures
        le_u32(b, p) == v,
{
    holds_both(b, p, two_bytes(v % 0x1_0000), two_bytes(v / 0x1_0000));
    two_read(b, p, v % 0x1_0000);
    two_read(b, p + 2, v / 0x1_0000);
}

/// Eight bytes are read back.
proof fn eight_read(b: Seq<u8>, p: int, v: int)
    requires
        0 <= v < 0x1_0000_0000_0000_0000,
        holds(b, p, eight_bytes(v)),
    ensures
        le_u64(b, p) == v,
{
    holds_both(b, p, four_bytes(v % 0x1_0000_0000), four_bytes(v / 0x1_0000_0000));
    four_read(b, p, v % 0x1_0000_0000);
    four_read(b, p + 4, v / 0x1_0000_0000);
}

/// A text is read back.
pub proof fn text_read_back(b: Seq<u8>, p: int, s: Seq<char>)
    requires
        writable_text(s),
        holds(b, p, text_bytes(s)),
    ensures
        text_at(b, p) == Ok::<(Seq<char>, int), Fault>((s, p + text_bytes(s).len())),
{
    let raw = encode_utf8(s);
    holds_both(b, p, eight_bytes(raw.len() as int), raw);
    eight_read(b, p, raw.len() as int);
    encode_utf8_valid_utf8(s);
    encode_utf8_decode_utf8(s);
}

/// A single value is read back, whatever its type.
pub proof fn scalar_read_back(b: Seq<u8>, p: int, d: Datum)
    requires
        writable_scalar(d),
        holds(b, p, scalar_bytes(d)),
    ensures
        scalar_at(b, p, type_code(d)) == Some(
            Ok::<(Datum, int), Fault>((d, p + scalar_bytes(d).len())),
        ),
{
    match d {
        Datum::U8(_) => held_byte(b, p, scalar_bytes(d), 0),
        Datum::I8(_) => held_byte(b, p, scalar_bytes(d), 0),
        Datum::Bool(_) => held_byte(b, p, scalar_bytes(d), 0),
        Datum::U16(v) => two_read(b, p, v as int),
        Datum::I16(v) => two_read(b, p, unsigned(v as int, 0x1_0000)),
        Datum::U32(v) => four_read(b, p, v as int),
        Datum::I32(v) => four_read(b, p, unsigned(v as int, 0x1_0000_0000)),
        Datum::F32(v) => four_read(b, p, v as int),
        Datum::U64(v) => eight_read(b, p, v as int),
        Datum::I64(v) => eight_read(b, p, unsigned(v as int, 0x1_0000_0000_0000_0000)),
        Datum::F64(v) => eight_read(b, p, v as int),
        Datum::Text(s) => text_read_back(b, p, s),
        Datum::Array(_) => {},
    }
}

/// A row of single values of one type is read back.
proof fn row_read_back(b: Seq<u8>, p: int, s: Seq<Datum>, t: u32)
    requires
        forall|i: int|
            0 <= i < s.len() ==> writable_scalar(#[trigger] s[i]) && type_code(s[i]) == t,
        holds(b, p, row_bytes(s)),
    ensures
        elements_at(b, p, t, s.len()) == Ok::<(Seq<Datum>, int), Fault>(
            (s, p + row_bytes(s).len()),
        ),
    decreases s.len(),
{
    if s.len() == 0 {
        assert(s =~= Seq::empty());
    } else {
        let init = s.drop_last();
        assert forall|i: int| 0 <= i < init.len() implies writable_scalar(#[trigger] init[i])
            && type_code(init[i]) == t by {
            assert(init[i] == s[i]);
        }
        holds_both(b, p, row_bytes(init), scalar_bytes(s.last()));
        row_read_back(b, p, init, t);
        assert(writable_scalar(s[s.len() - 1]) && type_code(s[s.len() - 1]) == t);
        scalar_read_back(b, p + row_bytes(init).len(), s.last());
        assert(init.push(s.last()) =~= s);
    }
}

/// A value is read back.
pub proof fn value_read_back(b: Seq<u8>, p: int, d: Datum)
    requires
        writable(d),
        holds(b, p, value_bytes(d)),
    ensures
        value_at(b, p) == Ok::<(Datum, int), Fault>((d, p + value_bytes(d).len())),
{
    match d {
        Datum::Array(s) => {
            let t = type_code(s[0]);
            let rest = eight_bytes(s.len() as int) + row_bytes(s);
            holds_both(b, p, four_bytes(9), four_bytes(t as int) + rest);
            four_read(b, p, 9);
            holds_both(b, p + 4, four_bytes(t as int), rest);
            four_read(b, p + 4, t as int);
            holds_both(b, p + 8, eight_bytes(s.len() as int), row_bytes(s));
            eight_read(b, p + 8, s.len() as int);
            row_read_back(b, p + 16, s, t);
        },
        _ => {
            holds_both(b, p, four_bytes(type_code(d) as int), scalar_bytes(d));
            four_read(b, p, type_code(d) as int);
            scalar_read_back(b, p + 4, d);
        },
    }
}

/// Metadata entries: key and value, one behind the other.
pub open spec fn entry_bytes(s: Seq<(Seq<char>, Datum)>) -> Seq<u8>
    decreases s.len(),
{
    if s.len() == 0 {
        Seq::empty()
    } else {
        entry_bytes(s.drop_last()) + (text_bytes(s.last().0) + value_bytes(s.last().1))
    }
}

/// What the entries say: of two with the same key the later one counts.
pub open spec fn entry_map(s: Seq<(Seq<char>, Datum)>) -> Map<Seq<char>, Datum>
    decreases s.len(),
{
    if s.len() == 0 {
        Map::empty()
    } else {
        entry_map(s.drop_last()).insert(s.last().0, s.last().1)
    }
}

/// Entries that can be written.
pub open spec fn writable_entries(s: Seq<(Seq<char>, Datum)>) -> bool {
    forall|i: int|
        0 <= i < s.len() ==> writable_text((#[trigger] s[i]).0) && writable(s[i].1)
}

/// One more entry is read behind others.
proof fn entry_read(
    b: Seq<u8>,
    p: int,
    n: nat,
    m: Map<Seq<char>, Datum>,
    q: int,
    key: Seq<char>,
    r: int,
    value: Datum,
    end: int,
)
    requires
        entries_at(b, p, n) == Ok::<(Map<Seq<char>, Datum>, int), Fault>((m, q)),
        text_at(b, q) == Ok::<(Seq<char>, int), Fault>((key, r)),
        value_at(b, r) == Ok::<(Datum, int), Fault>((value, end)),
    ensures
        entries_at(b, p, n + 1) == Ok::<(Map<Seq<char>, Datum>, int), Fault>(
            (m.insert(key, value), end),
        ),
{
    let before = entries_at(b, p, n);
    assert((n + 1 - 1) as nat == n);
    assert(before == entries_at(b, p, (n + 1 - 1) as nat));
}

/// Metadata entries are read back.
proof fn entries_read_back(b: Seq<u8>, p: int, s: Seq<(Seq<char>, Datum)>)
    requires
        writable_entries(s),
        holds(b, p, entry_bytes(s)),
    ensures
        entries_at(b, p, s.len()) == Ok::<(Map<Seq<char>, Datum>, int), Fault>(
            (entry_map(s), p + entry_bytes(s).len()),
        ),
    decreases s.len(),
{
    if s.len() > 0 {
        let init = s.drop_last();
        let (key, value) = s.last();
        assert forall|i: int| 0 <= i < init.len() implies writable_text((#[trigger] init[i]).0)
            && writable(init[i].1) by {
            assert(init[i] == s[i]);
        }
        holds_both(b, p, entry_bytes(init), text_bytes(key) + value_bytes(value));
        entries_read_back(b, p, init);
        let q = p + entry_bytes(init).len();
        assert(writable_text(s[s.len() - 1].0) && writable(s[s.len() - 1].1));
        holds_both(b, q, text_bytes(key), value_bytes(value));
        text_read_back(b, q, key);
        let r = q + text_bytes(key).len();
        value_read_back(b, r, value);
        let end = r + value_bytes(value).len();
        entry_read(b, p, init.len(), entry_map(init), q, key, r, value, end);
        assert(p + entry_bytes(s).len() == end);
    }
}

/// Extents, one behind the other.
pub open spec fn extent_bytes(s: Seq<u64>) -> Seq<u8>
    decreases s.len(),
{
    if s.len() == 0 {
        Seq::empty()
    } else {
        extent_bytes(s.drop_last()) + eight_bytes(s.last() as int)
    }
}

/// Extents are read back.
proof fn extents_read_back(b: Seq<u8>, p: int, s: Seq<u64>)
    requires
        holds(b, p, extent_bytes(s)),
    ensures
        dims_at(b, p, s.len()) == Ok::<(Seq<u64>, int), Fault>((s, p + extent_bytes(s).len())),
    decreases s.len(),
{
    if s.len() == 0 {
        assert(s =~= Seq::empty());
    } else {
        let init = s.drop_last();
        holds_both(b, p, extent_bytes(init), eight_bytes(s.last() as int));
        extents_read_back(b, p, init);
        eight_read(b, p + extent_bytes(init).len(), s.last() as int);
        assert(init.push(s.last()) =~= s);
    }
}

/// A tensor's description: its name, the number of its extents, the extents,
/// the code of its encoding and the offset of its data.
pub open spec fn tensor_bytes(t: TensorDesc) -> Seq<u8> {
    text_bytes(t.name) + (four_bytes(t.dims.len() as int) + (extent_bytes(t.dims) + (four_bytes(
        t.tensor_type as int,
    ) + eight_bytes(t.offset as int))))
}

/// A description that can be written.
pub open spec fn writable_tensor(t: TensorDesc) -> bool {
    writable_text(t.name) && t.n_dims == t.dims.len() && t.dims.len() <= u32::MAX && t.shard_idx
        == 0
}

/// A tensor's description is read back.
pub proof fn tensor_read_back(b: Seq<u8>, p: int, t: TensorDesc)
    requires
        writable_tensor(t),
        holds(b, p, tensor_bytes(t)),
    ensures
        tensor_at(b, p) == Ok::<(TensorDesc, int), Fault>((t, p + tensor_bytes(t).len())),
{
    let n = t.dims.len() as int;
    let end = four_bytes(t.tensor_type as int) + eight_bytes(t.offset as int);
    let rest = extent_bytes(t.dims) + end;
    holds_both(b, p, text_bytes(t.name), four_bytes(n) + rest);
    text_read_back(b, p, t.name);
    let q = p + text_bytes(t.name).len();
    holds_both(b, q, four_bytes(n), rest);
    four_read(b, q, n);
    holds_both(b, q + 4, extent_bytes(t.dims), end);
    extents_read_back(b, q + 4, t.dims);
    let r = q + 4 + extent_bytes(t.dims).len();
    holds_both(b, r, four_bytes(t.tensor_type as int), eight_bytes(t.offset as int));
    four_read(b, r, t.tensor_type as int);
    eight_read(b, r + 4, t.offset as int);
}

/// Tensors' descriptions, one behind the other.
pub open spec fn all_tensor_bytes(s: Seq<TensorDesc>) -> Seq<u8>
    decreases s.len(),
{
    if s.len() == 0 {
        Seq::empty()
    } else {
        all_tensor_bytes(s.drop_last()) + tensor_bytes(s.last())
    }
}

/// Tensors' descriptions are read back.
proof fn tensors_read_back(b: Seq<u8>, p: int, s: Seq<TensorDesc>)
    requires
        forall|i: int| 0 <= i < s.len() ==> writable_tensor(#[trigger] s[i]),
        holds(b, p, all_tensor_bytes(s)),
    ensures
        tensors_at(b, p, s.len()) == Ok::<(Seq<TensorDesc>, int), Fault>(
            (s, p + all_tensor_bytes(s).len()),
        ),
    decreases s.len(),
{
    if s.len() == 0 {
        assert(s =~= Seq::empty());
    } else {
        let init = s.drop_last();
        assert forall|i: int| 0 <= i < init.len() implies writable_tensor(#[trigger] init[i]) by {
            assert(init[i] == s[i]);
        }
        holds_both(b, p, all_tensor_bytes(init), tensor_bytes(s.last()));
        tensors_read_back(b, p, init);
        assert(writable_tensor(s[s.len() - 1]));
        tensor_read_back(b, p + all_tensor_bytes(init).len(), s.last());
        assert(init.push(s.last()) =~= s);
    }
}

/// A header: the letters `GGUF`, the version, the number of tensors, the
/// number of metadata entries, the entries and the tensors' descriptions.
pub open spec fn header_bytes(
    version: int,
    entries: Seq<(Seq<char>, Datum)>,
    tensors: Seq<TensorDesc>,
) -> Seq<u8> {
    seq![0x47u8, 0x47, 0x55, 0x46] + (four_bytes(version) + (eight_bytes(tensors.len() as int) + (
    eight_bytes(entries.len() as int) + (entry_bytes(entries) + all_tensor_bytes(tensors)))))
}

/// The numbers at the start of a header are read back.
proof fn leading_read_back(b: Seq<u8>, version: int, tensors: u64, entries: u64)
    requires
        version == 2 || version == 3,
        holds(b, 0, seq![0x47u8, 0x47, 0x55, 0x46]),
        holds(b, 4, four_bytes(version)),
        holds(b, 8, eight_bytes(tensors as int)),
        holds(b, 16, eight_bytes(entries as int)),
    ensures
        leading_at(b, 0) == Ok::<((u64, u64), int), Fault>(((tensors, entries), 24)),
{
    let magic = seq![0x47u8, 0x47, 0x55, 0x46];
    assert(magic =~= four_bytes(0x46554747));
    four_read(b, 0, 0x46554747);
    four_read(b, 4, version);
    eight_read(b, 8, tensors as int);
    eight_read(b, 16, entries as int);
}

/// A header is its parts.
proof fn header_is(
    b: Seq<u8>,
    n: u64,
    k: u64,
    p: int,
    metadata: Map<Seq<char>, Datum>,
    q: int,
    tensors: Seq<TensorDesc>,
    r: int,
)
    requires
        leading_at(b, 0) == Ok::<((u64, u64), int), Fault>(((n, k), p)),
        entries_at(b, p, k as nat) == Ok::<(Map<Seq<char>, Datum>, int), Fault>((metadata, q)),
        tensors_at(b, q, n as nat) == Ok::<(Seq<TensorDesc>, int), Fault>((tensors, r)),
        0 <= r,
    ensures
        header_of(b) matches Ok(h) && h.metadata == metadata && h.tensors == tensors
            && h.data_offset % 32 == 0 && r <= h.data_offset < r + 32,
{
    reveal(header_of);
    crate::gguf::parser::aligned_is_next(r);
}

/// Where the parts of a header stand.
proof fn header_parts_held(
    b: Seq<u8>,
    version: int,
    entries: Seq<(Seq<char>, Datum)>,
    tensors: Seq<TensorDesc>,
)
    requires
        holds(b, 0, header_bytes(version, entries, tensors)),
    ensures
        holds(b, 0, seq![0x47u8, 0x47, 0x55, 0x46]),
        holds(b, 4, four_bytes(version)),
        holds(b, 8, eight_bytes(tensors.len() as int)),
        holds(b, 16, eight_bytes(entries.len() as int)),
        holds(b, 24, entry_bytes(entries)),
        holds(b, 24 + entry_bytes(entries).len() as int, all_tensor_bytes(tensors)),
        header_bytes(version, entries, tensors).len() == 24 + entry_bytes(entries).len()
            + all_tensor_bytes(tensors).len(),
{
    let magic = seq![0x47u8, 0x47, 0x55, 0x46];
    let e = all_tensor_bytes(tensors);
    let d = entry_bytes(entries) + e;
    let c = eight_bytes(entries.len() as int) + d;
    let a = eight_bytes(tensors.len() as int) + c;
    holds_both(b, 0, magic, four_bytes(version) + a);
    holds_both(b, 4, four_bytes(version), a);
    holds_both(b, 8, eight_bytes(tensors.len() as int), c);
    holds_both(b, 16, eight_bytes(entries.len() as int), d);
    holds_both(b, 24, entry_bytes(entries), e);
}

/// A header that the bytes start with is read back.
proof fn held_header_read_back(
    b: Seq<u8>,
    version: int,
    entries: Seq<(Seq<char>, Datum)>,
    tensors: Seq<TensorDesc>,
)
    requires
        version == 2 || version == 3,
        writable_entries(entries),
        forall|i: int| 0 <= i < tensors.len() ==> writable_tensor(#[trigger] tensors[i]),
        entries.len() <= u64::MAX,
        tensors.len() <= u64::MAX,
        holds(b, 0, header_bytes(version, entries, tensors)),
    ensures
        header_of(b) matches Ok(h) && {
            let end = header_bytes(version, entries, tensors).len();
            &&& h.metadata == entry_map(entries)
            &&& h.tensors == tensors
            &&& h.data_offset % 32 == 0
            &&& end <= h.data_offset < end + 32
        },
{
    header_parts_held(b, version, entries, tensors);
    let n = tensors.len() as u64;
    let k = entries.len() as u64;
    leading_read_back(b, version, n, k);
    entries_read_back(b, 24, entries);
    let q = 24 + entry_bytes(entries).len() as int;
    tensors_read_back(b, q, tensors);
    header_is(
        b,
        n,
        k,
        24,
        entry_map(entries),
        q,
        tensors,
        q + all_tensor_bytes(tensors).len(),
    );
}

/// Reading a header gives back what was written: every metadata entry and
/// every tensor's description, in order.  The data starts at the first
/// multiple of 32 behind the header.
pub proof fn header_read_back(
    version: int,
    entries: Seq<(Seq<char>, Datum)>,
    tensors: Seq<TensorDesc>,
    data: Seq<u8>,
)
    requires
        version == 2 || version == 3,
        writable_entries(entries),
        forall|i: int| 0 <= i < tensors.len() ==> writable_tensor(#[trigger] tensors[i]),
        entries.len() <= u64::MAX,
        tensors.len() <= u64::MAX,
    ensures
        header_of(header_bytes(version, entries, tensors) + data) matches Ok(h) && {
            let end = header_bytes(version, entries, tensors).len();
            &&& h.metadata == entry_map(entries)
            &&& h.tensors == tensors
            &&& h.data_offset % 32 == 0
            &&& end <= h.data_offset < end + 32
        },
{
    let x = header_bytes(version, entries, tensors);
    let b = x + data;
    assert(b.subrange(0, x.len() as int) =~= x);
    held_header_read_back(b, version, entries, tensors);
}

/// A file that does not start with the letters `GGUF`, or has another version
/// than 2 or 3, is refused.
pub proof fn foreign_files_refused(b: Seq<u8>)
    requires
        b.len() >= 8,
        b.take(4) != seq![0x47u8, 0x47, 0x55, 0x46] || !(le_u32(b, 4) == 2 || le_u32(b, 4) == 3),
    ensures
        header_of(b) matches Err(e) && e is Parse,
{
    if le_u32(b, 0) == 0x46554747 {
        four_bytes_known(b);
        assert(b.take(4) =~= seq![0x47u8, 0x47, 0x55, 0x46]);
    }
    leading_refused(b);
    reveal(header_of);
}

/// The four bytes of a number are its own.
proof fn four_bytes_known(b: Seq<u8>)
    requires
        b.len() >= 4,
        le_u32(b, 0) == 0x46554747,
    ensures
        b[0] == 0x47 && b[1] == 0x47 && b[2] == 0x55 && b[3] == 0x46,
{
}

/// Without the letters, or with another version, a header does not start.
proof fn leading_refused(b: Seq<u8>)
    requires
        b.len() >= 8,
        le_u32(b, 0) != 0x46554747 || !(le_u32(b, 4) == 2 || le_u32(b, 4) == 3),
    ensures
        leading_at(b, 0) matches Err(e) && e is Parse,
{
}

} // verus!
