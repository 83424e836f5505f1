//! Reading the header of a model file, alone or together with the other files
//! of its split.
use vstd::prelude::*;

use crate::error::{Fault, ModelError};
use crate::gguf::constants::{GGUF_ALIGNMENT, GGUF_MAGIC};
use crate::gguf::reader::{
    failed, gave, read_string, read_u32, read_u64, read_value, reading, text_at, u32_at, u64_at,
    value_at, ByteReader,
};
use crate::gguf::types::{
    descs, shard_list, Datum, GgufFile, GgufTensorInfo, GgufValue, ShardInfo, TensorDesc,
};
use crate::table::TextMap;
use crate::text::{concat, concat3, decimal, decimal_string, hex, hex_string};

verus! {

/// What a table of metadata values holds.
pub open spec fn meta(m: Map<Seq<char>, GgufValue>) -> Map<Seq<char>, Datum> {
    m.map_values(|v: GgufValue| v@)
}

/// `n` metadata entries in a row.  Where a key comes twice, the later value
/// stays.
pub open spec fn entries_at(b: Seq<u8>, p: int, n: nat) -> Result<
    (Map<Seq<char>, Datum>, int),
    Fault,
>
    decreases n,
{
    if n == 0 {
        Ok((Map::empty(), p))
    } else {
        match entries_at(b, p, (n - 1) as nat) {
            Err(e) => Err(e),
            Ok((m, q)) => match text_at(b, q) {
                Err(e) => Err(e),
                Ok((key, r)) => match value_at(b, r) {
                    Err(e) => Err(e),
                    Ok((v, t)) => Ok((m.insert(key, v), t)),
                },
            },
        }
    }
}

/// `n` extents in a row.
pub open spec fn dims_at(b: Seq<u8>, p: int, n: nat) -> Result<(Seq<u64>, int), Fault>
    decreases n,
{
    if n == 0 {
        Ok((Seq::empty(), p))
    } else {
        match dims_at(b, p, (n - 1) as nat) {
            Err(e) => Err(e),
            Ok((s, q)) => match u64_at(b, q) {
                Err(e) => Err(e),
                Ok((d, r)) => Ok((s.push(d), r)),
            },
        }
    }
}

/// A tensor description: the name, the number of dimensions, the extents, the
/// element encoding and the data offset.
pub open spec fn tensor_at(b: Seq<u8>, p: int) -> Result<(TensorDesc, int), Fault> {
    match text_at(b, p) {
        Err(e) => Err(e),
        Ok((name, q)) => match u32_at(b, q) {
            Err(e) => Err(e),
            Ok((n, r)) => match dims_at(b, r, n as nat) {
                Err(e) => Err(e),
                Ok((dims, s)) => match u32_at(b, s) {
                    Err(e) => Err(e),
                    Ok((tensor_type, t)) => match u64_at(b, t) {
                        Err(e) => Err(e),
                        Ok((offset, u)) => Ok(
                            (
                                TensorDesc {
                                    name,
                                    n_dims: n as nat,
                                    dims,
                                    tensor_type,
                                    offset,
                                    shard_idx: 0,
                                },
                                u,
                            ),
                        ),
                    },
                },
            },
        },
    }
}

/// `n` tensor descriptions in a row.
pub open spec fn tensors_at(b: Seq<u8>, p: int, n: nat) -> Result<(Seq<TensorDesc>, int), Fault>
    decreases n,
{
    if n == 0 {
        Ok((Seq::empty(), p))
    } else {
        match tensors_at(b, p, (n - 1) as nat) {
            Err(e) => Err(e),
            Ok((s, q)) => match tensor_at(b, q) {
                Err(e) => Err(e),
                Ok((t, r)) => Ok((s.push(t), r)),
            },
        }
    }
}

/// The least multiple of the alignment that is not below `p`.
pub open spec fn aligned(p: int) -> int {
    ((p + GGUF_ALIGNMENT - 1) / GGUF_ALIGNMENT as int) * GGUF_ALIGNMENT
}

/// The data section starts at a multiple of the alignment, at the first one
/// behind the header.
pub proof fn aligned_is_next(p: int)
    requires
        0 <= p,
    ensures
        aligned(p) % GGUF_ALIGNMENT as int == 0,
        p <= aligned(p) < p + GGUF_ALIGNMENT,
{
}

/// What the header of one file says.
pub struct Header {
    pub metadata: Map<Seq<char>, Datum>,
    pub tensors: Seq<TensorDesc>,
    pub data_offset: int,
}

/// What is said of a file that starts with another magic number.
pub open spec fn bad_magic(magic: u32) -> Fault {
    Fault::Parse(
        "not a GGUF file (magic: 0x"@ + hex(magic as nat, 8) + ", expected 0x"@ + hex(
            GGUF_MAGIC as nat,
            8,
        ) + ")"@,
    )
}

/// The leading numbers of a file: the magic number, a version of 2 or 3, the
/// number of tensors and the number of metadata entries.
pub open spec fn leading_at(b: Seq<u8>, p: int) -> Result<((u64, u64), int), Fault> {
    match u32_at(b, p) {
        Err(e) => Err(e),
        Ok((magic, q)) => if magic != GGUF_MAGIC {
            Err(bad_magic(magic))
        } else {
            match u32_at(b, q) {
                Err(e) => Err(e),
                Ok((version, r)) => if version != 2 && version != 3 {
                    Err(Fault::Parse("unsupported GGUF version: "@ + decimal(version as nat)))
                } else {
                    match u64_at(b, r) {
                        Err(e) => Err(e),
                        Ok((n_tensors, s)) => match u64_at(b, s) {
                            Err(e) => Err(e),
                            Ok((n_metadata, t)) => Ok(((n_tensors, n_metadata), t)),
                        },
                    }
                },
            }
        },
    }
}

/// The header of a file: the leading numbers, the metadata entries and the
/// tensor descriptions.  The data section starts at the next aligned index.
#[verifier::opaque]
pub open spec fn header_of(b: Seq<u8>) -> Result<Header, Fault> {
    match leading_at(b, 0) {
        Err(e) => Err(e),
        Ok(((n_tensors, n_metadata), p)) => match entries_at(b, p, n_metadata as nat) {
            Err(e) => Err(e),
            Ok((metadata, q)) => match tensors_at(b, q, n_tensors as nat) {
                Err(e) => Err(e),
                Ok((tensors, r)) => Ok(Header { metadata, tensors, data_offset: aligned(r) }),
            },
        },
    }
}

/// Once `k` entries fail, so do `n`.
proof fn entries_keep_failing(b: Seq<u8>, p: int, k: nat, n: nat)
    requires
        k <= n,
        entries_at(b, p, k) is Err,
    ensures
        entries_at(b, p, n) == entries_at(b, p, k),
    decreases n,
{
    if k < n {
        entries_keep_failing(b, p, k, (n - 1) as nat);
    }
}

/// Once `k` extents fail, so do `n`.
proof fn dims_keep_failing(b: Seq<u8>, p: int, k: nat, n: nat)
    requires
        k <= n,
        dims_at(b, p, k) is Err,
    ensures
        dims_at(b, p, n) == dims_at(b, p, k),
    decreases n,
{
    if k < n {
        dims_keep_failing(b, p, k, (n - 1) as nat);
    }
}

/// Once `k` tensor descriptions fail, so do `n`.
proof fn tensors_keep_failing(b: Seq<u8>, p: int, k: nat, n: nat)
    requires
        k <= n,
        tensors_at(b, p, k) is Err,
    ensures
        tensors_at(b, p, n) == tensors_at(b, p, k),
    decreases n,
{
    if k < n {
        tensors_keep_failing(b, p, k, (n - 1) as nat);
    }
}

/// Every description read has as many extents as it says.
pub proof fn dims_counted(b: Seq<u8>, p: int, n: nat)
    ensures
        dims_at(b, p, n) matches Ok((s, q)) ==> s.len() == n,
    decreases n,
{
    if n > 0 {
        dims_counted(b, p, (n - 1) as nat);
    }
}

/// Reads `n` metadata entries.
fn read_entries(r: &mut ByteReader<'_>, n: u64) -> (res: Result<TextMap<GgufValue>, ModelError>)
    requires
        old(r).wf(),
    ensures
        final(r).wf(),
        final(r).bytes == old(r).bytes,
        old(r).pos <= final(r).pos,
        match res {
            Ok(m) => m.wf() && gave(
                entries_at(old(r).bytes@, old(r).pos as int, n as nat),
                meta(m@),
                final(r).pos as int,
            ),
            Err(e) => failed(entries_at(old(r).bytes@, old(r).pos as int, n as nat), e@),
        },
{
    let ghost b = r.bytes@;
    let ghost p = r.pos as int;
    let mut out: TextMap<GgufValue> = TextMap::new();
    let mut i: u64 = 0;
    assert(meta(out@) =~= Map::empty());
    while i < n
        invariant
            0 <= i <= n,
            r.wf(),
            r.bytes == old(r).bytes,
            b == r.bytes@,
            p == old(r).pos,
            old(r).pos <= r.pos,
            out.wf(),
            gave(entries_at(b, p, i as nat), meta(out@), r.pos as int),
        decreases n - i,
    {
        let ghost before = out@;
        let key = match read_string(r) {
            Ok(key) => key,
            Err(e) => {
                proof {
                    entries_keep_failing(b, p, (i + 1) as nat, n as nat);
                }
                return Err(e);
            },
        };
        let value = match read_value(r) {
            Ok(value) => value,
            Err(e) => {
                proof {
                    entries_keep_failing(b, p, (i + 1) as nat, n as nat);
                }
                return Err(e);
            },
        };
        let ghost text = key@;
        out.insert(key, value);
        assert(meta(out@) =~= meta(before).insert(text, value@));
        i += 1;
    }
    Ok(out)
}

/// Reads `n` extents.
fn read_dims(r: &mut ByteReader<'_>, n: u32) -> (res: Result<Vec<u64>, ModelError>)
    requires
        old(r).wf(),
    ensures
        final(r).wf(),
        final(r).bytes == old(r).bytes,
        old(r).pos <= final(r).pos,
        match res {
            Ok(v) => v@.len() == n && gave(
                dims_at(old(r).bytes@, old(r).pos as int, n as nat),
                v@,
                final(r).pos as int,
            ),
            Err(e) => failed(dims_at(old(r).bytes@, old(r).pos as int, n as nat), e@),
        },
{
    let ghost b = r.bytes@;
    let ghost p = r.pos as int;
    let mut out: Vec<u64> = Vec::new();
    let mut i: u32 = 0;
    assert(out@ =~= Seq::empty());
    while i < n
        invariant
            0 <= i <= n,
            r.wf(),
            r.bytes == old(r).bytes,
            b == r.bytes@,
            p == old(r).pos,
            old(r).pos <= r.pos,
            out@.len() == i,
            gave(dims_at(b, p, i as nat), out@, r.pos as int),
        decreases n - i,
    {
        match read_u64(r) {
            Ok(d) => {
                out.push(d);
            },
            Err(e) => {
                proof {
                    dims_keep_failing(b, p, (i + 1) as nat, n as nat);
                }
                return Err(e);
            },
        }
        i += 1;
    }
    Ok(out)
}

/// Reads one tensor description.
fn read_tensor(r: &mut ByteReader<'_>) -> (res: Result<GgufTensorInfo, ModelError>)
    requires
        old(r).wf(),
    ensures
        final(r).wf(),
        final(r).bytes == old(r).bytes,
        old(r).pos <= final(r).pos,
        match res {
            Ok(t) => t.dims@.len() == t.n_dims && t.shard_idx == 0 && gave(
                tensor_at(old(r).bytes@, old(r).pos as int),
                t@,
                final(r).pos as int,
            ),
            Err(e) => failed(tensor_at(old(r).bytes@, old(r).pos as int), e@),
        },
{
    let name = read_string(r)?;
    let n_dims = read_u32(r)?;
    let dims = read_dims(r, n_dims)?;
    let tensor_type = read_u32(r)?;
    let offset = read_u64(r)?;
    Ok(GgufTensorInfo { name, n_dims, dims, tensor_type, offset, shard_idx: 0 })
}

/// Every description has as many extents as it says.
pub open spec fn infos_wf(v: Seq<GgufTensorInfo>) -> bool {
    forall|i: int| 0 <= i < v.len() ==> (#[trigger] v[i]).dims@.len() == v[i].n_dims
}

/// Every tensor lies in file `k`.
pub open spec fn all_in_file(v: Seq<GgufTensorInfo>, k: int) -> bool {
    forall|i: int| 0 <= i < v.len() ==> (#[trigger] v[i]).shard_idx == k
}

/// Reads `n` tensor descriptions.
fn read_tensors(r: &mut ByteReader<'_>, n: u64) -> (res: Result<Vec<GgufTensorInfo>, ModelError>)
    requires
        old(r).wf(),
    ensures
        final(r).wf(),
        final(r).bytes == old(r).bytes,
        old(r).pos <= final(r).pos,
        match res {
            Ok(v) => infos_wf(v@) && all_in_file(v@, 0) && gave(
                tensors_at(old(r).bytes@, old(r).pos as int, n as nat),
                descs(v@),
                final(r).pos as int,
            ),
            Err(e) => failed(tensors_at(old(r).bytes@, old(r).pos as int, n as nat), e@),
        },
{
    let ghost b = r.bytes@;
    let ghost p = r.pos as int;
    let mut out: Vec<GgufTensorInfo> = Vec::new();
    let mut i: u64 = 0;
    assert(descs(out@) =~= Seq::empty());
    while i < n
        invariant
            0 <= i <= n,
            r.wf(),
            r.bytes == old(r).bytes,
            b == r.bytes@,
            p == old(r).pos,
            old(r).pos <= r.pos,
            infos_wf(out@),
            all_in_file(out@, 0),
            gave(tensors_at(b, p, i as nat), descs(out@), r.pos as int),
        decreases n - i,
    {
        let ghost before = out@;
        match read_tensor(r) {
            Ok(t) => {
                out.push(t);
                assert(descs(out@) =~= descs(before).push(t@));
            },
            Err(e) => {
                proof {
                    tensors_keep_failing(b, p, (i + 1) as nat, n as nat);
                }
                return Err(e);
            },
        }
        i += 1;
    }
    Ok(out)
}

/// Reads the leading numbers.
fn read_leading(r: &mut ByteReader<'_>) -> (res: Result<(u64, u64), ModelError>)
    requires
        old(r).wf(),
    ensures
        reading(*old(r), *final(r), leading_at(old(r).bytes@, old(r).pos as int), res),
{
    let magic = read_u32(r)?;
    if magic != GGUF_MAGIC {
        let found = hex_string(magic, 8);
        let want = hex_string(GGUF_MAGIC, 8);
        let head = concat3("not a GGUF file (magic: 0x", found.as_str(), ", expected 0x");
        return Err(ModelError::Parse(concat3(head.as_str(), want.as_str(), ")")));
    }
    let version = read_u32(r)?;
    if version != 2 && version != 3 {
        let v = decimal_string(version as u64);
        return Err(ModelError::Parse(concat("unsupported GGUF version: ", v.as_str())));
    }
    let n_tensors = read_u64(r)?;
    let n_metadata = read_u64(r)?;
    Ok((n_tensors, n_metadata))
}

impl GgufFile {
    /// The header's tables are in order: no metadata key comes twice, every
    /// tensor has as many extents as it says and lies in one of the files.
    pub open spec fn wf(&self) -> bool {
        &&& self.metadata.wf()
        &&& infos_wf(self.tensor_infos@)
        &&& forall|i: int|
            0 <= i < self.tensor_infos@.len() ==> (#[trigger] self.tensor_infos@[i]).shard_idx
                < self.shards@.len()
    }

    /// Reads the header of one file out of the file's bytes.
    pub fn open_single(path: &str, bytes: &[u8]) -> (res: Result<GgufFile, ModelError>)
        requires
            bytes@.len() <= isize::MAX,
        ensures
            match res {
                Ok(f) => f.wf() && f.path@ == path@ && header_of(bytes@) == Ok::<Header, Fault>(
                    Header {
                        metadata: meta(f.metadata@),
                        tensors: descs(f.tensor_infos@),
                        data_offset: f.data_offset as int,
                    },
                ) && shard_list(f.shards@) == seq![(path@, f.data_offset)],
                Err(e) => header_of(bytes@) == Err::<Header, Fault>(e@),
            },
    {
        reveal(header_of);
        let mut reader = ByteReader::new(bytes);
        let (n_tensors, n_metadata) = match read_leading(&mut reader) {
            Ok(n) => n,
            Err(e) => return Err(e),
        };
        let metadata = match read_entries(&mut reader, n_metadata) {
            Ok(m) => m,
            Err(e) => return Err(e),
        };
        let tensor_infos = match read_tensors(&mut reader, n_tensors) {
            Ok(v) => v,
            Err(e) => return Err(e),
        };
        let pos: u64 = reader.pos as u64;
        let data_offset: u64 = ((pos + (GGUF_ALIGNMENT - 1)) / GGUF_ALIGNMENT) * GGUF_ALIGNMENT;
        let mut shards: Vec<ShardInfo> = Vec::new();
        shards.push(ShardInfo { path: path.to_owned(), data_offset });
        assert(shard_list(shards@) =~= seq![(path@, data_offset)]);
        Ok(GgufFile { metadata, tensor_infos, data_offset, path: path.to_owned(), shards })
    }
}

} // verus!
