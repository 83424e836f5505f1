//! From the tensors of an opened model to the weights that the rest of the
//! program uses.
//!
//! How many bytes a tensor takes and which numbers they encode depends on its
//! element encoding; both are handed in for each tensor.
use vstd::prelude::*;

use crate::error::{Fault, ModelError};
use crate::gguf::constants::DEFAULT_GGUF_VOCAB_SIZE;
use crate::gguf::keys::{gguf_key, normalize_gguf_key, normalize_key, stripped};
use crate::gguf::orient::{
    all_biases_split, all_oriented, all_weights_split, attention_shapes, bias_kept_or_cut,
    ffn_shapes, grids, grids_wf, is_fused_bias, is_fused_key, opt_nat, orient_attention_tensors,
    orient_embedding, orient_ffn_tensors, oriented_embedding, oriented_one_by_one, rows_of,
    split_fused_qkv, weight_kept_or_cut,
};
use crate::gguf::types::{GgufFile, GgufTensorInfo, TensorDesc};
use crate::layout::ModelLayout;
use crate::table::TextMap;
use crate::tensor::{shape_fault, Grid, Matrix};
use crate::text::{concat, concat3, decimal, decimal_string, texts};

verus! {

/// The product of the extents.
pub open spec fn product(dims: Seq<u64>) -> nat
    decreases dims.len(),
{
    if dims.len() == 0 {
        1
    } else {
        product(dims.drop_last()) * dims.last() as nat
    }
}

impl GgufTensorInfo {
    /// The number of elements, if it fits in 64 bits.
    pub fn element_count(&self) -> (r: Option<u64>)
        ensures
            match r {
                Some(n) => n == product(self.dims@),
                None => exists|k: int|
                    0 <= k <= self.dims@.len() && #[trigger] product(self.dims@.take(k))
                        > u64::MAX,
            },
    {
        let mut n: u64 = 1;
        let mut i: usize = 0;
        assert(self.dims@.take(0) =~= Seq::empty());
        while i < self.dims.len()
            invariant
                0 <= i <= self.dims.len(),
                n == product(self.dims@.take(i as int)),
            decreases self.dims.len() - i,
        {
            assert(self.dims@.take(i + 1).drop_last() =~= self.dims@.take(i as int));
            match n.checked_mul(self.dims[i]) {
                Some(v) => {
                    n = v;
                },
                None => {
                    assert(product(self.dims@.take(i + 1)) > u64::MAX);
                    return None;
                },
            }
            i += 1;
        }
        assert(self.dims@.take(i as int) =~= self.dims@);
        Some(n)
    }
}

/// The bytes that a tensor takes, or why that is not known.
pub open spec fn size_result(r: Result<usize, String>) -> Result<nat, Seq<char>> {
    match r {
        Ok(n) => Ok(n as nat),
        Err(s) => Err(s@),
    }
}

/// Where the data of a tensor lies in its file: from the file's data offset
/// and the tensor's own, for as many bytes as the tensor takes.  Fails if that
/// is more than a machine can address or more than the file has.
pub open spec fn range_of(
    t: TensorDesc,
    data_offset: u64,
    size: Result<nat, Seq<char>>,
    file_len: nat,
) -> Result<(nat, nat), Fault> {
    let start = (data_offset + t.offset) as nat;
    if start > u64::MAX {
        Err(
            Fault::Parse(
                "tensor "@ + t.name + ": data_offset "@ + decimal(data_offset as nat)
                    + " + tensor offset "@ + decimal(t.offset as nat) + " overflows u64"@,
            ),
        )
    } else {
        match size {
            Err(text) => Err(Fault::Parse(text)),
            Ok(n) => if start > usize::MAX {
                Err(
                    Fault::Parse(
                        "tensor "@ + t.name + ": absolute offset "@ + decimal(start)
                            + " exceeds usize on this platform"@,
                    ),
                )
            } else if start + n > usize::MAX {
                Err(
                    Fault::Parse(
                        "tensor "@ + t.name + ": offset "@ + decimal(start) + " + size "@
                            + decimal(n) + " overflows usize"@,
                    ),
                )
            } else if start + n > file_len {
                Err(
                    Fault::Parse(
                        "tensor "@ + t.name + " data out of bounds (offset "@ + decimal(start)
                            + " + size "@ + decimal(n) + " > shard "@ + decimal(t.shard_idx)
                            + " file "@ + decimal(file_len) + ")"@,
                    ),
                )
            } else {
                Ok((start, start + n))
            },
        }
    }
}

/// A tensor's data, where it is found, lies within its file.
pub proof fn range_within_file(
    t: TensorDesc,
    data_offset: u64,
    size: Result<nat, Seq<char>>,
    file_len: nat,
)
    ensures
        range_of(t, data_offset, size, file_len) matches Ok((a, b)) ==> a <= b <= file_len
            && size == Ok::<nat, Seq<char>>((b - a) as nat) && a == data_offset + t.offset,
{
}

/// `text` followed by `n` in decimal.
fn with_number(text: &str, n: u64) -> (r: String)
    ensures
        r@ == text@ + decimal(n as nat),
{
    let digits = decimal_string(n);
    concat(text, digits.as_str())
}

/// Where the data of a tensor lies in its file.
pub fn tensor_range(
    info: &GgufTensorInfo,
    data_offset: u64,
    size: &Result<usize, String>,
    file_len: usize,
) -> (r: Result<(usize, usize), ModelError>)
    ensures
        match r {
            Ok((a, b)) => range_of(info@, data_offset, size_result(*size), file_len as nat) == Ok::<
                (nat, nat),
                Fault,
            >((a as nat, b as nat)),
            Err(e) => range_of(info@, data_offset, size_result(*size), file_len as nat) == Err::<
                (nat, nat),
                Fault,
            >(e@),
        },
{
    let named = concat("tensor ", info.name.as_str());
    let start: u64 = match data_offset.checked_add(info.offset) {
        Some(n) => n,
        None => {
            let a = with_number(concat(named.as_str(), ": data_offset ").as_str(), data_offset);
            let b = with_number(concat(a.as_str(), " + tensor offset ").as_str(), info.offset);
            return Err(ModelError::Parse(concat(b.as_str(), " overflows u64")));
        },
    };
    let n: usize = match size {
        Ok(n) => *n,
        Err(text) => return Err(ModelError::Parse(text.clone())),
    };
    if start > usize::MAX as u64 {
        let a = with_number(concat(named.as_str(), ": absolute offset ").as_str(), start);
        return Err(ModelError::Parse(concat(a.as_str(), " exceeds usize on this platform")));
    }
    let from: usize = start as usize;
    match from.checked_add(n) {
        None => {
            let a = with_number(concat(named.as_str(), ": offset ").as_str(), start);
            let b = with_number(concat(a.as_str(), " + size ").as_str(), n as u64);
            Err(ModelError::Parse(concat(b.as_str(), " overflows usize")))
        },
        Some(to) => if to > file_len {
            let a = with_number(concat(named.as_str(), " data out of bounds (offset ").as_str(), start);
            let b = with_number(concat(a.as_str(), " + size ").as_str(), n as u64);
            let c = with_number(concat(b.as_str(), " > shard ").as_str(), info.shard_idx as u64);
            let d = with_number(concat(c.as_str(), " file ").as_str(), file_len as u64);
            Err(ModelError::Parse(concat(d.as_str(), ")")))
        } else {
            Ok((from, to))
        },
    }
}

/// The matrices and vectors of a model, each under its key.
pub struct Tensors {
    pub matrices: TextMap<Matrix>,
    pub vectors: TextMap<Vec<u32>>,
}

/// What [`Tensors`] holds, as plain values.
pub struct TensorMaps {
    pub matrices: Map<Seq<char>, Grid>,
    pub vectors: Map<Seq<char>, Seq<u32>>,
}

impl View for Tensors {
    type V = TensorMaps;

    open spec fn view(&self) -> TensorMaps {
        TensorMaps { matrices: grids(self.matrices@), vectors: rows_of(self.vectors@) }
    }
}

impl Tensors {
    /// No key comes twice in either table, and every matrix has one number for
    /// each row and column.
    pub open spec fn wf(&self) -> bool {
        self.matrices.wf() && self.vectors.wf() && grids_wf(grids(self.matrices@))
    }
}

/// Why `len` numbers do not make a matrix with these extents.
pub open spec fn grid_fault(dims: Seq<u64>, len: nat) -> Option<Seq<char>> {
    if dims[0] <= usize::MAX && dims[1] <= usize::MAX {
        shape_fault(seq![dims[1] as usize, dims[0] as usize], len)
    } else {
        Some("ShapeError/Overflow: arithmetic overflow"@)
    }
}

/// The tables with the numbers of one tensor added.  The first extent of a
/// two-dimensional tensor counts its columns, the second its rows.  A tensor
/// with any other number of dimensions than one or two is left out.
pub open spec fn stored(m: TensorMaps, t: TensorDesc, numbers: Seq<u32>) -> Result<
    TensorMaps,
    Fault,
> {
    let key = gguf_key(t.name);
    if t.n_dims == 2 {
        match grid_fault(t.dims, numbers.len()) {
            None => {
                let g = Grid { rows: t.dims[1] as nat, cols: t.dims[0] as nat, data: numbers };
                Ok(TensorMaps { matrices: m.matrices.insert(key, g), vectors: m.vectors })
            },
            Some(text) => Err(Fault::Parse("tensor "@ + t.name + ": "@ + text)),
        }
    } else if t.n_dims == 1 {
        Ok(TensorMaps { matrices: m.matrices, vectors: m.vectors.insert(key, numbers) })
    } else {
        Ok(m)
    }
}

/// Adds the numbers of one tensor to the tables.
pub fn store_tensor(tensors: &mut Tensors, info: &GgufTensorInfo, numbers: Vec<u32>) -> (r: Result<
    (),
    ModelError,
>)
    requires
        old(tensors).wf(),
        info.dims@.len() == info.n_dims,
    ensures
        final(tensors).wf(),
        match r {
            Ok(_) => stored(old(tensors)@, info@, numbers@) == Ok::<TensorMaps, Fault>(
                final(tensors)@,
            ),
            Err(e) => stored(old(tensors)@, info@, numbers@) == Err::<TensorMaps, Fault>(e@),
        },
{
    let ghost before = tensors@;
    let ghost data = numbers@;
    let key = normalize_gguf_key(info.name.as_str());
    let ghost text = key@;
    if info.n_dims == 2 {
        let cols: u64 = info.dims[0];
        let rows: u64 = info.dims[1];
        let shaped: Result<Matrix, String> = if cols <= usize::MAX as u64 && rows <= usize::MAX as u64 {
            Matrix::from_shape_vec(rows as usize, cols as usize, numbers)
        } else {
            Err("ShapeError/Overflow: arithmetic overflow".to_owned())
        };
        match shaped {
            Ok(m) => {
                let ghost old_maps = tensors.matrices@;
                let ghost view = m@;
                tensors.matrices.insert(key, m);
                assert(grids(tensors.matrices@) =~= grids(old_maps).insert(text, view));
            },
            Err(text) => {
                let head = concat3("tensor ", info.name.as_str(), ": ");
                return Err(ModelError::Parse(concat(head.as_str(), text.as_str())));
            },
        }
    } else if info.n_dims == 1 {
        let ghost old_maps = tensors.vectors@;
        tensors.vectors.insert(key, numbers);
        assert(rows_of(tensors.vectors@) =~= rows_of(old_maps).insert(text, data));
    }
    Ok(())
}

/// The numbers that a tensor's bytes encode, or why they are not known.
pub open spec fn numbers_result(r: Result<Vec<u32>, String>) -> Result<Seq<u32>, Seq<char>> {
    match r {
        Ok(v) => Ok(v@),
        Err(s) => Err(s@),
    }
}

/// What is handed in for one tensor.
pub struct TensorInput {
    /// Whether the tensor is left out.
    pub skip: bool,
    /// The length of the tensor's file.
    pub file_len: usize,
    /// The bytes that the tensor takes, or why that is not known.
    pub size: Result<usize, String>,
    /// The numbers that these bytes encode, or why they are not known.
    pub numbers: Result<Vec<u32>, String>,
}

/// The tables after the first `k` tensors.  A tensor that is left out is not
/// looked at.
pub open spec fn loaded(
    tensors: Seq<TensorDesc>,
    offsets: Seq<u64>,
    inputs: Seq<TensorInput>,
    k: nat,
) -> Result<TensorMaps, Fault>
    decreases k,
{
    if k == 0 {
        Ok(TensorMaps { matrices: Map::empty(), vectors: Map::empty() })
    } else {
        match loaded(tensors, offsets, inputs, (k - 1) as nat) {
            Err(e) => Err(e),
            Ok(m) => {
                let t = tensors[k - 1];
                let x = inputs[k - 1];
                if x.skip {
                    Ok(m)
                } else {
                    match range_of(
                        t,
                        offsets[t.shard_idx as int],
                        size_result(x.size),
                        x.file_len as nat,
                    ) {
                        Err(e) => Err(e),
                        Ok(_) => match numbers_result(x.numbers) {
                            Err(text) => Err(Fault::Parse(text)),
                            Ok(numbers) => stored(m, t, numbers),
                        },
                    }
                }
            },
        }
    }
}

/// Once the first `k` tensors fail, so do the first `n`.
proof fn loaded_keeps_failing(
    tensors: Seq<TensorDesc>,
    offsets: Seq<u64>,
    inputs: Seq<TensorInput>,
    k: nat,
    n: nat,
)
    requires
        k <= n,
        loaded(tensors, offsets, inputs, k) is Err,
    ensures
        loaded(tensors, offsets, inputs, n) == loaded(tensors, offsets, inputs, k),
    decreases n,
{
    if k < n {
        loaded_keeps_failing(tensors, offsets, inputs, k, (n - 1) as nat);
    }
}

impl GgufFile {
    /// Where each file's data section starts.
    pub open spec fn offsets(&self) -> Seq<u64> {
        Seq::new(self.shards@.len(), |i: int| self.shards@[i].data_offset)
    }

    /// The tables of all tensors that are not left out.
    pub open spec fn load_result(&self, inputs: Seq<TensorInput>) -> Result<TensorMaps, Fault> {
        loaded(
            crate::gguf::types::descs(self.tensor_infos@),
            self.offsets(),
            inputs,
            self.tensor_infos@.len(),
        )
    }

    /// The keys of all tensors, in the order of the file.
    pub fn tensor_keys(&self) -> (r: Vec<String>)
        ensures
            texts(r@) == Seq::new(
                self.tensor_infos@.len(),
                |i: int| gguf_key(self.tensor_infos@[i].name@),
            ),
    {
        let ghost want = Seq::new(
            self.tensor_infos@.len(),
            |i: int| gguf_key(self.tensor_infos@[i].name@),
        );
        let mut out: Vec<String> = Vec::new();
        let mut i: usize = 0;
        assert(texts(out@) =~= want.take(0));
        while i < self.tensor_infos.len()
            invariant
                0 <= i <= self.tensor_infos.len(),
                want == Seq::new(
                    self.tensor_infos@.len(),
                    |i: int| gguf_key(self.tensor_infos@[i].name@),
                ),
                texts(out@) == want.take(i as int),
            decreases self.tensor_infos.len() - i,
        {
            let ghost before = out@;
            let key = normalize_gguf_key(self.tensor_infos[i].name.as_str());
            let ghost text = key@;
            out.push(key);
            i += 1;
            assert(texts(out@) =~= texts(before).push(text));
            assert(want.take(i as int) =~= want.take(i - 1).push(text));
        }
        assert(want.take(i as int) =~= want);
        out
    }

    /// The tables of all tensors.  The first tensor that cannot be loaded
    /// decides the error.
    pub fn load_tensors(&self, inputs: Vec<TensorInput>) -> (r: Result<Tensors, ModelError>)
        requires
            self.wf(),
            inputs@.len() == self.tensor_infos@.len(),
            nothing_skipped(inputs@),
        ensures
            match r {
                Ok(t) => t.wf() && self.load_result(inputs@) == Ok::<TensorMaps, Fault>(t@),
                Err(e) => self.load_result(inputs@) == Err::<TensorMaps, Fault>(e@),
            },
    {
        self.load_tensors_filtered(inputs)
    }

    /// The tables of all tensors that are not left out.  The first tensor that
    /// cannot be loaded decides the error.
    pub fn load_tensors_filtered(&self, inputs: Vec<TensorInput>) -> (r: Result<
        Tensors,
        ModelError,
    >)
        requires
            self.wf(),
            inputs@.len() == self.tensor_infos@.len(),
        ensures
            match r {
                Ok(t) => t.wf() && self.load_result(inputs@) == Ok::<TensorMaps, Fault>(t@),
                Err(e) => self.load_result(inputs@) == Err::<TensorMaps, Fault>(e@),
            },
    {
        let ghost tensors = crate::gguf::types::descs(self.tensor_infos@);
        let ghost offsets = self.offsets();
        let mut out = Tensors { matrices: TextMap::new(), vectors: TextMap::new() };
        assert(out@.matrices =~= Map::empty());
        assert(out@.vectors =~= Map::empty());
        let mut i: usize = 0;
        while i < self.tensor_infos.len()
            invariant
                0 <= i <= self.tensor_infos.len(),
                self.wf(),
                inputs@.len() == self.tensor_infos@.len(),
                tensors == crate::gguf::types::descs(self.tensor_infos@),
                offsets == self.offsets(),
                out.wf(),
                loaded(tensors, offsets, inputs@, i as nat) == Ok::<TensorMaps, Fault>(out@),
            decreases self.tensor_infos.len() - i,
        {
            let info = &self.tensor_infos[i];
            let x = &inputs[i];
            assert(tensors[i as int] == info@);
            if !x.skip {
                let data_offset = self.shards[info.shard_idx].data_offset;
                if let Err(e) = tensor_range(info, data_offset, &x.size, x.file_len) {
                    proof {
                        loaded_keeps_failing(
                            tensors,
                            offsets,
                            inputs@,
                            (i + 1) as nat,
                            tensors.len(),
                        );
                    }
                    return Err(e);
                }
                match &x.numbers {
                    Err(text) => {
                        proof {
                            loaded_keeps_failing(
                                tensors,
                                offsets,
                                inputs@,
                                (i + 1) as nat,
                                tensors.len(),
                            );
                        }
                        return Err(ModelError::Parse(text.clone()));
                    },
                    Ok(v) => {
                        let numbers = vstd::slice::slice_to_vec(v.as_slice());
                        match store_tensor(&mut out, info, numbers) {
                            Ok(_) => {},
                            Err(e) => {
                                proof {
                                    loaded_keeps_failing(
                                        tensors,
                                        offsets,
                                        inputs@,
                                        (i + 1) as nat,
                                        tensors.len(),
                                    );
                                }
                                return Err(e);
                            },
                        }
                    },
                }
            }
            i += 1;
        }
        Ok(out)
    }
}

/// The number of entries of the object under `outer` and `inner` in a JSON
/// text: nothing if the text is not JSON or there is no such object.
pub uninterp spec fn json_object_size(text: Seq<char>, outer: Seq<char>, inner: Seq<char>) ->
    Option<nat>;

/// `serde_json::from_str` into a `Value`, the value's index under two keys,
/// `Value::as_object` and the object's length: a function of the three texts.
#[verifier::external_body]
fn object_size(text: &str, outer: &str, inner: &str) -> (r: Option<usize>)
    ensures
        opt_nat(r) == json_object_size(text@, outer@, inner@),
{
    let json = serde_json::from_str::<serde_json::Value>(text).ok()?;
    json[outer][inner].as_object().map(|o| o.len())
}

/// A count that is there and positive.
pub open spec fn positive_nat(n: Option<nat>) -> Option<nat> {
    match n {
        Some(v) => if v > 0 {
            Some(v)
        } else {
            None
        },
        None => None,
    }
}

/// Keeps a positive count.
pub fn positive_count(n: Option<usize>) -> (r: Option<usize>)
    ensures
        opt_nat(r) == positive_nat(opt_nat(n)),
{
    match n {
        Some(v) => if v > 0 {
            Some(v)
        } else {
            None
        },
        None => None,
    }
}

/// The vocabulary size that a tokenizer's JSON text gives: the number of
/// entries of its model's vocabulary, if there are any.
pub open spec fn tokenizer_vocab(text: Option<Seq<char>>) -> Option<nat> {
    match text {
        Some(t) => positive_nat(json_object_size(t, "model"@, "vocab"@)),
        None => None,
    }
}

/// The text of an optional string slice.
pub open spec fn opt_str(s: Option<&str>) -> Option<Seq<char>> {
    match s {
        Some(t) => Some(t@),
        None => None,
    }
}

/// The vocabulary size that a tokenizer's JSON text gives, where there is such
/// a text.
pub fn read_tokenizer_vocab_size(tokenizer_json: Option<&str>) -> (r: Option<usize>)
    ensures
        opt_nat(r) == tokenizer_vocab(opt_str(tokenizer_json)),
{
    match tokenizer_json {
        Some(text) => positive_count(object_size(text, "model", "vocab")),
        None => None,
    }
}

/// `out` holds the matrices of `m` under their keys without prefix: each of
/// them is one of `m`, and none is lost but for one whose key another has too.
pub open spec fn renamed(
    m: Map<Seq<char>, Grid>,
    out: Map<Seq<char>, Grid>,
    prefixes: Seq<Seq<char>>,
) -> bool {
    &&& forall|k: Seq<char>| #[trigger] m.dom().contains(k) ==> out.dom().contains(
        stripped(k, prefixes),
    )
    &&& forall|n: Seq<char>| #[trigger] out.dom().contains(n) ==> renamed_from(m, out, prefixes, n)
}

/// The matrix under `n` comes from a key of `m` that is `n` without prefix.
pub open spec fn renamed_from(
    m: Map<Seq<char>, Grid>,
    out: Map<Seq<char>, Grid>,
    prefixes: Seq<Seq<char>>,
    n: Seq<char>,
) -> bool {
    exists|k: Seq<char>| #[trigger]
        m.dom().contains(k) && stripped(k, prefixes) == n && out[n] == m[k]
}

/// Where no two keys become the same, each matrix is found under its key
/// without prefix.
pub proof fn renamed_exactly(
    m: Map<Seq<char>, Grid>,
    out: Map<Seq<char>, Grid>,
    prefixes: Seq<Seq<char>>,
    k: Seq<char>,
)
    requires
        renamed(m, out, prefixes),
        m.dom().contains(k),
        forall|j: Seq<char>| #[trigger]
            m.dom().contains(j) && stripped(j, prefixes) == stripped(k, prefixes) ==> j == k,
    ensures
        out.dom().contains(stripped(k, prefixes)),
        out[stripped(k, prefixes)] == m[k],
{
    assert(renamed_from(m, out, prefixes, stripped(k, prefixes)));
}

/// The matrices under their keys without prefix.
fn rename_matrices(matrices: &TextMap<Matrix>, prefixes: &Vec<String>) -> (r: TextMap<Matrix>)
    requires
        matrices.wf(),
        grids_wf(grids(matrices@)),
    ensures
        r.wf(),
        grids_wf(grids(r@)),
        renamed(grids(matrices@), grids(r@), texts(prefixes@)),
{
    let ghost m = grids(matrices@);
    let ghost ps = texts(prefixes@);
    let mut out: TextMap<Matrix> = TextMap::new();
    let mut i: usize = 0;
    while i < matrices.entries.len()
        invariant
            0 <= i <= matrices.entries.len(),
            matrices.wf(),
            m == grids(matrices@),
            grids_wf(m),
            ps == texts(prefixes@),
            out.wf(),
            grids_wf(grids(out@)),
            forall|j: int|
                0 <= j < i ==> grids(out@).dom().contains(
                    stripped((#[trigger] matrices.entries@[j]).key@, ps),
                ),
            forall|n: Seq<char>| #[trigger]
                grids(out@).dom().contains(n) ==> renamed_from(m, grids(out@), ps, n),
        decreases matrices.entries.len() - i,
    {
        let ghost before = grids(out@);
        let entry = &matrices.entries[i];
        proof {
            matrices.entry_in_map(i as int);
        }
        assert(m.dom().contains(entry.key@));
        assert(m[entry.key@] == entry.value@);
        let key = normalize_key(entry.key.as_str(), prefixes);
        let copy = entry.value.copy();
        let ghost text = key@;
        let ghost view = copy@;
        out.insert(key, copy);
        proof {
            assert(grids(out@) =~= before.insert(text, view));
            assert forall|n: Seq<char>| #[trigger]
                grids(out@).dom().contains(n) implies renamed_from(m, grids(out@), ps, n) by {
                if n == text {
                    assert(m.dom().contains(entry.key@));
                } else {
                    assert(before.dom().contains(n));
                    let k = choose|k: Seq<char>| #[trigger]
                        m.dom().contains(k) && stripped(k, ps) == n && before[n] == m[k];
                    assert(m.dom().contains(k));
                }
            }
        }
        i += 1;
    }
    proof {
        assert forall|k: Seq<char>| #[trigger] m.dom().contains(k) implies grids(
            out@,
        ).dom().contains(stripped(k, ps)) by {
            let j = crate::table::key_index(matrices.entries@, k);
            assert(matrices.entries@[j].key@ == k);
        }
    }
    out
}

/// A model's weights.
pub struct ModelWeights {
    pub tensors: Tensors,
    pub embed: Matrix,
    pub lm_head: Matrix,
    pub position_embed: Option<Matrix>,
    /// Tensors kept as bytes; a GGUF file gives none.
    pub raw_bytes: TextMap<Vec<u8>>,
    /// The keys of tensors that could not be read; a GGUF file gives none.
    pub skipped_tensors: Vec<String>,
    pub num_layers: usize,
    pub hidden_size: usize,
    pub intermediate_size: usize,
    pub vocab_size: usize,
    pub head_dim: usize,
    pub num_q_heads: usize,
    pub num_kv_heads: usize,
    /// The bit pattern of the base of the rotary embedding.
    pub rope_base: u64,
}

/// What [`ModelWeights`] holds, as plain values.
pub struct WeightsView {
    pub tensors: TensorMaps,
    pub embed: Grid,
    pub lm_head: Grid,
    pub position_embed: Option<Grid>,
    pub raw_bytes: Map<Seq<char>, Vec<u8>>,
    pub skipped_tensors: Seq<Seq<char>>,
    pub vocab_size: nat,
    pub dims: WeightDims,
}

/// The shape of a model, as plain values.
pub struct WeightDims {
    pub num_layers: nat,
    pub hidden_size: nat,
    pub intermediate_size: nat,
    pub head_dim: nat,
    pub num_q_heads: nat,
    pub num_kv_heads: nat,
    pub rope_base: u64,
}

/// The shape that a layout gives a model.
pub open spec fn layout_dims(l: &ModelLayout) -> WeightDims {
    WeightDims {
        num_layers: l.layers@.len(),
        hidden_size: l.hidden_size as nat,
        intermediate_size: l.intermediate_size as nat,
        head_dim: l.head_dim as nat,
        num_q_heads: l.num_q_heads as nat,
        num_kv_heads: l.num_kv_heads as nat,
        rope_base: l.rope_base,
    }
}

/// What an optional matrix holds.
pub open spec fn opt_grid(m: Option<Matrix>) -> Option<Grid> {
    match m {
        Some(g) => Some(g@),
        None => None,
    }
}

impl View for ModelWeights {
    type V = WeightsView;

    open spec fn view(&self) -> WeightsView {
        WeightsView {
            tensors: self.tensors@,
            embed: self.embed@,
            lm_head: self.lm_head@,
            position_embed: opt_grid(self.position_embed),
            raw_bytes: self.raw_bytes@,
            skipped_tensors: texts(self.skipped_tensors@),
            vocab_size: self.vocab_size as nat,
            dims: WeightDims {
                num_layers: self.num_layers as nat,
                hidden_size: self.hidden_size as nat,
                intermediate_size: self.intermediate_size as nat,
                head_dim: self.head_dim as nat,
                num_q_heads: self.num_q_heads as nat,
                num_kv_heads: self.num_kv_heads as nat,
                rope_base: self.rope_base,
            },
        }
    }
}

/// The tables after every layer's tensors have been brought into their shapes
/// and every fused projection has been cut.
pub open spec fn canonical(m: TensorMaps, l: &ModelLayout) -> TensorMaps {
    let n = l.layers@.len();
    TensorMaps {
        matrices: all_weights_split(
            all_oriented(all_oriented(m.matrices, ffn_shapes(l, n)), attention_shapes(l, n)),
            l,
            n,
        ),
        vectors: all_biases_split(m.vectors, l, n),
    }
}

/// The vocabulary size that is known without the embedding: what the model
/// says, or else what the tokenizer says.
pub open spec fn known_vocab(l: &ModelLayout, tokenizer: Option<nat>) -> Option<nat> {
    match positive_nat(opt_nat(l.vocab_size)) {
        Some(n) => Some(n),
        None => tokenizer,
    }
}

/// What `m` holds under `key`.
pub open spec fn look_up(m: Map<Seq<char>, Grid>, key: Seq<char>) -> Option<Grid> {
    if m.dom().contains(key) {
        Some(m[key])
    } else {
        None
    }
}

/// The weights that the loaded tensors give.  The embedding must be there; a
/// model without an output matrix uses the embedding in its place.
pub open spec fn assembled(m: TensorMaps, l: &ModelLayout, tokenizer: Option<nat>) -> Result<
    WeightsView,
    Fault,
> {
    let t = canonical(m, l);
    match look_up(t.matrices, l.embed_key@) {
        None => Err(Fault::MissingTensor(l.embed_key@)),
        Some(raw) => {
            let known = known_vocab(l, tokenizer);
            let embed = oriented_embedding(raw, l.hidden_size as nat, known);
            Ok(
                WeightsView {
                    tensors: t,
                    embed,
                    lm_head: match look_up(t.matrices, "lm_head.weight"@) {
                        Some(g) => g,
                        None => match look_up(t.matrices, "output.weight"@) {
                            Some(g) => g,
                            None => embed,
                        },
                    },
                    position_embed: match l.position_embed_key {
                        Some(k) => look_up(t.matrices, k@),
                        None => None,
                    },
                    raw_bytes: Map::empty(),
                    skipped_tensors: Seq::empty(),
                    vocab_size: match known {
                        Some(n) => n,
                        None => if embed.rows > 0 {
                            embed.rows
                        } else {
                            DEFAULT_GGUF_VOCAB_SIZE as nat
                        },
                    },
                    dims: layout_dims(l),
                },
            )
        },
    }
}

/// A copy of the matrix under `key`.
fn copy_of(matrices: &TextMap<Matrix>, key: &str) -> (r: Option<Matrix>)
    requires
        matrices.wf(),
    ensures
        opt_grid(r) == look_up(grids(matrices@), key@),
{
    match matrices.get(key) {
        Some(m) => Some(m.copy()),
        None => None,
    }
}

/// The weights that the loaded tensors give.
pub fn assemble_weights(
    tensors: Tensors,
    layout: &ModelLayout,
    tokenizer_vocab_size: Option<usize>,
) -> (r: Result<ModelWeights, ModelError>)
    requires
        tensors.wf(),
        layout.dims_fit(),
    ensures
        match r {
            Ok(w) => w.tensors.wf() && assembled(tensors@, layout, opt_nat(tokenizer_vocab_size))
                == Ok::<WeightsView, Fault>(w@),
            Err(e) => assembled(tensors@, layout, opt_nat(tokenizer_vocab_size)) == Err::<
                WeightsView,
                Fault,
            >(e@),
        },
{
    let mut tensors = tensors;
    orient_ffn_tensors(&mut tensors.matrices, layout);
    orient_attention_tensors(&mut tensors.matrices, layout);
    split_fused_qkv(&mut tensors.matrices, &mut tensors.vectors, layout);
    let raw = match tensors.matrices.get(layout.embed_key.as_str()) {
        Some(m) => {
            assert(grids(tensors.matrices@).dom().contains(layout.embed_key@));
            assert(grids(tensors.matrices@)[layout.embed_key@] == m@);
            m.copy()
        },
        None => return Err(ModelError::MissingTensor(layout.embed_key.clone())),
    };
    let known = match positive_count(layout.vocab_size) {
        Some(n) => Some(n),
        None => tokenizer_vocab_size,
    };
    let embed = orient_embedding(raw, layout.hidden_size, known);
    let lm_head = match copy_of(&tensors.matrices, "lm_head.weight") {
        Some(m) => m,
        None => match copy_of(&tensors.matrices, "output.weight") {
            Some(m) => m,
            None => embed.copy(),
        },
    };
    let position_embed = match &layout.position_embed_key {
        Some(k) => copy_of(&tensors.matrices, k.as_str()),
        None => None,
    };
    let vocab_size: usize = match known {
        Some(n) => n,
        None => if embed.rows > 0 {
            embed.rows
        } else {
            DEFAULT_GGUF_VOCAB_SIZE
        },
    };
    let weights = ModelWeights {
        tensors,
        embed,
        lm_head,
        position_embed,
        raw_bytes: TextMap::new(),
        skipped_tensors: Vec::new(),
        num_layers: layout.layers.len(),
        hidden_size: layout.hidden_size,
        intermediate_size: layout.intermediate_size,
        vocab_size,
        head_dim: layout.head_dim,
        num_q_heads: layout.num_q_heads,
        num_kv_heads: layout.num_kv_heads,
        rope_base: layout.rope_base,
    };
    assert(weights@.skipped_tensors =~= Seq::empty());
    Ok(weights)
}

/// The weights `w`, or the failure, are what the tables `m` give once their
/// keys have lost their prefixes.
pub open spec fn weights_from(
    m: TensorMaps,
    l: &ModelLayout,
    tokenizer: Option<nat>,
    w: Result<WeightsView, Fault>,
) -> bool {
    exists|x: Map<Seq<char>, Grid>| #[trigger]
        renamed(m.matrices, x, texts(l.key_prefixes_to_strip@)) && w == assembled(
            TensorMaps { matrices: x, vectors: m.vectors },
            l,
            tokenizer,
        )
}

/// The weights that loading gave, as plain values.
pub open spec fn weights_result(r: Result<ModelWeights, ModelError>) -> Result<
    WeightsView,
    Fault,
> {
    match r {
        Ok(w) => Ok(w@),
        Err(e) => Err(e@),
    }
}

/// Nothing is left out.
pub open spec fn nothing_skipped(inputs: Seq<TensorInput>) -> bool {
    forall|i: int| 0 <= i < inputs.len() ==> !(#[trigger] inputs[i]).skip
}

/// `w` is what loading gives: the first tensor that cannot be loaded decides
/// the error; else the weights are put together.
pub open spec fn loads(
    file: &GgufFile,
    l: &ModelLayout,
    inputs: Seq<TensorInput>,
    tokenizer: Option<nat>,
    w: Result<WeightsView, Fault>,
) -> bool {
    match file.load_result(inputs) {
        Err(e) => w == Err::<WeightsView, Fault>(e),
        Ok(m) => weights_from(m, l, tokenizer, w),
    }
}

/// `w` is what loading gives after a check with the result `validation`: a
/// failed check is the result.
pub open spec fn loads_validated(
    validation: Result<(), ModelError>,
    file: &GgufFile,
    l: &ModelLayout,
    inputs: Seq<TensorInput>,
    tokenizer: Option<nat>,
    w: Result<WeightsView, Fault>,
) -> bool {
    match validation {
        Err(e) => w == Err::<WeightsView, Fault>(e@),
        Ok(_) => loads(file, l, inputs, tokenizer, w),
    }
}

/// No two keys become the same when they lose their prefixes.
pub open spec fn keys_apart(m: Map<Seq<char>, Grid>, prefixes: Seq<Seq<char>>) -> bool {
    forall|j: Seq<char>, k: Seq<char>| #[trigger]
        m.dom().contains(j) && #[trigger] m.dom().contains(k) && stripped(j, prefixes) == stripped(
            k,
            prefixes,
        ) ==> j == k
}

/// The keys of the tensors that can be loaded stay apart when they lose their
/// prefixes.
pub open spec fn loaded_keys_apart(
    file: &GgufFile,
    l: &ModelLayout,
    inputs: Seq<TensorInput>,
) -> bool {
    file.load_result(inputs) matches Ok(m) ==> keys_apart(
        m.matrices,
        texts(l.key_prefixes_to_strip@),
    )
}

/// Where no two keys become the same, there is one table of the matrices
/// without prefix.
proof fn renamed_one_way(
    m: Map<Seq<char>, Grid>,
    x: Map<Seq<char>, Grid>,
    y: Map<Seq<char>, Grid>,
    prefixes: Seq<Seq<char>>,
)
    requires
        keys_apart(m, prefixes),
        renamed(m, x, prefixes),
        renamed(m, y, prefixes),
    ensures
        x == y,
{
    assert forall|n: Seq<char>| x.dom().contains(n) implies y.dom().contains(n) && x[n]
        == y[n] by {
        assert(renamed_from(m, x, prefixes, n));
        let k = choose|k: Seq<char>| #[trigger]
            m.dom().contains(k) && stripped(k, prefixes) == n && x[n] == m[k];
        renamed_exactly(m, y, prefixes, k);
    }
    assert forall|n: Seq<char>| y.dom().contains(n) implies x.dom().contains(n) by {
        assert(renamed_from(m, y, prefixes, n));
        let k = choose|k: Seq<char>| #[trigger]
            m.dom().contains(k) && stripped(k, prefixes) == n && y[n] == m[k];
        renamed_exactly(m, x, prefixes, k);
    }
    assert(x =~= y);
}

/// Loading twice gives the same: the same error, or the same weights.  So
/// loading and loading without leaving anything out agree.  This holds where
/// no two keys become the same when they lose their prefixes.
pub proof fn loading_agrees(
    file: &GgufFile,
    l: &ModelLayout,
    inputs: Seq<TensorInput>,
    tokenizer: Option<nat>,
    a: Result<WeightsView, Fault>,
    b: Result<WeightsView, Fault>,
)
    requires
        loaded_keys_apart(file, l, inputs),
        loads(file, l, inputs, tokenizer, a),
        loads(file, l, inputs, tokenizer, b),
    ensures
        a == b,
{
    if let Ok(m) = file.load_result(inputs) {
        let ps = texts(l.key_prefixes_to_strip@);
        let x = choose|x: Map<Seq<char>, Grid>| #[trigger]
            renamed(m.matrices, x, ps) && a == assembled(
                TensorMaps { matrices: x, vectors: m.vectors },
                l,
                tokenizer,
            );
        let y = choose|y: Map<Seq<char>, Grid>| #[trigger]
            renamed(m.matrices, y, ps) && b == assembled(
                TensorMaps { matrices: y, vectors: m.vectors },
                l,
                tokenizer,
            );
        renamed_one_way(m.matrices, x, y, ps);
    }
}

/// A check of the configuration only ever turns weights into an error: where
/// it passes, the result is the one without it.  This holds where no two keys
/// become the same when they lose their prefixes.
pub proof fn validation_only_refuses(
    validation: Result<(), ModelError>,
    file: &GgufFile,
    l: &ModelLayout,
    inputs: Seq<TensorInput>,
    tokenizer: Option<nat>,
    checked: Result<WeightsView, Fault>,
    plain: Result<WeightsView, Fault>,
)
    requires
        loaded_keys_apart(file, l, inputs),
        loads_validated(validation, file, l, inputs, tokenizer, checked),
        loads(file, l, inputs, tokenizer, plain),
    ensures
        checked is Ok ==> validation is Ok && plain == checked,
        checked is Err ==> validation is Err || plain == checked,
{
    if validation is Ok {
        loading_agrees(file, l, inputs, tokenizer, checked, plain);
    }
}

/// Every tensor with one or two dimensions that is not left out is in the
/// tables.
pub proof fn tensor_loaded(
    tensors: Seq<TensorDesc>,
    offsets: Seq<u64>,
    inputs: Seq<TensorInput>,
    k: nat,
    i: int,
)
    requires
        loaded(tensors, offsets, inputs, k) is Ok,
        0 <= i < k,
        !inputs[i].skip,
    ensures
        ({
            let m = loaded(tensors, offsets, inputs, k)->Ok_0;
            let key = gguf_key(tensors[i].name);
            &&& tensors[i].n_dims == 2 ==> m.matrices.dom().contains(key)
            &&& tensors[i].n_dims == 1 ==> m.vectors.dom().contains(key)
        }),
    decreases k,
{
    if i < k - 1 {
        tensor_loaded(tensors, offsets, inputs, (k - 1) as nat, i);
    }
}

/// Loading loses no tensor: every one with two dimensions is among the
/// matrices of the weights under its key without prefix, and every one with
/// one dimension is among the vectors, but for a fused projection or bias,
/// which may have been cut.
pub proof fn loading_loses_nothing(
    file: &GgufFile,
    l: &ModelLayout,
    inputs: Seq<TensorInput>,
    tokenizer: Option<nat>,
    w: WeightsView,
    i: int,
)
    requires
        nothing_skipped(inputs),
        inputs.len() == file.tensor_infos@.len(),
        loads(file, l, inputs, tokenizer, Ok(w)),
        0 <= i < file.tensor_infos@.len(),
    ensures
        ({
            let t = file.tensor_infos@[i]@;
            let key = gguf_key(t.name);
            let bare = stripped(key, texts(l.key_prefixes_to_strip@));
            &&& t.n_dims == 2 ==> w.tensors.matrices.dom().contains(bare) || is_fused_key(l, bare)
            &&& t.n_dims == 1 ==> w.tensors.vectors.dom().contains(key) || is_fused_bias(l, key)
        }),
{
    let tensors = crate::gguf::types::descs(file.tensor_infos@);
    let n = file.tensor_infos@.len();
    let m = file.load_result(inputs)->Ok_0;
    let ps = texts(l.key_prefixes_to_strip@);
    assert(tensors[i] == file.tensor_infos@[i]@);
    assert(!inputs[i].skip);
    tensor_loaded(tensors, file.offsets(), inputs, n, i);
    let x = choose|x: Map<Seq<char>, Grid>| #[trigger]
        renamed(m.matrices, x, ps) && Ok::<WeightsView, Fault>(w) == assembled(
            TensorMaps { matrices: x, vectors: m.vectors },
            l,
            tokenizer,
        );
    let key = gguf_key(tensors[i].name);
    let bare = stripped(key, ps);
    let count = l.layers@.len();
    if tensors[i].n_dims == 2 {
        assert(m.matrices.dom().contains(key));
        let a = all_oriented(x, ffn_shapes(l, count));
        oriented_one_by_one(x, ffn_shapes(l, count));
        oriented_one_by_one(a, attention_shapes(l, count));
        weight_kept_or_cut(all_oriented(a, attention_shapes(l, count)), l, count, bare);
    } else if tensors[i].n_dims == 1 {
        bias_kept_or_cut(m.vectors, l, count, key);
    }
}

/// Loads the weights of an opened model whose configuration has been checked
/// with the result `validation`.  A failed check is the result; else the first
/// tensor that cannot be loaded is; else the weights are put together.
pub fn load_gguf_filtered_with_validation(
    file: &GgufFile,
    validation: Result<(), ModelError>,
    layout: &ModelLayout,
    inputs: Vec<TensorInput>,
    tokenizer_json: Option<&str>,
) -> (r: Result<ModelWeights, ModelError>)
    requires
        file.wf(),
        layout.dims_fit(),
        inputs@.len() == file.tensor_infos@.len(),
    ensures
        r matches Ok(w) ==> w.tensors.wf(),
        loads_validated(
            validation,
            file,
            layout,
            inputs@,
            tokenizer_vocab(opt_str(tokenizer_json)),
            weights_result(r),
        ),
{
    if let Err(e) = validation {
        return Err(e);
    }
    let tensors = match file.load_tensors_filtered(inputs) {
        Ok(t) => t,
        Err(e) => return Err(e),
    };
    let matrices = rename_matrices(&tensors.matrices, &layout.key_prefixes_to_strip);
    let ghost x = grids(matrices@);
    let renamed_tensors = Tensors { matrices, vectors: tensors.vectors };
    let vocab = read_tokenizer_vocab_size(tokenizer_json);
    let r = assemble_weights(renamed_tensors, layout, vocab);
    proof {
        assert(renamed(tensors@.matrices, x, texts(layout.key_prefixes_to_strip@)));
    }
    r
}

/// Loads the weights of an opened model without the tensors that are left out.
pub fn load_gguf_filtered(
    file: &GgufFile,
    layout: &ModelLayout,
    inputs: Vec<TensorInput>,
    tokenizer_json: Option<&str>,
) -> (r: Result<ModelWeights, ModelError>)
    requires
        file.wf(),
        layout.dims_fit(),
        inputs@.len() == file.tensor_infos@.len(),
    ensures
        r matches Ok(w) ==> w.tensors.wf(),
        loads(
            file,
            layout,
            inputs@,
            tokenizer_vocab(opt_str(tokenizer_json)),
            weights_result(r),
        ),
{
    load_gguf_filtered_with_validation(file, Ok(()), layout, inputs, tokenizer_json)
}

/// Loads the weights of an opened model, all tensors of it.
pub fn load_gguf(
    file: &GgufFile,
    layout: &ModelLayout,
    inputs: Vec<TensorInput>,
    tokenizer_json: Option<&str>,
) -> (r: Result<ModelWeights, ModelError>)
    requires
        file.wf(),
        layout.dims_fit(),
        inputs@.len() == file.tensor_infos@.len(),
        nothing_skipped(inputs@),
    ensures
        r matches Ok(w) ==> w.tensors.wf(),
        loads(
            file,
            layout,
            inputs@,
            tokenizer_vocab(opt_str(tokenizer_json)),
            weights_result(r),
        ),
{
    load_gguf_filtered(file, layout, inputs, tokenizer_json)
}

/// Loads the weights of an opened model, all tensors of it, whose configuration
/// has been checked.
pub fn load_gguf_validated(
    file: &GgufFile,
    validation: Result<(), ModelError>,
    layout: &ModelLayout,
    inputs: Vec<TensorInput>,
    tokenizer_json: Option<&str>,
) -> (r: Result<ModelWeights, ModelError>)
    requires
        file.wf(),
        layout.dims_fit(),
        inputs@.len() == file.tensor_infos@.len(),
        nothing_skipped(inputs@),
    ensures
        r matches Ok(w) ==> w.tensors.wf(),
        loads_validated(
            validation,
            file,
            layout,
            inputs@,
            tokenizer_vocab(opt_str(tokenizer_json)),
            weights_result(r),
        ),
{
    load_gguf_filtered_with_validation(file, validation, layout, inputs, tokenizer_json)
}

} // verus!
