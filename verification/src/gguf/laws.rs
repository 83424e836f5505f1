//! What holds of opening and loading a model.
use vstd::prelude::*;

use crate::error::Fault;
use crate::gguf::keys::{gguf_key, stripped};
use crate::gguf::loader::{
    assembled, canonical, grid_fault, json_object_size, loaded, look_up, numbers_result,
    product as extents_product, range_of, read_tokenizer_vocab_size, size_result, stored,
    TensorInput, TensorMaps,
};
use crate::gguf::open::{
    first_missing, gathered, meta_u32, model_of, siblings_of, split_model, split_total, Model,
};
use crate::gguf::orient::has_extents;
use crate::gguf::parser::{header_of, Header};
use crate::gguf::shards::{is_shard_name, shard_fields, shard_fields_of, shard_name};
use crate::gguf::types::{
    datum_u32, Datum, FloatBits, GgufFile, GgufTensorInfo, GgufValue, TensorDesc,
};
use crate::layout::ModelLayout;
use crate::path::joined_path;
use crate::tensor::{nonzero_product, product as shape_product, Grid};
use crate::text::{digits_value, has_prefix, texts};

verus! {

/// A 32-bit number is read out of the integers that may stand for one: a
/// non-negative one is itself, a negative one has the same bits, and of a
/// wider one the low bits count.
pub proof fn numbers_from_metadata(u: u32, i: i32, w: u64)
    ensures
        datum_u32(Datum::U32(u)) == Some(u as int),
        i >= 0 ==> datum_u32(Datum::I32(i)) == Some(i as int),
        i < 0 ==> datum_u32(Datum::I32(i)) == Some(i + 4294967296),
        w <= u32::MAX ==> datum_u32(Datum::U64(w)) == Some(w as int),
        datum_u32(Datum::U64(w)) matches Some(n) && (w - n) % 4294967296 == 0 && 0 <= n
            < 4294967296,
        forall|d: Datum| #[trigger]
            datum_u32(d) is Some ==> d is U32 || d is I32 || d is U64,
{
}

/// A key loses the first of the prefixes that it starts with, once, and stays
/// otherwise.
pub proof fn prefix_stripped(prefixes: Seq<Seq<char>>, i: int, rest: Seq<char>)
    requires
        0 <= i < prefixes.len(),
        forall|j: int|
            0 <= j < i ==> !has_prefix(prefixes[i] + rest, #[trigger] prefixes[j]),
    ensures
        stripped(prefixes[i] + rest, prefixes) == rest,
    decreases i,
{
    let key = prefixes[i] + rest;
    assert(key.subrange(0, prefixes[i].len() as int) =~= prefixes[i]);
    if i == 0 {
        assert(key.skip(prefixes[0].len() as int) =~= rest);
    } else {
        let later = prefixes.skip(1);
        assert(!has_prefix(key, prefixes[0]));
        assert(later[i - 1] == prefixes[i]);
        assert forall|j: int| 0 <= j < i - 1 implies !has_prefix(
            later[i - 1] + rest,
            #[trigger] later[j],
        ) by {
            assert(later[j] == prefixes[j + 1]);
        }
        prefix_stripped(later, i - 1, rest);
    }
}

/// A key that starts with none of the prefixes stays.
pub proof fn nothing_stripped(prefixes: Seq<Seq<char>>, key: Seq<char>)
    requires
        forall|j: int| 0 <= j < prefixes.len() ==> !has_prefix(key, #[trigger] prefixes[j]),
    ensures
        stripped(key, prefixes) == key,
    decreases prefixes.len(),
{
    if prefixes.len() > 0 {
        assert(!has_prefix(key, prefixes[0]));
        let later = prefixes.skip(1);
        assert forall|j: int| 0 <= j < later.len() implies !has_prefix(
            key,
            #[trigger] later[j],
        ) by {
            assert(later[j] == prefixes[j + 1]);
        }
        nothing_stripped(later, key);
    }
}

/// The tables hold the last tensor of each key: one with two extents as a
/// matrix whose columns the first extent counts and whose rows the second, one
/// with one extent as a vector; the numbers are those that were decoded, in
/// their order.
pub proof fn tensor_under_its_key(
    tensors: Seq<TensorDesc>,
    offsets: Seq<u64>,
    inputs: Seq<TensorInput>,
    k: nat,
    i: int,
    m: TensorMaps,
)
    requires
        loaded(tensors, offsets, inputs, k) == Ok::<TensorMaps, Fault>(m),
        0 <= i < k,
        !inputs[i].skip,
        forall|j: int|
            i < j < k ==> inputs[j].skip || gguf_key((#[trigger] tensors[j]).name) != gguf_key(
                tensors[i].name,
            ),
    ensures
        ({
            let key = gguf_key(tensors[i].name);
            &&& inputs[i].numbers is Ok
            &&& tensors[i].n_dims == 2 ==> m.matrices.dom().contains(key) && m.matrices[key].rows
                == tensors[i].dims[1] && m.matrices[key].cols == tensors[i].dims[0]
                && m.matrices[key].data == inputs[i].numbers->Ok_0@
            &&& tensors[i].n_dims == 1 ==> m.vectors.dom().contains(key) && m.vectors[key]
                == inputs[i].numbers->Ok_0@
        }),
    decreases k,
{
    if i < k - 1 {
        let before = loaded(tensors, offsets, inputs, (k - 1) as nat)->Ok_0;
        tensor_under_its_key(tensors, offsets, inputs, (k - 1) as nat, i, before);
        assert(inputs[k - 1].skip || gguf_key(tensors[k - 1].name) != gguf_key(tensors[i].name));
    }
}

/// A tensor that is left out is in no table, unless another has its key.
pub proof fn skipped_stays_out(
    tensors: Seq<TensorDesc>,
    offsets: Seq<u64>,
    inputs: Seq<TensorInput>,
    k: nat,
    key: Seq<char>,
    m: TensorMaps,
)
    requires
        loaded(tensors, offsets, inputs, k) == Ok::<TensorMaps, Fault>(m),
        forall|j: int|
            0 <= j < k ==> inputs[j].skip || gguf_key((#[trigger] tensors[j]).name) != key,
    ensures
        !m.matrices.dom().contains(key),
        !m.vectors.dom().contains(key),
    decreases k,
{
    if k > 0 {
        let before = loaded(tensors, offsets, inputs, (k - 1) as nat)->Ok_0;
        skipped_stays_out(tensors, offsets, inputs, (k - 1) as nat, key, before);
        assert(inputs[k - 1].skip || gguf_key(tensors[k - 1].name) != key);
    }
}

/// The output matrix is the one under `lm_head.weight`, else the one under
/// `output.weight`, else the embedding; the position embedding is the one under
/// its key; without an embedding there are no weights.
pub proof fn weights_assembled(m: TensorMaps, l: &ModelLayout, tokenizer: Option<nat>)
    ensures
        ({
            let t = canonical(m, l).matrices;
            let w = assembled(m, l, tokenizer);
            &&& !t.dom().contains(l.embed_key@) ==> (w matches Err(e) && e == Fault::MissingTensor(
                l.embed_key@,
            ))
            &&& t.dom().contains(l.embed_key@) ==> (w matches Ok(x) && {
                &&& x.tensors == canonical(m, l)
                &&& t.dom().contains("lm_head.weight"@) ==> x.lm_head == t["lm_head.weight"@]
                &&& !t.dom().contains("lm_head.weight"@) && t.dom().contains("output.weight"@)
                    ==> x.lm_head == t["output.weight"@]
                &&& !t.dom().contains("lm_head.weight"@) && !t.dom().contains("output.weight"@)
                    ==> x.lm_head == x.embed
                &&& l.position_embed_key matches Some(k) ==> (t.dom().contains(k@)
                    ==> x.position_embed == Some(t[k@])) && (!t.dom().contains(k@)
                    ==> x.position_embed is None)
                &&& l.position_embed_key is None ==> x.position_embed is None
                &&& x.embed == t[l.embed_key@] || x.embed == t[l.embed_key@].transposed()
            })
        }),
{
}

/// The size of the vocabulary is what the model says, if that is positive;
/// else what the tokenizer says; else the rows of the embedding; else 262144.
pub proof fn vocabulary_size(m: TensorMaps, l: &ModelLayout, tokenizer: Option<nat>, n: nat)
    requires
        assembled(m, l, tokenizer) is Ok,
    ensures
        ({
            let x = assembled(m, l, tokenizer)->Ok_0;
            let said = l.vocab_size matches Some(v) && v > 0;
            &&& said ==> x.vocab_size == l.vocab_size->0
            &&& !said && tokenizer == Some(n) ==> x.vocab_size == n
            &&& !said && tokenizer is None && x.embed.rows > 0 ==> x.vocab_size == x.embed.rows
            &&& !said && tokenizer is None && x.embed.rows == 0 ==> x.vocab_size == 262144
        }),
{
}

/// The embedding of the weights has a row for each token.
pub proof fn embedding_of_weights(
    m: TensorMaps,
    l: &ModelLayout,
    tokenizer: Option<nat>,
    vocab: usize,
)
    requires
        assembled(m, l, tokenizer) is Ok,
        l.vocab_size == Some(vocab),
        vocab > 0,
        vocab != l.hidden_size,
        has_extents(
            canonical(m, l).matrices[l.embed_key@],
            vocab as nat,
            l.hidden_size as nat,
        ),
    ensures
        assembled(m, l, tokenizer)->Ok_0.embed.rows == vocab,
        assembled(m, l, tokenizer)->Ok_0.embed.cols == l.hidden_size,
{
}

/// The shape of the weights is that of the model.
pub proof fn weights_have_model_shape(m: TensorMaps, l: &ModelLayout, tokenizer: Option<nat>)
    requires
        assembled(m, l, tokenizer) is Ok,
    ensures
        ({
            let d = assembled(m, l, tokenizer)->Ok_0.dims;
            &&& d.num_layers == l.layers@.len()
            &&& d.hidden_size == l.hidden_size
            &&& d.intermediate_size == l.intermediate_size
            &&& d.head_dim == l.head_dim
            &&& d.num_q_heads == l.num_q_heads
            &&& d.num_kv_heads == l.num_kv_heads
            &&& d.rope_base == l.rope_base
        }),
{
}

/// The tensors of each file of a split follow those of the files before it,
/// with the number of their file, and everything else as that file's header
/// says; the file's data starts where its own header says.
pub proof fn files_gathered(
    parent: Seq<char>,
    names: Seq<Seq<char>>,
    files: Map<Seq<char>, Seq<u8>>,
    k: nat,
    h: Header,
    i: int,
)
    requires
        gathered(parent, names, files, k) is Ok,
        header_of(files[names[k as int]]) == Ok::<Header, Fault>(h),
        0 <= i < h.tensors.len(),
    ensures
        ({
            let before = gathered(parent, names, files, k)->Ok_0;
            let r = gathered(parent, names, files, k + 1);
            let n = before.0.len() as int;
            &&& r is Ok
            &&& r->Ok_0.0.len() == n + h.tensors.len()
            &&& r->Ok_0.0.take(n) == before.0
            &&& r->Ok_0.0[n + i].name == h.tensors[i].name
            &&& r->Ok_0.0[n + i].dims == h.tensors[i].dims
            &&& r->Ok_0.0[n + i].n_dims == h.tensors[i].n_dims
            &&& r->Ok_0.0[n + i].tensor_type == h.tensors[i].tensor_type
            &&& r->Ok_0.0[n + i].offset == h.tensors[i].offset
            &&& r->Ok_0.0[n + i].shard_idx == k
            &&& r->Ok_0.1 == before.1.push(
                (joined_path(parent, names[k as int]), h.data_offset as u64),
            )
        }),
{
    let before = gathered(parent, names, files, k)->Ok_0;
    assert((k + 1 - 1) as nat == k);
    assert(gathered(parent, names, files, (k + 1 - 1) as nat) is Ok);
    let all = gathered(parent, names, files, k + 1)->Ok_0.0;
    assert(all.take(before.0.len() as int) =~= before.0);
}

/// A model is split over as many files as its metadata says, if that is more
/// than one; else over as many as the file's name says, if that is.
pub proof fn files_of_split(
    m: Map<Seq<char>, Datum>,
    name: Seq<char>,
    n: u32,
    prefix: Seq<char>,
    a: Seq<char>,
    c: Seq<char>,
)
    ensures
        m.dom().contains("split.count"@) && m["split.count"@] == Datum::U32(n) && n > 1
            ==> split_total(m, name) == Some(n as nat),
        !m.dom().contains("split.count"@) && is_shard_name(name, prefix, a, c) && digits_value(c)
            > 1 ==> split_total(m, name) == Some(digits_value(c)),
        !m.dom().contains("split.count"@) && shard_fields(name) is None ==> split_total(m, name)
            is None,
        !m.dom().contains("split.count"@) && is_shard_name(name, prefix, a, c) && digits_value(c)
            <= 1 ==> split_total(m, name) is None,
        m.dom().contains("split.count"@) && m["split.count"@] == Datum::U32(n) && n <= 1
            && shard_fields(name) is None ==> split_total(m, name) is None,
        m.dom().contains("split.count"@) && m["split.count"@] == Datum::U32(n) && n <= 1
            && is_shard_name(name, prefix, a, c) && digits_value(c) > 1 ==> split_total(m, name)
            == Some(digits_value(c)),
{
    if is_shard_name(name, prefix, a, c) {
        shard_fields_of(name, prefix, a, c);
    }
}

/// A file that stands alone gives its own header; a file that is not there
/// gives none; whatever is opened has the path of the file that was named.
pub proof fn opened_model(parent: Seq<char>, name: Seq<char>, files: Map<Seq<char>, Seq<u8>>)
    ensures
        !files.dom().contains(name) ==> model_of(parent, name, files) == Err::<Model, Fault>(
            Fault::Io,
        ),
        model_of(parent, name, files) matches Ok(x) ==> {
            &&& header_of(files[name]) matches Ok(h) && x.metadata == h.metadata && x.path
                == joined_path(parent, name)
            &&& split_total(x.metadata, name) is None ==> x.tensors == header_of(
                files[name],
            )->Ok_0.tensors && x.data_offset == header_of(files[name])->Ok_0.data_offset
                && x.shards.len() == 1
        },
{
}

/// Data that fits in its file is found where the file's data offset and the
/// tensor's own say; data that reaches beyond the file's end, or whose size is
/// not known, is not.
pub proof fn fitting_data_is_found(t: TensorDesc, data_offset: u64, n: nat, file_len: nat)
    requires
        file_len <= usize::MAX,
    ensures
        data_offset + t.offset + n <= file_len && data_offset + t.offset <= u64::MAX ==> range_of(
            t,
            data_offset,
            Ok(n),
            file_len,
        ) == Ok::<(nat, nat), Fault>(
            ((data_offset + t.offset) as nat, (data_offset + t.offset + n) as nat),
        ),
        data_offset + t.offset + n > file_len ==> range_of(t, data_offset, Ok(n), file_len) is Err,
        range_of(t, data_offset, Err(t.name), file_len) is Err,
{
}

/// The number of a tensor's elements: each extent multiplies it; it is given
/// whenever it and the products before it fit in 64 bits.
pub proof fn elements_multiply(t: &GgufTensorInfo, dims: Seq<u64>, d: u64, count: Option<u64>)
    requires
        call_ensures(GgufTensorInfo::element_count, (t,), count),
    ensures
        extents_product(Seq::empty()) == 1,
        extents_product(dims.push(d)) == extents_product(dims) * d,
        count matches Some(n) ==> n == extents_product(t.dims@),
        (forall|k: int|
            0 <= k <= t.dims@.len() ==> #[trigger] extents_product(t.dims@.take(k)) <= u64::MAX)
            ==> count is Some,
{
    assert(dims.push(d).drop_last() =~= dims);
}

/// The first missing name is missing, and none before it is.
proof fn first_missing_is(names: Seq<Seq<char>>, dir: Set<Seq<char>>, i: int)
    requires
        0 <= i <= names.len(),
    ensures
        match first_missing(names, dir, i) {
            Some(k) => i <= k < names.len() && !dir.contains(names[k]) && forall|j: int|
                i <= j < k ==> dir.contains(#[trigger] names[j]),
            None => forall|j: int| i <= j < names.len() ==> dir.contains(#[trigger] names[j]),
        },
    decreases names.len() - i,
{
    if i < names.len() && dir.contains(names[i]) {
        first_missing_is(names, dir, i + 1);
    }
}

/// The files of a split are found exactly if the directory has every one of
/// them; they come in the order of their numbers, counted from one.
pub proof fn split_is_complete(
    parent: Seq<char>,
    name: Seq<char>,
    total: nat,
    dir: Set<Seq<char>>,
    i: int,
)
    requires
        shard_fields(name) is Some,
        shard_fields(name)->0.total == total,
        0 <= i < total,
    ensures
        ({
            let f = shard_fields(name)->0;
            let file = shard_name(f.prefix, (i + 1) as nat, total, f.width);
            let r = siblings_of(parent, name, total, dir);
            &&& r is Ok ==> r->Ok_0.len() == total && r->Ok_0[i] == file && dir.contains(file)
            &&& !dir.contains(file) ==> r is Err
            &&& (forall|k: nat|
                1 <= k <= total ==> dir.contains(#[trigger] shard_name(f.prefix, k, total, f.width)))
                ==> r is Ok
        }),
{
    let f = shard_fields(name)->0;
    let names = Seq::new(total, |i: int| shard_name(f.prefix, (i + 1) as nat, total, f.width));
    first_missing_is(names, dir, 0);
    assert(names[i] == shard_name(f.prefix, (i + 1) as nat, total, f.width));
    if forall|k: nat|
        1 <= k <= total ==> dir.contains(#[trigger] shard_name(f.prefix, k, total, f.width)) {
        if let Some(k) = first_missing(names, dir, 0) {
            assert(names[k] == shard_name(f.prefix, (k + 1) as nat, total, f.width));
        }
    }
}

/// A split's model has the tensors of all its files, and as many of them as its
/// metadata says, where that says how many.
pub proof fn split_counts_tensors(
    parent: Seq<char>,
    path: Seq<char>,
    h: Header,
    names: Seq<Seq<char>>,
    total: nat,
    files: Map<Seq<char>, Seq<u8>>,
    n: u32,
)
    requires
        gathered(parent, names, files, total) is Ok,
    ensures
        ({
            let all = gathered(parent, names, files, total)->Ok_0;
            let m = split_model(parent, path, h, names, total, files);
            let counted = h.metadata.dom().contains("split.tensors.count"@);
            &&& !counted ==> m is Ok
            &&& counted && h.metadata["split.tensors.count"@] == Datum::U32(n) ==> (m is Ok
                <==> all.0.len() == n)
            &&& m is Ok ==> m->Ok_0.tensors == all.0 && m->Ok_0.shards == all.1 && m->Ok_0.path
                == path && m->Ok_0.metadata == h.metadata
        }),
{
}

/// Tensor `i` can be loaded: it is left out, or its data lies within its file,
/// its numbers are known, and they make a matrix if it has two extents.
pub open spec fn loadable(
    tensors: Seq<TensorDesc>,
    offsets: Seq<u64>,
    inputs: Seq<TensorInput>,
    i: int,
) -> bool {
    inputs[i].skip || {
        &&& range_of(
            tensors[i],
            offsets[tensors[i].shard_idx as int],
            size_result(inputs[i].size),
            inputs[i].file_len as nat,
        ) is Ok
        &&& inputs[i].numbers matches Ok(numbers) && (tensors[i].n_dims == 2 ==> grid_fault(
            tensors[i].dims,
            numbers@.len(),
        ) is None)
    }
}

/// The tensors are loaded exactly if each of them can be.
pub proof fn all_loadable_are_loaded(
    tensors: Seq<TensorDesc>,
    offsets: Seq<u64>,
    inputs: Seq<TensorInput>,
    k: nat,
)
    ensures
        loaded(tensors, offsets, inputs, k) is Ok <==> forall|i: int|
            0 <= i < k ==> #[trigger] loadable(tensors, offsets, inputs, i),
    decreases k,
{
    if k > 0 {
        all_loadable_are_loaded(tensors, offsets, inputs, (k - 1) as nat);
        let before = loaded(tensors, offsets, inputs, (k - 1) as nat);
        if before is Ok {
            assert(loaded(tensors, offsets, inputs, k) is Ok <==> loadable(
                tensors,
                offsets,
                inputs,
                k - 1,
            ));
        }
        if loaded(tensors, offsets, inputs, k) is Ok {
            assert forall|i: int| 0 <= i < k implies #[trigger] loadable(
                tensors,
                offsets,
                inputs,
                i,
            ) by {
                assert(before is Ok);
            }
        }
    }
}

/// The numbers of a tensor make a matrix if its two extents multiply to as many.
pub proof fn extents_make_matrix(dims: Seq<u64>, rows: usize, cols: usize, len: nat)
    requires
        dims.len() == 2,
        dims[0] == cols,
        dims[1] == rows,
    ensures
        grid_fault(dims, len) is None ==> len == rows * cols,
        len == rows * cols && 0 < rows * cols <= isize::MAX ==> grid_fault(dims, len) is None,
{
    let shape = seq![rows, cols];
    reveal_with_fuel(shape_product, 3);
    reveal_with_fuel(nonzero_product, 3);
    assert(shape.drop_last() =~= seq![rows]);
    assert(seq![rows].drop_last() =~= Seq::<usize>::empty());
    assert(shape_product(seq![rows]) == 1 * rows as nat);
    assert(nonzero_product(seq![rows]) == (if rows == 0 {
        1
    } else {
        1 * rows as nat
    }));
    if 0 < rows * cols {
        assert(rows > 0 && cols > 0) by (nonlinear_arith)
            requires
                0 < rows * cols,
        ;
    }
}

/// A tensor with any other number of extents than one or two is left out.
pub proof fn other_ranks_left_out(m: TensorMaps, t: TensorDesc, numbers: Seq<u32>)
    requires
        t.n_dims != 1,
        t.n_dims != 2,
    ensures
        stored(m, t, numbers) == Ok::<TensorMaps, Fault>(m),
{
}

/// The keys of a file's tensors stand in the file's order.
pub proof fn keys_in_order(f: &GgufFile, keys: Vec<String>, i: int)
    requires
        call_ensures(GgufFile::tensor_keys, (f,), keys),
        0 <= i < f.tensor_infos@.len(),
    ensures
        keys@.len() == f.tensor_infos@.len(),
        keys@[i]@ == gguf_key(f.tensor_infos@[i].name@),
{
    assert(texts(keys@).len() == keys@.len());
    assert(texts(keys@)[i] == keys@[i]@);
}

/// A tokenizer gives the size of the vocabulary by the entries of its model's
/// vocabulary, if there are any.
pub proof fn tokenizer_counts(text: Option<&str>, size: Option<usize>, n: usize)
    requires
        call_ensures(read_tokenizer_vocab_size, (text,), size),
    ensures
        text is None ==> size is None,
        text matches Some(t) ==> {
            let entries = json_object_size(t@, "model"@, "vocab"@);
            &&& entries is None ==> size is None
            &&& entries == Some(0nat) ==> size is None
            &&& entries == Some(n as nat) && n > 0 ==> size == Some(n)
        },
{
}

/// Texts and numbers with a fraction are read only from values of their own
/// kind, and as they are.
pub proof fn texts_and_fractions_read(v: &GgufValue, text: Option<&str>, bits: Option<FloatBits>)
    requires
        call_ensures(GgufValue::as_str, (v,), text),
        call_ensures(GgufValue::as_f64, (v,), bits),
    ensures
        text is Some <==> v is String,
        *v matches GgufValue::String(s) ==> text->0@ == s@,
        bits is Some <==> v is F32 || v is F64,
        *v matches GgufValue::F32(x) ==> bits == Some(FloatBits::Single(x)),
        *v matches GgufValue::F64(x) ==> bits == Some(FloatBits::Double(x)),
{
}

/// What is told of a tensor is what its description says.
pub proof fn tensor_described(
    t: &GgufTensorInfo,
    name: &str,
    rank: u32,
    encoding: u32,
    offset: u64,
    file: usize,
)
    requires
        call_ensures(GgufTensorInfo::name, (t,), name),
        call_ensures(GgufTensorInfo::n_dims, (t,), rank),
        call_ensures(GgufTensorInfo::tensor_type, (t,), encoding),
        call_ensures(GgufTensorInfo::offset, (t,), offset),
        call_ensures(GgufTensorInfo::shard_idx, (t,), file),
    ensures
        name@ == t.name@,
        rank == t.n_dims,
        encoding == t.tensor_type,
        offset == t.offset,
        file == t.shard_idx,
{
}

} // verus!
