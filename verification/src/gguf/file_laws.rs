//! What holds of the functions that read a model file.
use vstd::prelude::*;

use crate::error::{Fault, ModelError};
use crate::gguf::config::{
    head_width_is_key_length, holds_u32, names_arch, numbers_come_from_metadata, GgufConfig,
};
use crate::gguf::keys::{gguf_key, normalize_gguf_key, normalize_key};
use crate::gguf::laws::{
    fitting_data_is_found, nothing_stripped, opened_model, prefix_stripped, tensor_under_its_key,
};
use crate::gguf::layer_names::{dotless, layer_keys_are};
use crate::gguf::loader::{
    assemble_weights, canonical, load_gguf, load_gguf_filtered,
    load_gguf_filtered_with_validation, load_gguf_validated, positive_count, tensor_range,
    ModelWeights, TensorInput, Tensors,
};
use crate::gguf::open::{contents, metadata_u32, split_total};
use crate::gguf::orient::{has_extents, orient_embedding};
use crate::gguf::parser::{header_of, meta};
use crate::gguf::types::{descs, Datum, GgufFile, GgufTensorInfo, GgufValue};
use crate::layout::ModelLayout;
use crate::path::joined_path;
use crate::table::TextMap;
use crate::tensor::Matrix;
use crate::text::{decimal, has_prefix, texts};

verus! {

/// The configuration of a file has the numbers that its metadata holds under
/// the architecture's names.
pub proof fn configuration_read(f: &GgufFile, r: GgufConfig, arch: Seq<char>, v: u32)
    requires
        call_ensures(GgufFile::to_config_json, (f,), r),
        names_arch(meta(f.metadata@), arch),
    ensures
        ({
            let m = meta(f.metadata@);
            &&& holds_u32(m, arch + ".embedding_length"@, v) ==> r@.hidden_size == v
            &&& holds_u32(m, arch + ".block_count"@, v) ==> r@.num_hidden_layers == v
            &&& holds_u32(m, arch + ".attention.head_count"@, v) ==> r@.num_attention_heads == v
            &&& arch != "gemma4"@ && holds_u32(m, arch + ".attention.key_length"@, v) && v > 0
                ==> r@.head_dim == v
            &&& holds_u32(m, arch + ".vocab_size"@, v) && v > 0 ==> r@.vocab_size == Some(v as int)
        }),
{
    numbers_come_from_metadata(meta(f.metadata@), arch, v);
    head_width_is_key_length(meta(f.metadata@), arch, v, v, v);
}

/// A tensor of a layer is named by the layer and by what it is for.
pub proof fn names_normalized(name: &str, r: String, n: nat, x: Seq<char>)
    requires
        call_ensures(normalize_gguf_key, (name,), r),
        dotless(x),
    ensures
        ({
            let of = |rest: Seq<char>| name@ == "blk."@ + decimal(n) + rest + x;
            let is = |rest: Seq<char>| r@ == "layers."@ + decimal(n) + rest + x;
            &&& of(".attn_q."@) ==> is(".self_attn.q_proj."@)
            &&& of(".attn_k."@) ==> is(".self_attn.k_proj."@)
            &&& of(".attn_v."@) ==> is(".self_attn.v_proj."@)
            &&& of(".attn_output."@) ==> is(".self_attn.o_proj."@)
            &&& of(".ffn_gate."@) ==> is(".mlp.gate_proj."@)
            &&& of(".ffn_up."@) ==> is(".mlp.up_proj."@)
            &&& of(".ffn_down."@) ==> is(".mlp.down_proj."@)
            &&& of(".attn_norm."@) ==> is(".input_layernorm."@)
            &&& of(".ffn_norm."@) ==> is(".post_attention_layernorm."@)
        }),
{
    layer_keys_are(n, x);
}

/// A key loses the first prefix that it has, and without one it stays.
pub proof fn prefixes_taken(key: &str, prefixes: &Vec<String>, r: String, i: int, rest: Seq<char>)
    requires
        call_ensures(normalize_key, (key, prefixes), r),
    ensures
        0 <= i < prefixes@.len() && key@ == texts(prefixes@)[i] + rest && (forall|j: int|
            0 <= j < i ==> !has_prefix(key@, #[trigger] texts(prefixes@)[j])) ==> r@ == rest,
        (forall|j: int|
            0 <= j < prefixes@.len() ==> !has_prefix(key@, #[trigger] texts(prefixes@)[j])) ==> r@
            == key@,
{
    let p = texts(prefixes@);
    if 0 <= i < p.len() && key@ == p[i] + rest && (forall|j: int|
        0 <= j < i ==> !has_prefix(key@, #[trigger] p[j])) {
        prefix_stripped(p, i, rest);
    }
    if forall|j: int| 0 <= j < p.len() ==> !has_prefix(key@, #[trigger] p[j]) {
        nothing_stripped(p, key@);
    }
}

/// The bytes of a tensor stand behind the data offset and its own, as many as
/// its size; a range that a file does not hold is refused.
pub proof fn bytes_found(
    t: &GgufTensorInfo,
    data_offset: u64,
    size: &Result<usize, String>,
    file_len: usize,
    r: Result<(usize, usize), ModelError>,
)
    requires
        call_ensures(tensor_range, (t, data_offset, size, file_len), r),
    ensures
        size is Err ==> r is Err,
        size matches Ok(n) ==> {
            let start = data_offset + t@.offset;
            &&& start + *n <= file_len && start <= u64::MAX ==> r == Ok::<
                (usize, usize),
                ModelError,
            >((start as usize, (start + *n) as usize))
            &&& start + *n > file_len ==> r is Err
        },
{
    if let Ok(n) = size {
        fitting_data_is_found(t@, data_offset, *n as nat, file_len as nat);
    }
}

/// The tensors that are loaded stand under their keys: of two extents the first
/// counts the columns and the second the rows.
pub proof fn tensors_loaded(
    f: &GgufFile,
    inputs: Vec<TensorInput>,
    r: Result<Tensors, ModelError>,
    i: int,
    key: String,
)
    requires
        call_ensures(GgufFile::load_tensors_filtered, (f, inputs), r),
        0 <= i < f.tensor_infos@.len(),
        !inputs@[i].skip,
        forall|j: int|
            i < j < f.tensor_infos@.len() ==> inputs@[j].skip || gguf_key(
                (#[trigger] descs(f.tensor_infos@)[j]).name,
            ) != gguf_key(descs(f.tensor_infos@)[i].name),
        key@ == gguf_key(descs(f.tensor_infos@)[i].name),
    ensures
        r matches Ok(t) ==> {
            let d = descs(f.tensor_infos@)[i];
            &&& inputs@[i].numbers is Ok
            &&& d.n_dims == 2 ==> t@.matrices.dom().contains(key@) && t@.matrices[key@].rows
                == d.dims[1] && t@.matrices[key@].cols == d.dims[0] && t@.matrices[key@].data
                == inputs@[i].numbers->Ok_0@
            &&& d.n_dims == 1 ==> t@.vectors.dom().contains(key@) && t@.vectors[key@]
                == inputs@[i].numbers->Ok_0@
        },
{
    if let Ok(t) = r {
        tensor_under_its_key(
            descs(f.tensor_infos@),
            f.offsets(),
            inputs@,
            f.tensor_infos@.len(),
            i,
            t@,
        );
    }
}

/// Loading all tensors is loading them with none left out.
pub proof fn loading_all_is_loading(
    f: &GgufFile,
    inputs: Vec<TensorInput>,
    a: Result<Tensors, ModelError>,
    b: Result<Tensors, ModelError>,
)
    requires
        call_ensures(GgufFile::load_tensors, (f, inputs), a),
        call_ensures(GgufFile::load_tensors_filtered, (f, inputs), b),
    ensures
        a is Ok <==> b is Ok,
        a matches Ok(t) ==> t@ == b->Ok_0@,
        a matches Err(e) ==> e@ == b->Err_0@,
{
}

/// A count of nothing is no count.
pub proof fn counts_are_positive(n: Option<usize>, r: Option<usize>)
    requires
        call_ensures(positive_count, (n,), r),
    ensures
        n matches Some(v) ==> (v > 0 ==> r == Some(v)),
        n == Some(0usize) || n is None ==> r is None,
{
}

/// The weights have the shape of the model, its embedding, and an output matrix
/// of their own where the file has one; without an embedding there are none.
pub proof fn weights_put_together(
    t: Tensors,
    l: &ModelLayout,
    vocab: Option<usize>,
    r: Result<ModelWeights, ModelError>,
)
    requires
        call_ensures(assemble_weights, (t, l, vocab), r),
    ensures
        ({
            let m = canonical(t@, l).matrices;
            &&& r is Ok <==> m.dom().contains(l.embed_key@)
            &&& r matches Err(e) ==> e@ == Fault::MissingTensor(l.embed_key@)
            &&& r matches Ok(w) ==> {
                &&& w@.tensors == canonical(t@, l)
                &&& m.dom().contains("lm_head.weight"@) ==> w@.lm_head == m["lm_head.weight"@]
                &&& !m.dom().contains("lm_head.weight"@) && !m.dom().contains("output.weight"@)
                    ==> w@.lm_head == w@.embed
                &&& l.vocab_size matches Some(v) ==> (v > 0 ==> w@.vocab_size == v)
                &&& l.vocab_size is None ==> (vocab matches Some(v) ==> (v > 0 ==> w@.vocab_size
                    == v))
                &&& w@.dims.hidden_size == l.hidden_size && w@.dims.num_layers == l.layers@.len()
                &&& w@.dims.head_dim == l.head_dim && w@.dims.num_q_heads == l.num_q_heads
                &&& w@.dims.num_kv_heads == l.num_kv_heads && w@.dims.intermediate_size
                    == l.intermediate_size
            }
        }),
{
}

/// A file whose model is refused gives that refusal, and a tensor that cannot
/// be loaded its own.
pub proof fn refusals_come_first(
    f: &GgufFile,
    v: Result<(), ModelError>,
    l: &ModelLayout,
    inputs: Vec<TensorInput>,
    text: Option<&str>,
    a: Result<ModelWeights, ModelError>,
    b: Result<ModelWeights, ModelError>,
)
    requires
        call_ensures(load_gguf_filtered_with_validation, (f, v, l, inputs, text), a),
        call_ensures(load_gguf_validated, (f, v, l, inputs, text), b),
    ensures
        v matches Err(e) ==> (a matches Err(x) && x@ == e@) && (b matches Err(x) && x@ == e@),
        v is Ok && f.load_result(inputs@) is Err ==> (a matches Err(x) && x@ == f.load_result(
            inputs@,
        )->Err_0) && (b matches Err(x) && x@ == f.load_result(inputs@)->Err_0),
{
}

/// Without a check of the model, a tensor that cannot be loaded is still
/// refused.
pub proof fn unloadable_is_refused(
    f: &GgufFile,
    l: &ModelLayout,
    inputs: Vec<TensorInput>,
    text: Option<&str>,
    a: Result<ModelWeights, ModelError>,
    b: Result<ModelWeights, ModelError>,
)
    requires
        call_ensures(load_gguf_filtered, (f, l, inputs, text), a),
        call_ensures(load_gguf, (f, l, inputs, text), b),
        f.load_result(inputs@) is Err,
    ensures
        a matches Err(x) && x@ == f.load_result(inputs@)->Err_0,
        b matches Err(x) && x@ == f.load_result(inputs@)->Err_0,
{
}

/// A number of the metadata is found under its key.
pub proof fn metadata_found(
    m: &TextMap<GgufValue>,
    key: &str,
    v: &GgufValue,
    n: u32,
    r: Option<u32>,
    own: Option<u32>,
)
    requires
        call_ensures(metadata_u32, (m, key), r),
        call_ensures(GgufValue::as_u32, (v,), own),
    ensures
        meta(m@).dom().contains(key@) && meta(m@)[key@] == Datum::U32(n) ==> r == Some(n),
        !meta(m@).dom().contains(key@) ==> r is None,
        v@ == Datum::U32(n) ==> own == Some(n),
        v@ is Text ==> own is None,
{
}

/// An embedding gets a row for each token: it is turned only if it has them the
/// other way round.
pub proof fn embedding_turned(e: Matrix, hidden: usize, vocab: usize, r: Matrix)
    requires
        call_ensures(orient_embedding, (e, hidden, Some(vocab)), r),
        vocab != hidden,
        vocab > 0,
    ensures
        e@.rows == vocab && e@.cols == hidden ==> r@ == e@,
        e@.rows == hidden && e@.cols == vocab ==> r@ == e@.transposed(),
{
    assert(has_extents(e@, vocab as nat, hidden as nat) || !has_extents(
        e@,
        vocab as nat,
        hidden as nat,
    ));
}

/// A file that is not there is not opened; one that stands alone has the
/// metadata and the tensors of its own header, and its data where that says.
pub proof fn file_opened(
    parent: &str,
    name: &str,
    dir: &TextMap<&[u8]>,
    r: Result<GgufFile, ModelError>,
)
    requires
        call_ensures(GgufFile::open, (parent, name, dir), r),
    ensures
        !dir@.dom().contains(name@) ==> (r matches Err(e) && e@ == Fault::Io),
        r matches Ok(f) ==> {
            let h = header_of(dir@[name@]@);
            &&& f.path@ == joined_path(parent@, name@)
            &&& h is Ok && meta(f.metadata@) == h->Ok_0.metadata
            &&& split_total(h->Ok_0.metadata, name@) is None ==> descs(f.tensor_infos@)
                == h->Ok_0.tensors && f.data_offset == h->Ok_0.data_offset && f.shards@.len() == 1
        },
{
    let files = contents(dir@);
    opened_model(parent@, name@, files);
    assert(files.dom().contains(name@) <==> dir@.dom().contains(name@));
}

} // verus!
