use std::path::Path;

use larql::error::ModelError;
use larql::gguf::config::GgufConfig;
use larql::gguf::constants::GGUF_MAGIC;
use larql::gguf::keys::{normalize_gguf_key, normalize_key};
use larql::gguf::loader::{
    load_gguf, load_gguf_filtered, load_gguf_validated, read_tokenizer_vocab_size, TensorInput,
    Tensors,
};
use larql::gguf::open::discover_shard_siblings;
use larql::gguf::shards::{parse_shard_filename, shard_file_name};
use larql::gguf::types::{FloatBits, GgufFile, GgufValue, ShardInfo};
use larql::layout::{LayerKeys, ModelLayout};
use larql::table::TextMap;

const TYPE_F32: u32 = 0;

fn shard_fields(path: &str) -> Option<(String, usize, usize)> {
    parse_shard_filename(Path::new(path).file_name()?.to_str()?)
}

#[test]
fn parse_shard_filename_canonical_layout() {
    let (prefix, idx, total) =
        shard_fields("/x/Kimi-K2.6-UD-Q8_K_XL-00003-of-00014.gguf").unwrap();
    assert_eq!(prefix, "Kimi-K2.6-UD-Q8_K_XL");
    assert_eq!(idx, 2);
    assert_eq!(total, 14);
}

#[test]
fn parse_shard_filename_rejects_single_file() {
    assert!(shard_fields("/x/llama-3.1-8b-q4.gguf").is_none());
}

#[test]
fn parse_shard_filename_rejects_unmatched_widths() {
    assert!(shard_fields("/x/foo-00003-of-0014.gguf").is_none());
}

#[test]
fn parse_shard_filename_supports_3digit_split() {
    let (prefix, idx, total) = shard_fields("/x/foo-001-of-003.gguf").unwrap();
    assert_eq!(prefix, "foo");
    assert_eq!(idx, 0);
    assert_eq!(total, 3);
}

#[test]
fn parse_shard_filename_rejects_index_zero() {
    assert!(shard_fields("/x/foo-00000-of-00003.gguf").is_none());
}

#[test]
fn parse_shard_filename_rejects_index_exceeding_total() {
    assert!(shard_fields("/x/foo-00004-of-00003.gguf").is_none());
}

#[test]
fn parse_shard_filename_rejects_no_trailing_digits() {
    assert!(shard_fields("/x/foo-abc.gguf").is_none());
}

#[test]
fn parse_shard_filename_rejects_all_digits_before_of() {
    assert!(shard_fields("/x/00003-of-00003.gguf").is_none());
}

#[test]
fn shard_names_are_built_and_read_back() {
    let name = shard_file_name("a-b", 3, 12, 5);
    assert_eq!(name, "a-b-00003-of-00012.gguf");
    assert_eq!(parse_shard_filename(&name), Some(("a-b".to_string(), 2, 12)));
}

fn empty_dir(names: &[String]) -> TextMap<&'static [u8]> {
    let mut dir: TextMap<&'static [u8]> = TextMap::new();
    for n in names {
        dir.insert(n.clone(), &[]);
    }
    dir
}

#[test]
fn discover_shard_siblings_rejects_total_mismatch() {
    let names: Vec<String> = (1..=3).map(|i| format!("m-{i:0>5}-of-00003.gguf")).collect();
    let dir = empty_dir(&names);
    let err = discover_shard_siblings("/d", "m-00001-of-00003.gguf", 5, &dir).unwrap_err();
    assert!(
        format!("{err:?}").contains("shard total mismatch"),
        "unexpected error: {err:?}"
    );
}

#[test]
fn discover_shard_siblings_finds_all_in_order() {
    let names: Vec<String> = (1..=3)
        .map(|i| format!("model-{i:0>5}-of-00003.gguf"))
        .collect();
    let dir = empty_dir(&names);
    let paths = discover_shard_siblings("/d", "model-00002-of-00003.gguf", 3, &dir).unwrap();
    assert_eq!(paths.len(), 3);
    assert!(paths[0].ends_with("model-00001-of-00003.gguf"));
    assert!(paths[1].ends_with("model-00002-of-00003.gguf"));
    assert!(paths[2].ends_with("model-00003-of-00003.gguf"));
}

#[test]
fn discover_shard_siblings_finds_3digit_splits() {
    let names: Vec<String> = (1..=3).map(|i| format!("foo-{i:0>3}-of-003.gguf")).collect();
    let dir = empty_dir(&names);
    let paths = discover_shard_siblings("/d", "foo-001-of-003.gguf", 3, &dir).unwrap();
    assert_eq!(paths.len(), 3);
    assert!(paths[0].ends_with("foo-001-of-003.gguf"));
    assert!(paths[1].ends_with("foo-002-of-003.gguf"));
    assert!(paths[2].ends_with("foo-003-of-003.gguf"));
    assert_eq!(paths[0], "/d/foo-001-of-003.gguf");
}

#[test]
fn discover_shard_siblings_errors_when_one_missing() {
    let names: Vec<String> = [1usize, 3]
        .iter()
        .map(|i| format!("m-{i:0>5}-of-00003.gguf"))
        .collect();
    let dir = empty_dir(&names);
    let err = discover_shard_siblings("/d", "m-00001-of-00003.gguf", 3, &dir).unwrap_err();
    assert!(
        format!("{err:?}").contains("missing expected sibling"),
        "unexpected error: {err:?}"
    );
}

#[test]
fn discover_shard_siblings_wants_a_split_name() {
    let dir = empty_dir(&[]);
    let err = discover_shard_siblings("/d", "m.gguf", 3, &dir).unwrap_err();
    assert!(format!("{err:?}").contains("without canonical"), "{err:?}");
}

struct Def {
    name: String,
    dims: Vec<u64>,
    offset: u64,
}

fn def(name: &str, dims: &[u64], offset: u64) -> Def {
    Def {
        name: name.to_string(),
        dims: dims.to_vec(),
        offset,
    }
}

fn push_text(out: &mut Vec<u8>, s: &str) {
    out.extend_from_slice(&(s.len() as u64).to_le_bytes());
    out.extend_from_slice(s.as_bytes());
}

fn gguf_bytes(metas: &[(&str, u32)], tensors: &[Def], data: &[f32]) -> Vec<u8> {
    let mut out = Vec::new();
    out.extend_from_slice(&GGUF_MAGIC.to_le_bytes());
    out.extend_from_slice(&3u32.to_le_bytes());
    out.extend_from_slice(&(tensors.len() as u64).to_le_bytes());
    out.extend_from_slice(&(metas.len() as u64).to_le_bytes());
    for (k, v) in metas {
        push_text(&mut out, k);
        out.extend_from_slice(&4u32.to_le_bytes());
        out.extend_from_slice(&v.to_le_bytes());
    }
    for t in tensors {
        push_text(&mut out, &t.name);
        out.extend_from_slice(&(t.dims.len() as u32).to_le_bytes());
        for d in &t.dims {
            out.extend_from_slice(&d.to_le_bytes());
        }
        out.extend_from_slice(&TYPE_F32.to_le_bytes());
        out.extend_from_slice(&t.offset.to_le_bytes());
    }
    let aligned = out.len().div_ceil(32) * 32;
    out.resize(aligned, 0);
    for v in data {
        out.extend_from_slice(&v.to_le_bytes());
    }
    out
}

fn inputs(gguf: &GgufFile, files: &[&[u8]], skip: &dyn Fn(&str) -> bool) -> Vec<TensorInput> {
    let keys = gguf.tensor_keys();
    gguf.tensor_infos
        .iter()
        .zip(keys)
        .map(|(info, key)| {
            let file = files[info.shard_idx()];
            let count = info.element_count().unwrap() as usize;
            let start = (gguf.shards[info.shard_idx()].data_offset + info.offset()) as usize;
            let numbers = match file.get(start..start + 4 * count) {
                Some(bytes) => bytes
                    .chunks_exact(4)
                    .map(|c| u32::from_le_bytes([c[0], c[1], c[2], c[3]]))
                    .collect(),
                None => Vec::new(),
            };
            TensorInput {
                skip: skip(&key),
                file_len: file.len(),
                size: Ok(4 * count),
                numbers: Ok(numbers),
            }
        })
        .collect()
}

fn load(gguf: &GgufFile, files: &[&[u8]]) -> Result<Tensors, ModelError> {
    gguf.load_tensors_filtered(inputs(gguf, files, &|_| false))
}

fn at(t: &Tensors, key: &str, r: usize, c: usize) -> f32 {
    f32::from_bits(t.matrices.get(key).unwrap().get(r, c))
}

fn one_file(bytes: &[u8]) -> GgufFile {
    let mut dir: TextMap<&[u8]> = TextMap::new();
    dir.insert("tiny.gguf".to_string(), bytes);
    GgufFile::open("/d", "tiny.gguf", &dir).unwrap()
}

#[test]
fn every_known_layer_name_becomes_its_key_and_stays() {
    for (from, to) in [
        ("attn_qkv", "self_attn.qkv_proj"),
        ("attn_q", "self_attn.q_proj"),
        ("attn_k", "self_attn.k_proj"),
        ("attn_v", "self_attn.v_proj"),
        ("attn_output", "self_attn.o_proj"),
        ("ffn_gate", "mlp.gate_proj"),
        ("ffn_up", "mlp.up_proj"),
        ("ffn_down", "mlp.down_proj"),
        ("attn_norm", "input_layernorm"),
        ("ffn_norm", "post_attention_layernorm"),
    ] {
        for (n, x) in [(0, "weight"), (17, "bias")] {
            let key = normalize_gguf_key(&format!("blk.{n}.{from}.{x}"));
            assert_eq!(key, format!("layers.{n}.{to}.{x}"));
            assert_eq!(normalize_gguf_key(&key), key);
        }
    }
}

#[test]
fn test_normalize_gguf_key() {
    assert_eq!(
        normalize_gguf_key("blk.0.attn_q.weight"),
        "layers.0.self_attn.q_proj.weight"
    );
    assert_eq!(
        normalize_gguf_key("blk.15.ffn_gate.weight"),
        "layers.15.mlp.gate_proj.weight"
    );
    assert_eq!(
        normalize_gguf_key("token_embd.weight"),
        "embed_tokens.weight"
    );
    assert_eq!(normalize_gguf_key("output.weight"), "lm_head.weight");
}

#[test]
fn key_prefixes_are_stripped_once() {
    let prefixes = vec!["model.".to_string(), "language_model.".to_string()];
    assert_eq!(normalize_key("model.a.b", &prefixes), "a.b");
    assert_eq!(normalize_key("language_model.model.a", &prefixes), "model.a");
    assert_eq!(normalize_key("a.model.", &prefixes), "a.model.");
}

#[test]
fn test_load_tensors_swaps_gguf_2d_dims_to_rows_cols() {
    let data: Vec<f32> = (1u32..=8).map(|v| v as f32).collect();
    let bytes = gguf_bytes(&[], &[def("blk.0.ffn_down.weight", &[4, 2], 0)], &data);
    let gguf = one_file(&bytes);
    let t = load(&gguf, &[&bytes]).unwrap();
    let key = "layers.0.mlp.down_proj.weight";
    let down = t.matrices.get(key).unwrap();
    assert_eq!((down.rows, down.cols), (2, 4));
    assert_eq!(at(&t, key, 0, 0), 1.0);
    assert_eq!(at(&t, key, 0, 1), 2.0);
    assert_eq!(at(&t, key, 0, 2), 3.0);
    assert_eq!(at(&t, key, 0, 3), 4.0);
    assert_eq!(at(&t, key, 1, 0), 5.0);
    assert_eq!(at(&t, key, 1, 1), 6.0);
    assert_eq!(at(&t, key, 1, 2), 7.0);
    assert_eq!(at(&t, key, 1, 3), 8.0);
}

fn gguf_with(arch: &str, entries: Vec<(&str, GgufValue)>) -> GgufFile {
    let mut metadata: TextMap<GgufValue> = TextMap::new();
    metadata.insert(
        "general.architecture".to_string(),
        GgufValue::String(arch.to_string()),
    );
    for (k, v) in entries {
        metadata.insert(format!("{arch}.{k}"), v);
    }
    GgufFile {
        metadata,
        tensor_infos: Vec::new(),
        data_offset: 0,
        path: "<no-file>".to_string(),
        shards: vec![ShardInfo {
            path: "<no-file>".to_string(),
            data_offset: 0,
        }],
    }
}

fn config_with(arch: &str, entries: Vec<(&str, u32)>) -> GgufConfig {
    gguf_with(
        arch,
        entries
            .into_iter()
            .map(|(k, v)| (k, GgufValue::U32(v)))
            .collect(),
    )
    .to_config_json()
}

#[test]
fn test_gemma4_gguf_to_config_json_maps_arch_and_overrides_head_dim() {
    let gguf = gguf_with(
        "gemma4",
        vec![
            ("embedding_length", GgufValue::U32(1536)),
            ("block_count", GgufValue::U32(35)),
            ("attention.head_count", GgufValue::U32(8)),
            ("attention.head_count_kv", GgufValue::U32(1)),
            ("attention.key_length", GgufValue::U32(512)),
            ("vocab_size", GgufValue::U32(262144)),
            (
                "feed_forward_length",
                GgufValue::Array(vec![
                    GgufValue::U32(6144),
                    GgufValue::U32(12288),
                    GgufValue::U32(6144),
                ]),
            ),
        ],
    );
    let cfg = gguf.to_config_json();
    assert_eq!(cfg.model_type, "gemma4");
    assert_eq!(cfg.hidden_size, 1536);
    assert_eq!(cfg.num_hidden_layers, 35);
    assert_eq!(cfg.head_dim, 256);
    assert_eq!(cfg.intermediate_size, 12288);
    assert_eq!(cfg.num_attention_heads, 8);
    assert_eq!(cfg.num_key_value_heads, 1);
    assert_eq!(cfg.vocab_size, Some(262144));
}

#[test]
fn test_gguf_to_config_json_omits_absent_rope_base_for_arch_default() {
    let cfg = config_with(
        "llama",
        vec![
            ("embedding_length", 4096),
            ("block_count", 32),
            ("feed_forward_length", 11008),
            ("attention.head_count", 32),
            ("attention.head_count_kv", 8),
            ("attention.key_length", 128),
        ],
    );
    assert!(cfg.rope_theta.is_none());
}

#[test]
fn rope_base_is_taken_over() {
    let gguf = gguf_with(
        "llama",
        vec![("rope.freq_base", GgufValue::F32(500_000.0f32.to_bits()))],
    );
    assert_eq!(
        gguf.to_config_json().rope_theta,
        Some(FloatBits::Single(500_000.0f32.to_bits()))
    );
}

#[test]
fn test_kimi_k2_gguf_to_config_json_extracts_mla_fields() {
    let cfg = config_with(
        "deepseek2",
        vec![
            ("embedding_length", 7168),
            ("block_count", 61),
            ("attention.head_count", 64),
            ("attention.head_count_kv", 1),
            ("feed_forward_length", 18432),
            ("vocab_size", 163840),
            ("attention.q_lora_rank", 1536),
            ("attention.kv_lora_rank", 512),
            ("attention.key_length", 576),
            ("attention.value_length", 512),
            ("attention.key_length_mla", 192),
            ("attention.value_length_mla", 128),
            ("rope.dimension_count", 64),
        ],
    );
    assert_eq!(cfg.model_type, "deepseek_v2");
    assert_eq!(cfg.q_lora_rank, Some(1536));
    assert_eq!(cfg.kv_lora_rank, Some(512));
    assert_eq!(cfg.qk_rope_head_dim, Some(64));
    assert_eq!(cfg.qk_nope_head_dim, Some(128));
    assert_eq!(cfg.v_head_dim, Some(128));
}

#[test]
fn test_gguf_mla_falls_back_to_non_mla_key_length_when_mla_keys_absent() {
    let cfg = config_with(
        "deepseek2",
        vec![
            ("embedding_length", 5120),
            ("block_count", 27),
            ("attention.head_count", 128),
            ("attention.head_count_kv", 128),
            ("feed_forward_length", 12288),
            ("attention.q_lora_rank", 1536),
            ("attention.kv_lora_rank", 512),
            ("attention.key_length", 192),
            ("attention.value_length", 128),
            ("rope.dimension_count", 64),
        ],
    );
    assert_eq!(cfg.qk_nope_head_dim, Some(128));
    assert_eq!(cfg.qk_rope_head_dim, Some(64));
    assert_eq!(cfg.v_head_dim, Some(128));
}

#[test]
fn test_gguf_mla_fields_absent_for_non_mla_architectures() {
    let cfg = config_with(
        "llama",
        vec![
            ("embedding_length", 4096),
            ("block_count", 32),
            ("feed_forward_length", 11008),
            ("attention.head_count", 32),
            ("attention.head_count_kv", 8),
            ("attention.key_length", 128),
        ],
    );
    assert!(cfg.q_lora_rank.is_none());
    assert!(cfg.kv_lora_rank.is_none());
    assert!(cfg.qk_nope_head_dim.is_none());
    assert!(cfg.v_head_dim.is_none());
    assert!(cfg.qk_rope_head_dim.is_none());
}

#[test]
fn load_tensors_filtered_skips_key() {
    let data: Vec<f32> = (0..8).map(|i| i as f32).collect();
    let bytes = gguf_bytes(
        &[],
        &[
            def("blk.0.attn_q.weight", &[2, 2], 0),
            def("blk.0.ffn_gate.weight", &[2, 2], 16),
        ],
        &data,
    );
    let gguf = one_file(&bytes);
    let t = gguf
        .load_tensors_filtered(inputs(&gguf, &[&bytes], &|k| k.contains("gate_proj")))
        .unwrap();
    assert_eq!(t.matrices.len(), 1);
    assert!(t.matrices.contains_key("layers.0.self_attn.q_proj.weight"));
}

#[test]
fn load_tensors_handles_1d_and_higher_dim() {
    let data: Vec<f32> = (0..12).map(|i| i as f32).collect();
    let bytes = gguf_bytes(
        &[],
        &[
            def("blk.0.attn_norm.weight", &[4], 0),
            def("blk.0.expert.weight", &[2, 2, 2], 16),
        ],
        &data,
    );
    let gguf = one_file(&bytes);
    let t = load(&gguf, &[&bytes]).unwrap();
    assert_eq!(t.vectors.len(), 1);
    assert!(t.vectors.contains_key("layers.0.input_layernorm.weight"));
    assert_eq!(
        t.vectors.get("layers.0.input_layernorm.weight").unwrap().len(),
        4
    );
    assert_eq!(t.matrices.len(), 0);
}

#[test]
fn to_config_json_head_dim_falls_back_to_hidden_div_heads() {
    let cfg = config_with(
        "llama",
        vec![
            ("embedding_length", 4096),
            ("block_count", 32),
            ("feed_forward_length", 11008),
            ("attention.head_count", 32),
            ("attention.head_count_kv", 8),
        ],
    );
    assert_eq!(cfg.head_dim, 128);
}

#[test]
fn to_config_json_kv_heads_defaults_to_heads_when_absent() {
    let cfg = config_with(
        "llama",
        vec![
            ("embedding_length", 4096),
            ("block_count", 32),
            ("feed_forward_length", 11008),
            ("attention.head_count", 32),
        ],
    );
    assert_eq!(cfg.num_key_value_heads, 32);
}

#[test]
fn to_config_json_maps_deepseek_v4_arch() {
    let cfg = config_with(
        "deepseek_v4",
        vec![
            ("embedding_length", 4096),
            ("block_count", 32),
            ("feed_forward_length", 11008),
            ("attention.head_count", 32),
            ("attention.head_count_kv", 8),
        ],
    );
    assert_eq!(cfg.model_type, "deepseek_v4");
}

#[test]
fn to_config_json_maps_unknown_arch_passthrough() {
    let cfg = config_with(
        "futurearch",
        vec![
            ("embedding_length", 512),
            ("block_count", 6),
            ("feed_forward_length", 2048),
            ("attention.head_count", 8),
            ("attention.head_count_kv", 8),
        ],
    );
    assert_eq!(cfg.model_type, "futurearch");
}

#[test]
fn test_gguf_to_config_json_falls_back_to_expert_feed_forward_length_on_moe() {
    let cfg = config_with(
        "deepseek2",
        vec![
            ("embedding_length", 4096),
            ("block_count", 43),
            ("attention.head_count", 64),
            ("attention.head_count_kv", 1),
            ("attention.key_length", 128),
            ("expert_feed_forward_length", 2048),
            ("vocab_size", 129280),
        ],
    );
    assert_eq!(cfg.intermediate_size, 2048);
}

#[test]
fn test_gguf_to_config_json_prefers_global_feed_forward_length_when_both_present() {
    let cfg = config_with(
        "deepseek2",
        vec![
            ("embedding_length", 2048),
            ("block_count", 27),
            ("attention.head_count", 16),
            ("attention.head_count_kv", 16),
            ("attention.key_length", 192),
            ("feed_forward_length", 10944),
            ("expert_feed_forward_length", 1408),
        ],
    );
    assert_eq!(cfg.intermediate_size, 10944);
}

#[test]
fn test_load_tensors_rejects_truncated_tensor_data() {
    let bytes = gguf_bytes(
        &[],
        &[def("blk.0.ffn_down.weight", &[4, 2], 0)],
        &[0.0, 0.0, 0.0, 0.0],
    );
    let gguf = one_file(&bytes);
    match load(&gguf, &[&bytes]) {
        Err(ModelError::Parse(msg)) => {
            assert!(
                msg.contains("out of bounds") || msg.contains("too short"),
                "unexpected error: {msg}"
            );
        }
        Err(other) => panic!("expected Parse error, got {other:?}"),
        Ok(_) => panic!("expected error, got Ok"),
    }
}

#[test]
fn a_matrix_with_too_few_numbers_is_refused() {
    let data: Vec<f32> = (0..8).map(|i| i as f32).collect();
    let bytes = gguf_bytes(&[], &[def("x", &[4, 2], 0)], &data);
    let gguf = one_file(&bytes);
    let mut given = inputs(&gguf, &[&bytes], &|_| false);
    given[0].numbers = Ok(vec![1, 2, 3]);
    match gguf.load_tensors_filtered(given) {
        Err(ModelError::Parse(msg)) => assert_eq!(
            msg,
            "tensor x: ShapeError/OutOfBounds: out of bounds indexing"
        ),
        _ => panic!("expected Parse error"),
    }
    let mut more = inputs(&gguf, &[&bytes], &|_| false);
    more[0].numbers = Ok(vec![0; 9]);
    match gguf.load_tensors_filtered(more) {
        Err(ModelError::Parse(msg)) => assert_eq!(
            msg,
            "tensor x: ShapeError/IncompatibleShape: incompatible shapes"
        ),
        _ => panic!("expected Parse error"),
    }
    let mut unknown = inputs(&gguf, &[&bytes], &|_| false);
    unknown[0].numbers = Err("no such encoding".to_string());
    match gguf.load_tensors_filtered(unknown) {
        Err(ModelError::Parse(msg)) => assert_eq!(msg, "no such encoding"),
        _ => panic!("expected Parse error"),
    }
}

#[test]
fn read_tokenizer_vocab_size_reads_vocab_object_length() {
    let text = r#"{"model":{"vocab":{"<unk>":0,"<bos>":1,"<eos>":2,"a":3,"b":4}}}"#;
    assert_eq!(read_tokenizer_vocab_size(Some(text)), Some(5));
}

#[test]
fn read_tokenizer_vocab_size_returns_none_when_tokenizer_json_absent() {
    assert_eq!(read_tokenizer_vocab_size(None), None);
}

#[test]
fn read_tokenizer_vocab_size_returns_none_when_vocab_empty() {
    assert_eq!(
        read_tokenizer_vocab_size(Some(r#"{"model":{"vocab":{}}}"#)),
        None
    );
}

#[test]
fn read_tokenizer_vocab_size_returns_none_on_malformed_json() {
    assert_eq!(read_tokenizer_vocab_size(Some("not-json")), None);
}

fn split_file(tensor_ids: &[usize], metas: &[(&str, u32)]) -> Vec<u8> {
    let defs: Vec<Def> = tensor_ids
        .iter()
        .enumerate()
        .map(|(rel, tid)| def(&format!("blk.{tid}.ffn_down.weight"), &[2, 2], rel as u64 * 16))
        .collect();
    let data: Vec<f32> = tensor_ids
        .iter()
        .flat_map(|tid| (0..4).map(move |off| *tid as f32 + 0.1 * off as f32))
        .collect();
    gguf_bytes(metas, &defs, &data)
}

fn two_files<'a>(first: &'a [u8], second: &'a [u8]) -> TextMap<&'a [u8]> {
    let mut dir: TextMap<&'a [u8]> = TextMap::new();
    dir.insert("m-00001-of-00002.gguf".to_string(), first);
    dir.insert("m-00002-of-00002.gguf".to_string(), second);
    dir
}

#[test]
fn open_multi_shard_combines_tensors_from_all_shards() {
    let first = split_file(
        &[0, 1],
        &[("split.no", 0), ("split.count", 2), ("split.tensors.count", 4)],
    );
    let second = split_file(
        &[2, 3],
        &[("split.no", 1), ("split.count", 2), ("split.tensors.count", 4)],
    );
    let dir = two_files(&first, &second);
    let gguf = GgufFile::open("/d", "m-00001-of-00002.gguf", &dir).unwrap();
    assert_eq!(gguf.shards.len(), 2);
    assert_eq!(gguf.tensor_infos.len(), 4);
    for (i, info) in gguf.tensor_infos.iter().enumerate() {
        let expected = if i < 2 { 0 } else { 1 };
        assert_eq!(
            info.shard_idx(),
            expected,
            "tensor {i} ({}) shard mismatch",
            info.name()
        );
    }
    let t = load(&gguf, &[&first, &second]).unwrap();
    assert_eq!(t.matrices.len(), 4);
    for tid in 0..4 {
        let key = format!("layers.{tid}.mlp.down_proj.weight");
        let top_left = at(&t, &key, 0, 0);
        assert!(
            (top_left - tid as f32).abs() < 1e-6,
            "tensor {tid} top-left {top_left} != {tid}"
        );
    }
}

#[test]
fn open_rejects_multi_shard_when_a_shard_file_is_missing() {
    let only = gguf_bytes(&[("split.count", 2)], &[], &[]);
    let mut dir: TextMap<&[u8]> = TextMap::new();
    dir.insert("m-00001-of-00002.gguf".to_string(), &only);
    let err = match GgufFile::open("/d", "m-00001-of-00002.gguf", &dir) {
        Ok(_) => panic!("expected error for missing sibling shard"),
        Err(e) => e,
    };
    assert!(
        format!("{err:?}").contains("missing expected sibling"),
        "unexpected error: {err:?}"
    );
}

#[test]
fn open_multi_shard_via_non_first_shard() {
    let metas = [("split.count", 2), ("split.tensors.count", 2)];
    let first = split_file(&[0], &metas);
    let second = split_file(&[1], &metas);
    let dir = two_files(&first, &second);
    let gguf = GgufFile::open("/d", "m-00002-of-00002.gguf", &dir).unwrap();
    assert_eq!(gguf.shards.len(), 2);
    assert_eq!(gguf.tensor_infos.len(), 2);
}

#[test]
fn the_data_offset_is_that_of_the_first_shard() {
    let first = split_file(&[0, 1, 2], &[("split.count", 2)]);
    let second = split_file(&[3], &[("split.count", 2)]);
    let dir = two_files(&first, &second);
    let gguf = GgufFile::open("/d", "m-00002-of-00002.gguf", &dir).unwrap();
    assert!(gguf.shards[0].data_offset > gguf.shards[1].data_offset);
    assert_eq!(gguf.data_offset, gguf.shards[0].data_offset);
    assert_eq!(gguf.path, "/d/m-00002-of-00002.gguf");
}

#[test]
fn open_multi_shard_discovers_via_filename_when_split_count_absent() {
    let file = gguf_bytes(&[], &[def("blk.0.ffn_down.weight", &[1, 1], 0)], &[0.0]);
    let dir = two_files(&file, &file);
    let gguf = GgufFile::open("/d", "m-00001-of-00002.gguf", &dir).unwrap();
    assert_eq!(gguf.shards.len(), 2);
    assert_eq!(gguf.tensor_infos.len(), 2);
}

#[test]
fn open_multi_shard_rejects_tensor_count_mismatch() {
    let metas = [("split.count", 2), ("split.tensors.count", 99)];
    let file = gguf_bytes(&metas, &[def("blk.0.ffn_down.weight", &[1, 1], 0)], &[0.0]);
    let dir = two_files(&file, &file);
    let err = match GgufFile::open("/d", "m-00001-of-00002.gguf", &dir) {
        Ok(_) => panic!("expected error for tensor count mismatch"),
        Err(e) => e,
    };
    assert!(
        format!("{err:?}").contains("tensor count mismatch"),
        "unexpected error: {err:?}"
    );
}

#[test]
fn multi_shard_tensor_info_accessors() {
    let bytes = gguf_bytes(&[], &[def("blk.0.ffn_down.weight", &[3, 4], 0)], &[0.0; 12]);
    let mut dir: TextMap<&[u8]> = TextMap::new();
    dir.insert("m-00001-of-00001.gguf".to_string(), &bytes);
    let gguf = GgufFile::open("/d", "m-00001-of-00001.gguf", &dir).unwrap();
    let info = &gguf.tensor_infos[0];
    assert_eq!(info.name(), "blk.0.ffn_down.weight");
    assert_eq!(info.n_dims(), 2);
    assert_eq!(info.dims(), &[3, 4]);
    assert_eq!(info.tensor_type(), TYPE_F32);
    assert_eq!(info.offset(), 0);
    assert_eq!(info.shard_idx(), 0);
    assert_eq!(gguf.path, "/d/m-00001-of-00001.gguf");
}

fn open_bytes(bytes: &[u8]) -> Result<GgufFile, ModelError> {
    let mut dir: TextMap<&[u8]> = TextMap::new();
    dir.insert("bad.gguf".to_string(), bytes);
    GgufFile::open("/d", "bad.gguf", &dir)
}

#[test]
fn open_single_rejects_bad_magic() {
    let err = match open_bytes(&0xDEADBEEFu32.to_le_bytes()) {
        Ok(_) => panic!("expected error for bad magic"),
        Err(e) => e,
    };
    assert!(format!("{err:?}").contains("not a GGUF file"), "{err:?}");
}

#[test]
fn open_single_rejects_unsupported_version() {
    let mut bytes = GGUF_MAGIC.to_le_bytes().to_vec();
    bytes.extend_from_slice(&99u32.to_le_bytes());
    let err = match open_bytes(&bytes) {
        Ok(_) => panic!("expected error for version 99"),
        Err(e) => e,
    };
    assert!(
        format!("{err:?}").contains("unsupported GGUF version"),
        "{err:?}"
    );
}

#[test]
fn a_file_that_is_not_there_or_ends_early_is_an_io_error() {
    let dir: TextMap<&[u8]> = TextMap::new();
    assert!(matches!(
        GgufFile::open("/d", "none.gguf", &dir),
        Err(ModelError::Io)
    ));
    assert!(matches!(open_bytes(&[0x47, 0x47]), Err(ModelError::Io)));
}

fn layout(layers: usize) -> ModelLayout {
    ModelLayout {
        hidden_size: 2,
        intermediate_size: 3,
        head_dim: 1,
        num_q_heads: 2,
        num_kv_heads: 1,
        vocab_size: Some(4),
        rope_base: (10000.0f64).to_bits(),
        moe_intermediate_size: None,
        layers: (0..layers).map(LayerKeys::standard).collect(),
        embed_key: "embed_tokens.weight".to_string(),
        position_embed_key: None,
        key_prefixes_to_strip: vec!["model.".to_string()],
    }
}

#[test]
fn a_model_is_loaded_and_oriented() {
    let embed: Vec<f32> = (0..8).map(|i| i as f32).collect();
    let bytes = gguf_bytes(&[], &[def("token_embd.weight", &[4, 2], 0)], &embed);
    let gguf = one_file(&bytes);
    let weights = load_gguf(
        &gguf,
        &layout(1),
        inputs(&gguf, &[&bytes], &|_| false),
        Some(r#"{"model":{"vocab":{"a":0,"b":1,"c":2,"d":3}}}"#),
    )
    .unwrap();
    assert_eq!((weights.embed.rows, weights.embed.cols), (4, 2));
    assert_eq!(f32::from_bits(weights.embed.get(1, 1)), 5.0);
    assert_eq!((weights.lm_head.rows, weights.lm_head.cols), (4, 2));
    assert_eq!(weights.vocab_size, 4);
    assert!(weights.position_embed.is_none());
    assert_eq!((weights.num_layers, weights.hidden_size, weights.intermediate_size), (1, 2, 3));
    assert_eq!((weights.head_dim, weights.num_q_heads, weights.num_kv_heads), (1, 2, 1));
    assert_eq!(f64::from_bits(weights.rope_base), 10000.0);
    assert_eq!((weights.raw_bytes.len(), weights.skipped_tensors.len()), (0, 0));
}

#[test]
fn loading_without_leaving_anything_out_is_loading() {
    let embed: Vec<f32> = (0..8).map(|i| i as f32).collect();
    let bytes = gguf_bytes(&[], &[def("token_embd.weight", &[4, 2], 0)], &embed);
    let gguf = one_file(&bytes);
    let all = || inputs(&gguf, &[&bytes], &|_| false);
    let a = load_gguf(&gguf, &layout(1), all(), None).unwrap();
    let b = load_gguf_filtered(&gguf, &layout(1), all(), None).unwrap();
    let c = load_gguf_validated(&gguf, Ok(()), &layout(1), all(), None).unwrap();
    for w in [&b, &c] {
        assert_eq!(w.embed.data, a.embed.data);
        assert_eq!(w.tensors.matrices.len(), a.tensors.matrices.len());
        assert_eq!(w.vocab_size, a.vocab_size);
    }
    assert_eq!(a.tensors.matrices.len(), 1);
    let none = inputs(&gguf, &[&bytes], &|_| true);
    let r = load_gguf_filtered(&gguf, &layout(1), none, None);
    assert!(matches!(r, Err(ModelError::MissingTensor(_))));
}

#[test]
fn a_model_without_embedding_or_with_a_bad_configuration_is_refused() {
    let bytes = gguf_bytes(&[], &[def("blk.0.attn_norm.weight", &[2], 0)], &[0.0, 0.0]);
    let gguf = one_file(&bytes);
    let r = load_gguf(&gguf, &layout(1), inputs(&gguf, &[&bytes], &|_| false), None);
    match r {
        Err(ModelError::MissingTensor(key)) => assert_eq!(key, "embed_tokens.weight"),
        _ => panic!("expected MissingTensor"),
    }
    let refused = load_gguf_validated(
        &gguf,
        Err(ModelError::Parse("zero layers".to_string())),
        &layout(1),
        inputs(&gguf, &[&bytes], &|_| false),
        None,
    );
    match refused {
        Err(ModelError::Parse(text)) => assert_eq!(text, "zero layers"),
        _ => panic!("expected Parse error"),
    }
}
