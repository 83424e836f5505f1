use larql::gguf::orient::{
    orient_attention_tensors, orient_embedding, orient_ffn_tensors, orient_in_place,
    split_fused_qkv,
};
use larql::layout::{layer_key_string, LayerKeys, ModelLayout};
use larql::table::TextMap;
use larql::tensor::Matrix;

fn matrix(rows: usize, cols: usize, data: Vec<f32>) -> Matrix {
    Matrix::from_shape_vec(rows, cols, data.into_iter().map(f32::to_bits).collect()).unwrap()
}

fn zeros(rows: usize, cols: usize) -> Matrix {
    Matrix::zeros(rows, cols)
}

fn at(m: &Matrix, r: usize, c: usize) -> f32 {
    f32::from_bits(m.get(r, c))
}

fn shape(m: &Matrix) -> (usize, usize) {
    (m.rows, m.cols)
}

fn gpt2_layout(layers: usize, hidden: usize, inter: usize, head_dim: usize, heads: usize) -> ModelLayout {
    ModelLayout {
        hidden_size: hidden,
        intermediate_size: inter,
        head_dim,
        num_q_heads: heads,
        num_kv_heads: heads,
        vocab_size: Some(8),
        rope_base: (10000.0f64).to_bits(),
        moe_intermediate_size: None,
        layers: (0..layers)
            .map(|n| {
                let mut keys = LayerKeys::standard(n);
                keys.fused_qkv = Some(layer_key_string(n, "self_attn.qkv_proj.weight"));
                keys.fused_qkv_bias = Some(layer_key_string(n, "self_attn.qkv_proj.bias"));
                keys.attn_q_bias = Some(layer_key_string(n, "self_attn.q_proj.bias"));
                keys.attn_k_bias = Some(layer_key_string(n, "self_attn.k_proj.bias"));
                keys.attn_v_bias = Some(layer_key_string(n, "self_attn.v_proj.bias"));
                keys
            })
            .collect(),
        embed_key: "embed_tokens.weight".to_string(),
        position_embed_key: None,
        key_prefixes_to_strip: Vec::new(),
    }
}

fn llama_layout(layers: usize, hidden: usize, head_dim: usize, heads: usize) -> ModelLayout {
    let mut layout = gpt2_layout(0, hidden, 4 * hidden, head_dim, heads);
    layout.layers = (0..layers).map(LayerKeys::standard).collect();
    layout
}

#[test]
fn test_orient_in_place_transposes_inverse_layout() {
    let key = "layers.0.mlp.down_proj.weight";
    let mut tensors = TextMap::new();
    tensors.insert(
        key.to_string(),
        matrix(3, 2, vec![1.0, 2.0, 3.0, 4.0, 5.0, 6.0]),
    );
    orient_in_place(&mut tensors, key, 2, 3);
    let oriented = tensors.get(key).unwrap();
    assert_eq!(shape(oriented), (2, 3));
    assert_eq!(at(oriented, 0, 0), 1.0);
    assert_eq!(at(oriented, 0, 1), 3.0);
    assert_eq!(at(oriented, 0, 2), 5.0);
    assert_eq!(at(oriented, 1, 0), 2.0);
    assert_eq!(at(oriented, 1, 1), 4.0);
    assert_eq!(at(oriented, 1, 2), 6.0);
}

#[test]
fn test_orient_in_place_leaves_canonical_layout_untouched() {
    let key = "layers.0.mlp.down_proj.weight";
    let mut tensors = TextMap::new();
    let canonical = matrix(2, 3, vec![1.0, 2.0, 3.0, 4.0, 5.0, 6.0]);
    let original_ptr = canonical.data.as_ptr();
    tensors.insert(key.to_string(), canonical);
    orient_in_place(&mut tensors, key, 2, 3);
    let after = tensors.get(key).unwrap();
    assert_eq!(after.data.as_ptr(), original_ptr);
}

#[test]
fn test_orient_in_place_skips_ambiguous_square_dims() {
    let key = "layers.0.mlp.up_proj.weight";
    let mut tensors = TextMap::new();
    tensors.insert(
        key.to_string(),
        matrix(4, 4, (0..16).map(|x| x as f32).collect()),
    );
    orient_in_place(&mut tensors, key, 4, 4);
    let after = tensors.get(key).unwrap();
    assert_eq!(shape(after), (4, 4));
    assert_eq!(at(after, 0, 0), 0.0);
    assert_eq!(at(after, 3, 3), 15.0);
}

#[test]
fn orienting_twice_changes_nothing_more() {
    let key = "k";
    let mut tensors = TextMap::new();
    tensors.insert(key.to_string(), matrix(3, 2, vec![1.0, 2.0, 3.0, 4.0, 5.0, 6.0]));
    orient_in_place(&mut tensors, key, 2, 3);
    let once = tensors.get(key).unwrap().data.clone();
    orient_in_place(&mut tensors, key, 2, 3);
    assert_eq!(tensors.get(key).unwrap().data, once);
}

#[test]
fn test_orient_attention_tensors_fixes_inverse_fused_qkv_layout() {
    let layout = gpt2_layout(1, 4, 16, 2, 2);
    let mut tensors = TextMap::new();
    tensors.insert("layers.0.self_attn.qkv_proj.weight".to_string(), zeros(4, 12));
    orient_attention_tensors(&mut tensors, &layout);
    let oriented = tensors.get("layers.0.self_attn.qkv_proj.weight").unwrap();
    assert_eq!(shape(oriented), (12, 4));
}

#[test]
fn test_split_fused_qkv_materialises_per_projection_tensors_and_biases() {
    let layout = gpt2_layout(1, 4, 16, 2, 2);
    let mut tensors = TextMap::new();
    let mut vectors: TextMap<Vec<u32>> = TextMap::new();
    let mut data = Vec::with_capacity(12 * 4);
    for r in 0..12 {
        for _c in 0..4 {
            data.push(r as f32);
        }
    }
    tensors.insert(
        "layers.0.self_attn.qkv_proj.weight".to_string(),
        matrix(12, 4, data),
    );
    let fused_b: Vec<u32> = (0..12).map(|i| (i as f32 * 0.1).to_bits()).collect();
    vectors.insert("layers.0.self_attn.qkv_proj.bias".to_string(), fused_b);

    split_fused_qkv(&mut tensors, &mut vectors, &layout);

    assert!(!tensors.contains_key("layers.0.self_attn.qkv_proj.weight"));
    assert!(!vectors.contains_key("layers.0.self_attn.qkv_proj.bias"));
    let q = tensors.get("layers.0.self_attn.q_proj.weight").unwrap();
    let k = tensors.get("layers.0.self_attn.k_proj.weight").unwrap();
    let v = tensors.get("layers.0.self_attn.v_proj.weight").unwrap();
    assert_eq!(shape(q), (4, 4));
    assert_eq!(shape(k), (4, 4));
    assert_eq!(shape(v), (4, 4));
    assert_eq!(at(q, 0, 0), 0.0);
    assert_eq!(at(q, 3, 3), 3.0);
    assert_eq!(at(k, 0, 0), 4.0);
    assert_eq!(at(k, 3, 3), 7.0);
    assert_eq!(at(v, 0, 0), 8.0);
    assert_eq!(at(v, 3, 3), 11.0);
    let qb = vectors.get("layers.0.self_attn.q_proj.bias").unwrap();
    let kb = vectors.get("layers.0.self_attn.k_proj.bias").unwrap();
    let vb = vectors.get("layers.0.self_attn.v_proj.bias").unwrap();
    assert_eq!(qb.len(), 4);
    assert_eq!(kb.len(), 4);
    assert_eq!(vb.len(), 4);
    assert!((f32::from_bits(qb[0]) - 0.0).abs() < 1e-6);
    assert!((f32::from_bits(kb[0]) - 0.4).abs() < 1e-6);
    assert!((f32::from_bits(vb[0]) - 0.8).abs() < 1e-6);
}

#[test]
fn test_split_fused_qkv_no_op_when_arch_has_no_fused_key() {
    let layout = llama_layout(1, 4, 2, 2);
    let mut tensors = TextMap::new();
    let mut vectors = TextMap::new();
    tensors.insert("layers.0.self_attn.q_proj.weight".to_string(), zeros(4, 4));
    split_fused_qkv(&mut tensors, &mut vectors, &layout);
    assert!(tensors.contains_key("layers.0.self_attn.q_proj.weight"));
}

#[test]
fn test_orient_ffn_tensors_fixes_gpt2_style_inverse_layout() {
    let layout = gpt2_layout(1, 4, 12, 2, 2);
    let mut tensors = TextMap::new();
    tensors.insert("layers.0.mlp.up_proj.weight".to_string(), zeros(4, 12));
    tensors.insert("layers.0.mlp.down_proj.weight".to_string(), zeros(12, 4));
    orient_ffn_tensors(&mut tensors, &layout);
    let up = tensors.get("layers.0.mlp.up_proj.weight").unwrap();
    let down = tensors.get("layers.0.mlp.down_proj.weight").unwrap();
    assert_eq!(shape(up), (12, 4));
    assert_eq!(shape(down), (4, 12));
}

#[test]
fn orient_embedding_transposes_when_hidden_is_rows() {
    let hidden = 4;
    let vocab = 10;
    let result = orient_embedding(zeros(hidden, vocab), hidden, Some(vocab));
    assert_eq!(shape(&result), (vocab, hidden));
}

#[test]
fn orient_embedding_noop_when_already_canonical() {
    let hidden = 4;
    let vocab = 10;
    let result = orient_embedding(zeros(vocab, hidden), hidden, Some(vocab));
    assert_eq!(shape(&result), (vocab, hidden));
}

#[test]
fn orient_embedding_ambiguous_passthrough() {
    let result = orient_embedding(zeros(7, 9), 4, Some(10));
    assert_eq!(shape(&result), (7, 9));
}

#[test]
fn orient_ffn_tensors_noop_for_zero_layers() {
    let mut tensors = TextMap::new();
    orient_ffn_tensors(&mut tensors, &llama_layout(0, 4, 2, 2));
    assert_eq!(tensors.len(), 0);
}

#[test]
fn orienting_a_second_time_changes_nothing() {
    let mut layout = llama_layout(1, 4, 3, 2);
    layout.num_kv_heads = 1;
    let keys = LayerKeys::standard(0);
    let stored = [(keys.attn_q, 4, 6), (keys.attn_k, 4, 3), (keys.attn_v, 3, 4), (keys.attn_o, 6, 4)];
    let mut tensors = TextMap::new();
    for (key, rows, cols) in &stored {
        let data = (0..rows * cols).map(|i| i as f32).collect();
        tensors.insert(key.clone(), matrix(*rows, *cols, data));
    }
    orient_attention_tensors(&mut tensors, &layout);
    let once: Vec<_> =
        stored.iter().map(|(k, _, _)| tensors.get(k).unwrap().data.clone()).collect();
    let shapes: Vec<_> = stored.iter().map(|(k, _, _)| shape(tensors.get(k).unwrap())).collect();
    assert_eq!(shapes, vec![(6, 4), (3, 4), (3, 4), (4, 6)]);
    orient_attention_tensors(&mut tensors, &layout);
    for (i, (key, _, _)) in stored.iter().enumerate() {
        assert_eq!(tensors.get(key).unwrap().data, once[i]);
        assert_eq!(shape(tensors.get(key).unwrap()), shapes[i]);
    }
}

#[test]
fn orient_attention_tensors_noop_for_zero_head_dim() {
    let mut tensors = TextMap::new();
    orient_attention_tensors(&mut tensors, &llama_layout(1, 4, 0, 2));
    assert_eq!(tensors.len(), 0);
}

#[test]
fn split_fused_qkv_noop_for_zero_head_dim() {
    let mut tensors = TextMap::new();
    let mut vectors = TextMap::new();
    split_fused_qkv(&mut tensors, &mut vectors, &gpt2_layout(1, 4, 16, 0, 2));
    assert_eq!(tensors.len(), 0);
}

#[test]
fn split_fused_qkv_puts_back_wrong_shape_tensor() {
    let layout = gpt2_layout(1, 4, 16, 2, 2);
    let fused_key = layout.layers[0].fused_qkv.clone().unwrap();
    let mut tensors = TextMap::new();
    let mut vectors = TextMap::new();
    tensors.insert(fused_key.clone(), zeros(5, 4));
    split_fused_qkv(&mut tensors, &mut vectors, &layout);
    assert!(
        tensors.contains_key(&fused_key),
        "wrong-shape tensor should be restored"
    );
    assert_eq!(shape(tensors.get(&fused_key).unwrap()), (5, 4));
}

#[test]
fn split_fused_qkv_puts_back_wrong_length_bias() {
    let layout = gpt2_layout(1, 4, 16, 2, 2);
    let fused_key = layout.layers[0].fused_qkv.clone().unwrap();
    let bias_key = layout.layers[0].fused_qkv_bias.clone().unwrap();
    let mut tensors = TextMap::new();
    let mut vectors = TextMap::new();
    tensors.insert(fused_key, zeros(12, 4));
    vectors.insert(bias_key.clone(), vec![1.0f32.to_bits(); 7]);
    split_fused_qkv(&mut tensors, &mut vectors, &layout);
    assert!(
        vectors.contains_key(&bias_key),
        "wrong-length bias should be restored"
    );
    assert_eq!(vectors.get(&bias_key).unwrap().len(), 7);
}

#[test]
fn shapes_that_do_not_fit_are_named() {
    let too_many = Matrix::from_shape_vec(2, 2, vec![0; 3]).unwrap_err();
    assert_eq!(too_many, "ShapeError/OutOfBounds: out of bounds indexing");
    let too_few = Matrix::from_shape_vec(1, 2, vec![0; 3]).unwrap_err();
    assert_eq!(too_few, "ShapeError/IncompatibleShape: incompatible shapes");
    let huge = Matrix::from_shape_vec(usize::MAX, 2, Vec::new()).unwrap_err();
    assert_eq!(huge, "ShapeError/Overflow: arithmetic overflow");
    let hidden = Matrix::from_shape_vec(usize::MAX, 0, Vec::new()).unwrap_err();
    assert_eq!(hidden, "ShapeError/Overflow: arithmetic overflow");
    assert!(Matrix::from_shape_vec(3, 0, Vec::new()).is_ok());
}
