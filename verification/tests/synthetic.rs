use larql::models::synthetic::{
    draw_numbers, rand_mat_seeded, DrawnMatrix, Fill, FilledVector, LCG_INCREMENT, LCG_MULTIPLIER,
    ONE, TENTH,
};
use larql::models::synthetic_families::{
    make_gemma3_test_weights, make_starcoder2_test_weights, make_synthetic_e2b_like_weights,
    make_test_gemma4_moe_weights, make_test_q4k_weights, make_test_q4k_weights_silu,
    make_test_weights, pack_numbers, LayerNames, ModelNames, SyntheticWeights, GEMMA4_MOE_HIDDEN,
    GEMMA4_MOE_NUM_EXPERTS, Q4K_TEST_HIDDEN,
};

fn layer_names(layer: usize) -> LayerNames {
    let name = |rest: &str| format!("{layer}.{rest}");
    let some = |rest: &str| Some(format!("{layer}.{rest}"));
    LayerNames {
        attn_q: name("attn.q_proj.weight"),
        attn_k: name("attn.k_proj.weight"),
        attn_v: name("attn.v_proj.weight"),
        attn_o: name("attn.o_proj.weight"),
        ffn_gate: name("ffn.gate.weight"),
        ffn_up: name("ffn.up.weight"),
        ffn_down: name("ffn.down.weight"),
        input_norm: name("input_norm.weight"),
        post_attention_norm: name("post_attn_norm.weight"),
        pre_ffn_norm: some("pre_ffn_norm.weight"),
        post_ffn_norm: some("post_ffn_norm.weight"),
        q_norm: some("q_norm.weight"),
        k_norm: some("k_norm.weight"),
        q_bias: some("attn.q_proj.bias"),
        k_bias: some("attn.k_proj.bias"),
        v_bias: some("attn.v_proj.bias"),
        o_bias: some("attn.o_proj.bias"),
        up_bias: some("ffn.up.bias"),
        down_bias: some("ffn.down.bias"),
        per_layer_gate: some("per_layer_input_gate.weight"),
        per_layer_projection: some("per_layer_projection.weight"),
        per_layer_norm: some("post_per_layer_input_norm.weight"),
        layer_scalar: some("layer_scalar"),
        router: some("router.proj.weight"),
        packed_gate_up: some("experts.gate_up_proj"),
        packed_down: some("experts.down_proj"),
        sliding: layer % 2 == 0,
    }
}

fn names(layers: usize) -> ModelNames {
    ModelNames {
        embed: "embed.weight".to_string(),
        final_norm: "norm.weight".to_string(),
        per_layer_model_projection: Some("per_layer_model_projection.weight".to_string()),
        per_layer_embed: Some("embed_tokens_per_layer.weight".to_string()),
        per_layer_projection_norm: Some("per_layer_projection_norm.weight".to_string()),
        layers: (0..layers).map(layer_names).collect(),
    }
}

/// The numbers that a matrix stands for.
fn numbers(m: &DrawnMatrix) -> Vec<f32> {
    let scale = f32::from_bits(m.scale);
    m.draws.iter().map(|d| *d as f32 / u32::MAX as f32 * 2.0 * scale - scale).collect()
}

fn tensor<'a>(w: &'a SyntheticWeights, key: &str) -> Option<&'a DrawnMatrix> {
    w.parts.tensors.get(key)
}

fn vector<'a>(w: &'a SyntheticWeights, key: &str) -> Option<&'a FilledVector> {
    w.parts.vectors.get(key)
}

#[test]
fn make_test_weights_basic_shape() {
    let w = make_test_weights(&names(2));
    assert_eq!(w.hidden_size, 16);
    assert_eq!(w.intermediate_size, 32);
    assert_eq!(w.vocab_size, 32);
    assert_eq!(w.num_layers, 2);
    assert_eq!(w.num_q_heads, 2);
    assert_eq!(w.num_kv_heads, 1);
    assert_eq!(w.head_dim, 8);
    assert_eq!(f64::from_bits(w.rope_base), 10_000.0);
}

#[test]
fn make_test_weights_embed_matrix_shape() {
    let w = make_test_weights(&names(2));
    assert_eq!((w.embed.rows, w.embed.cols), (32, 16));
    assert_eq!((w.lm_head.rows, w.lm_head.cols), (32, 16));
}

#[test]
fn make_test_weights_per_layer_tensors_present() {
    let k = names(2);
    let w = make_test_weights(&k);
    for (layer, n) in k.layers.iter().enumerate() {
        for key in [&n.attn_q, &n.attn_k, &n.attn_v, &n.attn_o, &n.ffn_gate, &n.ffn_up, &n.ffn_down]
        {
            assert!(tensor(&w, key).is_some(), "missing {key} for layer {layer}");
        }
        for key in [&n.input_norm, &n.post_attention_norm] {
            assert!(vector(&w, key).is_some(), "missing {key} for layer {layer}");
        }
    }
}

#[test]
fn make_test_weights_final_norm_is_ones() {
    let w = make_test_weights(&names(2));
    let final_norm = vector(&w, "norm.weight").expect("final norm missing");
    assert_eq!(final_norm.len, w.hidden_size);
    assert!(matches!(final_norm.fill, Fill::Same(ONE)));
    assert_eq!(f32::from_bits(ONE), 1.0);
}

#[test]
fn make_test_weights_deterministic_across_calls() {
    let k = names(2);
    let a = make_test_weights(&k);
    let b = make_test_weights(&k);
    for n in &k.layers {
        let ta = tensor(&a, &n.attn_q).unwrap();
        let tb = tensor(&b, &n.attn_q).unwrap();
        assert_eq!((ta.rows, ta.cols), (tb.rows, tb.cols));
        for (x, y) in numbers(ta).iter().zip(numbers(tb).iter()) {
            assert!((x - y).abs() < f32::EPSILON);
        }
    }
}

#[test]
fn make_test_weights_values_in_expected_range() {
    let w = make_test_weights(&names(2));
    for v in numbers(&w.embed) {
        assert!(v.abs() <= 0.1 + 1e-6, "embed value outside [-0.1, 0.1]: {v}");
    }
    assert_eq!(f32::from_bits(TENTH), 0.1);
}

#[test]
fn one_stream_of_draws_goes_through_all_matrices() {
    let w = make_test_weights(&names(2));
    let mut state = 0xdeadbeef_u64;
    let mut next = || {
        state = state.wrapping_mul(LCG_MULTIPLIER).wrapping_add(LCG_INCREMENT);
        state as u32
    };
    for d in &w.embed.draws {
        assert_eq!(*d, next());
    }
    for d in &w.lm_head.draws {
        assert_eq!(*d, next());
    }
    let q = tensor(&w, "0.attn.q_proj.weight").unwrap();
    assert_eq!((q.rows, q.cols), (16, 16));
    for d in &q.draws {
        assert_eq!(*d, next());
    }
    let k = tensor(&w, "0.attn.k_proj.weight").unwrap();
    assert_eq!((k.rows, k.cols), (8, 16));
    assert_eq!(k.draws[0], next());
}

#[test]
fn a_longer_draw_begins_like_a_shorter_one() {
    let long = draw_numbers(42, 10);
    assert_eq!(&long[..4], &draw_numbers(42, 4)[..]);
    let m = rand_mat_seeded(2, 5, TENTH, 42);
    assert_eq!(m.draws, long);
    assert_eq!(
        long[0],
        42u64.wrapping_mul(LCG_MULTIPLIER).wrapping_add(LCG_INCREMENT) as u32
    );
}

#[test]
fn every_family_has_its_own_extents() {
    let gemma = make_gemma3_test_weights(&names(2));
    assert!(vector(&gemma, "0.q_norm.weight").is_some());
    assert!(vector(&gemma, "1.post_ffn_norm.weight").is_some());
    let starcoder = make_starcoder2_test_weights(&names(2));
    assert!(vector(&starcoder, "0.attn.q_proj.bias").is_some());
    assert!(vector(&starcoder, "1.ffn.down.bias").is_some());
    let q4k = make_test_q4k_weights(&names(2));
    assert_eq!(q4k.hidden_size, Q4K_TEST_HIDDEN);
    let silu = make_test_q4k_weights_silu(&names(2));
    assert_eq!(silu.hidden_size, Q4K_TEST_HIDDEN);
    let e2b = make_synthetic_e2b_like_weights(&names(4));
    assert_eq!(e2b.num_layers, 4);
    assert!(tensor(&e2b, "embed_tokens_per_layer.weight").is_some());
    let moe = make_test_gemma4_moe_weights(&names(2));
    let router = vector(&moe, "0.router.proj.weight").unwrap();
    assert_eq!(router.len, GEMMA4_MOE_NUM_EXPERTS * GEMMA4_MOE_HIDDEN);
    assert!(moe.is_hybrid_moe());
    assert!(!make_test_weights(&names(2)).is_hybrid_moe());
    let experts = moe.experts.unwrap();
    assert_eq!((experts.num_experts, experts.top_k_experts), (4, 2));
    let named = layer_names(5).with_expert_names(5);
    assert_eq!(named.router.as_deref(), Some("layers.5.router.proj.weight"));
    assert_eq!(named.packed_gate_up.as_deref(), Some("layers.5.experts.gate_up_proj"));
    assert_eq!(named.packed_down.as_deref(), Some("layers.5.experts.down_proj"));
    assert_eq!(named.attn_q, "5.attn.q_proj.weight");
    let again = make_test_gemma4_moe_weights(&names(2));
    for layer in 0..2 {
        let keys = layer_names(layer);
        let count = |w: &SyntheticWeights, key: &Option<String>| {
            w.parts.raw_bytes.get(key.as_deref().unwrap()).unwrap().count
        };
        assert_eq!(count(&moe, &keys.packed_gate_up), 2 * count(&moe, &keys.packed_down));
        assert_eq!(count(&moe, &keys.packed_down), count(&again, &keys.packed_down));
    }
    assert!(moe.parts.raw_bytes.get("1.experts.down_proj").is_some());
}

#[test]
fn packed_numbers_keep_their_upper_halves() {
    let numbers: Vec<u32> =
        (0..256u32).map(|i| ((i as f32 * 0.001 - 0.128) * 0.1).to_bits()).collect();
    let bytes = pack_numbers(&numbers, 300);
    assert_eq!(bytes.len(), 600);
    for i in 0..300usize {
        let upper = (numbers[i & 0xff] >> 16) as u16;
        assert_eq!(&bytes[2 * i..2 * i + 2], &upper.to_le_bytes()[..]);
    }
}
