use std::collections::HashSet;

use larql::models::config::{Activation, ModelConfig, RopeScaling};
use larql::models::deepseek::DeepSeekArch;
use larql::models::gemma3::Gemma3Arch;
use larql::models::granite::GraniteArch;
use larql::models::multimodal::{
    ModalInput, Modality, MultiModalProtocol, PlaceholderProtocol, PrecomputedScaling, TokenBudget,
};

fn bits(x: f64) -> u64 {
    x.to_bits()
}

fn synth_config(rope_scaling: Option<RopeScaling>) -> ModelConfig {
    ModelConfig {
        model_type: "gemma3".into(),
        norm_eps: Some(bits(1e-6)),
        num_layers: 34,
        hidden_size: 2560,
        intermediate_size: 10240,
        head_dim: 256,
        num_q_heads: 8,
        num_kv_heads: 4,
        vocab_size: Some(256_000),
        rope_base: bits(1_000_000.0),
        rope_local_base: Some(bits(10_000.0)),
        sliding_window: Some(1024),
        num_experts: None,
        num_experts_per_token: None,
        num_shared_experts: None,
        enable_moe_block: false,
        top_k_experts: None,
        moe_intermediate_size: None,
        kv_lora_rank: None,
        q_lora_rank: None,
        qk_nope_head_dim: None,
        qk_rope_head_dim: None,
        v_head_dim: None,
        rope_scaling,
        attn_logit_softcapping: None,
        final_logit_softcapping: None,
        query_pre_attn_scalar: None,
        embedding_multiplier: None,
        residual_multiplier: None,
        attention_multiplier: None,
        logits_scaling: None,
        global_head_dim: None,
        num_global_kv_heads: None,
        partial_rotary_factor: None,
        sliding_window_pattern: None,
        layer_types: None,
        attention_k_eq_v: false,
        per_layer_embed_dim: None,
        num_kv_shared_layers: None,
        has_vision_config: false,
    }
}

fn linear_scaling(scaling_type: &str, global_only: bool) -> RopeScaling {
    RopeScaling {
        scaling_type: scaling_type.into(),
        factor: bits(8.0),
        llama3_low_freq_factor: None,
        llama3_high_freq_factor: None,
        llama3_original_max_position_embeddings: None,
        gemma3_global_only: global_only,
    }
}

#[test]
fn attn_k_norm_key_renders_per_layer_prefix() {
    let arch = Gemma3Arch::from_config(synth_config(None));
    let key = arch.attn_k_norm_key(7).unwrap();
    assert!(key.ends_with("self_attn.k_norm.weight"));
    assert!(key.contains("7"), "layer index missing from key: {key}");
    assert_eq!(key, "layers.7.self_attn.k_norm.weight");
    assert_eq!(
        arch.attn_q_norm_key(7).unwrap(),
        "layers.7.self_attn.q_norm.weight"
    );
}

#[test]
fn rope_divisor_returns_one_when_rope_scaling_missing() {
    let arch = Gemma3Arch::from_config(synth_config(None));
    assert_eq!(f64::from_bits(arch.rope_position_divisor_for_layer(0)), 1.0);
}

#[test]
fn rope_divisor_returns_one_when_scaling_type_is_not_linear() {
    let arch = Gemma3Arch::from_config(synth_config(Some(linear_scaling("yarn", false))));
    assert_eq!(f64::from_bits(arch.rope_position_divisor_for_layer(0)), 1.0);
    assert_eq!(f64::from_bits(arch.rope_position_divisor_for_layer(5)), 1.0);
}

#[test]
fn linear_rope_divisor_applies_to_full_attention_layers_only() {
    let arch = Gemma3Arch::from_config(synth_config(Some(linear_scaling("linear", true))));
    assert_eq!(f64::from_bits(arch.rope_position_divisor_for_layer(5)), 8.0);
    assert_eq!(f64::from_bits(arch.rope_position_divisor_for_layer(4)), 1.0);
}

#[test]
fn scaling_type_is_compared_without_case() {
    let arch = Gemma3Arch::from_config(synth_config(Some(linear_scaling("LiNear", false))));
    assert_eq!(f64::from_bits(arch.rope_position_divisor_for_layer(11)), 8.0);
}

#[test]
fn multimodal_protocol_is_present_on_gemma3() {
    let arch = Gemma3Arch::from_config(synth_config(None));
    let mm = arch
        .multimodal()
        .expect("Gemma 3 must declare a multimodal protocol");
    assert_eq!(mm.vision_encoder(), Some("siglip"));
    assert_eq!(mm.audio_encoder(), None);
}

#[test]
fn image_placeholder_ids_match_gemma3_tokenizer() {
    let arch = Gemma3Arch::from_config(synth_config(None));
    let ph = arch
        .multimodal()
        .unwrap()
        .image_placeholder()
        .expect("Gemma 3 declares an image placeholder protocol");
    assert_eq!(ph.start, Some(255_999), "<start_of_image>");
    assert_eq!(ph.fill, 262_144, "<image_soft_token>");
    assert_eq!(ph.end, Some(256_000), "<end_of_image>");
}

#[test]
fn image_token_budget_is_fixed_256() {
    let arch = Gemma3Arch::from_config(synth_config(None));
    match arch.multimodal().unwrap().image_token_budget() {
        TokenBudget::Fixed(n) => assert_eq!(n, 256),
        other => panic!("expected Fixed(256), got {other:?}"),
    }
}

#[test]
fn precomputed_scaling_defaults_to_none() {
    let arch = Gemma3Arch::from_config(synth_config(None));
    assert_eq!(
        arch.multimodal().unwrap().precomputed_scaling(),
        PrecomputedScaling::Unscaled
    );
}

#[test]
fn no_audio_placeholder_in_gemma3() {
    let arch = Gemma3Arch::from_config(synth_config(None));
    assert!(arch.multimodal().unwrap().audio_placeholder().is_none());
}

#[test]
fn valid_tile_counts_empty_on_fixed_budget_model() {
    let arch = Gemma3Arch::from_config(synth_config(None));
    assert!(arch.multimodal().unwrap().valid_tile_counts().is_empty());
}

#[test]
fn gemma3_layers_slide_but_for_every_sixth() {
    let arch = Gemma3Arch::from_config(synth_config(None));
    let full: Vec<usize> = (0..30).filter(|l| !arch.is_sliding_window_layer(*l)).collect();
    assert_eq!(full, vec![5, 11, 17, 23, 29]);
    assert_eq!(f64::from_bits(arch.rope_base_for_layer(4, bits(7.0))), 10_000.0);
    assert_eq!(f64::from_bits(arch.rope_base_for_layer(5, bits(7.0))), 1_000_000.0);
    let mut config = synth_config(None);
    config.rope_local_base = None;
    let bare = Gemma3Arch::from_config(config);
    assert_eq!(f64::from_bits(bare.rope_base_for_layer(4, bits(7.0))), 7.0);
}

#[test]
fn gemma3_constants() {
    let arch = Gemma3Arch::from_config(synth_config(None));
    assert_eq!(arch.family(), "gemma3");
    assert_eq!(arch.config().hidden_size, 2560);
    assert_eq!(f32::from_bits(arch.norm_weight_offset()), 1.0);
    assert_eq!(f32::from_bits(arch.qk_norm_weight_offset()), 1.0);
    assert_eq!(arch.activation(), Activation::GeluTanh);
    assert!(arch.has_post_norms());
}

fn text_only_config() -> ModelConfig {
    let mut cfg = synth_config(None);
    cfg.model_type = "granite".into();
    cfg.norm_eps = Some(bits(1e-5));
    cfg.num_layers = 28;
    cfg.hidden_size = 2048;
    cfg.intermediate_size = 8192;
    cfg.head_dim = 64;
    cfg.num_q_heads = 32;
    cfg.num_kv_heads = 8;
    cfg.vocab_size = Some(49152);
    cfg.rope_base = bits(10_000.0);
    cfg.rope_local_base = None;
    cfg.sliding_window = None;
    cfg.embedding_multiplier = Some(bits(12.0));
    cfg.residual_multiplier = Some(bits(0.22));
    cfg.attention_multiplier = Some(bits(0.015625));
    cfg.logits_scaling = Some(bits(10.0));
    cfg
}

fn vision_config() -> ModelConfig {
    let mut cfg = text_only_config();
    cfg.has_vision_config = true;
    cfg
}

#[test]
fn text_only_granite_has_no_multimodal() {
    let arch = GraniteArch::from_config(text_only_config());
    assert!(arch.multimodal().is_none());
    assert_eq!(arch.family(), "granite");
    assert_eq!(arch.config().num_layers, 28);
}

#[test]
fn vision_granite_declares_multimodal_protocol() {
    let arch = GraniteArch::from_config(vision_config());
    let mm = arch
        .multimodal()
        .expect("Granite Vision must declare multimodal protocol");
    assert_eq!(mm.vision_encoder(), Some("siglip2"));
    assert!(mm.audio_encoder().is_none());
}

#[test]
fn image_placeholder_has_fill_only() {
    let arch = GraniteArch::from_config(vision_config());
    let ph = arch
        .multimodal()
        .unwrap()
        .image_placeholder()
        .expect("Granite Vision declares image placeholder");
    assert!(ph.start.is_none());
    assert!(ph.end.is_none());
    assert_eq!(ph.fill, 49152);
}

#[test]
fn token_budget_is_per_tile_729() {
    let arch = GraniteArch::from_config(vision_config());
    match arch.multimodal().unwrap().image_token_budget() {
        TokenBudget::PerTile { tokens_per_tile } => assert_eq!(tokens_per_tile, 729),
        other => panic!("expected PerTile, got {other:?}"),
    }
}

#[test]
fn precomputed_scaling_is_none() {
    let arch = GraniteArch::from_config(vision_config());
    assert_eq!(
        arch.multimodal().unwrap().precomputed_scaling(),
        PrecomputedScaling::Unscaled
    );
}

#[test]
fn valid_tile_counts_non_empty() {
    let arch = GraniteArch::from_config(vision_config());
    let counts = arch.multimodal().unwrap().valid_tile_counts();
    assert!(!counts.is_empty());
    assert_eq!(counts, &[1, 2, 3, 4, 5, 6]);
}

#[test]
fn no_audio_in_granite_vision() {
    let arch = GraniteArch::from_config(vision_config());
    assert!(arch.multimodal().unwrap().audio_placeholder().is_none());
}

#[test]
fn deepseek_defaults_and_keys() {
    let arch = DeepSeekArch::from_config(synth_config(None));
    assert_eq!(arch.family(), "deepseek");
    assert_eq!(arch.config().num_layers, 34);
    assert!(!arch.is_moe());
    assert_eq!(arch.num_experts(), 64);
    assert_eq!(arch.num_experts_per_token(), 6);
    assert_eq!(arch.num_shared_experts(), 2);
    assert!(!arch.uses_mla());
    assert_eq!(arch.kv_lora_rank(), 512);
    assert_eq!(arch.q_lora_rank(), 1536);
    assert_eq!(arch.moe_router_key(3).unwrap(), "layers.3.mlp.gate.weight");
    assert_eq!(
        arch.expert_ffn_gate_key(3, 17).unwrap(),
        "layers.3.mlp.experts.17.gate_proj.weight"
    );
    assert_eq!(
        arch.expert_ffn_up_key(3, 17).unwrap(),
        "layers.3.mlp.experts.17.up_proj.weight"
    );
    assert_eq!(
        arch.expert_ffn_down_key(3, 17).unwrap(),
        "layers.3.mlp.experts.17.down_proj.weight"
    );
    assert_eq!(
        arch.shared_expert_gate_key(0).unwrap(),
        "layers.0.mlp.shared_experts.gate_proj.weight"
    );
    assert_eq!(
        arch.shared_expert_up_key(0).unwrap(),
        "layers.0.mlp.shared_experts.up_proj.weight"
    );
    assert_eq!(
        arch.shared_expert_down_key(0).unwrap(),
        "layers.0.mlp.shared_experts.down_proj.weight"
    );
    assert_eq!(
        arch.mla_kv_a_key(1).unwrap(),
        "layers.1.self_attn.kv_a_proj_with_mqa.weight"
    );
    assert_eq!(arch.mla_kv_b_key(1).unwrap(), "layers.1.self_attn.kv_b_proj.weight");
    assert_eq!(arch.mla_q_a_key(1).unwrap(), "layers.1.self_attn.q_a_proj.weight");
    assert_eq!(arch.mla_q_b_key(1).unwrap(), "layers.1.self_attn.q_b_proj.weight");
}

#[test]
fn deepseek_reads_its_configuration() {
    let mut cfg = synth_config(None);
    cfg.num_experts = Some(256);
    cfg.num_experts_per_token = Some(8);
    cfg.num_shared_experts = Some(1);
    cfg.kv_lora_rank = Some(500);
    cfg.q_lora_rank = Some(1500);
    cfg.qk_nope_head_dim = Some(128);
    cfg.qk_rope_head_dim = Some(64);
    cfg.v_head_dim = Some(129);
    let arch = DeepSeekArch::from_config(cfg);
    assert!(arch.is_moe());
    assert_eq!(arch.num_experts(), 256);
    assert_eq!(arch.num_experts_per_token(), 8);
    assert_eq!(arch.num_shared_experts(), 1);
    assert!(arch.uses_mla());
    assert_eq!(arch.kv_lora_rank(), 500);
    assert_eq!(arch.q_lora_rank(), 1500);
    assert_eq!(arch.mla_qk_nope_head_dim(), Some(128));
    assert_eq!(arch.mla_qk_rope_head_dim(), Some(64));
    assert_eq!(arch.mla_v_head_dim(), Some(129));
    let mut none = synth_config(None);
    none.num_experts = Some(0);
    assert!(!DeepSeekArch::from_config(none).is_moe());
}

struct EmptyProtocol;

impl MultiModalProtocol for EmptyProtocol {}

#[test]
fn default_vision_and_audio_encoders_are_none() {
    let p = EmptyProtocol;
    assert!(p.vision_encoder().is_none());
    assert!(p.audio_encoder().is_none());
}

#[test]
fn default_placeholders_are_none() {
    let p = EmptyProtocol;
    assert!(p.image_placeholder().is_none());
    assert!(p.audio_placeholder().is_none());
}

#[test]
fn default_token_budget_is_dynamic() {
    let p = EmptyProtocol;
    assert!(matches!(p.image_token_budget(), TokenBudget::Dynamic));
}

#[test]
fn default_precomputed_scaling_is_none() {
    let p = EmptyProtocol;
    assert_eq!(p.precomputed_scaling(), PrecomputedScaling::Unscaled);
}

#[test]
fn default_valid_tile_counts_is_empty() {
    let p = EmptyProtocol;
    assert!(p.valid_tile_counts().is_empty());
}

#[test]
fn token_budget_variants_construct_cleanly() {
    let fixed = TokenBudget::Fixed(256);
    let per_tile = TokenBudget::PerTile {
        tokens_per_tile: 729,
    };
    let dynamic = TokenBudget::Dynamic;
    assert!(format!("{fixed:?}").contains("256"));
    assert!(format!("{per_tile:?}").contains("729"));
    assert!(format!("{dynamic:?}").contains("Dynamic"));
}

#[test]
fn modality_equality_and_hash() {
    assert_eq!(Modality::Text, Modality::Text);
    assert_ne!(Modality::Image, Modality::Audio);
    let set: HashSet<_> = [Modality::Text, Modality::Image, Modality::Image]
        .iter()
        .collect();
    assert_eq!(set.len(), 2, "Modality must dedupe under Hash");
}

#[test]
fn placeholder_protocol_round_trips_clone() {
    let p = PlaceholderProtocol {
        start: Some(255_999),
        fill: 262_144,
        end: Some(256_000),
    };
    let q = p.clone();
    assert_eq!(p.start, q.start);
    assert_eq!(p.fill, q.fill);
    assert_eq!(p.end, q.end);
}

#[test]
fn modal_input_image_carries_dimensions() {
    let bytes = vec![0u8; 12];
    let input = ModalInput::Image {
        rgb: &bytes,
        width: 2,
        height: 2,
    };
    match input {
        ModalInput::Image { width, height, .. } => {
            assert_eq!((width, height), (2, 2));
        }
        _ => panic!("expected Image variant"),
    }
}

#[test]
fn modal_input_audio_carries_samples_ref() {
    let samples = [0.0f32.to_bits(); 16];
    let input = ModalInput::Audio { samples: &samples };
    match input {
        ModalInput::Audio { samples } => assert_eq!(samples.len(), 16),
        _ => panic!("expected Audio variant"),
    }
}
