use larql::error::ModelError;
use larql::tensor::Matrix;
use larql::vision::mlp_connector::load_mlp_connector_from_safetensors;
use larql::vision::projector::{
    load_projector_from_safetensors, ProjectorWeights, PROJECTOR_PREFIX,
};
use larql::vision::safetensors_file::{is_safetensors_name, read_tensors, Decoded};
use larql::vision::vision_tower::{
    default_hidden_act, default_norm_type, default_num_channels,
    load_vision_tower_from_safetensors, VisionConfig, SIGLIP_VISION_TOWER_PREFIX,
};
use safetensors::tensor::{serialize, TensorView};
use safetensors::Dtype;

/// A tensor of single-precision numbers: its name, its shape and a number for
/// every place.
type Filled = (String, Vec<usize>, f32);

fn filled(name: &str, shape: &[usize], value: f32) -> Filled {
    (name.to_string(), shape.to_vec(), value)
}

/// The bytes of a file with these tensors.
fn file(tensors: &[Filled]) -> Vec<u8> {
    let buffers: Vec<Vec<u8>> = tensors
        .iter()
        .map(|(_, shape, v)| {
            (0..shape.iter().product::<usize>()).flat_map(|_| v.to_le_bytes()).collect()
        })
        .collect();
    let views: Vec<(String, TensorView<'_>)> = tensors
        .iter()
        .zip(buffers.iter())
        .map(|((name, shape, _), bytes)| {
            (name.clone(), TensorView::new(Dtype::F32, shape.clone(), bytes).unwrap())
        })
        .collect();
    serialize(views, None).unwrap()
}

/// The tensors of some files under a prefix, with their numbers.
fn tensors(files: &[Vec<u8>], prefix: &str) -> Vec<Decoded> {
    let mut out = Vec::new();
    for bytes in files {
        for raw in read_tensors(bytes, prefix).expect("read") {
            assert_eq!(raw.dtype, "F32");
            let numbers = raw
                .data
                .chunks(4)
                .map(|b| u32::from_le_bytes([b[0], b[1], b[2], b[3]]))
                .collect();
            out.push(Decoded { key: raw.name, shape: raw.shape, numbers: Ok(numbers) });
        }
    }
    out
}

fn shape(m: &Matrix) -> [usize; 2] {
    [m.rows, m.cols]
}

fn mlp_file(vision_hidden: usize, intermediate: usize, text_hidden: usize) -> Vec<u8> {
    file(&[
        filled("multi_modal_projector.linear_1.weight", &[intermediate, vision_hidden], 0.1),
        filled("multi_modal_projector.linear_1.bias", &[intermediate], 0.0),
        filled("multi_modal_projector.linear_2.weight", &[text_hidden, intermediate], 0.1),
        filled("multi_modal_projector.linear_2.bias", &[text_hidden], 0.0),
    ])
}

#[test]
fn load_round_trip() {
    let w = load_mlp_connector_from_safetensors(&tensors(&[mlp_file(8, 16, 12)], PROJECTOR_PREFIX))
        .expect("load");
    assert_eq!(shape(&w.fc1_weight), [16, 8]);
    assert_eq!(w.fc1_bias.len(), 16);
    assert_eq!(shape(&w.fc2_weight), [12, 16]);
    assert_eq!(w.fc2_bias.len(), 12);
    assert_eq!(w.vision_hidden(), 8);
    assert_eq!(w.intermediate_size(), 16);
    assert_eq!(w.text_hidden(), 12);
    assert_eq!(f32::from_bits(w.fc1_weight.get(3, 2)), 0.1);
}

#[test]
fn mlp_connector_errors_on_empty_dir() {
    let err = load_mlp_connector_from_safetensors(&Vec::new()).expect_err("should fail");
    let msg = format!("{err:?}");
    assert!(msg.contains("linear_1") || msg.contains("missing"));
}

#[test]
fn errors_when_fc1_weight_missing() {
    let bytes = file(&[filled("multi_modal_projector.linear_1.bias", &[16], 0.0)]);
    let err = load_mlp_connector_from_safetensors(&tensors(&[bytes], PROJECTOR_PREFIX))
        .expect_err("missing fc1 weight");
    assert!(format!("{err:?}").contains("linear_1.weight"));
}

#[test]
fn errors_when_fc2_bias_missing() {
    let bytes = file(&[
        filled("multi_modal_projector.linear_1.weight", &[16, 8], 0.0),
        filled("multi_modal_projector.linear_1.bias", &[16], 0.0),
        filled("multi_modal_projector.linear_2.weight", &[12, 16], 0.0),
    ]);
    let err = load_mlp_connector_from_safetensors(&tensors(&[bytes], PROJECTOR_PREFIX))
        .expect_err("missing fc2 bias");
    assert!(format!("{err:?}").contains("linear_2.bias"));
}

#[test]
fn skips_non_projector_tensors() {
    let extra = file(&[filled("language_model.embed.weight", &[4, 6], 0.0)]);
    let w = load_mlp_connector_from_safetensors(&tensors(
        &[mlp_file(8, 16, 12), extra],
        PROJECTOR_PREFIX,
    ))
    .expect("load");
    assert_eq!(shape(&w.fc1_weight), [16, 8]);
}

fn projector_file(vision_hidden: usize, text_hidden: usize) -> Vec<u8> {
    file(&[
        filled(
            "multi_modal_projector.mm_input_projection_weight",
            &[vision_hidden, text_hidden],
            0.0,
        ),
        filled("multi_modal_projector.mm_soft_emb_norm.weight", &[vision_hidden], 0.0),
    ])
}

#[test]
fn projector_errors_on_empty_dir() {
    let err = load_projector_from_safetensors(&Vec::new()).expect_err("should fail");
    let msg = format!("{err:?}");
    assert!(msg.contains("multi_modal_projector") || msg.contains("missing"));
}

#[test]
fn weight_struct_geometry_helpers() {
    let w = ProjectorWeights {
        input_projection: Matrix::zeros(1152, 2560),
        soft_emb_norm: vec![0; 1152],
    };
    assert_eq!(w.vision_hidden(), 1152);
    assert_eq!(w.text_hidden(), 2560);
}

#[test]
fn load_projector_round_trip_against_synthetic_safetensors() {
    let w = load_projector_from_safetensors(&tensors(&[projector_file(8, 12)], PROJECTOR_PREFIX))
        .expect("synthetic projector should load cleanly");
    assert_eq!(shape(&w.input_projection), [8, 12]);
    assert_eq!(w.soft_emb_norm.len(), 8);
    assert_eq!(w.vision_hidden(), 8);
    assert_eq!(w.text_hidden(), 12);
}

#[test]
fn load_projector_errors_when_input_projection_missing() {
    let bytes = file(&[filled("multi_modal_projector.mm_soft_emb_norm.weight", &[8], 0.0)]);
    let err = load_projector_from_safetensors(&tensors(&[bytes], PROJECTOR_PREFIX))
        .expect_err("missing input_projection should error");
    assert!(format!("{err:?}").contains("mm_input_projection_weight"));
}

#[test]
fn load_projector_errors_when_soft_emb_norm_missing() {
    let bytes = file(&[filled("multi_modal_projector.mm_input_projection_weight", &[8, 12], 0.0)]);
    let err = load_projector_from_safetensors(&tensors(&[bytes], PROJECTOR_PREFIX))
        .expect_err("missing soft_emb_norm should error");
    assert!(format!("{err:?}").contains("mm_soft_emb_norm"));
}

#[test]
fn load_projector_skips_non_safetensors_files() {
    assert!(!is_safetensors_name("README.txt"));
    assert!(is_safetensors_name("model.safetensors"));
    assert!(!is_safetensors_name(".safetensors"));
    assert!(!is_safetensors_name("safetensors"));
    let w = load_projector_from_safetensors(&tensors(&[projector_file(8, 12)], PROJECTOR_PREFIX))
        .expect("load");
    assert_eq!(shape(&w.input_projection), [8, 12]);
}

#[test]
fn loader_ignores_non_projector_tensors_and_unknown_ranks() {
    let extra = file(&[
        filled("language_model.embed.weight", &[4, 6], 0.0),
        filled("multi_modal_projector.mystery_3d_tensor", &[2, 3, 4], 0.0),
    ]);
    let w = load_projector_from_safetensors(&tensors(
        &[projector_file(8, 12), extra],
        PROJECTOR_PREFIX,
    ))
    .expect("load");
    assert_eq!(shape(&w.input_projection), [8, 12]);
    assert_eq!(w.soft_emb_norm.len(), 8);
}

#[test]
fn a_file_that_is_no_safetensors_file_is_refused() {
    let err = read_tensors(b"not a tensor file", PROJECTOR_PREFIX).expect_err("refused");
    assert!(format!("{err:?}").contains("Parse"));
}

#[test]
fn a_tensor_that_could_not_be_decoded_stops_the_load() {
    let mut all = tensors(&[projector_file(2, 3)], PROJECTOR_PREFIX);
    all[0].numbers = Err("dtype I64".to_string());
    let err = load_projector_from_safetensors(&all).expect_err("undecoded");
    assert!(format!("{err:?}").contains("I64"));
}

fn gemma3_4b_it_vision_config() -> VisionConfig {
    VisionConfig {
        hidden_size: 1152,
        intermediate_size: 4304,
        num_attention_heads: 16,
        num_hidden_layers: 27,
        patch_size: 14,
        image_size: 896,
        num_channels: 3,
        layer_norm_eps: (1e-6f64).to_bits(),
        hidden_act: "gelu_pytorch_tanh".to_string(),
        norm_type: "layer_norm".to_string(),
    }
}

fn tiny_siglip_config() -> VisionConfig {
    VisionConfig {
        hidden_size: 8,
        intermediate_size: 16,
        num_attention_heads: 2,
        num_hidden_layers: 1,
        patch_size: 2,
        image_size: 4,
        num_channels: 3,
        layer_norm_eps: (1e-6f64).to_bits(),
        hidden_act: "gelu_pytorch_tanh".to_string(),
        norm_type: "layer_norm".to_string(),
    }
}

#[test]
fn config_geometry_helpers() {
    let cfg = gemma3_4b_it_vision_config();
    assert_eq!(cfg.patches_per_side(), 64, "896 / 14");
    assert_eq!(cfg.num_patches(), 4096, "64 * 64");
    assert_eq!(cfg.head_dim(), 72, "1152 / 16");
}

#[test]
fn hidden_act_defaults_to_gelu_pytorch_tanh() {
    let cfg = VisionConfig {
        hidden_size: 768,
        image_size: 224,
        intermediate_size: 3072,
        num_attention_heads: 12,
        num_hidden_layers: 12,
        patch_size: 16,
        num_channels: default_num_channels(),
        layer_norm_eps: (1e-6f64).to_bits(),
        hidden_act: default_hidden_act(),
        norm_type: default_norm_type(),
    };
    assert_eq!(cfg.hidden_act, "gelu_pytorch_tanh");
    assert_eq!(cfg.norm_type, "layer_norm");
    assert!(!cfg.is_siglip2());
    assert_eq!(cfg.num_channels, 3);
}

#[test]
fn load_siglip_errors_on_directory_with_no_vision_tower_tensors() {
    let err = load_vision_tower_from_safetensors(
        &Vec::new(),
        "/models/gemma",
        gemma3_4b_it_vision_config(),
    )
    .expect_err("no tensors");
    let msg = format!("{err:?}");
    assert!(msg.contains("vision_tower") || msg.contains("multimodal"));
}

fn siglip_file(cfg: &VisionConfig) -> Vec<u8> {
    let (h, p, c) = (cfg.hidden_size, cfg.patch_size, cfg.num_channels);
    let (np, inter) = (cfg.num_patches(), cfg.intermediate_size);
    let prefix = SIGLIP_VISION_TOWER_PREFIX;
    let mut all = vec![
        filled(&format!("{prefix}embeddings.patch_embedding.weight"), &[h, c, p, p], 0.0),
        filled(&format!("{prefix}embeddings.patch_embedding.bias"), &[h], 0.0),
        filled(&format!("{prefix}embeddings.position_embedding.weight"), &[np, h], 0.0),
        filled(&format!("{prefix}post_layernorm.weight"), &[h], 1.0),
        filled(&format!("{prefix}post_layernorm.bias"), &[h], 0.0),
    ];
    for l in 0..cfg.num_hidden_layers {
        let lp = format!("{prefix}encoder.layers.{l}.");
        for which in ["layer_norm1", "layer_norm2"] {
            all.push(filled(&format!("{lp}{which}.weight"), &[h], 1.0));
            all.push(filled(&format!("{lp}{which}.bias"), &[h], 0.0));
        }
        for proj in
            ["self_attn.q_proj", "self_attn.k_proj", "self_attn.v_proj", "self_attn.out_proj"]
        {
            all.push(filled(&format!("{lp}{proj}.weight"), &[h, h], l as f32));
            all.push(filled(&format!("{lp}{proj}.bias"), &[h], 0.0));
        }
        all.push(filled(&format!("{lp}mlp.fc1.weight"), &[inter, h], 0.0));
        all.push(filled(&format!("{lp}mlp.fc1.bias"), &[inter], 0.0));
        all.push(filled(&format!("{lp}mlp.fc2.weight"), &[h, inter], 0.0));
        all.push(filled(&format!("{lp}mlp.fc2.bias"), &[h], 0.0));
    }
    file(&all)
}

#[test]
fn load_siglip_round_trip_against_synthetic_safetensors() {
    let cfg = tiny_siglip_config();
    let all = tensors(&[siglip_file(&cfg)], SIGLIP_VISION_TOWER_PREFIX);
    let w = load_vision_tower_from_safetensors(&all, "/models", tiny_siglip_config())
        .expect("synthetic siglip should load cleanly");
    assert_eq!(w.config.num_hidden_layers, cfg.num_hidden_layers);
    assert_eq!(w.layers.len(), cfg.num_hidden_layers);
    assert_eq!(
        w.patch_embed.shape,
        vec![cfg.hidden_size, cfg.num_channels, cfg.patch_size, cfg.patch_size]
    );
    assert_eq!(w.patch_embed_bias.len(), cfg.hidden_size);
    assert_eq!(shape(&w.position_embed), [cfg.num_patches(), cfg.hidden_size]);
    assert_eq!(w.post_layernorm.weight.len(), cfg.hidden_size);
    assert_eq!(w.post_layernorm.bias.len(), cfg.hidden_size);
    let l0 = &w.layers[0];
    assert_eq!(shape(&l0.q_proj.weight), [cfg.hidden_size, cfg.hidden_size]);
    assert_eq!(l0.q_proj.bias.len(), cfg.hidden_size);
    assert_eq!(shape(&l0.fc1.weight), [cfg.intermediate_size, cfg.hidden_size]);
    assert_eq!(l0.fc1.bias.len(), cfg.intermediate_size);
    assert_eq!(shape(&l0.fc2.weight), [cfg.hidden_size, cfg.intermediate_size]);
    assert_eq!(l0.fc2.bias.len(), cfg.hidden_size);
}

#[test]
fn every_layer_gets_its_own_tensors() {
    let mut cfg = tiny_siglip_config();
    cfg.num_hidden_layers = 12;
    let all = tensors(&[siglip_file(&cfg)], SIGLIP_VISION_TOWER_PREFIX);
    let w = load_vision_tower_from_safetensors(&all, "/models", cfg).expect("load");
    for (l, layer) in w.layers.iter().enumerate() {
        assert_eq!(f32::from_bits(layer.q_proj.weight.get(0, 0)), l as f32);
    }
}

#[test]
fn load_siglip_errors_on_missing_required_tensor() {
    let cfg = tiny_siglip_config();
    let (h, p, c) = (cfg.hidden_size, cfg.patch_size, cfg.num_channels);
    let bytes = file(&[
        filled("vision_tower.vision_model.embeddings.patch_embedding.weight", &[h, c, p, p], 0.0),
        filled("vision_tower.vision_model.embeddings.patch_embedding.bias", &[h], 0.0),
    ]);
    let err = load_vision_tower_from_safetensors(
        &tensors(&[bytes], SIGLIP_VISION_TOWER_PREFIX),
        "/models",
        cfg,
    )
    .expect_err("missing tensor should error");
    let msg = format!("{err:?}");
    assert!(msg.contains("missing") || msg.contains("post_layernorm") || msg.contains("position"));
}

#[test]
fn loader_ignores_non_vision_tower_tensors_and_unknown_ranks() {
    let cfg = tiny_siglip_config();
    let extra = file(&[
        filled("language_model.embed.weight", &[4, 4], 0.0),
        filled("vision_tower.vision_model.extra_3d_tensor", &[2, 2, 2], 0.0),
    ]);
    let all = tensors(&[siglip_file(&cfg), extra], SIGLIP_VISION_TOWER_PREFIX);
    let w = load_vision_tower_from_safetensors(&all, "/models", cfg)
        .expect("loader should ignore non-vision and unknown-rank tensors");
    assert_eq!(w.layers.len(), 1, "only the valid layer loaded");
}

#[test]
fn a_tensor_of_another_shape_is_refused() {
    let cfg = tiny_siglip_config();
    let all = || tensors(&[siglip_file(&cfg)], SIGLIP_VISION_TOWER_PREFIX);
    let refused = |tensors: &Vec<Decoded>, cfg: VisionConfig| {
        match load_vision_tower_from_safetensors(tensors, "/models", cfg) {
            Err(ModelError::Parse(text)) => {
                assert_eq!(text, "vision_tower tensor shapes do not match the configuration")
            }
            other => panic!("expected Parse, got {other:?}"),
        }
    };
    for key in [
        "embeddings.patch_embedding.weight",
        "embeddings.patch_embedding.bias",
        "embeddings.position_embedding.weight",
        "post_layernorm.bias",
        "encoder.layers.0.layer_norm2.weight",
        "encoder.layers.0.self_attn.out_proj.weight",
        "encoder.layers.0.mlp.fc1.weight",
        "encoder.layers.0.mlp.fc2.bias",
    ] {
        let mut changed = all();
        let t = changed.iter_mut().find(|t| t.key == key).unwrap();
        t.shape[0] += 1;
        let n = t.shape.iter().product::<usize>();
        t.numbers = Ok(vec![0; n]);
        refused(&changed, cfg.clone());
    }
    let mut larger = cfg.clone();
    larger.image_size = 6;
    refused(&all(), larger);
    let mut no_patches = cfg.clone();
    no_patches.patch_size = 0;
    refused(&all(), no_patches);
}

#[test]
fn a_header_that_asks_for_too_much_is_refused() {
    let step: u64 = (1 << 61) - 1;
    let entries: Vec<String> = (0..8u64)
        .map(|i| {
            let (a, b) = (i * step, (i + 1) * step);
            format!(r#""t{i}":{{"dtype":"U8","shape":[{step}],"data_offsets":[{a},{b}]}}"#)
        })
        .collect();
    let header = format!("{{{}}}", entries.join(","));
    let mut bytes = (header.len() as u64).to_le_bytes().to_vec();
    bytes.extend_from_slice(header.as_bytes());
    match read_tensors(&bytes, "") {
        Err(ModelError::Parse(text)) => {
            assert_eq!(text, "safetensors header asks for too many bytes")
        }
        _ => panic!("expected Parse"),
    }
    assert!(matches!(read_tensors(&bytes[..7], ""), Err(ModelError::Parse(_))));
    assert!(matches!(read_tensors(&bytes[..40], ""), Err(ModelError::Parse(_))));
}

#[test]
fn numbers_that_do_not_fill_a_shape_are_refused() {
    let err = |rows, cols, n| Matrix::from_shape_vec(rows, cols, vec![0; n]).unwrap_err();
    assert_eq!(err(2, 3, 5), "ShapeError/OutOfBounds: out of bounds indexing");
    assert_eq!(err(2, 3, 7), "ShapeError/IncompatibleShape: incompatible shapes");
    assert_eq!(err(usize::MAX, 2, 0), "ShapeError/Overflow: arithmetic overflow");
    assert_eq!(err(usize::MAX, 0, 0), "ShapeError/Overflow: arithmetic overflow");
    let m = Matrix::from_shape_vec(2, 3, vec![1, 2, 3, 4, 5, 6]).unwrap();
    assert_eq!((m.get(1, 0), m.data), (4, vec![1, 2, 3, 4, 5, 6]));
}

#[test]
fn siglip_config_is_not_siglip2() {
    assert!(!gemma3_4b_it_vision_config().is_siglip2());
}

#[test]
fn siglip2_gelu_config_is_siglip2() {
    let mut cfg = gemma3_4b_it_vision_config();
    cfg.hidden_act = "gelu".to_string();
    assert!(cfg.is_siglip2());
}

#[test]
fn siglip2_silu_config_is_siglip2() {
    let mut cfg = gemma3_4b_it_vision_config();
    cfg.hidden_act = "silu".to_string();
    assert!(cfg.is_siglip2());
}

#[test]
fn siglip2_rmsnorm_config_is_siglip2() {
    let mut cfg = gemma3_4b_it_vision_config();
    cfg.norm_type = "rms_norm".to_string();
    assert!(cfg.is_siglip2());
}
