use larql::kv::engine_kind::{ColdResidualCodec, EngineKind};

#[test]
fn engine_kind_from_name_roundtrip() {
    for name in &["markov-rs", "markov_rs", "markov-residual", "markov_residual"] {
        assert!(
            matches!(EngineKind::from_name(name), Some(EngineKind::MarkovResidual { .. })),
            "failed to parse {name:?}"
        );
    }
    for name in &["unlimited", "unlimited-context", "unlimited_context"] {
        assert!(
            matches!(EngineKind::from_name(name), Some(EngineKind::UnlimitedContext { .. })),
            "failed to parse {name:?}"
        );
    }
    assert!(EngineKind::from_name("unknown").is_none());
    assert!(EngineKind::from_name("").is_none());
}

#[test]
fn engine_kind_from_name_with_params() {
    match EngineKind::from_name("standard") {
        Some(EngineKind::Standard { window_size: None }) => {}
        other => panic!("expected Standard{{window=None}}, got {other:?}"),
    }
    match EngineKind::from_name("standard:window=512") {
        Some(EngineKind::Standard { window_size: Some(512) }) => {}
        other => panic!("expected Standard{{window=512}}, got {other:?}"),
    }
    match EngineKind::from_name("markov-bounded:window=256") {
        Some(EngineKind::Standard { window_size: Some(256) }) => {}
        other => panic!("expected Standard{{window=256}}, got {other:?}"),
    }
    match EngineKind::from_name("no-cache") {
        Some(EngineKind::NoCache) => {}
        other => panic!("expected NoCache, got {other:?}"),
    }
    match EngineKind::from_name("none") {
        Some(EngineKind::NoCache) => {}
        other => panic!("expected NoCache from 'none', got {other:?}"),
    }
    match EngineKind::from_name("markov-rs:window=1024") {
        Some(EngineKind::MarkovResidual { window_size: Some(1024), .. }) => {}
        other => panic!("expected MarkovResidual{{window=1024}}, got {other:?}"),
    }
    match EngineKind::from_name("unlimited-context:window=256") {
        Some(EngineKind::UnlimitedContext { window_size: 256 }) => {}
        other => panic!("expected UnlimitedContext{{window=256}}, got {other:?}"),
    }
    match EngineKind::from_name("turbo-quant:bits=3") {
        Some(EngineKind::TurboQuant { bits: 3 }) => {}
        other => panic!("expected TurboQuant{{bits=3}}, got {other:?}"),
    }
    match EngineKind::from_name("apollo:layer=25,coef=8.0,top_k=12") {
        Some(EngineKind::Apollo {
            injection_layer: Some(25),
            inject_coefficient: Some(coefficient),
            top_k: Some(12),
        }) => assert_eq!(coefficient, "8.0"),
        other => panic!("expected Apollo{{layer=25,top_k=12}}, got {other:?}"),
    }
    match EngineKind::from_name("markov-rs:unknown=999") {
        Some(EngineKind::MarkovResidual { window_size: None, .. }) => {}
        other => panic!("expected MarkovResidual{{window=None}}, got {other:?}"),
    }
}

#[test]
fn engine_kind_from_name_boundary_kv_aliases() {
    for name in &["boundary-kv", "boundary_kv", "boundary"] {
        assert!(
            matches!(EngineKind::from_name(name), Some(EngineKind::BoundaryKv { .. })),
            "failed to parse {name:?}"
        );
    }
}

#[test]
fn engine_kind_from_name_boundary_kv_with_params() {
    match EngineKind::from_name("boundary-kv:chunk_tokens=64,sequence_id=demo") {
        Some(EngineKind::BoundaryKv { chunk_tokens: 64, sequence_id, window_size: None }) => {
            assert_eq!(sequence_id, "demo")
        }
        other => panic!("expected BoundaryKv with custom params, got {other:?}"),
    }
}

#[test]
fn engine_kind_from_name_boundary_kv_defaults() {
    match EngineKind::from_name("boundary-kv") {
        Some(EngineKind::BoundaryKv { chunk_tokens: 512, sequence_id, window_size: None }) => {
            assert_eq!(sequence_id, "default")
        }
        other => panic!("expected default BoundaryKv, got {other:?}"),
    }
}

#[test]
fn engine_kind_from_name_boundary_kv_with_window() {
    match EngineKind::from_name("boundary-kv:window=128,chunk_tokens=32") {
        Some(EngineKind::BoundaryKv { window_size: Some(128), chunk_tokens: 32, .. }) => {}
        other => panic!("expected BoundaryKv{{window=128,chunk=32}}, got {other:?}"),
    }
}

#[test]
fn engine_kind_from_name_boundary_per_layer_aliases() {
    for name in &["boundary-per-layer", "boundary_per_layer", "boundary-pl"] {
        assert!(
            matches!(EngineKind::from_name(name), Some(EngineKind::BoundaryPerLayer { .. })),
            "failed to parse {name:?}"
        );
    }
}

#[test]
fn engine_kind_from_name_boundary_per_layer_defaults_to_34_layers() {
    match EngineKind::from_name("boundary-per-layer") {
        Some(EngineKind::BoundaryPerLayer { window_size: None, num_layers: 34 }) => {}
        other => panic!("expected BoundaryPerLayer{{layers=34}}, got {other:?}"),
    }
}

#[test]
fn engine_kind_from_name_boundary_per_layer_with_window_and_layers() {
    match EngineKind::from_name("boundary-per-layer:window=256,layers=12") {
        Some(EngineKind::BoundaryPerLayer { window_size: Some(256), num_layers: 12 }) => {}
        other => panic!("expected BoundaryPerLayer{{window=256,layers=12}}, got {other:?}"),
    }
}

#[test]
fn engine_kind_from_name_markov_rs_codec_aliases() {
    for name in &[
        "markov-rs-codec",
        "markov_rs_codec",
        "markov-residual-codec",
        "markov_residual_codec",
    ] {
        assert!(
            matches!(
                EngineKind::from_name(name),
                Some(EngineKind::MarkovResidualCodec { codec: ColdResidualCodec::Bf16, .. })
            ),
            "failed to parse {name:?}"
        );
    }
}

#[test]
fn engine_kind_from_name_markov_rs_codec_with_window() {
    match EngineKind::from_name("markov-rs-codec:window=256") {
        Some(EngineKind::MarkovResidualCodec {
            window_size: Some(256),
            codec: ColdResidualCodec::Bf16,
            ..
        }) => {}
        other => panic!("expected MarkovResidualCodec{{window=256,codec=Bf16}}, got {other:?}"),
    }
}

#[test]
fn engine_kind_display_name_covers_new_variants() {
    let kinds = [
        EngineKind::BoundaryKv { window_size: None, chunk_tokens: 512, sequence_id: "x".into() },
        EngineKind::MarkovResidualCodec { window_size: None, codec: ColdResidualCodec::Bf16 },
    ];
    let expected = ["boundary-kv", "markov-rs-codec"];
    for (k, name) in kinds.into_iter().zip(expected) {
        assert_eq!(k.display_name(), name);
    }
}

#[test]
fn engine_kind_build_boundary_kv_returns_engine() {
    let kind = EngineKind::BoundaryKv {
        window_size: None,
        chunk_tokens: 16,
        sequence_id: "test".into(),
    };
    let setup = kind.build();
    assert_eq!(setup.kind.display_name(), "boundary-kv");
    assert!(!setup.retrieval);
    assert!(!setup.profiling);
}

#[test]
fn engine_kind_build_markov_rs_codec_returns_engine() {
    let kind = EngineKind::MarkovResidualCodec {
        window_size: Some(32),
        codec: ColdResidualCodec::Bf16,
    };
    assert_eq!(kind.build().kind.display_name(), "markov-rs-codec");
}

#[test]
fn only_apollo_retrieves() {
    let apollo = EngineKind::from_name("apollo").unwrap().build_with_profiling(true);
    assert!(apollo.retrieval);
    let standard = EngineKind::from_name("standard").unwrap().build_with_profiling(true);
    assert!(!standard.retrieval);
}

#[test]
fn split_specs_first_piece_unparseable_is_preserved() {
    let v = EngineKind::split_specs("garbage_engine,standard");
    assert_eq!(v, vec!["garbage_engine", "standard"]);
    assert!(EngineKind::from_name(&v[0]).is_none());
    assert!(EngineKind::from_name(&v[1]).is_some());
}

fn all_kinds() -> Vec<EngineKind> {
    vec![
        EngineKind::Standard { window_size: None },
        EngineKind::Standard { window_size: Some(64) },
        EngineKind::NoCache,
        EngineKind::MarkovResidual { window_size: None },
        EngineKind::MarkovResidual { window_size: Some(32) },
        EngineKind::UnlimitedContext { window_size: 64 },
        EngineKind::TurboQuant { bits: 4 },
        EngineKind::TurboQuant { bits: 3 },
        EngineKind::Apollo {
            injection_layer: Some(30),
            inject_coefficient: Some("10.0".into()),
            top_k: Some(8),
        },
    ]
}

#[test]
fn all_engines_have_valid_name() {
    let expected = [
        "standard",
        "standard",
        "no-cache",
        "markov-rs",
        "markov-rs",
        "unlimited-context",
        "turbo-quant",
        "turbo-quant",
        "apollo",
    ];
    for (kind, expected_name) in all_kinds().into_iter().zip(expected.iter()) {
        assert_eq!(kind.build().kind.display_name(), *expected_name);
    }
}

#[test]
fn from_name_unknown_param_ignored_defaults_apply() {
    match EngineKind::from_name("unlimited-context:unknown=42") {
        Some(EngineKind::UnlimitedContext { window_size: 512 }) => {}
        other => panic!("unknown param should use default, got {other:?}"),
    }
}

#[test]
fn supported_names_every_entry_parses_back_via_from_name() {
    for name in EngineKind::supported_names() {
        let kind = EngineKind::from_name(name)
            .unwrap_or_else(|| panic!("supported_names lists {name:?} but from_name rejected it"));
        assert_eq!(kind.display_name(), name);
    }
}

#[test]
fn supported_names_covers_every_engine_kind_variant() {
    let one_of_each: Vec<&'static str> = [
        "standard",
        "no-cache",
        "markov-rs",
        "markov-rs-codec",
        "unlimited-context",
        "turbo-quant",
        "apollo",
        "boundary-kv",
        "boundary-per-layer",
    ]
    .iter()
    .map(|s| {
        EngineKind::from_name(s)
            .unwrap_or_else(|| panic!("{s:?} failed to parse"))
            .display_name()
    })
    .collect();
    for name in &one_of_each {
        assert!(EngineKind::supported_names().contains(name));
    }
    assert_eq!(EngineKind::supported_names().len(), one_of_each.len());
}

#[test]
fn from_name_all_engines_parseable() {
    let specs = [
        ("standard", "standard"),
        ("standard:window=128", "standard"),
        ("markov-bounded", "standard"),
        ("no-cache", "no-cache"),
        ("none", "no-cache"),
        ("markov-rs", "markov-rs"),
        ("unlimited-context", "unlimited-context"),
        ("turbo-quant", "turbo-quant"),
        ("tq3", "turbo-quant"),
        ("apollo", "apollo"),
    ];
    for (spec, expected_display) in specs {
        let kind =
            EngineKind::from_name(spec).unwrap_or_else(|| panic!("{spec:?} failed to parse"));
        assert_eq!(kind.display_name(), expected_display, "{spec} parsed to wrong display_name");
    }
}

#[test]
fn split_specs_legacy_comma_for_simple_engines() {
    let v = EngineKind::split_specs("standard,markov-rs,no-cache");
    assert_eq!(v, vec!["standard", "markov-rs", "no-cache"]);
}

#[test]
fn split_specs_legacy_comma_with_single_param_each() {
    let v = EngineKind::split_specs("standard:window=512,markov-rs:window=256");
    assert_eq!(v, vec!["standard:window=512", "markov-rs:window=256"]);
}

#[test]
fn split_specs_semicolon_separator_for_multi_param_engines() {
    let v = EngineKind::split_specs(
        "boundary-kv:chunk_tokens=64,sequence_id=demo;markov-rs:window=256",
    );
    assert_eq!(
        v,
        vec!["boundary-kv:chunk_tokens=64,sequence_id=demo", "markov-rs:window=256"]
    );
}

#[test]
fn split_specs_trims_whitespace() {
    let v = EngineKind::split_specs(" standard , markov-rs ");
    assert_eq!(v, vec!["standard", "markov-rs"]);
}

#[test]
fn split_specs_drops_empty_entries() {
    let v = EngineKind::split_specs(",,standard,,markov-rs,");
    assert_eq!(v, vec!["standard", "markov-rs"]);
}

#[test]
fn split_specs_semicolon_drops_empties_and_trims() {
    let v = EngineKind::split_specs(" ; standard ;; markov-rs ; ");
    assert_eq!(v, vec!["standard", "markov-rs"]);
}

#[test]
fn split_specs_single_engine_returns_one_entry() {
    assert_eq!(EngineKind::split_specs("standard"), vec!["standard"]);
    assert_eq!(
        EngineKind::split_specs("boundary-kv:chunk_tokens=64,sequence_id=demo"),
        vec!["boundary-kv:chunk_tokens=64,sequence_id=demo"]
    );
}

#[test]
fn split_specs_empty_returns_empty_vec() {
    assert!(EngineKind::split_specs("").is_empty());
    assert!(EngineKind::split_specs(" ").is_empty());
    assert!(EngineKind::split_specs(",,,").is_empty());
    assert!(EngineKind::split_specs(";;;").is_empty());
}

#[test]
fn split_specs_round_trips_with_from_name() {
    let input = "standard;markov-rs:window=512;boundary-kv:chunk_tokens=64,sequence_id=demo";
    let specs = EngineKind::split_specs(input);
    for s in &specs {
        assert!(EngineKind::from_name(s).is_some(), "spec {s:?} should parse");
    }
}

#[test]
fn split_specs_trims_every_kind_of_white_space() {
    let v = EngineKind::split_specs("\u{2003}standard\u{a0};\tno-cache\n");
    assert_eq!(v, vec!["standard", "no-cache"]);
}
