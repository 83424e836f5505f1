use larql::server::error::ServerError;
use larql::server::extract::ExtractLevel;
use larql::server::hf::{
    default_limit, handle_hf_search, hf_request, hf_search_url, HfReply, HfSearchParams,
};
use larql::server::insert::{
    insert_response, insert_statement, lql_key, mode_str, no_model, no_session, parse_mode,
    InsertMode, InsertRequest, InsertRun, InsertStep,
};
use larql::server::lql::{
    check_statement, describe_entity, describe_plan, execute_lql_statement, extract_quoted,
    lql_response, model_error, rank_relations, show_ranking, try_lql_statement, Hit, LqlAnswer,
    LqlModel, LqlQuery, LqlRequest, NearestQuery,
};
use larql::server::lql_session::{first_statement, FirstStatement, LqlSessionManager};
use larql::server::slot::{
    awaited, dir_size, DirEntry, LoadOutcome, LoadStep, ModelSlot, SlotLoadOpts,
    SlotState, VindexConfig,
};
use larql::server::vindexes::{
    features_fit, handle_delete, handle_list, handle_load, handle_unload, level_text,
    slot_not_found,
};

fn config() -> VindexConfig {
    VindexConfig {
        model: "google/gemma-3".to_string(),
        num_layers: 2,
        hidden_size: 2560,
        vocab_size: 262144,
        layers: vec![10240, 512],
        extract_level: ExtractLevel::Inference,
    }
}

fn entries() -> Vec<DirEntry> {
    vec![
        DirEntry { is_file: true, len: 100 },
        DirEntry { is_file: false, len: 4096 },
        DirEntry { is_file: true, len: 11 },
    ]
}

fn slot() -> ModelSlot<&'static str> {
    ModelSlot::discover(
        "gemma-3".to_string(),
        "/v/gemma-3.vindex".to_string(),
        config(),
        &entries(),
        SlotLoadOpts::default(),
    )
}

#[test]
fn only_files_count_in_a_directory() {
    assert_eq!(dir_size(&entries()), 111);
    assert_eq!(dir_size(&Vec::new()), 0);
}

#[test]
fn one_caller_loads_and_the_others_wait() {
    let mut s = slot();
    assert_eq!(s.state(), SlotState::Discovered);
    assert_eq!(s.size_bytes, 111);
    assert!(matches!(s.get_or_load(), LoadStep::Own));
    assert_eq!(s.state(), SlotState::Loading);
    assert!(matches!(s.get_or_load(), LoadStep::Wait));
    s.begin_load();
    assert_eq!(s.progress().as_deref(), Some("loading"));
    assert!(s.finish_load(LoadOutcome::Model("weights")).is_ok());
    assert_eq!(s.progress(), None);
    assert_eq!(s.loaded(), Some(&"weights"));
    assert!(matches!(s.get_or_load(), LoadStep::Ready));
    s.unload();
    assert_eq!(s.state(), SlotState::Discovered);
    assert!(s.loaded().is_none());
}

#[test]
fn a_failed_load_is_kept_and_tried_again() {
    let mut s = slot();
    s.get_or_load();
    assert_eq!(s.finish_load(LoadOutcome::Error("no memory".to_string())), Err("no memory".into()));
    assert_eq!(s.state(), SlotState::Failed);
    assert_eq!(s.last_error().as_deref(), Some("no memory"));
    assert!(matches!(s.get_or_load(), LoadStep::Own));
    assert_eq!(
        s.finish_load(LoadOutcome::Panicked("oops".to_string())),
        Err("load task panicked: oops".into())
    );
    assert_eq!(
        awaited::<u8>(None),
        Err("load task dropped without publishing result".to_string())
    );
    assert_eq!(awaited(Some(Ok(7u8))), Ok(7));
}

#[test]
fn a_slot_of_a_loaded_model_keeps_its_options() {
    let opts = SlotLoadOpts {
        ffn_only: true,
        layer_range: Some((0, 4)),
        max_gate_cache_layers: 3,
        max_q4k_cache_layers: 5,
        hnsw: Some(64),
        warmup_hnsw: true,
        expert_filter: Some((1, 2)),
        unit_filter: Some(vec![(0, 1)]),
        moe_remote: Some(7),
        ..SlotLoadOpts::default()
    };
    let mut s = ModelSlot::from_loaded("a".into(), "/v/a".into(), config(), opts, &entries(), 5u8);
    assert_eq!(s.state(), SlotState::Loaded);
    assert_eq!(s.loaded(), Some(&5));
    s.unload();
    assert_eq!(s.get_or_load(), LoadStep::Own);
    assert!(!s.opts.no_infer && s.opts.ffn_only && s.opts.warmup_hnsw);
    assert_eq!(s.opts.layer_range, Some((0, 4)));
    assert_eq!((s.opts.max_gate_cache_layers, s.opts.max_q4k_cache_layers), (3, 5));
    assert_eq!(s.opts.hnsw, Some(64));
    assert_eq!(s.opts.expert_filter, Some((1, 2)));
    assert_eq!(s.opts.unit_filter, Some(vec![(0, 1)]));
    assert_eq!(s.opts.moe_remote, Some(7));
}

#[test]
fn the_list_tells_of_every_slot() {
    let mut loading = slot();
    loading.get_or_load();
    loading.set_progress(Some("loading tokenizer".to_string()));
    let mut failed = slot();
    failed.get_or_load();
    let _ = failed.finish_load(LoadOutcome::Error("e".to_string()));
    let slots = vec![slot(), loading, failed];
    let list = handle_list(&slots, Some("/v"));
    assert_eq!(list.vindex_dir.as_deref(), Some("/v"));
    assert_eq!(list.vindexes.len(), 3);
    let first = &list.vindexes[0];
    assert_eq!((first.id.as_str(), first.name.as_str()), ("gemma-3", "gemma-3"));
    assert_eq!(first.model, "google/gemma-3");
    assert_eq!((first.layers, first.features, first.size_bytes), (2, 10752, 111));
    assert_eq!(first.extract_level, "Inference");
    assert_eq!(first.load_stage, None);
    assert_eq!(list.vindexes[1].load_stage.as_deref(), Some("loading tokenizer"));
    assert_eq!(list.vindexes[2].last_error.as_deref(), Some("e"));
    assert_eq!(level_text(ExtractLevel::All), "All");
}

#[test]
fn load_and_unload_answer_with_the_state() {
    let mut slots = vec![slot()];
    match handle_load::<&str>(None, "zz", false, Ok(())) {
        Err(ServerError::NotFound(m)) => assert_eq!(m, "vindex 'zz' not found"),
        other => panic!("{other:?}"),
    }
    match handle_load(Some(&slots[0]), "gemma-3", false, Err("e".to_string())) {
        Err(ServerError::Internal(m)) => assert_eq!(m, "load failed: e"),
        other => panic!("{other:?}"),
    }
    slots[0].get_or_load();
    let _ = slots[0].finish_load(LoadOutcome::Model("w"));
    let loaded = handle_load(Some(&slots[0]), "gemma-3", true, Ok(())).unwrap();
    assert_eq!(loaded.state, SlotState::Loaded);
    assert!(loaded.already_loaded);
    let unloaded = handle_unload(&mut slots, Some(0), "gemma-3").unwrap();
    assert_eq!(unloaded.state, SlotState::Discovered);
    assert!(handle_unload(&mut slots, None, "zz").is_err());
    assert!(matches!(slot_not_found("q"), ServerError::NotFound(m) if m == "vindex 'q' not found"));
    match handle_delete("a") {
        ServerError::BadRequest(m) => assert_eq!(
            m,
            "Cannot delete vindex 'a' while the server is running. Stop the server and use `larql rm a` from the CLI."
        ),
        other => panic!("{other:?}"),
    }
}

#[test]
fn a_session_is_made_once() {
    assert!(matches!(first_statement("/v/a"), FirstStatement::UseVindex(path) if path == "/v/a"));
    let mut m: LqlSessionManager<u32> = LqlSessionManager::default();
    assert!(m.get("a").is_none());
    assert_eq!(m.get_or_create("a", Err("x".to_string())), Err("LQL USE failed: x".to_string()));
    assert!(m.get("a").is_none());
    assert_eq!(m.get_or_create("a", Ok(1)), Ok(&1));
    assert_eq!(m.get_or_create("a", Ok(2)), Ok(&1));
    assert_eq!(m.get_or_create("b", Ok(3)), Ok(&3));
    assert!(m.remove("a"));
    assert!(!m.remove("a"));
    assert_eq!(m.get("b"), Some(&3));
}

fn insert_request(mode: Option<&str>) -> InsertRequest {
    InsertRequest {
        entity: "France".to_string(),
        relation: "capital".to_string(),
        target: "Paris".to_string(),
        layer: Some(20),
        alpha: Some(0.1f32.to_bits()),
        confidence: None,
        mode: mode.map(str::to_string),
    }
}

#[test]
fn insert_modes_fall_back_to_compose() {
    assert_eq!(parse_mode(Some(" KNN ")), InsertMode::Knn);
    assert_eq!(parse_mode(Some("other")), InsertMode::Compose);
    assert_eq!(parse_mode(None), InsertMode::Compose);
    assert_eq!(parse_mode(Some("\u{212A}nn")), InsertMode::Compose);
    for mode in [InsertMode::Compose, InsertMode::Knn] {
        assert_eq!(parse_mode(Some(mode_str(mode))), mode);
    }
    assert_eq!(lql_key(None), "__global__");
    assert_eq!(lql_key(Some("s1")), "s1");
    let stmt = insert_statement(&insert_request(Some("knn")));
    assert_eq!((stmt.entity.as_str(), stmt.layer, stmt.mode), ("France", Some(20), InsertMode::Knn));
}

#[test]
fn an_insert_swaps_back_whatever_happened() {
    let mut run = InsertRun::new(4);
    assert_eq!(run.step, InsertStep::SwapIn);
    run.swapped_in(Ok(()));
    run.statement_executed(Err("bad".to_string()));
    assert_eq!(run.step, InsertStep::SwapOut);
    run.swapped_out(Ok(()), 9);
    match run.outcome {
        Some(Err(ServerError::Internal(m))) => assert_eq!(m, "LQL INSERT failed: bad"),
        other => panic!("{other:?}"),
    }

    let mut run = InsertRun::new(4);
    run.swapped_in(Err("no".to_string()));
    match run.outcome {
        Some(Err(ServerError::Internal(m))) => assert_eq!(m, "LQL backend swap-in failed: no"),
        other => panic!("{other:?}"),
    }
    assert_eq!(run.step, InsertStep::Finished);

    let mut run = InsertRun::new(4);
    run.swapped_in(Ok(()));
    run.statement_executed(Ok(vec!["done".to_string()]));
    run.swapped_out(Err("no".to_string()), 9);
    match run.outcome {
        Some(Err(ServerError::Internal(m))) => assert_eq!(m, "LQL backend swap-out failed: no"),
        other => panic!("{other:?}"),
    }

    let mut run = InsertRun::new(4);
    run.swapped_in(Ok(()));
    run.statement_executed(Ok(vec!["done".to_string()]));
    run.swapped_out(Ok(()), 9);
    let response =
        insert_response(&insert_request(None), Some("s1"), run.outcome.unwrap()).unwrap();
    assert_eq!(response.inserted, 5);
    assert_eq!(response.mode, "compose");
    assert_eq!(response.session.as_deref(), Some("s1"));
    assert_eq!(response.messages, vec!["done"]);
    assert_eq!(response.alpha.map(f32::from_bits), Some(0.1));
}

#[test]
fn inserts_without_session_or_model_are_refused() {
    assert!(matches!(no_session("e"), ServerError::Internal(m) if m == "LQL session setup failed: e"));
    assert!(matches!(no_model(None), ServerError::NotFound(m) if m == "no model loaded"));
    assert!(matches!(no_model(Some("a")), ServerError::NotFound(m) if m == "model 'a' not found"));
}

#[test]
fn the_search_url_is_encoded_and_capped() {
    let url = |q: &str, limit: usize| hf_search_url(&HfSearchParams { q: q.to_string(), limit });
    assert_eq!(
        url("gemma 3/é~", 500).unwrap(),
        "https://huggingface.co/api/models?search=gemma%203%2F%C3%A9~&filter=text-generation&sort=downloads&direction=-1&limit=50"
    );
    assert!(url("a-b_c.d", default_limit()).unwrap().contains("search=a-b_c.d&"));
    assert!(url("a", 7).unwrap().ends_with("limit=7"));
    assert_eq!(default_limit(), 20);
    assert!(url(" \u{3000}", 7).is_none());
    let request = hf_request(&HfSearchParams { q: "a".to_string(), limit: 7 }).unwrap();
    assert!(request.url.ends_with("search=a&filter=text-generation&sort=downloads&direction=-1&limit=7"));
    assert_eq!((request.timeout_secs, request.user_agent), (10, "larql-server"));
    assert!(hf_request(&HfSearchParams { q: " ".to_string(), limit: 7 }).is_none());
}

#[test]
fn search_errors_say_where_they_come_from() {
    let message = |r: HfReply| match handle_hf_search(Some(r)) {
        Err(ServerError::Internal(m)) => m,
        _ => panic!("expected an error"),
    };
    assert_eq!(message(HfReply::NoClient("e".into())), "http client error: e");
    assert_eq!(message(HfReply::NotSent("e".into())), "HF API request failed: e");
    assert_eq!(message(HfReply::Status("404 Not Found".into())), "HF API returned status 404 Not Found");
    assert_eq!(message(HfReply::Unreadable("e".into())), "HF API parse error: e");
    assert!(handle_hf_search(None).unwrap().models.is_empty());
}

fn lql_model() -> LqlModel {
    LqlModel {
        config: config(),
        probe_labels: ["capital", "language", "capital"].iter().map(|s| s.to_string()).collect(),
        num_patches: 0,
    }
}

fn lines(model: &LqlModel, stmt: &str) -> Vec<String> {
    match execute_lql_statement(model, stmt) {
        Ok(LqlAnswer::Lines(l)) => l,
        other => panic!("{other:?}"),
    }
}

#[test]
fn only_statistics_count_the_features() {
    let mut m = lql_model();
    m.config.layers = vec![usize::MAX, 1];
    assert!(try_lql_statement(&m, "stats;").is_none());
    assert_eq!(lines(&m, "SHOW PATCHES"), vec!["No patches applied."]);
    assert!(try_lql_statement(&m, "show layers").is_some());
    m.config.layers = vec![usize::MAX - 1, 1];
    assert!(matches!(try_lql_statement(&m, "\u{3000}stats\u{a0}"), Some(Ok(_))));
    assert!(!features_fit(&vec![1, usize::MAX]) && features_fit(&vec![usize::MAX]));
}

#[test]
fn statements_are_told_apart_by_their_first_word() {
    let mut m = lql_model();
    assert_eq!(
        lines(&m, "show layers;"),
        vec!["Layers: 2", "  L00: 10240 features", "  L01: 512 features"]
    );
    assert_eq!(
        lines(&m, "SHOW Relations"),
        vec!["Probe-confirmed relations: 2", "  capital (count=2)", "  language (count=1)"]
    );
    m.probe_labels.clear();
    assert_eq!(
        lines(&m, "SHOW RELATIONS"),
        vec!["No probe-confirmed relations. Use /v1/relations for inferred relations."]
    );
    assert_eq!(lines(&m, "SHOW PATCHES"), vec!["No patches applied."]);
    m.num_patches = 3;
    assert_eq!(lines(&m, "show patches ;;"), vec!["Applied patches: 3"]);
    assert_eq!(lines(&m, "SHOW x"), vec!["SHOW subcommand not recognized: SHOW x"]);
    assert_eq!(
        lines(&m, "stats"),
        vec![
            "Model: google/gemma-3",
            "Layers: 2",
            "Features: 10752",
            "Hidden size: 2560",
            "Vocab size: 262144",
            "Extract level: Inference",
        ]
    );
    match execute_lql_statement(&m, "stra\u{df}e x") {
        Err(e) => assert_eq!(
            e,
            "Statement type 'STRASSE' is not yet supported via the HTTP LQL endpoint. Supported: DESCRIBE, SHOW, STATS."
        ),
        other => panic!("{other:?}"),
    }
    match execute_lql_statement(&m, "describe \"France\"") {
        Ok(LqlAnswer::Describe(e)) => assert_eq!(e, "France"),
        other => panic!("{other:?}"),
    }
    assert_eq!(
        execute_lql_statement(&m, "DESCRIBE France").unwrap_err(),
        "DESCRIBE requires a quoted entity"
    );
}

#[test]
fn quoted_text_is_taken_out() {
    assert_eq!(extract_quoted("a \"b c\" d").as_deref(), Some("b c"));
    assert_eq!(extract_quoted("\"\"").as_deref(), Some(""));
    assert_eq!(extract_quoted("a \"b").as_deref(), None);
    assert_eq!(extract_quoted("a").as_deref(), None);
}

#[test]
fn relations_are_ranked_by_how_often_they_occur() {
    let labels: Vec<String> = (0..25)
        .flat_map(|i| (0..=i).map(move |_| format!("r{i:02}")))
        .collect();
    let ranking = rank_relations(&labels);
    assert_eq!(ranking.len(), 25);
    assert_eq!((ranking[0].name.as_str(), ranking[0].count), ("r24", 25));
    let shown = show_ranking(&ranking);
    assert_eq!(shown.len(), 21);
    assert_eq!(shown[0], "Probe-confirmed relations: 25");
    assert_eq!(shown[20], "  r05 (count=6)");
}

fn hit(feature: usize, score: f32, label: Option<&str>) -> Hit {
    Hit {
        feature,
        score: score.to_bits(),
        score_text: format!("{score:.2}"),
        label: label.map(str::to_string),
    }
}

#[test]
fn a_description_shows_the_strong_features() {
    let hits = vec![
        vec![hit(7, 12.345, Some("Paris")), hit(8, 4.99, Some("no"))],
        vec![hit(10240, 5.0, None), hit(3, f32::NAN, None), hit(4, -9.0, None)],
    ];
    assert_eq!(
        describe_entity(&config(), "France", Ok(1), &hits).unwrap(),
        vec![
            "Entity: France".to_string(),
            format!("  L00 F0007 score={:.2} Paris", 12.345f32),
            "  L01 F10240 score=5.00 ".to_string(),
            "  L01 F0003 score=NaN ".to_string(),
        ]
    );
    assert_eq!(
        describe_entity(&config(), "x", Ok(2), &vec![vec![hit(1, 1.0, None)], vec![]]).unwrap(),
        vec!["Entity: x", "  (no matching features)"]
    );
    assert_eq!(
        describe_entity(&config(), "x", Ok(0), &Vec::new()).unwrap(),
        vec!["No tokens for entity: x"]
    );
    assert_eq!(
        describe_entity(&config(), "x", Err("e".to_string()), &Vec::new()).unwrap_err(),
        "tokenize error: e"
    );
}

#[test]
fn a_description_asks_every_layer_for_five_features() {
    let plan = describe_plan(&config(), &Ok(3));
    assert_eq!(
        plan,
        vec![NearestQuery { layer: 0, count: 5 }, NearestQuery { layer: 1, count: 5 }]
    );
    assert!(describe_plan(&config(), &Ok(0)).is_empty());
    assert!(describe_plan(&config(), &Err("e".to_string())).is_empty());
}

#[test]
fn statements_and_models_are_checked() {
    let req = |s: &str| LqlRequest { statement: s.to_string() };
    assert_eq!(check_statement(&req("  STATS\n")).unwrap(), "STATS");
    assert!(matches!(
        check_statement(&req(" ")),
        Err(ServerError::BadRequest(m)) if m == "empty statement"
    ));
    let ids = vec!["a".to_string(), "b".to_string()];
    let ambiguous = || ServerError::BadRequest("which".to_string());
    match model_error(&LqlQuery { model: None }, ambiguous(), &ids) {
        ServerError::BadRequest(m) => assert_eq!(
            m,
            "server has 2 models registered; pass `?model=<id>` on /v1/lql. Available: a, b"
        ),
        other => panic!("{other:?}"),
    }
    match model_error(&LqlQuery { model: Some("c".to_string()) }, ambiguous(), &ids) {
        ServerError::BadRequest(m) => assert_eq!(m, "which"),
        other => panic!("{other:?}"),
    }
    let ok = lql_response(Ok(vec!["x".to_string()]));
    assert_eq!((ok.output, ok.error), (vec!["x".to_string()], None));
    let bad = lql_response(Err("e".to_string()));
    assert_eq!((bad.output.len(), bad.error.as_deref()), (0, Some("e")));
}
