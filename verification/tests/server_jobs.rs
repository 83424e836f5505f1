use larql::server::download::{cached_file_reports, download_begins, no_client, Download};
use larql::server::error::ServerError;
use larql::server::extract::{
    default_level, default_output_name, files_to_download, handle_extract, is_needed_weight_file,
    looks_like_hf_id, next_job_id, parse_level, rand_like, sanitize_output_path,
    translate_hf_error, ExtractLevel, ExtractRequest,
};
use larql::server::extract_run::{
    build_options, BuildOptions, ExtractRun, Q4kWriteOptions, QuantFormat, Step, StorageDtype,
    WriteWeightsOptions,
};
use larql::server::jobs::{
    goes_on, stage_event, ExtractJob, ExtractJobs, ExtractProgress, JobStatus, StatusStream,
};
use larql::server::progress::{BuildProgress, DownloadProgress};

fn job(id: &str) -> ExtractJob {
    ExtractJob {
        id: id.to_string(),
        model: "m".to_string(),
        level: "all".to_string(),
        output_path: "/v/m.vindex".to_string(),
        status: JobStatus::Running,
        events: Vec::new(),
    }
}

fn stage_of(ev: &ExtractProgress) -> &str {
    match ev {
        ExtractProgress::Progress { stage, .. } => stage,
        ExtractProgress::Done { .. } => "done",
        ExtractProgress::Error { .. } => "error",
    }
}

fn request(model: &str, level: &str, output: Option<&str>) -> ExtractRequest {
    ExtractRequest {
        model: model.to_string(),
        level: level.to_string(),
        output: output.map(str::to_string),
    }
}

#[test]
fn levels_are_read_in_any_case() {
    assert_eq!(parse_level("Browse").unwrap(), ExtractLevel::Browse);
    assert_eq!(parse_level("ATTN").unwrap(), ExtractLevel::Attention);
    assert_eq!(parse_level("attention").unwrap(), ExtractLevel::Attention);
    assert_eq!(parse_level(&default_level()).unwrap(), ExtractLevel::Inference);
    assert_eq!(parse_level("infer").unwrap(), ExtractLevel::Inference);
    assert_eq!(parse_level("all").unwrap(), ExtractLevel::All);
    assert_eq!(
        parse_level("Every\u{212A}").unwrap_err(),
        "unknown extract level 'everyk' (expected: browse, attention, inference, all)"
    );
}

#[test]
fn output_names_come_from_the_last_part() {
    assert_eq!(default_output_name("google/gemma-3"), "gemma-3.vindex");
    assert_eq!(default_output_name("/models/a.gguf.gguf"), "a.vindex");
    assert_eq!(default_output_name("plain"), "plain.vindex");
    assert_eq!(default_output_name("dir/"), ".vindex");
}

#[test]
fn output_paths_stay_under_the_directory() {
    assert_eq!(sanitize_output_path("/v", "m.vindex").unwrap(), "/v/m.vindex");
    assert_eq!(sanitize_output_path("/v/", "m").unwrap(), "/v/m");
    for bad in ["", "..", "a/../b", "/etc"] {
        match sanitize_output_path("/v", bad) {
            Err(ServerError::BadRequest(m)) => assert_eq!(
                m,
                format!(
                    "invalid output name '{bad}' — must be a plain directory name under the vindex dir"
                )
            ),
            other => panic!("{bad:?} gave {other:?}"),
        }
    }
}

#[test]
fn model_ids_have_an_owner_and_a_name() {
    assert!(looks_like_hf_id("google/gemma-3", false));
    assert!(!looks_like_hf_id("google/gemma-3", true));
    assert!(!looks_like_hf_id("/google/gemma", false));
    assert!(!looks_like_hf_id("./google", false));
    assert!(!looks_like_hf_id("gemma", false));
    assert!(!looks_like_hf_id("a/b/c", false));
    assert!(!looks_like_hf_id("a/", false));
}

#[test]
fn job_ids_hold_the_time_and_a_nonce() {
    assert_eq!(next_job_id(0x18f_ffff, 0xbeef), "x-18fffff-beef");
    assert_eq!(next_job_id(0, 0), "x-0-0");
    let mut h: u32 = 0x9e37_79b9;
    for b in b"ThreadId(1)" {
        h = h.wrapping_mul(16777619) ^ (*b as u32);
    }
    assert_eq!(rand_like(5, b"ThreadId(1)"), 5 ^ h);
}

#[test]
fn only_needed_files_are_downloaded() {
    assert!(is_needed_weight_file("model-00001-of-00002.safetensors"));
    assert!(is_needed_weight_file("tokenizer.model"));
    assert!(!is_needed_weight_file("README.md"));
    let names: Vec<String> = ["README.md", "config.json", "tokenizer.json", "a.safetensors"]
        .iter()
        .map(|s| s.to_string())
        .collect();
    assert_eq!(
        files_to_download("o/n", &names).unwrap(),
        vec!["config.json", "tokenizer.json", "a.safetensors"]
    );
    assert_eq!(
        files_to_download("o/n", &vec!["README.md".to_string()]).unwrap_err(),
        "repo o/n has no .safetensors / config.json / tokenizer.json siblings — is this a model repo?"
    );
    assert!(files_to_download("o/n", &vec!["config.json".to_string()])
        .unwrap_err()
        .starts_with("repo o/n does not publish a `tokenizer.json`"));
}

#[test]
fn hub_errors_are_told_apart_by_their_status() {
    assert!(translate_hf_error("o/n", "repo info", "status 403 401")
        .starts_with("HuggingFace refused access to o/n (repo info: HTTP 403)."));
    assert!(translate_hf_error("o/n", "repo info", "x401x")
        .starts_with("HuggingFace rejected the request to o/n (repo info: HTTP 401)."));
    assert_eq!(
        translate_hf_error("o/n", "repo info", "404"),
        "HuggingFace has no repo called o/n (repo info: HTTP 404). Double-check the owner/name."
    );
    assert_eq!(translate_hf_error("o/n", "repo info", "timeout"), "repo info on o/n: timeout");
}

#[test]
fn extract_requests_are_checked_in_order() {
    let mut jobs = ExtractJobs::new();
    match handle_extract(&mut jobs, None, &request("o/n", "all", None), "x-1") {
        Err(ServerError::BadRequest(m)) => {
            assert!(m.starts_with("server was started without a vindex directory"))
        }
        _ => panic!("no directory"),
    }
    assert!(handle_extract(&mut jobs, Some("/v"), &request("o/n", "most", None), "x-1").is_err());
    match handle_extract(&mut jobs, Some("/v"), &request(" \t", "all", None), "x-1") {
        Err(ServerError::BadRequest(m)) => assert_eq!(m, "model is required"),
        _ => panic!("no model"),
    }
    let (started, work) =
        match handle_extract(&mut jobs, Some("/v"), &request(" o/n ", "All", Some("  ")), "x-1") {
            Ok(x) => x,
            Err(e) => panic!("{e:?}"),
        };
    assert_eq!(started.id, "x-1");
    assert_eq!(started.status_url, "/v1/vindexes/extract/status?id=x-1");
    assert_eq!(work.model, "o/n");
    assert_eq!(work.level, ExtractLevel::All);
    assert_eq!(work.output_path, "/v/n.vindex");
    match handle_extract(&mut jobs, Some("/v"), &request("o/n", "all", Some("b")), "x-2") {
        Err(ServerError::BadRequest(m)) => assert_eq!(
            m,
            "another extract (x-1) is already running; wait for it or poll its status"
        ),
        _ => panic!("two jobs at a time"),
    }
    jobs.finish("x-1", JobStatus::Failed);
    assert!(handle_extract(&mut jobs, Some("/v"), &request("o/n", "all", Some("b")), "x-2").is_ok());
    assert_eq!(jobs.get("x-2").unwrap().output_path, "/v/b");
    assert_eq!(jobs.get("x-1").unwrap().status(), JobStatus::Failed);
}

#[test]
fn job_logs_keep_the_newest_reports() {
    let mut j = job("x-1");
    for i in 0..4001 {
        j.emit(stage_event(&format!("s{i}")));
    }
    assert_eq!(j.events.len(), 3001);
    assert_eq!(stage_of(&j.events[0]), "s1000");
    assert_eq!(stage_of(j.events.last().unwrap()), "s4000");
}

#[test]
fn status_replays_the_log_and_says_whether_it_goes_on() {
    let mut jobs = ExtractJobs::default();
    assert!(jobs.claim(job("x-1")).is_ok());
    jobs.emit("x-1", stage_event("one"));
    match jobs.handle_extract_status("x-1") {
        Ok((log, follow)) => {
            assert_eq!(log.len(), 1);
            assert!(follow);
        }
        Err(e) => panic!("{e:?}"),
    }
    jobs.finish("x-1", JobStatus::Done);
    assert!(!jobs.handle_extract_status("x-1").unwrap().1);
    assert!(jobs.claim(job("x-2")).is_ok());
    jobs.emit("x-2", ExtractProgress::Error { message: "no".to_string() });
    let (log, follow) = jobs.handle_extract_status("x-2").unwrap();
    assert_eq!(log.len(), 1);
    assert!(!follow, "the last event is in the log");
    match jobs.handle_extract_status("x-9") {
        Err(ServerError::NotFound(m)) => assert_eq!(m, "extract job 'x-9' not found"),
        _ => panic!("unknown job"),
    }
}

#[test]
fn a_status_stream_ends_with_the_last_event() {
    let done = ExtractProgress::Done {
        path: "/v/n".to_string(),
        id: "n".to_string(),
        elapsed_micros: 1,
    };
    let later = [stage_event("one"), stage_event("two"), done, stage_event("three")];
    let mut stream = StatusStream::start(true);
    let sent: Vec<bool> = later.iter().map(|ev| stream.next(ev)).collect();
    assert_eq!(sent, vec![true, true, true, false]);
    assert!(!stream.open);
    let failed = ExtractProgress::Error { message: "no".to_string() };
    assert!(goes_on(&later[0]) && !goes_on(&later[2]) && !goes_on(&failed));
    assert!(!StatusStream::start(false).next(&later[0]));
}

#[test]
fn a_build_that_succeeds_reports_its_slot() {
    let mut j = job("x-1");
    let mut run = ExtractRun::start(&mut j, "o/n", false, "/v/n.vindex");
    assert_eq!(run.step, Step::Download);
    for (outcome, next, elapsed) in [
        ("", Step::ResolveDownloaded, 100),
        ("/cache/n", Step::FindTokenizer, 200),
        ("", Step::LoadTokenizer, 300),
        ("", Step::CreateDir, 400),
        ("", Step::Build, 500),
        ("", Step::Discover, 1500),
        ("n", Step::Finished, 1600),
    ] {
        run.advance(&mut j, Ok(outcome.to_string()), elapsed);
        assert_eq!(run.step, next);
    }
    assert_eq!(run.model_path, "/cache/n");
    assert_eq!(j.status(), JobStatus::Done);
    let stages: Vec<&str> = j.events.iter().map(stage_of).collect();
    assert_eq!(stages, vec!["resolving model path", "loading tokenizer", "done"]);
    match j.events.last().unwrap() {
        ExtractProgress::Done { path, id, elapsed_micros } => {
            assert_eq!((path.as_str(), id.as_str(), *elapsed_micros), ("/v/n.vindex", "n", 1500))
        }
        other => panic!("{other:?}"),
    }
    run.advance(&mut j, Err("late".to_string()), 1);
    assert_eq!(j.status(), JobStatus::Done);
}

#[test]
fn a_build_is_asked_for_with_fixed_options() {
    let mut j = job("x-1");
    let mut run = ExtractRun::start(&mut j, "/models/n", false, "/v/n.vindex");
    run.advance(&mut j, Ok("/models/n".to_string()), 1);
    let request = run.build_request("org/n", ExtractLevel::Attention);
    assert_eq!(request.model_path, "/models/n");
    assert_eq!(request.tokenizer_path, "/models/n/tokenizer.json");
    assert_eq!(request.model_name, "org/n");
    assert_eq!(request.output_path, "/v/n.vindex");
    let level = ExtractLevel::Attention;
    let expected = BuildOptions {
        down_top_k: 10,
        level,
        dtype: StorageDtype::F16,
        quant: QuantFormat::Unquantised,
        weights: WriteWeightsOptions { level, ffn_compact: false },
        q4k: Q4kWriteOptions { down_q4k: false, feature_major_down: false },
        drop_gate_vectors: false,
    };
    assert_eq!(request.options, expected);
    assert_eq!(build_options(ExtractLevel::All).weights.level, ExtractLevel::All);
}

#[test]
fn a_build_that_fails_says_at_which_step() {
    let messages = [
        "hf download: e",
        "downloaded but resolve_model_path still failed: e",
        "tokenizer.json not found at /cache/n",
        "failed to load tokenizer: e",
        "create_dir_all(/v/n.vindex): e",
        "build_vindex_streaming: e",
        "built vindex but discover failed: e",
    ];
    for (fails_at, message) in messages.iter().enumerate() {
        let mut j = job("x-1");
        let mut run = ExtractRun::start(&mut j, "o/n", false, "/v/n.vindex");
        for _ in 0..fails_at {
            run.advance(&mut j, Ok("/cache/n".to_string()), 0);
        }
        run.advance(&mut j, Err("e".to_string()), 0);
        assert_eq!(run.step, Step::Finished);
        assert_eq!(j.status(), JobStatus::Failed);
        match j.events.last().unwrap() {
            ExtractProgress::Error { message: m } => assert_eq!(m, message),
            other => panic!("{other:?}"),
        }
    }
    let mut j = job("x-1");
    let mut run = ExtractRun::start(&mut j, "/models/n", false, "/v/n.vindex");
    assert_eq!(run.step, Step::Resolve);
    run.advance(&mut j, Err("e".to_string()), 0);
    assert!(
        matches!(j.events.last(), Some(ExtractProgress::Error { message }) if message == "resolve_model_path: e")
    );
}

#[test]
fn downloads_go_file_by_file() {
    assert_eq!(stage_of(&download_begins("o/n")), "fetching HF repo info");
    assert_eq!(no_client("e"), "hf api init: e");
    let names = ["tokenizer.json", "a.safetensors", "notes.txt"];
    let mut d = Download::plan("o/n", Ok(names.iter().map(|s| s.to_string()).collect())).unwrap();
    let first = d.next_file().unwrap();
    assert_eq!((first.filename.as_str(), first.file_idx, first.total_files), ("tokenizer.json", 1, 2));
    let (begin, end) = cached_file_reports(first, 10);
    assert_eq!(stage_of(&begin), "downloading (1/2)");
    match end {
        ExtractProgress::Progress { done, total, .. } => assert_eq!((done, total), (Some(10), Some(10))),
        other => panic!("{other:?}"),
    }
    assert!(d.downloaded(Ok(())).is_ok());
    assert_eq!(d.next_file().unwrap().filename, "a.safetensors");
    assert_eq!(
        d.downloaded(Err("timeout".to_string())).unwrap_err(),
        "download a.safetensors on o/n: timeout"
    );
    assert!(Download::plan("o/n", Err("404".to_string())).is_err());
}

#[test]
fn build_progress_is_reported_at_most_every_interval() {
    let mut p = BuildProgress::new();
    assert_eq!(stage_of(&p.on_stage("gate")), "gate");
    match p.on_layer_start("attn", 3, 26) {
        ExtractProgress::Progress { stage, component, layer, total_layers, done, total } => {
            assert_eq!(stage, "gate");
            assert_eq!(component.as_deref(), Some("attn"));
            assert_eq!((layer, total_layers, done, total), (Some(3), Some(26), Some(0), None));
        }
        other => panic!("{other:?}"),
    }
    assert!(p.on_feature_progress("attn", 3, 5, 10, 149).is_none());
    assert!(p.on_feature_progress("attn", 3, 5, 10, 150).is_some());
    assert!(p.on_feature_progress("attn", 3, 0, 10, 0).is_some());
    assert!(p.on_feature_progress("attn", 3, 10, 10, 0).is_some());
    match p.on_feature_progress("attn", 3, 0, 0, 0) {
        Some(ExtractProgress::Progress { total: None, total_layers: Some(26), .. }) => {}
        other => panic!("{other:?}"),
    }
    assert_eq!(stage_of(&p.on_stage_done("gate", 7)), "gate done");
    match p.on_layer_done("attn", 3, 12) {
        ExtractProgress::Progress { total, done, .. } => assert_eq!((total, done), (Some(12), None)),
        other => panic!("{other:?}"),
    }
}

#[test]
fn download_progress_counts_what_was_sent() {
    let mut p = DownloadProgress::new("a", 2, 3);
    p.init(100, "b");
    assert_eq!(p.filename, "b");
    assert!(p.update(40, 99).is_none());
    match p.update(40, 100) {
        Some(ExtractProgress::Progress { stage, done, total, .. }) => {
            assert_eq!((stage.as_str(), done, total), ("downloading (2/3)", Some(80), Some(100)))
        }
        other => panic!("{other:?}"),
    }
    match p.finish() {
        ExtractProgress::Progress { done, .. } => assert_eq!(done, Some(100)),
        other => panic!("{other:?}"),
    }
    p.init(0, "");
    assert_eq!(p.filename, "b");
    p.update(usize::MAX, 0);
    p.update(1, 0);
    assert_eq!(p.sent, usize::MAX);
}
