use voxora::asr::{AsrError, IoKind, ModelCapabilities, Quantization};
use voxora::hf::api::{file_path, metadata_path, validate_filename, validate_model_id, validate_revision};
use voxora::hf::cache::{
    cache_root_from, capabilities_cache_path, describe, is_partial, lock_path, marker_path, model_dir,
    plan_ensure_dir, CachedModel, EntryFacts,
};
use voxora::hf::capabilities::{arch_key, from_config, normalise_languages, read_cached, ArchKey, RawConfig};
use voxora::hf::client::{absolute, HfClientBuilder};
use voxora::hf::error::{truncate, HfError};
use voxora::hf::fs_guard::TmpGuard;
use voxora::hf::integrity::{check_sidecar, sidecar_target};
use voxora::hf::known_models::{curated, qwen3_languages};
use voxora::hf::listing::{order_cached, CachedEntry};
use voxora::hf::download::{download_step, DownloadAction as A, DownloadEvent as E, DownloadState as S};
use voxora::hf::plan::{pick_required_files, Sibling};
use voxora::hf::source::pick_request_token;
use voxora::hf::client::{failure_error, retry_verdict, RetryVerdict, MAX_ATTEMPTS};
use voxora::hf::quantization::{from_gguf_filename, from_torch_dtype};
use voxora::hf::resolver::{needs_index, shard_files, shards_from_weight_map};
use voxora::hf::source::{detect_quantization, pick_env_token, pick_revision, HuggingFaceSourceBuilder};

fn raw(arch: &[&str], model_type: Option<&str>, langs: &[&str]) -> RawConfig {
    let mut r = RawConfig::empty();
    r.architectures = arch.iter().map(|s| s.to_string()).collect();
    r.model_type = model_type.map(|s| s.to_string());
    r.support_languages = langs.iter().map(|s| s.to_string()).collect();
    r
}

fn s(name: &str) -> Sibling {
    Sibling { rfilename: name.to_string() }
}

#[test]
fn validate_model_id_accepts_org_name() {
    assert!(validate_model_id("Qwen/Qwen3-ASR-0.6B").is_ok());
    assert!(validate_model_id("openai/whisper-tiny").is_ok());
}

#[test]
fn validate_model_id_rejects_garbage() {
    assert!(validate_model_id("").is_err());
    assert!(validate_model_id("nope").is_err());
    assert!(validate_model_id("/leading").is_err());
    assert!(validate_model_id("trailing/").is_err());
    assert!(validate_model_id("has/../escape").is_err());
}

#[test]
fn validate_revision_rejects_garbage() {
    assert!(validate_revision("main").is_ok());
    assert!(validate_revision("5eb144179a02acc5e5ba31e748d22b0cf3e303b0").is_ok());
    assert!(validate_revision("").is_err());
    assert!(validate_revision("/etc/passwd").is_err());
    assert!(validate_revision("a..b").is_err());
}

#[test]
fn fetch_file_text_rejects_path_traversal() {
    let err = file_path("Qwen/Qwen3-ASR-0.6B", "main", "../etc/passwd");
    assert!(matches!(err, Err(HfError::InvalidInput(_))));
    assert!(validate_filename("config.json").is_ok());
}

#[test]
fn request_paths_follow_hub_layout() {
    assert_eq!(
        metadata_path("Qwen/Qwen3-ASR-0.6B", "main").unwrap(),
        "/api/models/Qwen/Qwen3-ASR-0.6B/revision/main"
    );
    assert_eq!(
        file_path("Qwen/Qwen3-ASR-0.6B", "main", "config.json").unwrap(),
        "/Qwen/Qwen3-ASR-0.6B/resolve/main/config.json"
    );
}

#[test]
fn truncate_short_string_passes_through() {
    assert_eq!(truncate("hello", 10), "hello");
}

#[test]
fn truncate_ascii_at_byte_boundary() {
    assert_eq!(truncate("hello world", 5), "hello…");
}

#[test]
fn truncate_respects_utf8_char_boundaries() {
    let s = "ééééé";
    let out = truncate(s, 3);
    assert!(out.ends_with('…'));
    assert_eq!(out, "éé…");
}

#[test]
fn lock_unavailable_maps_to_typed_variant() {
    let hf_err = HfError::LockUnavailable {
        path: "/cache/Qwen/Qwen3-ASR-0.6B/main/.lock".to_string(),
        attempts: 16,
        message: "WouldBlock".into(),
    };
    match hf_err.into_asr() {
        AsrError::LockUnavailable { ref path, ref attempts, ref message } => {
            assert_eq!(path, "/cache/Qwen/Qwen3-ASR-0.6B/main/.lock");
            assert_eq!(*attempts, 16);
            assert!(message.contains("WouldBlock"));
        }
        other => panic!("expected LockUnavailable, got {other:?}"),
    }
}

#[test]
fn lock_unavailable_does_not_collapse_to_audio_io() {
    let hf_err = HfError::LockUnavailable { path: "/x/.lock".to_string(), attempts: 16, message: "x".into() };
    assert!(!matches!(hf_err.into_asr(), AsrError::AudioIo { .. }));
}

#[test]
fn http_status_maps_to_network_with_capped_body() {
    let body = "x".repeat(300);
    let e = HfError::HttpStatus { url: "u".to_string(), status: 503, body }.into_asr();
    match e {
        AsrError::Network { url, message, source } => {
            assert_eq!(url, "u");
            assert!(source.is_none());
            assert_eq!(message, format!("HTTP 503: {}…", "x".repeat(200)));
        }
        other => panic!("expected Network, got {other:?}"),
    }
}

#[test]
fn io_error_maps_to_audio_io() {
    let e = HfError::Io { path: "/p".to_string(), message: "read".to_string(), kind: IoKind::NotFound }.into_asr();
    assert_eq!(
        e,
        AsrError::AudioIo { path: "/p".to_string(), kind: IoKind::NotFound, message: "read".to_string() }
    );
}

#[test]
fn qwen3_asr_is_multilingual_with_languages() {
    let caps = from_config(&raw(&["Qwen3ASRForConditionalGeneration"], Some("qwen3_asr"), &["English", "Chinese", "Spanish"]));
    assert!(caps.multilingual);
    assert_eq!(caps.languages, vec!["english".to_string(), "chinese".to_string(), "spanish".to_string()]);
    assert!(!caps.word_timestamps);
}

#[test]
fn whisper_supports_word_timestamps() {
    let mut r = raw(&["WhisperForConditionalGeneration"], Some("whisper"), &[]);
    r.num_languages = Some(99);
    let caps = from_config(&r);
    assert!(caps.multilingual);
    assert!(caps.word_timestamps);
    assert!(!caps.languages.is_empty());
    assert_eq!(caps.languages.len(), 99);
    assert_eq!(caps.languages[0], "en");
}

#[test]
fn unknown_arch_returns_unknown() {
    let caps = from_config(&raw(&["GladosForConditionalGeneration"], Some("audio"), &[]));
    assert_eq!(caps, ModelCapabilities::unknown());
}

#[test]
fn nested_thinker_config_is_used() {
    let mut outer = RawConfig::empty();
    outer.thinker_config = Some(Box::new(raw(&["Qwen3ASRForConditionalGeneration"], Some("qwen3_asr"), &["English", "Japanese"])));
    let caps = from_config(&outer);
    assert!(caps.multilingual);
    assert_eq!(caps.languages, vec!["english".to_string(), "japanese".to_string()]);
}

#[test]
fn empty_config_yields_unknown() {
    assert_eq!(from_config(&RawConfig::empty()), ModelCapabilities::unknown());
}

#[test]
fn arch_key_recognises_families() {
    assert_eq!(arch_key("WhisperForConditionalGeneration", ""), ArchKey::Whisper);
    assert_eq!(arch_key("", "qwen3_asr"), ArchKey::Qwen3Asr);
    assert_eq!(arch_key("Glados", "audio"), ArchKey::Unknown);
}

#[test]
fn normalise_languages_lowercases_and_drops_repeats() {
    let v = vec!["English".to_string(), "english".to_string(), "".to_string(), "German".to_string()];
    assert_eq!(normalise_languages(&v), vec!["english".to_string(), "german".to_string()]);
}

#[test]
fn torch_dtype_bf16() {
    assert_eq!(from_torch_dtype("bfloat16"), Quantization::Bf16);
    assert_eq!(from_torch_dtype("BF16"), Quantization::Bf16);
    assert_eq!(from_torch_dtype(" bf16 "), Quantization::Bf16);
}

#[test]
fn torch_dtype_f16() {
    assert_eq!(from_torch_dtype("float16"), Quantization::F16);
    assert_eq!(from_torch_dtype("half"), Quantization::F16);
    assert_eq!(from_torch_dtype("fp16"), Quantization::F16);
    assert_eq!(from_torch_dtype("f16"), Quantization::F16);
}

#[test]
fn torch_dtype_f32() {
    assert_eq!(from_torch_dtype("float32"), Quantization::F32);
    assert_eq!(from_torch_dtype("float"), Quantization::F32);
    assert_eq!(from_torch_dtype("fp32"), Quantization::F32);
}

#[test]
fn torch_dtype_unknown_falls_back_to_f16() {
    assert_eq!(from_torch_dtype(""), Quantization::F16);
    assert_eq!(from_torch_dtype("int8"), Quantization::F16);
    assert_eq!(from_torch_dtype("????"), Quantization::F16);
}

#[test]
fn gguf_q4k_variants() {
    assert_eq!(from_gguf_filename("ggml-base.bin.q4_K_M"), Quantization::Q4K);
    assert_eq!(from_gguf_filename("ggml-small.Q4_K_S.bin"), Quantization::Q4K);
}

#[test]
fn gguf_q8_0_variants() {
    assert_eq!(from_gguf_filename("ggml-base.bin.q8_0"), Quantization::Q8_0);
    assert_eq!(from_gguf_filename("ggml-base.Q8.0.bin"), Quantization::Q8_0);
}

#[test]
fn gguf_q5_q6_collapse_to_q4k() {
    assert_eq!(from_gguf_filename("ggml-base.bin.q5_K_M"), Quantization::Q4K);
    assert_eq!(from_gguf_filename("ggml-base.bin.q6_K"), Quantization::Q4K);
}

#[test]
fn gguf_unquantized_is_f16() {
    assert_eq!(from_gguf_filename("ggml-base.bin"), Quantization::F16);
    assert_eq!(from_gguf_filename("model.gguf"), Quantization::F16);
}

#[test]
fn curated_is_non_empty_and_well_formed() {
    let list = curated();
    assert!(!list.is_empty());
    for d in &list {
        assert!(d.id.contains('/'), "bad id: {}", d.id);
        assert!(!d.id.starts_with('/'));
        assert!(!d.id.ends_with('/'));
    }
}

#[test]
fn curated_ids_are_unique() {
    let list = curated();
    let mut seen = std::collections::HashSet::new();
    for d in &list {
        assert!(seen.insert(d.id.clone()), "duplicate id: {}", d.id);
    }
}

#[test]
fn qwen3_language_list_has_twenty_names() {
    let l = qwen3_languages();
    assert_eq!(l.len(), 20);
    assert_eq!(l[0], "chinese");
    assert_eq!(l[19], "swedish");
}

#[test]
fn pick_required_single_file_model() {
    let siblings = vec![
        s("config.json"),
        s("preprocessor_config.json"),
        s("tokenizer_config.json"),
        s("tokenizer.json"),
        s("model.safetensors"),
        s("README.md"),
    ];
    let plan = pick_required_files(&siblings);
    let has = |needle: &str| plan.iter().any(|n| n == needle);
    assert!(has("config.json"));
    assert!(has("tokenizer.json"));
    assert!(has("model.safetensors"));
    assert!(has("preprocessor_config.json"));
    assert!(has("tokenizer_config.json"));
    assert!(!has("README.md"));
}

#[test]
fn pick_required_sharded_model() {
    let siblings = vec![
        s("config.json"),
        s("model.safetensors.index.json"),
        s("model-00001-of-00002.safetensors"),
        s("model-00002-of-00002.safetensors"),
        s("tokenizer.json"),
    ];
    let plan = pick_required_files(&siblings);
    assert!(plan.iter().any(|n| n == "model.safetensors.index.json"));
    assert_eq!(plan.iter().filter(|n| n.ends_with(".safetensors")).count(), 0);
    assert!(needs_index(&plan));
}

#[test]
fn pick_required_with_trio_tokenizer() {
    let siblings = vec![
        s("config.json"),
        s("vocab.json"),
        s("merges.txt"),
        s("tokenizer_config.json"),
        s("model.safetensors"),
    ];
    let plan = pick_required_files(&siblings);
    assert!(plan.iter().any(|n| n == "vocab.json"));
    assert!(plan.iter().any(|n| n == "merges.txt"));
    assert!(!plan.iter().any(|n| n == "tokenizer.json"));
    assert!(!needs_index(&plan));
}

#[test]
fn pick_required_takes_loose_shards_in_listing_order() {
    let siblings = vec![s("model-2.safetensors"), s("config.json"), s("model-1.safetensors")];
    assert_eq!(
        pick_required_files(&siblings),
        vec!["config.json".to_string(), "model-2.safetensors".to_string(), "model-1.safetensors".to_string()]
    );
}

#[test]
fn shard_index_lists_each_shard_once_sorted() {
    let text = r#"{"weight_map":{"a":"model-00002.safetensors","b":"model-00001.safetensors","c":"model-00002.safetensors","d":7}}"#;
    let files = shard_files("Qwen/X", "main", text).unwrap();
    assert_eq!(files, vec!["model-00001.safetensors".to_string(), "model-00002.safetensors".to_string()]);
}

#[test]
fn shard_index_without_weight_map_is_protocol_error() {
    match shard_files("Qwen/X", "main", r#"{"metadata":{}}"#) {
        Err(HfError::Protocol { url, message }) => {
            assert_eq!(url, "https://huggingface.co/Qwen/X/resolve/main/model.safetensors.index.json");
            assert_eq!(message, "missing weight_map");
        }
        other => panic!("expected Protocol, got {other:?}"),
    }
}

#[test]
fn shard_index_that_is_not_json_is_json_error() {
    match shard_files("Qwen/X", "main", "not json") {
        Err(HfError::Json { context, .. }) => assert_eq!(context, "model.safetensors.index.json"),
        other => panic!("expected Json, got {other:?}"),
    }
}

#[test]
fn weight_map_values_sorted_from_parsed_form() {
    let parsed = Ok(Some(vec![Some("b".to_string()), None, Some("a".to_string()), Some("b".to_string())]));
    assert_eq!(shards_from_weight_map("o/n", "r", parsed).unwrap(), vec!["a".to_string(), "b".to_string()]);
}

#[test]
fn model_dir_layout_is_org_name_revision() {
    assert_eq!(model_dir("/cache", "Qwen/Qwen3-ASR-0.6B", "main"), "/cache/Qwen/Qwen3-ASR-0.6B/main");
}

#[test]
fn lock_and_capabilities_paths() {
    let dir = "/cache/Qwen/Qwen3-ASR-0.6B/main";
    assert_eq!(lock_path(dir), "/cache/Qwen/Qwen3-ASR-0.6B/main/.lock");
    assert_eq!(capabilities_cache_path(dir), "/cache/Qwen/Qwen3-ASR-0.6B/main/.capabilities.json");
    assert_eq!(marker_path(dir), "/cache/Qwen/Qwen3-ASR-0.6B/main/.complete");
}

#[test]
fn default_cache_root_uses_voxora_subdir() {
    let root = cache_root_from(None, Some("/home/u/.cache".to_string()));
    assert!(root.ends_with("voxora/models/huggingface"));
    assert_eq!(cache_root_from(Some("/override".to_string()), Some("/c".to_string())), "/override");
}

#[test]
fn ensure_dir_rejects_file_at_path() {
    assert!(matches!(plan_ensure_dir("/x", true, false), Err(HfError::Io { .. })));
    assert_eq!(plan_ensure_dir("/x", true, true), Ok(false));
    assert_eq!(plan_ensure_dir("/x", false, false), Ok(true));
}

#[test]
fn partial_names_are_recognised() {
    assert!(is_partial("model.safetensors.partial"));
    assert!(is_partial("model.partial"));
    assert!(is_partial("model.safetensors.partial.1a2b-0"));
    assert!(is_partial(".partial"));
    assert!(!is_partial("model.safetensors"));
    assert!(!is_partial("config.json"));
    assert!(!is_partial("model.part"));
}

#[test]
fn download_temp_files_are_swept() {
    let tmp = voxora::paths::partial_path("/cache/org/m/main/model.safetensors", "1a2b-0");
    assert_eq!(tmp, "/cache/org/m/main/model.safetensors.partial.1a2b-0");
    let name = tmp.rsplit('/').next().unwrap();
    assert!(is_partial(name));
    let tmp = voxora::paths::partial_path("/cache/org/m/main/merges", "ff-3");
    assert_eq!(tmp, "/cache/org/m/main/merges.bin.partial.ff-3");
    assert!(is_partial(tmp.rsplit('/').next().unwrap()));
}

#[test]
fn list_cached_finds_a_complete_model() {
    let entries = vec![
        EntryFacts { name: "config.json".to_string(), is_file: Some(true), len: Some(10) },
        EntryFacts { name: ".complete".to_string(), is_file: Some(true), len: Some(0) },
        EntryFacts { name: "sub".to_string(), is_file: Some(false), len: Some(4096) },
    ];
    let m = describe("/c/o/n/main", &entries).expect("has files");
    assert_eq!(m, CachedModel::new("/c/o/n/main".to_string(), 10, 2, true));
}

#[test]
fn list_cached_finds_a_partial_model_without_marker() {
    let entries = vec![EntryFacts { name: "config.json".to_string(), is_file: Some(true), len: Some(5) }];
    let m = describe("/c/o/n/main", &entries).expect("has files");
    assert!(!m.complete_marker_present);
    assert_eq!(m.file_count, 1);
}

#[test]
fn list_cached_skips_bare_organisations_and_names() {
    let entries = vec![EntryFacts { name: "nested".to_string(), is_file: Some(false), len: None }];
    assert!(describe("/c/o", &entries).is_none());
}

#[test]
fn sidecar_targets_strip_the_suffix() {
    assert_eq!(sidecar_target("model.safetensors.sha256").as_deref(), Some("model.safetensors"));
    assert_eq!(sidecar_target("config.json"), None);
}

#[test]
fn sidecar_check_accepts_matching_digest() {
    let digest = "2cf24dba5fb0a30e26e83b2ac5b9e29e1b161e5c1fa7425e73043362938b9824";
    assert!(check_sidecar("/d/f", "f", &format!("{}  f\n", digest.to_uppercase()), b"hello").is_ok());
}

#[test]
fn sidecar_check_reports_mismatch() {
    match check_sidecar("/d/f", "f", "abc", b"hello") {
        Err(HfError::Protocol { url, message }) => {
            assert_eq!(url, "/d/f");
            assert_eq!(
                message,
                "sha256 mismatch for f: expected abc, got 2cf24dba5fb0a30e26e83b2ac5b9e29e1b161e5c1fa7425e73043362938b9824"
            );
        }
        other => panic!("expected Protocol, got {other:?}"),
    }
}

#[test]
fn drop_swallows_not_found() {
    let mut g = TmpGuard::new("/tmp/missing.tmp");
    assert_eq!(g.take_path().as_deref(), Some("/tmp/missing.tmp"));
    assert_eq!(g.take_path(), None);
}

#[test]
fn disarm_path_returns_none_after_disarm() {
    let mut g = TmpGuard::new("/tmp/x.tmp");
    assert_eq!(g.path(), Some("/tmp/x.tmp"));
    assert!(g.is_armed());
    g.disarm();
    assert!(!g.is_armed());
    assert_eq!(g.path(), None);
    assert_eq!(g.take_path(), None);
}

#[test]
fn absolute_joins_base_and_path() {
    assert_eq!(absolute("https://h.co", "/api"), "https://h.co/api");
    assert_eq!(absolute("https://h.co", "api"), "https://h.co/api");
}

#[test]
fn client_builder_trims_base_url() {
    let s = HfClientBuilder::new().base_url("http://localhost:1/").timeout(5).settings();
    assert_eq!(s.base_url, "http://localhost:1");
    assert_eq!(s.timeout_secs, 5);
}

#[test]
fn source_builder_prefers_explicit_token() {
    let s = HuggingFaceSourceBuilder::new()
        .token(Some("hf_x".to_string()))
        .cache_dir("/c")
        .default_revision("dev")
        .settings(Some("hf_env".to_string()), "/default".to_string());
    assert_eq!(s.client.token.as_deref(), Some("hf_x"));
    assert_eq!(s.cache_root, "/c");
    assert_eq!(s.default_revision, "dev");
}

#[test]
fn source_builder_defers_to_environment() {
    let s = HuggingFaceSourceBuilder::new().settings(Some("hf_env".to_string()), "/default".to_string());
    assert_eq!(s.client.token.as_deref(), Some("hf_env"));
    assert_eq!(s.cache_root, "/default");
    assert_eq!(s.default_revision, "main");
}

#[test]
fn env_token_first_non_empty_wins() {
    assert_eq!(pick_env_token(Some("".to_string()), Some("b".to_string())).as_deref(), Some("b"));
    assert_eq!(pick_env_token(Some("a".to_string()), Some("b".to_string())).as_deref(), Some("a"));
    assert_eq!(pick_env_token(None, Some("".to_string())), None);
}

#[test]
fn revision_defaults_when_unset() {
    assert_eq!(pick_revision(None, "main"), "main");
    assert_eq!(pick_revision(Some("v1".to_string()), "main"), "v1");
}

#[test]
fn qwen3_checkpoint_is_bf16() {
    let cfg = raw(&["Qwen3ASRForConditionalGeneration"], Some("qwen3_asr"), &[]);
    let q = detect_quantization(Some(&cfg), br#"{"torch_dtype":"float32"}"#, &vec![]);
    assert_eq!(q, Quantization::Bf16);
}

#[test]
fn torch_dtype_decides_before_file_names() {
    let cfg = raw(&["WhisperForConditionalGeneration"], Some("whisper"), &[]);
    let names = vec!["ggml-base.q8_0.bin".to_string()];
    assert_eq!(detect_quantization(Some(&cfg), br#"{"torch_dtype":"float32"}"#, &names), Quantization::F32);
    assert_eq!(detect_quantization(Some(&cfg), br#"{"x":1}"#, &names), Quantization::Q8_0);
}

#[test]
fn resolve_single_file_detects_q4_quantization_from_filename() {
    let names = vec!["README.md".to_string(), "ggml-small.q4_k.bin".to_string()];
    assert_eq!(detect_quantization(None, b"", &names), Quantization::Q4K);
    assert_eq!(detect_quantization(None, b"", &vec!["README.md".to_string()]), Quantization::F16);
}

#[test]
fn cached_capabilities_read_flags_and_string_languages() {
    let c = read_cached(br#"{"multilingual":true,"word_timestamps":"yes","languages":["en",3,"de"]}"#).unwrap();
    assert!(c.multilingual);
    assert!(!c.word_timestamps);
    assert!(!c.streaming);
    assert_eq!(c.languages, vec!["en".to_string(), "de".to_string()]);
    assert_eq!(read_cached(b"[1,2]"), None);
    assert_eq!(read_cached(b"{}"), Some(ModelCapabilities::unknown()));
}

fn entry(org: &str, name: &str, rev: &str, files: usize) -> CachedEntry {
    CachedEntry {
        org: org.to_string(),
        name: name.to_string(),
        revision: rev.to_string(),
        model: CachedModel::new(format!("/c/{org}/{name}/{rev}"), 0, files, false),
    }
}

#[test]
fn list_cached_handles_multiple_revisions_of_one_model() {
    let found = vec![entry("o", "n", "main", 1), entry("o", "n", "dev", 2), entry("a-b", "x", "main", 3), entry("a", "x", "main", 4)];
    let paths: Vec<String> = order_cached(found).into_iter().map(|e| e.model.path).collect();
    assert_eq!(paths, vec!["/c/a/x/main", "/c/a-b/x/main", "/c/o/n/dev", "/c/o/n/main"]);
}

#[test]
fn cached_listing_order_matches_path_order() {
    let names = ["a", "a-b", "a.b", "b", "A", "é"];
    let mut found = Vec::new();
    for (i, o) in names.iter().enumerate() {
        found.push(entry(o, "n", "r", i + 1));
    }
    let mut expected: Vec<std::path::PathBuf> = names.iter().map(|o| std::path::Path::new("/c").join(o).join("n").join("r")).collect();
    expected.sort();
    let got: Vec<std::path::PathBuf> = order_cached(found).into_iter().map(|e| std::path::PathBuf::from(e.model.path)).collect();
    assert_eq!(got, expected);
}

#[test]
fn list_cached_keeps_the_last_entry_of_a_path() {
    let found = vec![entry("o", "n", "r", 1), entry("o", "n", "r", 2)];
    let out = order_cached(found);
    assert_eq!(out.len(), 1);
    assert_eq!(out[0].model.file_count, 2);
}

#[test]
fn retries_exhausted_variant_shape() {
    let err = HfError::RetriesExhausted {
        url: "https://example.test/x".to_string(),
        attempts: 3,
        last_error: "HTTP 503".to_string(),
    };
    assert_eq!(err.message(), "retries exhausted after 3 attempt(s) at https://example.test/x: HTTP 503");
    assert_eq!(
        err.into_asr(),
        AsrError::Network {
            url: "https://example.test/x".to_string(),
            message: "retries exhausted after 3 attempt(s): HTTP 503".to_string(),
            source: None,
        }
    );
}

#[test]
fn error_messages_follow_display_formats() {
    assert_eq!(HfError::InvalidInput("x".to_string()).message(), "invalid input: x");
    assert_eq!(
        HfError::HttpStatus { url: "u".to_string(), status: 404, body: "nope".to_string() }.message(),
        "HTTP 404 at u: nope"
    );
    assert_eq!(
        HfError::LockUnavailable { path: "/l".to_string(), attempts: 2, message: "busy".to_string() }.message(),
        "could not acquire lock at /l after 2 attempt(s): busy"
    );
}

#[test]
fn empty_explicit_token_forces_anonymous_requests() {
    let s = HuggingFaceSourceBuilder::new()
        .token(Some(String::new()))
        .settings(Some("hf_env".to_string()), "/default".to_string());
    assert_eq!(s.client.token, None);
}

#[test]
fn no_explicit_token_reads_the_environment() {
    let s = HuggingFaceSourceBuilder::new()
        .token(None)
        .settings(Some("hf_env".to_string()), "/default".to_string());
    assert_eq!(s.client.token.as_deref(), Some("hf_env"));
}

#[test]
fn files_already_present_are_not_fetched_again() {
    let names: Vec<String> = ["config.json", "vocab.json", "model.safetensors"].iter().map(|s| s.to_string()).collect();
    assert_eq!(
        voxora::hf::plan::pending_files(&names, &vec![true, false, false]),
        vec!["vocab.json".to_string(), "model.safetensors".to_string()]
    );
    assert!(voxora::hf::plan::pending_files(&names, &vec![true, true, true]).is_empty());
    assert_eq!(voxora::hf::plan::pending_files(&names, &vec![false]), names);
}

fn sib(names: &[&str]) -> Vec<Sibling> {
    names.iter().map(|n| Sibling { rfilename: n.to_string() }).collect()
}

fn strings(names: &[&str]) -> Vec<String> {
    names.iter().map(|n| n.to_string()).collect()
}

#[test]
fn download_steps_write_the_marker_last() {
    let (m, r) = ("org/model", "main");
    let (s, a) = download_step(m, r, S::Start, E::Begin);
    assert_eq!(a, A::CheckMarker);
    let (s, a) = download_step(m, r, s, E::MarkerPresent(false));
    assert_eq!(a, A::PrepareDir);
    let (s, a) = download_step(m, r, s, E::Succeeded);
    assert_eq!(a, A::ClearMarker);
    let (s, a) = download_step(m, r, s, E::Succeeded);
    assert_eq!(a, A::FetchMetadata);
    let listing = sib(&["config.json", "vocab.json", "merges.txt", "tokenizer_config.json", "model.safetensors.index.json", "README.md"]);
    let (s, a) = download_step(m, r, s, E::Metadata(listing));
    assert_eq!(a, A::FetchIndex);
    let index = r#"{"weight_map":{"a":"model-2.safetensors","b":"model-1.safetensors","c":"model-2.safetensors"}}"#;
    let (s, a) = download_step(m, r, s, E::IndexText(index.to_string()));
    let files = match a {
        A::CheckPresent(f) => f,
        other => panic!("expected CheckPresent, got {other:?}"),
    };
    assert_eq!(&files[..2], &strings(&["model-1.safetensors", "model-2.safetensors"])[..]);
    assert!(files.contains(&"config.json".to_string()));
    assert!(files.contains(&"model.safetensors.index.json".to_string()));
    let present: Vec<bool> = files.iter().map(|f| f == "config.json" || f == "model-1.safetensors").collect();
    let (s, a) = download_step(m, r, s, E::Present(present));
    match a {
        A::Download { repo, files: names } => {
            assert_eq!(repo, "org/model");
            assert!(!names.contains(&"config.json".to_string()));
            assert!(!names.contains(&"model-1.safetensors".to_string()));
            assert_eq!(names.len(), files.len() - 2);
        }
        other => panic!("expected Download, got {other:?}"),
    }
    let (s, a) = download_step(m, r, s, E::Succeeded);
    assert_eq!(a, A::VerifySidecars);
    let (s, a) = download_step(m, r, s, E::Succeeded);
    assert_eq!(a, A::WriteMarker);
    let (s, a) = download_step(m, r, s, E::Succeeded);
    assert_eq!(a, A::SweepPartials);
    let (s, a) = download_step(m, r, s, E::Succeeded);
    assert_eq!(a, A::Finish(Ok(())));
    assert_eq!(s, S::Done);
}

#[test]
fn download_steps_stop_on_failure_and_skip_when_complete() {
    let err = HfError::Io { path: "/c/x".to_string(), message: "sha256 mismatch".to_string(), kind: voxora::asr::IoKind::Other };
    let (s, a) = download_step("org/m", "main", S::Verifying, E::Failed(err.clone()));
    assert_eq!(a, A::Finish(Err(err)));
    assert_eq!(s, S::Done);
    let (_, a) = download_step("org/m", "main", S::CheckingMarker, E::MarkerPresent(true));
    assert_eq!(a, A::Finish(Ok(())));
    let (_, a) = download_step("noslash", "main", S::Start, E::Begin);
    assert!(matches!(a, A::Finish(Err(HfError::InvalidInput(_)))));
    let (_, a) = download_step("org/m", "main", S::Downloading, E::Present(vec![]));
    assert_eq!(a, A::Finish(Err(HfError::InvalidInput("download step out of order".to_string()))));
    let (_, a) = download_step("org/m", "main", S::Indexing { plan: strings(&["config.json"]) }, E::IndexText("{}".to_string()));
    assert!(matches!(a, A::Finish(Err(HfError::Protocol { .. }))));
}

#[test]
fn request_token_comes_first() {
    assert_eq!(pick_request_token(Some("hf_req".to_string()), Some("hf_env".to_string())), Some("hf_req".to_string()));
    assert_eq!(pick_request_token(Some(String::new()), Some("hf_env".to_string())), Some("hf_env".to_string()));
    assert_eq!(pick_request_token(None, None), None);
}

#[test]
fn server_errors_are_retried_three_times_client_errors_never() {
    assert_eq!(MAX_ATTEMPTS, 3);
    assert_eq!(retry_verdict(1, 200), RetryVerdict::Accept);
    assert_eq!(retry_verdict(1, 503), RetryVerdict::Retry);
    assert_eq!(retry_verdict(2, 503), RetryVerdict::Retry);
    assert_eq!(retry_verdict(3, 503), RetryVerdict::Fail);
    assert_eq!(retry_verdict(1, 404), RetryVerdict::Fail);
    match failure_error("https://h/x", 3, 503, "down".to_string()) {
        HfError::RetriesExhausted { url, attempts, last_error } => {
            assert_eq!(url, "https://h/x");
            assert_eq!(attempts, 3);
            assert_eq!(last_error, "HTTP 503 at https://h/x: down");
        }
        other => panic!("expected RetriesExhausted, got {other:?}"),
    }
    assert_eq!(
        failure_error("https://h/x", 1, 404, "nope".to_string()),
        HfError::HttpStatus { url: "https://h/x".to_string(), status: 404, body: "nope".to_string() }
    );
    let asr = failure_error("https://h/x", 3, 503, "down".to_string()).into_asr();
    assert!(matches!(asr, voxora::asr::AsrError::Network { ref message, .. } if message.contains("retries exhausted")));
}

#[test]
fn single_file_ids_fetch_one_file_without_a_listing() {
    let id = "ggerganov/whisper.cpp/ggml-tiny.bin";
    assert_eq!(
        voxora::hf::api::split_single_file(id),
        Some(("ggerganov/whisper.cpp".to_string(), "ggml-tiny.bin".to_string()))
    );
    assert_eq!(voxora::hf::api::split_single_file("org/repo"), None);
    let (s, _) = download_step(id, "main", S::Start, E::Begin);
    let (s, _) = download_step(id, "main", s, E::MarkerPresent(false));
    let (s, _) = download_step(id, "main", s, E::Succeeded);
    let (s, a) = download_step(id, "main", s, E::Succeeded);
    assert_eq!(a, A::CheckPresent(vec!["ggml-tiny.bin".to_string()]));
    let (_, a) = download_step(id, "main", s, E::Present(vec![false]));
    assert_eq!(
        a,
        A::Download { repo: "ggerganov/whisper.cpp".to_string(), files: vec!["ggml-tiny.bin".to_string()] }
    );
}
