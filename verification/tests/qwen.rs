use voxora::asr::{AsrError, TranscribeOptions};
use voxora::qwen::engine::{build_capabilities, check_model_dir, tokenizer_plan};
use voxora::qwen::language::{known_languages, validate_lang};
use voxora::qwen::params::{build_qwen_opts, build_transcription_result, map_qwen_error, QWEN_SAMPLE_RATE};
use voxora::qwen::tokenizer::{build_qwen3_tokenizer_json, merge_lines, order_added_tokens, parse_id};

const KNOWN: [&str; 20] = [
    "chinese", "english", "cantonese", "arabic", "german", "french", "spanish", "portuguese", "indonesian",
    "italian", "korean", "russian", "thai", "vietnamese", "japanese", "turkish", "hindi", "malay", "dutch",
    "swedish",
];

#[test]
fn known_languages_is_non_empty_and_contains_english_and_chinese() {
    assert!(!known_languages().is_empty());
    assert!(known_languages().contains(&"english"));
    assert!(known_languages().contains(&"chinese"));
}

#[test]
fn known_languages_length_is_twenty() {
    assert_eq!(known_languages().len(), 20, "language list drifted");
}

#[test]
fn known_languages_have_no_duplicates() {
    let mut sorted: Vec<&str> = known_languages().to_vec();
    sorted.sort();
    sorted.dedup();
    assert_eq!(sorted.len(), known_languages().len(), "duplicate entry");
}

#[test]
fn known_languages_helper_returns_same_slice_as_constant() {
    assert_eq!(known_languages(), &KNOWN[..]);
}

#[test]
fn validate_lang_accepts_every_known_name() {
    for name in known_languages() {
        assert!(validate_lang(name).is_ok(), "validate_lang rejected a known language: {name:?}");
    }
}

#[test]
fn validate_lang_is_case_insensitive() {
    assert!(validate_lang("English").is_ok());
    assert!(validate_lang("ENGLISH").is_ok());
}

#[test]
fn validate_lang_rejects_iso_639_1_codes() {
    assert!(validate_lang("en").is_err());
    assert!(validate_lang("zh").is_err());
}

#[test]
fn validate_lang_rejects_unknown_garbage() {
    match validate_lang("klingon") {
        Err(AsrError::InvalidInput(msg)) => {
            assert!(msg.contains("klingon"), "{msg}");
            assert_eq!(msg, format!("unknown qwen3-asr language: {:?} (expected one of {:?})", "klingon", KNOWN));
        }
        other => panic!("expected InvalidInput, got {other:?}"),
    }
}

#[test]
fn validate_lang_rejects_empty_string() {
    assert!(validate_lang("").is_err());
}

#[test]
fn qwen_sample_rate_is_16khz() {
    assert_eq!(QWEN_SAMPLE_RATE, 16_000);
}

#[test]
fn build_qwen_opts_defaults_to_auto_detect() {
    let q = build_qwen_opts(&TranscribeOptions::default()).expect("default opts should build");
    assert!(q.language.is_none(), "None means auto-detect upstream");
}

#[test]
fn build_qwen_opts_normalises_language_case() {
    let q = build_qwen_opts(&TranscribeOptions::new(Some("English".into()), false, false)).expect("English");
    assert_eq!(q.language.as_deref(), Some("english"));
}

#[test]
fn build_qwen_opts_rejects_unknown_language() {
    match build_qwen_opts(&TranscribeOptions::new(Some("klingon".into()), false, false)) {
        Err(AsrError::InvalidInput(msg)) => assert!(msg.contains("klingon"), "{msg}"),
        Err(other) => panic!("expected InvalidInput, got {other:?}"),
        Ok(_) => panic!("klingon should have errored"),
    }
}

#[test]
fn build_qwen_opts_rejects_iso_639_1_codes() {
    assert!(build_qwen_opts(&TranscribeOptions::new(Some("en".into()), false, false)).is_err());
}

#[test]
fn build_qwen_opts_rejects_translate() {
    match build_qwen_opts(&TranscribeOptions::new(Some("english".into()), true, false)) {
        Err(AsrError::Unsupported("translate")) => {}
        Err(other) => panic!("expected Unsupported(\"translate\"), got {other:?}"),
        Ok(_) => panic!("translate should have errored"),
    }
}

#[test]
fn build_qwen_opts_accepts_timestamps_silently() {
    let q = build_qwen_opts(&TranscribeOptions::new(Some("english".into()), false, true)).expect("timestamps");
    assert_eq!(q.language.as_deref(), Some("english"));
}

#[test]
fn build_transcription_result_with_forced_language_echoes_caller() {
    let opts = TranscribeOptions::new(Some("english".into()), false, false);
    let r = build_transcription_result("hello world", "forced", &opts);
    assert_eq!(r.text, "hello world");
    assert_eq!(r.language.as_deref(), Some("english"));
    assert!(r.segments.is_empty(), "timestamps not supported upstream");
}

#[test]
fn build_transcription_result_with_detected_language_passes_through() {
    let r = build_transcription_result("hola mundo", "spanish", &TranscribeOptions::default());
    assert_eq!(r.text, "hola mundo");
    assert_eq!(r.language.as_deref(), Some("spanish"));
    assert!(r.segments.is_empty());
}

#[test]
fn build_transcription_result_trims_whitespace() {
    let r = build_transcription_result("  hello world  ", "english", &TranscribeOptions::default());
    assert_eq!(r.text, "hello world");
}

#[test]
fn build_transcription_result_normalises_forced_to_lowercase() {
    let opts = TranscribeOptions::new(Some("English".into()), false, false);
    let r = build_transcription_result("hello", "forced", &opts);
    assert_eq!(r.language.as_deref(), Some("english"));
}

#[test]
fn build_transcription_result_with_empty_text_stays_empty() {
    let r = build_transcription_result("", "english", &TranscribeOptions::default());
    assert_eq!(r.text, "");
    assert_eq!(r.language.as_deref(), Some("english"));
}

#[test]
fn model_load_collapses_to_inference_with_chain_message() {
    match map_qwen_error("failed to load model: weights missing: model.safetensors") {
        AsrError::Inference(msg) => {
            assert!(msg.contains("qwen3-asr"), "{msg}");
            assert!(msg.contains("model.safetensors"), "{msg}");
        }
        other => panic!("expected Inference, got {other:?}"),
    }
}

#[test]
fn audio_decode_collapses_to_inference() {
    assert_eq!(
        map_qwen_error("WAV header truncated"),
        AsrError::Inference("qwen3-asr: WAV header truncated".to_string())
    );
}

#[test]
fn inference_collapses_to_inference() {
    match map_qwen_error("shape mismatch") {
        AsrError::Inference(msg) => assert!(msg.contains("shape mismatch"), "{msg}"),
        other => panic!("expected Inference, got {other:?}"),
    }
}

#[test]
fn engine_capabilities_report_multilingual_with_known_languages() {
    let caps = build_capabilities();
    assert!(caps.multilingual, "Qwen3-ASR is multilingual");
    assert!(!caps.word_timestamps);
    assert!(!caps.streaming);
    assert_eq!(caps.languages.len(), known_languages().len());
    assert!(caps.languages.iter().any(|l| l == "english"));
    assert!(caps.languages.iter().any(|l| l == "chinese"));
}

#[test]
fn debug_impl_skips_inference_field() {
    // The engine's Debug output is built in the application layer from
    // the model directory and the capability record only; the record
    // itself renders without any engine internals.
    let rendered = format!("{:?}", build_capabilities());
    assert!(!rendered.contains("inference"));
}

#[test]
fn load_rejects_file_in_place_of_directory() {
    match check_model_dir("/tmp/file.bin", false) {
        Err(AsrError::InvalidInput(msg)) => assert!(msg.contains("not a directory"), "{msg}"),
        other => panic!("expected InvalidInput, got {other:?}"),
    }
    assert!(check_model_dir("/tmp/dir", true).is_ok());
}

#[test]
fn ensure_qwen3_tokenizer_json_noop_when_present() {
    assert_eq!(tokenizer_plan("/m", true, false, false, false), Ok(false));
}

#[test]
fn ensure_qwen3_tokenizer_json_errors_when_trio_missing() {
    match tokenizer_plan("/m", false, true, false, true) {
        Err(AsrError::ModelNotFound(msg)) => assert!(msg.contains("missing"), "{msg}"),
        other => panic!("expected ModelNotFound, got {other:?}"),
    }
}

#[test]
fn ensure_qwen3_tokenizer_json_synthesises_from_trio() {
    assert_eq!(tokenizer_plan("/m", false, true, true, true), Ok(true));
    let bytes = build_qwen3_tokenizer_json(r#"{"a":0,"b":1}"#, "a b\n", r#"{"added_tokens_decoder":{}}"#)
        .expect("synth");
    let parsed: serde_json::Value = serde_json::from_slice(&bytes).expect("parse");
    assert_eq!(parsed["model"]["type"], "BPE");
    assert_eq!(parsed["model"]["vocab"]["a"], 0);
}

#[test]
fn build_qwen3_tokenizer_json_smoke() {
    let vocab = r#"{"hello":0,"world":1}"#;
    let merges = "#version: 0.2\nh ello\nwor ld\n";
    let tok_config = r#"{"added_tokens_decoder":{"151643":{"content":"<|endoftext|>","special":true}}}"#;
    let bytes = build_qwen3_tokenizer_json(vocab, merges, tok_config).expect("synthesise");
    let parsed: serde_json::Value = serde_json::from_slice(&bytes).expect("parse");
    assert_eq!(parsed["version"], "1.0");
    assert_eq!(parsed["model"]["type"], "BPE");
    assert_eq!(parsed["model"]["vocab"]["hello"], 0);
    assert_eq!(parsed["model"]["vocab"]["world"], 1);
    let merges_arr = parsed["model"]["merges"].as_array().expect("merges array");
    assert_eq!(merges_arr.len(), 2, "comment + empty lines must be filtered");
    assert_eq!(merges_arr[0], "h ello");
    assert_eq!(merges_arr[1], "wor ld");
    let added = parsed["added_tokens"].as_array().expect("added_tokens array");
    assert_eq!(added.len(), 1);
    assert_eq!(added[0]["content"], "<|endoftext|>");
    assert_eq!(added[0]["special"], true);
    assert_eq!(added[0]["id"], 151643);
}

#[test]
fn synthesised_tokenizer_is_compact_json_in_key_order() {
    let vocab = r#"{ "b" : 1, "a\"q" : 0 }"#;
    let merges = "a b\r\n\"x\" \\y\n";
    let tok_config = r#"{"added_tokens_decoder":{"9":{"content":"<b>"},"x":{"content":"no"},"+5":{"content":"<a>","special":false}}}"#;
    let bytes = build_qwen3_tokenizer_json(vocab, merges, tok_config).expect("synthesise");
    let parsed: serde_json::Value = serde_json::from_slice(&bytes).expect("parse");
    assert_eq!(serde_json::to_vec(&parsed).unwrap(), bytes);
    let added = parsed["added_tokens"].as_array().unwrap();
    assert_eq!(added.len(), 2);
    assert_eq!(added[0]["id"], 5);
    assert_eq!(added[0]["special"], false);
    assert_eq!(added[1]["id"], 9);
    assert_eq!(added[1]["special"], serde_json::Value::Null);
    assert_eq!(added[1]["lstrip"], false);
    assert_eq!(parsed["model"]["merges"][1], "\"x\" \\y");
    assert_eq!(parsed["model"]["vocab"]["a\"q"], 0);
    assert_eq!(
        parsed["pre_tokenizer"]["pretokenizers"][0]["pattern"]["Regex"],
        "(?i:'s|'t|'re|'ve|'m|'ll|'d)|[^\\r\\n\\p{L}\\p{N}]?\\p{L}+|\\p{N}| ?[^\\s\\p{L}\\p{N}]+[\\r\\n]*|\\s*[\\r\\n]+|\\s+(?!\\S)|\\s+"
    );
    assert_eq!(parsed["decoder"]["type"], "ByteLevel");
    assert_eq!(parsed["normalizer"]["type"], "NFC");
    assert!(parsed["truncation"].is_null() && parsed["padding"].is_null());
}

#[test]
fn tokenizer_synthesis_errors_name_the_bad_file() {
    assert_eq!(build_qwen3_tokenizer_json("{", "", "{}"), Err("parse vocab.json".to_string()));
    assert_eq!(build_qwen3_tokenizer_json("{}", "", "nope"), Err("parse tokenizer_config.json".to_string()));
    assert!(build_qwen3_tokenizer_json("{}", "", "[]").is_ok());
}

#[test]
fn merge_lines_follow_str_lines() {
    assert_eq!(merge_lines("a b\r\n\r\n#c\nd e\r"), vec!["a b".to_string(), "d e\r".to_string()]);
    assert!(merge_lines("").is_empty());
    assert_eq!(merge_lines("x y"), vec!["x y".to_string()]);
}

#[test]
fn added_tokens_sorted_by_id_stably() {
    let keys = vec!["20".to_string(), "x".to_string(), "+5".to_string(), "05".to_string(), "7".to_string()];
    assert_eq!(order_added_tokens(&keys), vec![(5, 2), (5, 3), (7, 4), (20, 0)]);
}

#[test]
fn ids_parse_like_u64_from_str() {
    assert_eq!(parse_id("42"), Some(42));
    assert_eq!(parse_id("+42"), Some(42));
    assert_eq!(parse_id("+"), None);
    assert_eq!(parse_id("-1"), None);
    assert_eq!(parse_id(""), None);
    assert_eq!(parse_id("18446744073709551615"), Some(u64::MAX));
    assert_eq!(parse_id("18446744073709551616"), None);
    assert_eq!(parse_id("1a"), None);
}

#[test]
fn merge_rules_are_written_as_json_strings() {
    let bytes = build_qwen3_tokenizer_json("{}", "a\u{1}b \"c\\\tq\n", "{}").expect("synthesise");
    let text = String::from_utf8(bytes).unwrap();
    assert!(text.contains(r#""merges":["a\u0001b \"c\\\tq"]"#), "{text}");
    assert!(text.starts_with(r#"{"added_tokens":[],"decoder":{"add_prefix_space":false"#), "{text}");
    assert!(text.ends_with(r#""truncation":null,"version":"1.0"}"#), "{text}");
}
