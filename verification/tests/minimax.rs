use voxora::asr::{AsrError, TranscribeOptions};
use voxora::minimax::client::{
    check_audio, client_settings, first_multipart_field, multipart_model, parse_error_body, parse_status_only,
    speech_url, OaiError, OaiErrorDetail, DEFAULT_ENDPOINT, DEFAULT_MODEL, DEFAULT_TIMEOUT_SECS, MAX_AUDIO_BYTES,
};
use voxora::minimax::config::{MiniMaxConfig, MiniMaxConfigError};
use voxora::minimax::engine::build_capabilities;
use voxora::minimax::language::{known_languages_bcp47, validate_lang_bcp47};
use voxora::minimax::params::{apply, collect_result, MiniMaxParams, MiniMaxParamsApply, SegmentReply, TimestampLevel};
use voxora::minimax::wav::write_wav_pcm_f32;

const KNOWN: [&str; 20] = [
    "zh", "yue", "en", "ja", "ko", "th", "vi", "id", "ms", "fil", "ar", "tr", "fr", "de", "es", "it", "pt", "pl",
    "ru", "uk",
];

#[test]
fn language_known_languages_length_is_twenty() {
    assert_eq!(known_languages_bcp47().len(), 20, "language list drifted from the documented 20 entries");
}

#[test]
fn known_languages_contains_english_and_chinese() {
    assert!(known_languages_bcp47().contains(&"en"));
    assert!(known_languages_bcp47().contains(&"zh"));
    assert!(known_languages_bcp47().contains(&"yue"));
}

#[test]
fn language_known_languages_have_no_duplicates() {
    let mut sorted: Vec<&str> = known_languages_bcp47().to_vec();
    sorted.sort();
    sorted.dedup();
    assert_eq!(sorted.len(), known_languages_bcp47().len());
}

#[test]
fn language_known_languages_helper_returns_same_slice_as_constant() {
    assert_eq!(known_languages_bcp47(), &KNOWN[..]);
}

#[test]
fn validate_accepts_every_known_tag() {
    for tag in known_languages_bcp47() {
        assert!(validate_lang_bcp47(Some(tag)).is_ok());
    }
}

#[test]
fn validate_is_case_insensitive() {
    assert!(validate_lang_bcp47(Some("EN")).is_ok());
    assert!(validate_lang_bcp47(Some("Yue")).is_ok());
}

#[test]
fn validate_accepts_none_for_mixed_language() {
    assert!(validate_lang_bcp47(None).is_ok());
    assert!(validate_lang_bcp47(Some("")).is_ok());
    assert!(validate_lang_bcp47(Some("   ")).is_ok());
}

#[test]
fn validate_rejects_unknown_garbage() {
    match validate_lang_bcp47(Some("klingon")) {
        Err(AsrError::InvalidInput(msg)) => {
            assert!(msg.contains("klingon"), "{msg}");
            assert_eq!(
                msg,
                format!("unknown MiniMax language: {:?} (expected one of {:?})", "klingon", KNOWN)
            );
        }
        other => panic!("expected InvalidInput, got {other:?}"),
    }
}

#[test]
fn apply_defaults_to_auto_detect() {
    let p = apply(&TranscribeOptions::default()).expect("default opts should build");
    assert!(p.language.is_none());
    assert_eq!(p.timestamp_level, TimestampLevel::Sentence);
    assert!(p.language_header().is_none());
}

#[test]
fn apply_with_language_keeps_it() {
    let p = apply(&TranscribeOptions::new(Some("en".into()), false, false)).expect("en is valid");
    assert_eq!(p.language.as_deref(), Some("en"));
    assert_eq!(p.language_header(), Some("en"));
}

#[test]
fn apply_rejects_unknown_language() {
    match apply(&TranscribeOptions::new(Some("klingon".into()), false, false)) {
        Err(AsrError::InvalidInput(msg)) => assert!(msg.contains("klingon"), "{msg}"),
        other => panic!("expected InvalidInput, got {other:?}"),
    }
}

#[test]
fn apply_rejects_translate() {
    let err = apply(&TranscribeOptions::new(Some("en".into()), true, false)).expect_err("translate");
    assert_eq!(err, AsrError::Unsupported("MiniMax does not support translation to English"));
}

#[test]
fn apply_with_timestamps_picks_word_level() {
    let p = apply(&TranscribeOptions::new(Some("en".into()), false, true)).expect("en is valid");
    assert_eq!(p.timestamp_level, TimestampLevel::Word);
    let fields = p.multipart_fields();
    assert!(fields.iter().any(|(k, v)| *k == "timestamp_level" && *v == "word"));
}

#[test]
fn apply_without_timestamps_picks_sentence_level() {
    let p = apply(&TranscribeOptions::new(Some("en".into()), false, false)).expect("en is valid");
    assert_eq!(p.timestamp_level, TimestampLevel::Sentence);
    let fields = p.multipart_fields();
    assert!(fields.iter().any(|(k, v)| *k == "timestamp_level" && v.is_empty()));
    assert_eq!(first_multipart_field(&p), ("timestamp_level", ""));
}

#[test]
fn language_header_trims_whitespace() {
    let p = MiniMaxParams { language: Some("   ".to_string()), timestamp_level: TimestampLevel::Sentence };
    assert!(p.language_header().is_none(), "whitespace must collapse to None");
    let q = MiniMaxParams { language: Some("  ja ".to_string()), timestamp_level: TimestampLevel::Sentence };
    assert_eq!(q.language_header(), Some("ja"));
}

#[test]
fn collect_result_folds_speaker_into_text() {
    let segs = vec![SegmentReply { start_sample: 0, end_sample: 16000, speaker: Some("S1".into()), text: "Hello".into() }];
    let result = collect_result("Hello".into(), segs, &TranscribeOptions::default());
    assert_eq!(result.text, "Hello");
    assert_eq!(result.segments.len(), 1);
    assert_eq!(result.segments[0].text, "[S1] Hello");
}

#[test]
fn collect_result_converts_seconds_to_samples_at_16khz() {
    let segs = vec![SegmentReply { start_sample: 8000, end_sample: 24000, speaker: None, text: "x".into() }];
    let result = collect_result("x".into(), segs, &TranscribeOptions::default());
    assert_eq!(result.segments[0].start_sample, 8000);
    assert_eq!(result.segments[0].end_sample, 24000);
    assert_eq!(result.segments[0].text, "x");
}

#[test]
fn collect_result_echoes_caller_language() {
    let opts = TranscribeOptions::new(Some("en".into()), false, false);
    let result = collect_result("Hello".into(), vec![], &opts);
    assert_eq!(result.language.as_deref(), Some("en"));
}

#[test]
fn new_accepts_non_empty_token() {
    let cfg = MiniMaxConfig::new("sk-test".to_string()).expect("non-empty token");
    assert_eq!(cfg.expose_api_key(), "sk-test");
    assert_eq!(cfg.endpoint(), DEFAULT_ENDPOINT);
    assert_eq!(cfg.model(), DEFAULT_MODEL);
    assert_eq!(cfg.timeout_secs(), DEFAULT_TIMEOUT_SECS);
}

#[test]
fn new_rejects_empty_token() {
    assert!(matches!(MiniMaxConfig::new(String::new()), Err(MiniMaxConfigError::EmptyApiKey)));
}

#[test]
fn new_rejects_whitespace_token() {
    assert!(matches!(MiniMaxConfig::new("   ".to_string()), Err(MiniMaxConfigError::EmptyApiKey)));
}

#[test]
fn config_rejects_empty_token() {
    let e = MiniMaxConfig::new("".to_string()).unwrap_err().into_asr();
    assert_eq!(e, AsrError::Config("MINIMAX_API_KEY must be non-empty".to_string()));
}

#[test]
fn debug_redacts_api_key() {
    let cfg = MiniMaxConfig::new("sk-supersecret".to_string()).unwrap();
    let rendered = format!("{cfg:?}");
    assert!(!rendered.contains("sk-supersecret"), "Debug must redact the API key: {rendered}");
    assert!(rendered.contains("redacted"), "Debug should mention redaction: {rendered}");
}

#[test]
fn builders_override_defaults() {
    let cfg = MiniMaxConfig::new("sk-test".to_string())
        .unwrap()
        .with_endpoint("http://localhost:9999")
        .with_model("asr-2.0")
        .with_timeout_secs(120);
    assert_eq!(cfg.endpoint(), "http://localhost:9999");
    assert_eq!(cfg.model(), "asr-2.0");
    assert_eq!(cfg.timeout_secs(), 120);
    assert_eq!(cfg.expose_api_key(), "sk-test");
}

#[test]
fn config_is_clone() {
    let cfg = MiniMaxConfig::new("sk-test".to_string()).unwrap();
    let cfg2 = cfg.clone();
    assert_eq!(cfg.expose_api_key(), cfg2.expose_api_key());
    assert_eq!(cfg.endpoint(), cfg2.endpoint());
}

#[test]
fn client_settings_carry_bearer_token() {
    let cfg = MiniMaxConfig::new("sk-x".to_string()).unwrap();
    let s = client_settings(&cfg);
    assert_eq!(s.auth_header, "Bearer sk-x");
    assert_eq!(speech_url(&s.endpoint), "https://api.minimax.io/v1/speech_to_text");
    assert_eq!(multipart_model(&s.model), "asr-1.0");
    assert_eq!(multipart_model("asr-2.0"), "asr-2.0");
}

#[test]
fn transcribe_rejects_empty_buffer() {
    assert!(matches!(check_audio(0), Err(AsrError::InvalidInput(_))));
}

#[test]
fn transcribe_rejects_oversized_buffer() {
    match check_audio(MAX_AUDIO_BYTES + 1) {
        Err(AsrError::InvalidInput(msg)) => {
            assert!(msg.contains("50 MB"), "{msg}");
            assert_eq!(msg, "audio exceeds 50 MB server cap (52428801 bytes)");
        }
        other => panic!("expected InvalidInput, got {other:?}"),
    }
    assert!(check_audio(MAX_AUDIO_BYTES).is_ok());
}

#[test]
fn parse_status_only_maps_each_branch() {
    assert!(matches!(parse_status_only("u", 400), AsrError::InvalidInput(_)));
    assert!(matches!(parse_status_only("u", 401), AsrError::Config(_)));
    assert!(matches!(parse_status_only("u", 402), AsrError::Config(_)));
    assert!(matches!(parse_status_only("u", 413), AsrError::InvalidInput(_)));
    assert!(matches!(parse_status_only("u", 422), AsrError::InvalidInput(_)));
    assert!(matches!(parse_status_only("u", 429), AsrError::Network { .. }));
    assert!(matches!(parse_status_only("u", 500), AsrError::Inference(_)));
    assert_eq!(parse_status_only("u", 402), AsrError::Config("MiniMax HTTP 402 auth/balance failure at u".to_string()));
    assert_eq!(parse_status_only("u", 302), AsrError::Inference("MiniMax HTTP 302 at u".to_string()));
}

#[test]
fn parse_error_body_extracts_message_from_envelope() {
    let envelope = OaiError {
        kind: Some("error".to_string()),
        error: OaiErrorDetail {
            kind: "bad_request_error".to_string(),
            message: "audio duration 623.4s exceeds the limit of 500s (2013)".to_string(),
            http_code: Some("400".to_string()),
        },
        request_id: Some("rid".to_string()),
    };
    match parse_error_body("https://api.minimax.io/v1/speech_to_text", 400, Some(&envelope)) {
        AsrError::InvalidInput(msg) => {
            assert!(msg.contains("623.4s"), "{msg}");
            assert!(msg.contains("2013"), "{msg}");
        }
        other => panic!("expected InvalidInput, got {other:?}"),
    }
}

#[test]
fn parse_error_body_handles_non_oai_body() {
    match parse_error_body("u", 500, None) {
        AsrError::Inference(msg) => {
            assert!(msg.contains("500"), "{msg}");
            assert_eq!(msg, "MiniMax 500: unknown");
        }
        other => panic!("expected Inference, got {other:?}"),
    }
    assert_eq!(
        parse_error_body("u", 429, None),
        AsrError::Network { url: "u".to_string(), message: "MiniMax 429 rate limit: unknown".to_string(), source: None }
    );
}

#[test]
fn capabilities_advertise_minimax_whitelist() {
    let caps = build_capabilities();
    assert!(caps.multilingual);
    assert!(caps.word_timestamps);
    assert!(!caps.streaming);
    assert_eq!(caps.languages.len(), 20);
    assert!(caps.languages.iter().any(|l| l == "en"));
}

#[test]
fn capabilities_report_multilingual_with_known_languages() {
    let caps = build_capabilities();
    assert!(caps.multilingual, "MiniMax is multilingual");
    assert!(caps.word_timestamps, "verbose_json returns segments[]");
    assert!(!caps.streaming, "streaming is deferred to a future release");
    assert_eq!(caps.languages.len(), known_languages_bcp47().len());
    assert!(caps.languages.iter().any(|l| l == "en"));
    assert!(caps.languages.iter().any(|l| l == "zh"));
}

fn u16_at(b: &[u8], i: usize) -> u16 {
    u16::from_le_bytes([b[i], b[i + 1]])
}

fn u32_at(b: &[u8], i: usize) -> u32 {
    u32::from_le_bytes([b[i], b[i + 1], b[i + 2], b[i + 3]])
}

#[test]
fn header_layout_matches_spec() {
    let buf = write_wav_pcm_f32(&[0u32; 4], 16_000, 1);
    assert_eq!(buf.len(), 44 + 16);
    assert_eq!(&buf[0..4], b"RIFF");
    assert_eq!(&buf[8..12], b"WAVE");
    assert_eq!(&buf[12..16], b"fmt ");
    assert_eq!(u16_at(&buf, 20), 3);
    assert_eq!(u16_at(&buf, 22), 1);
    assert_eq!(u32_at(&buf, 24), 16_000);
    assert_eq!(u16_at(&buf, 34), 32);
    assert_eq!(&buf[36..40], b"data");
}

#[test]
fn chunk_size_accounts_for_data_bytes() {
    let buf = write_wav_pcm_f32(&[0u32; 4], 16_000, 1);
    assert_eq!(u32_at(&buf, 4), 52);
}

#[test]
fn stereo_doubles_data_bytes() {
    let stereo = write_wav_pcm_f32(&[0u32; 8], 16_000, 2);
    let mono = write_wav_pcm_f32(&[0u32; 8], 16_000, 1);
    assert_eq!(mono.len(), stereo.len());
    assert_eq!(u32_at(&mono, 28), 16_000 * 4);
    assert_eq!(u32_at(&stereo, 28), 16_000 * 4 * 2);
    assert_eq!(u16_at(&mono, 32), 4);
    assert_eq!(u16_at(&stereo, 32), 8);
}

#[test]
fn samples_round_trip_through_hound() {
    let samples: Vec<f32> = (0..32).map(|i| (i as f32 / 32.0) * 2.0 - 1.0).collect();
    let bits: Vec<u32> = samples.iter().map(|s| s.to_bits()).collect();
    let buf = write_wav_pcm_f32(&bits, 16_000, 1);
    let mut reader = hound::WavReader::new(std::io::Cursor::new(buf)).expect("hound reader");
    assert_eq!(reader.spec().sample_rate, 16_000);
    assert_eq!(reader.spec().channels, 1);
    assert_eq!(reader.spec().bits_per_sample, 32);
    let decoded: Vec<f32> = reader.samples::<f32>().map(|s| s.expect("decode sample")).collect();
    assert_eq!(decoded, samples);
}

#[test]
fn new_rejects_empty_token_via_config() {
    let cfg_err = MiniMaxConfig::new(String::new()).expect_err("empty token rejected");
    assert!(matches!(cfg_err, MiniMaxConfigError::EmptyApiKey));
}

#[test]
fn transcribe_rejects_invalid_language_via_params() {
    let opts = TranscribeOptions::new(Some("klingon".into()), false, false);
    match apply(&opts).expect_err("klingon rejected") {
        AsrError::InvalidInput(msg) => assert!(msg.contains("klingon"), "{msg}"),
        other => panic!("expected InvalidInput, got {other:?}"),
    }
}

#[test]
fn transcribe_rejects_translate_via_params() {
    let opts = TranscribeOptions::new(Some("en".into()), true, false);
    assert!(matches!(apply(&opts).expect_err("translate rejected"), AsrError::Unsupported(_)));
}
