use voxora::asr::{ModelCapabilities, TranscribeOptions};
use voxora::engine::backend::{BackendDescriptor, BackendKind};
use voxora::engine::family::{EngineFamily, InvalidEngineFamily};
use voxora::engine::info::EngineInfo;
use voxora::engine::testing::MockAdapter;

#[test]
fn roundtrip() {
    for k in [
        BackendKind::Cpu,
        BackendKind::Cuda,
        BackendKind::Metal,
        BackendKind::Vulkan,
    ] {
        assert_eq!(BackendKind::from_config(k.as_config()), Some(k));
    }
}

#[test]
fn rejects_unknown() {
    assert_eq!(BackendKind::from_config("webgpu"), None);
    assert_eq!(BackendKind::from_config(""), None);
}

#[test]
fn is_case_insensitive() {
    assert_eq!(BackendKind::from_config("CUDA"), Some(BackendKind::Cuda));
}

#[test]
fn cpu_descriptor_is_const() {
    let d = BackendDescriptor::cpu();
    assert_eq!(d.kind, BackendKind::Cpu);
}

#[test]
fn backend_descriptor_defaults_to_cpu() {
    let d = BackendDescriptor::cpu();
    assert_eq!(d.kind, BackendKind::Cpu);
}

#[test]
fn backend_descriptor_new_keeps_kind() {
    assert_eq!(BackendDescriptor::new(BackendKind::Metal).kind, BackendKind::Metal);
}

#[test]
fn backend_config_names_are_lowercase() {
    assert_eq!(BackendKind::Cpu.as_config(), "cpu");
    assert_eq!(BackendKind::Cuda.as_config(), "cuda");
    assert_eq!(BackendKind::Metal.as_config(), "metal");
    assert_eq!(BackendKind::Vulkan.as_config(), "vulkan");
}

#[test]
fn public_surface_lists_core_types() {
    let _: EngineFamily = EngineFamily::Whisper;
    let _: BackendKind = BackendKind::Cpu;
    let _: BackendDescriptor = BackendDescriptor::cpu();
}

#[test]
fn from_config_accepts_canonical_and_aliases() {
    assert_eq!(EngineFamily::from_config("whisper"), Some(EngineFamily::Whisper));
    assert_eq!(EngineFamily::from_config("qwen3-asr"), Some(EngineFamily::Qwen3Asr));
    assert_eq!(EngineFamily::from_config("qwen3asr"), Some(EngineFamily::Qwen3Asr));
    assert_eq!(EngineFamily::from_config("qwen3_asr"), Some(EngineFamily::Qwen3Asr));
}

#[test]
fn from_config_is_case_insensitive() {
    assert_eq!(EngineFamily::from_config("WHISPER"), Some(EngineFamily::Whisper));
    assert_eq!(EngineFamily::from_config("Qwen3-ASR"), Some(EngineFamily::Qwen3Asr));
}

#[test]
fn from_config_rejects_unknown() {
    assert_eq!(EngineFamily::from_config("parakeet"), None);
    assert_eq!(EngineFamily::from_config(""), None);
}

#[test]
fn as_config_round_trips() {
    for f in [EngineFamily::Whisper, EngineFamily::Qwen3Asr] {
        assert_eq!(EngineFamily::from_config(f.as_config()), Some(f));
    }
}

#[test]
fn from_str_error_carries_input() {
    let err: InvalidEngineFamily = "bogus".parse::<EngineFamily>().unwrap_err();
    assert_eq!(err.0, "bogus");
}

#[test]
fn parse_config_accepts_alias() {
    assert_eq!(EngineFamily::parse_config("Qwen3_ASR"), Ok(EngineFamily::Qwen3Asr));
    assert_eq!(
        EngineFamily::parse_config("nope"),
        Err(InvalidEngineFamily("nope".to_string()))
    );
}

#[test]
fn crate_labels_match_workspace_member_names() {
    assert_eq!(EngineFamily::Whisper.crate_label(), "voxora-whisper");
    assert_eq!(EngineFamily::Qwen3Asr.crate_label(), "voxora-qwen3asr");
}

#[test]
fn new_builds_minimal_info() {
    let info = EngineInfo::new(EngineFamily::Whisper, ModelCapabilities::unknown());
    assert_eq!(info.family, EngineFamily::Whisper);
    assert_eq!(info.capabilities, ModelCapabilities::unknown());
    assert!(info.model_label.is_none());
    assert!(info.source_path.is_none());
}

#[test]
fn builder_chain_appends_optional_fields() {
    let info = EngineInfo::new(EngineFamily::Qwen3Asr, ModelCapabilities::unknown())
        .with_model_label("Qwen/Qwen3-ASR-0.6B")
        .with_source_path("/models/qwen");
    assert_eq!(info.model_label.as_deref(), Some("Qwen/Qwen3-ASR-0.6B"));
    assert_eq!(info.source_path.as_deref(), Some("/models/qwen"));
}

#[test]
fn mock_reports_its_family() {
    let m = MockAdapter::new(EngineFamily::Qwen3Asr);
    assert_eq!(m.family(), EngineFamily::Qwen3Asr);
    assert_eq!(m.info().family, EngineFamily::Qwen3Asr);
}

#[test]
fn mock_with_backend_reflects_in_adapter() {
    let m = MockAdapter::new(EngineFamily::Whisper).with_backend(BackendKind::Cuda);
    assert_eq!(m.backend().kind, BackendKind::Cuda);
    assert_eq!(MockAdapter::new(EngineFamily::Whisper).backend().kind, BackendKind::Cpu);
}

#[test]
fn mock_with_capabilities_reflects_in_info() {
    let caps = ModelCapabilities::new(true, false, false, vec!["en".to_string()]);
    let m = MockAdapter::new(EngineFamily::Whisper).with_capabilities(caps.clone());
    assert_eq!(m.capabilities(), caps);
    assert_eq!(m.info().capabilities, caps);
}

#[test]
fn mock_transcribe_returns_deterministic_string() {
    let m = MockAdapter::new(EngineFamily::Qwen3Asr);
    let r = m.transcribe(8, &TranscribeOptions::default()).expect("ok");
    assert_eq!(r.text, "mock of 8 samples (None)");
}

#[test]
fn mock_transcribe_quotes_requested_language() {
    let m = MockAdapter::new(EngineFamily::Whisper);
    let opts = TranscribeOptions::new(Some("en".to_string()), false, false);
    let r = m.transcribe(3, &opts).expect("ok");
    assert_eq!(r.text, "mock of 3 samples (Some(\"en\"))");
}

#[test]
fn mock_info_labels_the_family() {
    let m = MockAdapter::new(EngineFamily::Whisper);
    assert_eq!(m.info().model_label.as_deref(), Some("mock-whisper"));
}

#[test]
fn whisper_mock_satisfies_adapter_contract() {
    let m = MockAdapter::new(EngineFamily::Whisper);
    assert_eq!(m.family(), EngineFamily::Whisper);
    assert_eq!(m.backend().kind, BackendKind::Cpu);
    let info: EngineInfo = m.info();
    assert_eq!(info.family, EngineFamily::Whisper);
}

#[test]
fn qwen_mock_satisfies_adapter_contract() {
    let m = MockAdapter::new(EngineFamily::Qwen3Asr);
    assert_eq!(m.family(), EngineFamily::Qwen3Asr);
}

#[test]
fn any_engine_capabilities_match_inner() {
    let caps = MockAdapter::new(EngineFamily::Qwen3Asr).capabilities();
    assert!(caps.multilingual);
}

#[test]
fn adapter_info_is_clonable() {
    let m = MockAdapter::new(EngineFamily::Qwen3Asr);
    let info = m.info();
    let cloned = info.clone();
    assert_eq!(info, cloned);
}

#[test]
fn invalid_family_message_names_the_input() {
    let err = EngineFamily::parse_config("bogus").unwrap_err();
    assert_eq!(err.message(), "unknown engine_family \"bogus\"; expected one of `whisper` or `qwen3-asr`");
}
