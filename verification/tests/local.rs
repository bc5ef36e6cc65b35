use voxora::asr::{AsrError, ModelDir, ModelSourceKind, Quantization, ResolveOptions};
use voxora::local::{after_fallback, after_primary, ChainStep, EntryMeta, LocalSource};

fn opts() -> ResolveOptions {
    ResolveOptions { revision: None, token: None, max_bytes: None, max_id_length: None }
}

fn file(len: u64) -> Option<EntryMeta> {
    Some(EntryMeta { is_symlink: false, is_file: true, len })
}

#[test]
fn source_name_returns_local() {
    assert_eq!(LocalSource::new("/srv/models").name(), "local");
}

#[test]
fn local_source_name_returns_local() {
    let source = LocalSource::new("/srv/models");
    assert_eq!(source.name(), "local");
}

#[test]
fn root_is_returned_verbatim() {
    assert_eq!(LocalSource::new("/srv/models").root(), "/srv/models");
    assert_eq!(LocalSource::new("/srv/models/").root(), "/srv/models/");
}

#[test]
fn capabilities_for_returns_unknown() {
    let caps = LocalSource::new("/srv/models").capabilities_for("anything").expect("caps");
    assert_eq!(caps, voxora::asr::ModelCapabilities::unknown());
}

#[test]
fn list_available_returns_unsupported() {
    match LocalSource::new("/srv/models").list_available() {
        Err(AsrError::Unsupported("list_available")) => {}
        other => panic!("expected Unsupported(\"list_available\"), got {other:?}"),
    }
}

#[test]
fn resolve_existing_file_returns_entry() {
    let src = LocalSource::new("/srv/models");
    let entry = src.check_request("org/repo/model.bin", &opts()).expect("accepted");
    assert_eq!(entry, "/srv/models/org/repo/model.bin");
    let dir = src.admit_entry("org/repo/model.bin", &entry, file(7), &opts()).expect("resolved");
    assert_eq!(dir.path, "/srv/models");
    assert_eq!(dir.entry.as_deref(), Some("/srv/models/org/repo/model.bin"));
    assert_eq!(dir.kind, ModelSourceKind::Local);
    assert_eq!(dir.quantization, Quantization::F16);
}

#[test]
fn resolve_missing_file_returns_model_not_found_naming_the_path() {
    let src = LocalSource::new("/srv/models");
    let entry = src.check_request("org/repo/model.bin", &opts()).unwrap();
    match src.admit_entry("org/repo/model.bin", &entry, None, &opts()) {
        Err(AsrError::ModelNotFound(msg)) => {
            assert_eq!(msg, "local model not found at /srv/models/org/repo/model.bin");
            assert!(!msg.contains("(root: "));
        }
        other => panic!("expected ModelNotFound, got {other:?}"),
    }
}

#[test]
fn resolve_missing_directory_returns_model_not_found() {
    let src = LocalSource::new("/srv/models");
    let not_file = Some(EntryMeta { is_symlink: false, is_file: false, len: 0 });
    assert!(matches!(
        src.admit_entry("org/repo", "/srv/models/org/repo", not_file, &opts()),
        Err(AsrError::ModelNotFound(_))
    ));
}

#[test]
fn resolve_trailing_slash_on_root_matches_no_trailing_slash() {
    let a = LocalSource::new("/srv/models/").check_request("org/repo/model.bin", &opts()).unwrap();
    let b = LocalSource::new("/srv/models").check_request("org/repo/model.bin", &opts()).unwrap();
    assert_eq!(a, b);
    assert!(!a.contains("//"));
}

#[test]
fn resolve_rejects_path_traversal_relative() {
    match LocalSource::new("/srv/models").check_request("../etc/passwd", &opts()) {
        Err(AsrError::InvalidInput(msg)) => {
            assert_eq!(msg, "path traversal: .. segment in id \"../etc/passwd\"");
        }
        other => panic!("expected InvalidInput, got {other:?}"),
    }
}

#[test]
fn resolve_rejects_path_traversal_in_subpath() {
    assert!(matches!(
        LocalSource::new("/srv/models").check_request("org/../../escape.bin", &opts()),
        Err(AsrError::InvalidInput(_))
    ));
}

#[test]
fn cur_dir_at_the_start_is_rejected_but_inner_dots_fold() {
    match LocalSource::new("").check_request("./model.bin", &opts()) {
        Err(AsrError::InvalidInput(msg)) => assert!(msg.contains(". segment")),
        other => panic!("expected InvalidInput, got {other:?}"),
    }
    assert_eq!(
        LocalSource::new("/srv").check_request("a/./b.bin", &opts()).unwrap(),
        "/srv/a/./b.bin"
    );
}

#[test]
fn resolve_rejects_absolute_id_outside_root() {
    match LocalSource::new("/srv/models").check_request("/etc/passwd", &opts()) {
        Err(AsrError::InvalidInput(msg)) => {
            assert_eq!(msg, "absolute path outside the configured root: id \"/etc/passwd\"");
            assert!(!msg.contains("/srv/models"));
        }
        other => panic!("expected InvalidInput, got {other:?}"),
    }
    assert_eq!(
        LocalSource::new("/srv/models").check_request("/srv/models/x.bin", &opts()).unwrap(),
        "/srv/models/x.bin"
    );
    assert!(LocalSource::new("/srv/models").check_request("/srv/models-evil/x.bin", &opts()).is_err());
}

#[test]
fn resolve_rejects_symlink_pointing_outside_root() {
    let link = Some(EntryMeta { is_symlink: true, is_file: false, len: 0 });
    match LocalSource::new("/srv").admit_entry("link.bin", "/srv/link.bin", link, &opts()) {
        Err(AsrError::InvalidInput(msg)) => assert_eq!(msg, "refusing to follow symlink at id \"link.bin\""),
        other => panic!("expected InvalidInput, got {other:?}"),
    }
}

#[test]
fn resolve_rejects_oversized_model_id() {
    let oversized = "a".repeat(5000);
    match LocalSource::new("/srv").check_request(&oversized, &opts()) {
        Err(AsrError::InvalidInput(msg)) => {
            assert!(msg.contains("too long"));
            assert_eq!(msg, "model id too long (max 4096 bytes): 5000 bytes");
        }
        other => panic!("expected InvalidInput, got {other:?}"),
    }
}

#[test]
fn resolve_rejects_oversized_file_with_max_bytes() {
    let tight = ResolveOptions::with_max_bytes(1024);
    match LocalSource::new("/srv").admit_entry("big.bin", "/srv/big.bin", file(2048), &tight) {
        Err(AsrError::InvalidInput(msg)) => {
            assert_eq!(msg, "file too large (2048 bytes > max_bytes 1024)");
        }
        other => panic!("expected InvalidInput, got {other:?}"),
    }
}

#[test]
fn resolve_accepts_file_at_exact_max_bytes() {
    let tight = ResolveOptions::with_max_bytes(1024);
    let d = LocalSource::new("/srv").admit_entry("exact.bin", "/srv/exact.bin", file(1024), &tight).unwrap();
    assert!(d.entry.is_some());
}

#[test]
fn resolve_error_message_does_not_leak_root() {
    let secret_root = "/secret/path/that/should/not/leak";
    let source = LocalSource::new(secret_root);
    let joined = format!("{secret_root}/missing/file.bin");
    let err = source.admit_entry("missing/file.bin", &joined, None, &opts()).expect_err("missing file");
    let rendered = err.message();
    assert!(
        !rendered.contains("(root: "),
        "ModelNotFound message must not annotate the configured root: {rendered}",
    );
    assert!(
        !rendered.contains("root: /secret"),
        "ModelNotFound message must not echo the configured root: {rendered}",
    );
}

#[test]
fn resolve_invalid_input_message_does_not_leak_root() {
    let secret_root = "/secret/path/that/should/not/leak";
    let source = LocalSource::new(secret_root);
    let err = source.check_request("../escape", &opts()).expect_err("path traversal must fail");
    let rendered = err.message();
    assert!(
        !rendered.contains(secret_root),
        "InvalidInput message must not contain the configured root: {rendered}",
    );
    assert!(
        rendered.contains("../escape"),
        "InvalidInput message must echo the user-supplied id: {rendered}",
    );
}

#[test]
fn error_messages_render_each_kind() {
    assert_eq!(AsrError::InvalidInput("x".to_string()).message(), "invalid input: x");
    assert_eq!(AsrError::Unsupported("list_available").message(), "unsupported: list_available");
    assert_eq!(AsrError::ModelNotFound("m".to_string()).message(), "model not found: m");
    assert_eq!(
        AsrError::lock_unavailable("/l".to_string(), 3, "busy".to_string()).message(),
        "could not acquire lock at /l after 3 attempt(s): busy"
    );
}

#[test]
fn resolve_rejects_oversized_id_via_max_id_length_option() {
    let o = ResolveOptions::with_max_id_length(100);
    let oversized = "a".repeat(200);
    assert!(matches!(LocalSource::new("/srv").check_request(&oversized, &o), Err(AsrError::InvalidInput(_))));
    assert!(LocalSource::new("/srv").check_request(&"a".repeat(100), &o).is_ok());
}

fn hit(root: &str) -> Result<ModelDir, AsrError> {
    Ok(ModelDir::with_entry(root.to_string(), format!("{root}/m.bin"), ModelSourceKind::Local, Quantization::F16))
}

#[test]
fn chained_source_prefers_primary_on_hit() {
    assert_eq!(after_primary(hit("/a")), ChainStep::Done(hit("/a")));
}

#[test]
fn chained_source_falls_back_on_local_miss() {
    let step = after_primary(Err(AsrError::ModelNotFound("local model not found at /a/m.bin".to_string())));
    match step {
        ChainStep::TryFallback(msg) => {
            assert_eq!(msg, "local model not found at /a/m.bin");
            assert_eq!(after_fallback(&msg, hit("/b")), hit("/b"));
        }
        other => panic!("expected a fallback, got {other:?}"),
    }
}

#[test]
fn chained_source_reports_primary_miss_when_both_miss() {
    let r = after_fallback(
        "local model not found at /a/m.bin",
        Err(AsrError::ModelNotFound("local model not found at /b/m.bin".to_string())),
    );
    match r {
        Err(AsrError::ModelNotFound(msg)) => {
            assert!(msg.contains("/a/m.bin"));
            assert_eq!(
                msg,
                "primary miss: local model not found at /a/m.bin; fallback miss: model not found: local model not found at /b/m.bin"
            );
        }
        other => panic!("expected ModelNotFound, got {other:?}"),
    }
}

#[test]
fn chained_source_propagates_non_miss_errors() {
    let e = Err(AsrError::InvalidInput("bad".to_string()));
    assert_eq!(after_primary(e.clone()), ChainStep::Done(e.clone()));
    assert_eq!(after_fallback("miss", e.clone()), e);
}
