use benefice::error::Rejection;
use benefice::ingest::{text_eq, Ingest, PartKind, CONFIG_MAX};

#[test]
fn upload_with_both_parts_is_accepted() {
    let mut up = Ingest::new(1);
    assert!(matches!(up.begin_part(Some("wasm"), Some("application/wasm")), Ok(PartKind::Workload)));
    assert!(up.accept_chunk(1024).is_ok());
    assert!(matches!(up.begin_part(Some("toml"), None), Ok(PartKind::Configuration)));
    assert!(up.accept_chunk(100).is_ok());
    assert!(up.finish().is_ok());
}

#[test]
fn oversized_workload_is_rejected_at_the_chunk_that_crosses() {
    let mut up = Ingest::new(1);
    assert!(up.begin_part(Some("wasm"), Some("application/wasm")).is_ok());
    assert!(up.accept_chunk(1024 * 1024 - 1).is_ok());
    assert!(up.accept_chunk(1).is_ok());
    assert!(matches!(up.accept_chunk(1), Err(Rejection::PayloadTooLarge)));
}

#[test]
fn oversized_config_is_rejected() {
    let mut up = Ingest::new(50);
    assert!(up.begin_part(Some("toml"), None).is_ok());
    assert!(up.accept_chunk(CONFIG_MAX).is_ok());
    assert!(matches!(up.accept_chunk(1), Err(Rejection::PayloadTooLarge)));
}

#[test]
fn workload_with_wrong_type_is_unsupported() {
    let mut up = Ingest::new(1);
    assert!(matches!(up.begin_part(Some("wasm"), Some("text/plain")), Err(Rejection::UnsupportedMediaType)));
    assert!(matches!(up.begin_part(Some("wasm"), None), Err(Rejection::UnsupportedMediaType)));
}

#[test]
fn config_with_a_type_is_malformed() {
    let mut up = Ingest::new(1);
    assert!(matches!(up.begin_part(Some("toml"), Some("text/plain")), Err(Rejection::MalformedUpload)));
}

#[test]
fn repeated_parts_are_malformed() {
    let mut up = Ingest::new(1);
    assert!(up.begin_part(Some("wasm"), Some("application/wasm")).is_ok());
    assert!(matches!(up.begin_part(Some("wasm"), Some("application/wasm")), Err(Rejection::MalformedUpload)));
    assert!(up.begin_part(Some("toml"), None).is_ok());
    assert!(matches!(up.begin_part(Some("toml"), None), Err(Rejection::MalformedUpload)));
}

#[test]
fn other_parts_are_ignored_and_not_counted() {
    let mut up = Ingest::new(0);
    assert!(matches!(up.begin_part(Some("notes"), Some("text/plain")), Ok(PartKind::Ignored)));
    assert!(matches!(up.begin_part(None, None), Ok(PartKind::Ignored)));
    assert!(up.accept_chunk(usize::MAX).is_ok());
}

#[test]
fn missing_part_is_malformed() {
    let mut up = Ingest::new(1);
    assert!(matches!(up.finish(), Err(Rejection::MalformedUpload)));
    assert!(up.begin_part(Some("wasm"), Some("application/wasm")).is_ok());
    assert!(matches!(up.finish(), Err(Rejection::MalformedUpload)));
}

#[test]
fn text_eq_compares_characters() {
    assert!(text_eq("wasm", "wasm"));
    assert!(!text_eq("wasm", "wasn"));
    assert!(!text_eq("wasm", "was"));
    assert!(text_eq("", ""));
}
