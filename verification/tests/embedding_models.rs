//! Which embedding models are known.

use mdya::embedding::{
    classify_model, find_on_device_preset, is_supported_model, on_device_model_ids,
    select_backend, EmbedError, ModelKind, RURI_V3_30M_MODEL_ID,
};

#[test]
fn classify_model_recognizes_the_ruri_default() {
    assert!(matches!(
        classify_model(RURI_V3_30M_MODEL_ID),
        Some(ModelKind::OnDevice)
    ));
}

#[test]
fn find_on_device_preset_returns_ruri_with_its_prefixes() {
    let preset = find_on_device_preset(RURI_V3_30M_MODEL_ID).expect("ruri preset registered");
    assert_eq!(preset.model_id, RURI_V3_30M_MODEL_ID);
    assert_eq!(preset.prefixes.apply_query("x"), "検索クエリ: x");
    assert_eq!(preset.prefixes.apply_passage("y"), "検索文書: y");
}

#[test]
fn find_on_device_preset_is_none_for_an_ollama_value() {
    assert!(find_on_device_preset("ollama:nomic-embed-text").is_none());
}

#[test]
fn is_supported_model_accepts_presets_and_ollama_rejects_unknown() {
    assert!(is_supported_model(RURI_V3_30M_MODEL_ID));
    assert!(is_supported_model("ollama:nomic-embed-text"));
    assert!(!is_supported_model("some/other-model"));
}

#[test]
fn on_device_model_ids_lists_the_ruri_default() {
    assert!(on_device_model_ids().contains(&RURI_V3_30M_MODEL_ID));
}

#[test]
fn classify_model_recognizes_an_ollama_prefix() {
    assert!(matches!(
        classify_model("ollama:nomic-embed-text"),
        Some(ModelKind::Ollama)
    ));
}

#[test]
fn classify_model_rejects_an_unknown_model() {
    assert!(classify_model("some/other-model").is_none());
}

#[test]
fn build_embedder_rejects_an_unsupported_model() {
    let result = select_backend("some/other-model");
    assert!(matches!(
        result,
        Err(EmbedError::UnsupportedModel(ref m)) if m == "some/other-model"
    ));
}
