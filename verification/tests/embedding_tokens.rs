//! Token batches, attention grids and the checks around a model.

use mdya::embedding::cache::{ModelCacheError, ModelFetch};
use mdya::embedding::gemma::{
    attention_pattern, attention_shape, gemma_pad_id, gemma_pad_token, layer_kinds, window_of,
    AttentionConfig, AttentionKind, GemmaError,
};
use mdya::embedding::models::{
    accept_config, explicit_hf_token, narrow_pad_id, require_pad_token, OnDeviceModel,
    RURI_V3_30M_REVISION,
};
use mdya::embedding::ollama::{dim_from_probe, embed_url, post_error, status_error};
use mdya::embedding::tokens::{batch_of, check_vectors, stack_rows, tokenize, Encoded, TokenRow};
use mdya::embedding::{
    on_device_dim, prefix_passages, prefix_queries, EmbedError, RetrievalPrefixes,
};
use tokenizers::{PaddingParams, Tokenizer};

const VOCABULARY: &str = r#"{
  "version": "1.0", "truncation": null, "padding": null, "added_tokens": [],
  "normalizer": null, "pre_tokenizer": {"type": "Whitespace"}, "post_processor": null,
  "decoder": null,
  "model": {"type": "WordLevel", "unk_token": "[UNK]",
            "vocab": {"[UNK]": 0, "[PAD]": 1, "hello": 2, "world": 3}}
}"#;

fn tokenizer(padded: bool) -> Tokenizer {
    let mut made = Tokenizer::from_bytes(VOCABULARY.as_bytes()).expect("tokenizer");
    if padded {
        made.with_padding(Some(PaddingParams {
            pad_id: 1,
            pad_token: "[PAD]".to_string(),
            ..Default::default()
        }));
    }
    made
}

fn encoder(tokenizer: Tokenizer) -> impl Fn(&[String], bool) -> Encoded {
    move |texts: &[String], special: bool| match tokenizer.encode_batch(texts.to_vec(), special) {
        Ok(found) => Ok(found.iter().map(|e| row(e.get_ids(), e.get_attention_mask())).collect()),
        Err(e) => Err(Some(e.to_string())),
    }
}

fn texts(items: &[&str]) -> Vec<String> {
    items.iter().map(|t| t.to_string()).collect()
}

fn row(ids: &[u32], mask: &[u32]) -> TokenRow {
    TokenRow { ids: ids.to_vec(), mask: mask.to_vec() }
}

#[test]
fn texts_become_one_rectangle_of_tokens() {
    let batch = tokenize(&texts(&["hello world", "world"]), &encoder(tokenizer(true))).expect("batch");
    assert_eq!((batch.rows, batch.width), (2, 2));
    assert_eq!(batch.ids, vec![2, 3, 3, 1]);
    assert_eq!(batch.mask, vec![1, 1, 1, 0]);
}

#[test]
fn an_error_of_the_tokenizer_is_named() {
    assert_eq!(
        batch_of(&Err(Some("no model".to_string()))).expect_err("error").message(),
        "tokenizer: encode_batch: no model"
    );
    assert_eq!(
        batch_of(&Err(None)).expect_err("error").message(),
        "tokenizer: encode_batch: the tokenizer panicked"
    );
    assert_eq!(batch_of(&Ok(vec![row(&[7], &[1])])).expect("batch").ids, vec![7]);
}

#[test]
fn texts_are_encoded_with_special_tokens() {
    let seen = |texts: &[String], special: bool| -> Encoded {
        Ok(texts.iter().map(|t| row(&[t.len() as u32, special as u32], &[1, 1])).collect())
    };
    let batch = tokenize(&texts(&["a", "abc"]), &seen).expect("batch");
    assert_eq!(batch.ids, vec![1, 1, 3, 1]);
}

#[test]
fn no_text_makes_an_empty_batch() {
    let batch = tokenize(&[], &encoder(tokenizer(true))).expect("batch");
    assert_eq!((batch.rows, batch.width), (0, 0));
    assert!(batch.ids.is_empty() && batch.mask.is_empty());
}

#[test]
fn rows_of_unequal_width_are_refused() {
    let err = tokenize(&texts(&["hello", "hello world", "world"]), &encoder(tokenizer(false)))
        .expect_err("ragged");
    assert_eq!(
        err.message(),
        "tokenizer: encode_batch produced ragged rows: max_len=2, row=1"
    );
    let stacked = stack_rows(&[row(&[1, 2], &[1, 1]), row(&[3, 4], &[1, 0])]).expect("equal");
    assert_eq!(stacked.ids, vec![1, 2, 3, 4]);
    assert_eq!(stacked.mask, vec![1, 1, 1, 0]);
    assert_eq!(stack_rows(&[]).expect("none").rows, 0);
    let rows: Vec<TokenRow> =
        (0..3).map(|r| row(&[10 * r, 10 * r + 1, 10 * r + 2], &[1, 1, 1])).collect();
    let batch = stack_rows(&rows).expect("equal");
    assert_eq!(batch.ids.len(), batch.rows * batch.width);
    assert_eq!(batch.ids[2 * batch.width + 1], rows[2].ids[1]);
}

#[test]
fn vectors_must_have_the_length_of_the_model() {
    assert!(check_vectors(&[256, 256], 256).is_ok());
    assert!(check_vectors(&[], 256).is_ok());
    let err = check_vectors(&[256, 255], 256).expect_err("ragged");
    assert_eq!(err.message(), "forward pass: expected dim=256, got ragged output");
}

#[test]
fn prefixes_are_put_before_every_text() {
    let prefixes = RetrievalPrefixes::new("q: ", "p: ");
    assert_eq!(prefix_queries(&prefixes, &texts(&["a", ""])), vec!["q: a", "q: "]);
    assert_eq!(prefix_passages(&prefixes, &texts(&["b"])), vec!["p: b"]);
}

#[test]
fn models_are_pinned() {
    let ruri = OnDeviceModel::RuriV3.pin();
    assert_eq!(ruri.model_id, "cl-nagoya/ruri-v3-30m");
    assert_eq!(ruri.dim, 256);
    assert_eq!(OnDeviceModel::MiniLm.pin().dim, 384);
    assert_eq!(OnDeviceModel::EmbeddingGemma.pin().dim, 768);
    assert_eq!(OnDeviceModel::RuriV3.tensor_key("norm.weight"), "model.norm.weight");
    assert_eq!(OnDeviceModel::MiniLm.tensor_key("norm.weight"), "norm.weight");
    assert_eq!(on_device_dim("cl-nagoya/ruri-v3-30m"), Some(256));
    assert_eq!(on_device_dim("ollama:x"), None);
}

#[test]
fn files_are_fetched_in_order() {
    let mut fetch = ModelFetch::start(OnDeviceModel::EmbeddingGemma);
    let mut seen: Vec<&str> = Vec::new();
    while let Some(file) = fetch.next_file() {
        seen.push(file);
        fetch.on_fetched(Ok(format!("/cache/{file}"))).expect("fetched");
    }
    assert_eq!(
        seen,
        vec![
            "config.json",
            "tokenizer.json",
            "model.safetensors",
            "2_Dense/model.safetensors",
            "3_Dense/model.safetensors",
        ]
    );
    assert_eq!(fetch.paths[2], "/cache/model.safetensors");
    let mut broken = ModelFetch::start(OnDeviceModel::RuriV3);
    let err = broken.on_fetched(Err("offline".to_string())).expect_err("offline");
    assert_eq!(err.message(), "model cache: fetch config.json: offline");
    assert!(broken.paths.is_empty());
    assert_eq!(ModelCacheError::Init("x".to_string()).message(), "hf-hub init: x");
}

#[test]
fn a_configuration_that_drifted_is_refused() {
    assert_eq!(accept_config(OnDeviceModel::RuriV3, 256, 3).expect("fits"), 3);
    let err = accept_config(OnDeviceModel::RuriV3, 384, 3).expect_err("drift");
    assert_eq!(
        err.message(),
        format!(
            "forward pass: config.hidden_size=384 disagrees with compiled HIDDEN_SIZE=256 \
             (revision {RURI_V3_30M_REVISION} may have shifted)"
        )
    );
    let err = accept_config(OnDeviceModel::MiniLm, 384, 1 << 32).expect_err("large");
    assert_eq!(err.message(), "tokenizer: pad_token_id 4294967296 too large");
    assert_eq!(narrow_pad_id(7).expect("fits"), 7);
    assert_eq!(require_pad_token(3, Some("<pad>".to_string())).expect("known"), "<pad>");
    let err = require_pad_token(3, None).expect_err("unknown");
    assert_eq!(err.message(), "tokenizer: pad token id 3 not in vocab");
}

#[test]
fn an_access_token_needs_text() {
    assert_eq!(explicit_hf_token(Some(" tok \n".to_string())).as_deref(), Some("tok"));
    assert_eq!(explicit_hf_token(Some("  ".to_string())), None);
    assert_eq!(explicit_hf_token(None), None);
}

#[test]
fn the_padding_id_of_a_checkpoint_must_be_an_integer_that_fits() {
    assert_eq!(gemma_pad_id(Some(0)).expect("fits"), 0);
    assert_eq!(gemma_pad_id(Some(4_294_967_295)).expect("fits"), u32::MAX);
    assert!(matches!(gemma_pad_id(Some(4_294_967_296)), Err(GemmaError::MissingPadToken)));
    assert_eq!(
        gemma_pad_id(None).expect_err("absent").message(),
        "config.json has no integer pad_token_id"
    );
    assert_eq!(gemma_pad_token(0, Some("<pad>".to_string())).expect("known"), "<pad>");
    assert_eq!(
        gemma_pad_token(9, None).expect_err("unknown").message(),
        "pad token id 9 is not in the tokenizer vocabulary"
    );
}

#[test]
fn every_so_many_layers_attend_to_all() {
    let (full, sliding) = (AttentionKind::Full, AttentionKind::Sliding);
    assert_eq!(layer_kinds(7, 3), vec![sliding, sliding, full, sliding, sliding, full, sliding]);
    assert_eq!(layer_kinds(2, 1), vec![full, full]);
    assert_eq!(window_of(full, 512), None);
    assert_eq!(window_of(sliding, 512), Some(512));
}

#[test]
fn attention_grids_row_by_row() {
    assert_eq!(attention_pattern(2, true, None), vec![1, 1, 1, 1]);
    assert_eq!(attention_pattern(3, false, None), vec![1, 0, 0, 1, 1, 0, 1, 1, 1]);
    assert_eq!(attention_pattern(3, true, Some(2)), vec![1, 1, 0, 1, 1, 1, 0, 1, 1]);
    assert_eq!(attention_pattern(3, false, Some(2)), vec![1, 0, 0, 1, 1, 0, 0, 1, 1]);
    assert_eq!(attention_pattern(1, false, Some(0)), vec![0]);
    assert!(attention_pattern(0, true, None).is_empty());
}

#[test]
fn projections_follow_the_heads() {
    let shape = attention_shape(&AttentionConfig {
        hidden_size: 768,
        num_attention_heads: 3,
        num_key_value_heads: 1,
        head_dim: 256,
    });
    assert_eq!((shape.query_width, shape.kv_width, shape.repeat), (768, 256, 3));
}

#[test]
fn addresses_and_errors_of_the_server() {
    assert_eq!(embed_url("http://127.0.0.1:11434"), "http://127.0.0.1:11434/api/embed");
    assert_eq!(embed_url("http://gpu.lan//"), "http://gpu.lan/api/embed");
    assert_eq!(dim_from_probe(&[768, 1]).expect("dim"), 768);
    for empty in [&[][..], &[0][..]] {
        assert_eq!(
            dim_from_probe(empty).expect_err("none").message(),
            "ollama backend: dim probe returned no embedding"
        );
    }
    assert_eq!(post_error("u", "refused").message(), "ollama backend: POST u: refused");
    assert_eq!(
        status_error("u", "404 Not Found", " \u{1b}[31mno\u{7} model ").message(),
        "ollama backend: u returned 404 Not Found: no model"
    );
    assert!(matches!(status_error("u", "s", "b"), EmbedError::Ollama(_)));
}
