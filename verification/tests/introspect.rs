//! Reports on what is stored.

use mdya::config::{CollectionEntry, Collections};
use mdya::ingest::error::MetadataKey;
use mdya::introspect::{
    absent_pin_keys, collection_list, read_pins, status_report, tally_collections, IntrospectError,
};

fn column(names: &[&str]) -> Vec<Option<String>> {
    names.iter().map(|n| Some(n.to_string())).collect()
}

#[test]
fn tally_counts_documents_per_collection() {
    let counts = tally_collections(&column(&["notes", "notes", "docs"]));
    assert_eq!(counts.get("notes"), Some(2));
    assert_eq!(counts.get("docs"), Some(1));
    assert_eq!(counts.get("absent"), None);
}

#[test]
fn nulls_are_not_counted() {
    let counts = tally_collections(&[None, Some("notes".to_string()), None]);
    assert_eq!(counts.get("notes"), Some(1));
    assert_eq!(counts.entries.len(), 1);
}

#[test]
fn absent_pin_keys_lists_both_when_metadata_empty() {
    assert_eq!(
        absent_pin_keys(None, None),
        vec![MetadataKey::EmbeddingModel, MetadataKey::VectorDim]
    );
}

#[test]
fn absent_pin_keys_is_empty_when_both_present() {
    let model = "ruri".to_string();
    let dim = "256".to_string();
    assert!(absent_pin_keys(Some(&model), Some(&dim)).is_empty());
}

#[test]
fn pins_are_read_or_refused() {
    let model = "ruri".to_string();
    let good = "256".to_string();
    assert_eq!(
        read_pins(Some(&model), Some(&good)).expect("pins"),
        ("ruri".to_string(), 256)
    );
    for dim in [0_u32, 9, 384, u32::MAX] {
        let pin = mdya::text::decimal(u64::from(dim));
        assert_eq!(read_pins(Some(&model), Some(&pin)).expect("round trip").1, dim);
    }
    let plus = "+7".to_string();
    assert_eq!(read_pins(Some(&model), Some(&plus)).expect("sign").1, 7);
    for bad in ["", "+", "-1", "-0", "25x", "4294967296", " 1"] {
        let pin = bad.to_string();
        assert!(
            matches!(
                read_pins(Some(&model), Some(&pin)),
                Err(IntrospectError::MalformedVectorDimPin { ref value }) if value == bad
            ),
            "{bad}"
        );
        assert!(bad.parse::<u32>().is_err());
    }
    let missing = read_pins(None, Some(&good)).expect_err("no model");
    assert_eq!(
        missing.message(),
        "schema metadata pin missing: chunks table's Schema::metadata lacks key(s) \
         [\"embedding_model\"]. Remove `~/.mdya/index/`, run `mdya init`, and re-run \
         `mdya update-all` to rebuild."
    );
}

#[test]
fn the_list_follows_the_configuration() {
    let mut collections = Collections::new();
    collections.insert(
        "work".to_string(),
        CollectionEntry { path: "/w".to_string(), description: None },
    );
    collections.insert(
        "notes".to_string(),
        CollectionEntry { path: "~/n".to_string(), description: Some("memo".to_string()) },
    );
    let report = collection_list(&collections, &column(&["notes", "gone", "notes"]));
    assert_eq!(report.collections.len(), 2);
    assert_eq!(report.collections[0].name, "notes");
    assert_eq!(report.collections[0].path, "~/n");
    assert_eq!(report.collections[0].description.as_deref(), Some("memo"));
    assert_eq!(report.collections[0].document_count, 2);
    assert_eq!(report.collections[1].name, "work");
    assert_eq!(report.collections[1].document_count, 0);
    let status = status_report("0.3.0", ("ruri".to_string(), 256), &collections, 12, 4);
    assert_eq!(status.collections, 2);
    assert_eq!((status.chunks, status.sources, status.vector_dim), (12, 4, 256));
}
