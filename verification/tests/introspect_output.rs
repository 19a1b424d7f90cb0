//! Reports as text.

use mdya::introspect::output::{
    print_collections_human, print_collections_md, print_collections_xml, print_status_human,
    print_status_md, print_status_xml,
};
use mdya::introspect::{CollectionInfo, CollectionListReport, StatusReport};

fn render<F>(render: F) -> String
where
    F: FnOnce(&mut String),
{
    let mut buf = String::new();
    render(&mut buf);
    buf
}

fn two_collections() -> CollectionListReport {
    CollectionListReport {
        collections: vec![
            CollectionInfo {
                name: "notes".to_string(),
                path: "~/notes".to_string(),
                description: Some("個人メモ".to_string()),
                document_count: 42,
            },
            CollectionInfo {
                name: "docs".to_string(),
                path: "/abs/docs".to_string(),
                description: None,
                document_count: 0,
            },
        ],
    }
}

fn sample_status() -> StatusReport {
    StatusReport {
        version: "0.3.0".to_string(),
        embedding_model: "cl-nagoya/ruri-v3-30m".to_string(),
        vector_dim: 256,
        collections: 2,
        chunks: 12,
        sources: 4,
    }
}

#[test]
fn collections_xml_uses_self_closing_tag_for_absent_description() {
    let out = render(|w| print_collections_xml(w, &two_collections()));
    assert!(out.contains("<description/>"), "got: {out}");
    assert!(out.contains("<name>notes</name>"), "got: {out}");
}

#[test]
fn empty_collections_xml_self_closes_the_root() {
    let report = CollectionListReport {
        collections: vec![],
    };
    let out = render(|w| print_collections_xml(w, &report));
    assert!(out.contains("<collections/>"), "got: {out}");
}

#[test]
fn collections_human_emits_tab_fields_and_a_count_footer() {
    let out = render(|w| print_collections_human(w, &two_collections()));
    let lines: Vec<&str> = out.lines().collect();
    assert_eq!(lines[0], "notes\t~/notes\t42 docs\t個人メモ");
    assert_eq!(lines[1], "docs\t/abs/docs\t0 docs\t(none)");
    assert_eq!(lines[2], "2 collections");
}

#[test]
fn collections_md_renders_a_section_per_collection() {
    let out = render(|w| print_collections_md(w, &two_collections()));
    assert!(out.starts_with("# Collections\n"), "got: {out}");
    assert!(out.contains("## notes"), "got: {out}");
    assert!(out.contains("- document_count: 42"), "got: {out}");
    assert!(out.contains("- description: (none)"), "got: {out}");
}

#[test]
fn status_human_lists_all_six_fields() {
    let out = render(|w| print_status_human(w, &sample_status()));
    assert!(out.contains("version:         0.3.0"), "got: {out}");
    assert!(out.contains("vector_dim:      256"), "got: {out}");
    assert!(out.contains("sources:         4"), "got: {out}");
}

#[test]
fn status_md_lists_all_six_fields() {
    let out = render(|w| print_status_md(w, &sample_status()));
    assert!(out.starts_with("# Status\n"), "got: {out}");
    assert!(out.contains("- version: 0.3.0"), "got: {out}");
    assert!(out.contains("- chunks: 12"), "got: {out}");
}

#[test]
fn status_xml_mirrors_the_six_fields() {
    let out = render(|w| print_status_xml(w, &sample_status()));
    assert!(out.contains("<vector_dim>256</vector_dim>"), "got: {out}");
    assert!(out.contains("<sources>4</sources>"), "got: {out}");
    assert!(
        out.contains("<embedding_model>cl-nagoya/ruri-v3-30m</embedding_model>"),
        "got: {out}"
    );
}
