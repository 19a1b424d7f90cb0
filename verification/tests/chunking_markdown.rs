//! Chunks of Markdown documents.

use mdya::chunking::{chunk_markdown, OVERLAP_CHARS, WINDOW_CHARS};

#[test]
fn empty_document_yields_one_placeholder_chunk() {
    let out = chunk_markdown("").expect("ok");
    assert_eq!(out.len(), 1);
    assert_eq!(out[0].body, "");
}

#[test]
fn front_matter_only_document_yields_placeholder_chunk() {
    let out = chunk_markdown("---\ntitle: foo\ndate: 2024-01-01\n---\n").expect("ok");
    assert_eq!(out.len(), 1);
    assert_eq!(out[0].body, "");
}

#[test]
fn headings_only_document_emits_one_chunk_per_heading() {
    let out = chunk_markdown("# A\n\n## B\n\n### C\n").expect("ok");
    let bodies: Vec<&str> = out.iter().map(|c| c.body.as_str()).collect();
    assert_eq!(bodies, vec!["A", "B", "C"]);
}

#[test]
fn placeholder_is_the_only_source_of_an_empty_body() {
    let out = chunk_markdown("# T\n\nreal body\n").expect("ok");
    assert!(out.iter().all(|c| !c.body.is_empty()));
}

#[test]
fn document_with_only_body_keeps_text_in_body() {
    let out = chunk_markdown("Just some text.").expect("ok");
    assert_eq!(out.len(), 1);
    assert!(out[0].body.contains("Just some text."));
}

#[test]
fn single_heading_keeps_heading_and_body_in_body() {
    let md = "# Title\n\nBody text.\n";
    let out = chunk_markdown(md).expect("ok");
    assert_eq!(out.len(), 1);
    assert!(out[0].body.contains("Title"));
    assert!(out[0].body.contains("Body text."));
}

#[test]
fn each_heading_starts_a_new_chunk_carrying_its_heading() {
    let md = "# Top\n\nTop body\n\n## Sub\n\nSub body\n";
    let out = chunk_markdown(md).expect("ok");
    assert_eq!(out.len(), 2);
    assert!(out[0].body.contains("Top") && out[0].body.contains("Top body"));
    assert!(out[1].body.contains("Sub") && out[1].body.contains("Sub body"));
}

#[test]
fn nested_headings_do_not_carry_ancestor_path() {
    let md = "# A\n\nA body\n\n## B\n\nB body\n\n### C\n\nC body\n";
    let out = chunk_markdown(md).expect("ok");
    assert_eq!(out.len(), 3);
    assert!(out[0].body.starts_with("A") && out[0].body.contains("A body"));
    assert!(out[1].body.starts_with("B") && out[1].body.contains("B body"));
    assert!(out[2].body.starts_with("C") && out[2].body.contains("C body"));
    assert!(!out[2].body.contains("A / B"));
}

#[test]
fn heading_with_empty_body_still_emits_its_heading() {
    let md = "## A\n\n## B\n\nB body\n";
    let out = chunk_markdown(md).expect("ok");
    assert_eq!(out.len(), 2);
    assert_eq!(out[0].body, "A");
    assert!(out[1].body.contains("B") && out[1].body.contains("B body"));
}

#[test]
fn intro_before_first_heading_emits_its_own_chunk() {
    let md = "Intro paragraph.\n\n# First\n\nFirst body\n";
    let out = chunk_markdown(md).expect("ok");
    assert_eq!(out.len(), 2);
    assert!(out[0].body.contains("Intro paragraph."));
    assert!(!out[0].body.contains("First"));
    assert!(out[1].body.contains("First") && out[1].body.contains("First body"));
}

#[test]
fn long_prose_subsplit_breaks_at_paragraph_boundary() {
    let para_a = "a".repeat(300);
    let para_b = "b".repeat(300);
    let para_c = "c".repeat(300);
    let md = format!("{para_a}\n\n{para_b}\n\n{para_c}\n");
    let out = chunk_markdown(&md).expect("ok");
    assert_eq!(
        out.len(),
        2,
        "expected paragraph-packed chunks, got {out:?}"
    );
    assert_eq!(out[0].body, format!("{para_a}\n\n{para_b}"));
    assert_eq!(out[1].body, para_c);
}

#[test]
fn paragraph_packed_chunks_do_not_overlap() {
    let para_a = "a".repeat(300);
    let para_b = "b".repeat(300);
    let para_c = "c".repeat(300);
    let md = format!("{para_a}\n\n{para_b}\n\n{para_c}\n");
    let out = chunk_markdown(&md).expect("ok");
    assert!(!out[0].body.contains('c'));
    assert!(!out[1].body.contains('a') && !out[1].body.contains('b'));
}

#[test]
fn heading_leads_only_the_first_chunk_of_a_split_section() {
    let para_a = "a".repeat(300);
    let para_b = "b".repeat(300);
    let para_c = "c".repeat(300);
    let md = format!("# H\n\n{para_a}\n\n{para_b}\n\n{para_c}\n");
    let out = chunk_markdown(&md).expect("ok");
    assert!(out[0].body.starts_with("H"));
    assert!(out.iter().skip(1).all(|c| !c.body.contains('H')));
}

#[test]
fn code_fence_is_not_split_when_section_overflows() {
    let prose = "a".repeat(500);
    let code = "b".repeat(500);
    let md = format!("{prose}\n\n```\n{code}\n```\n");
    let out = chunk_markdown(&md).expect("ok");
    assert_eq!(
        out.len(),
        2,
        "expected prose and code in separate chunks, got {out:?}"
    );
    assert!(
        out.iter().any(|c| c.body == code),
        "code block should stay intact in one chunk; got {out:?}"
    );
}

#[test]
fn oversized_code_fence_falls_back_to_char_split() {
    let code = "b".repeat(900);
    let md = format!("```\n{code}\n```\n");
    let out = chunk_markdown(&md).expect("ok");
    assert!(
        out.len() >= 2,
        "expected char-split sub-chunks, got {out:?}"
    );
    assert_eq!(out[0].body.chars().count(), WINDOW_CHARS);
    for chunk in &out {
        assert!(chunk.body.chars().count() <= WINDOW_CHARS);
    }
}

#[test]
fn section_over_window_splits_with_overlap() {
    let body: String = "あ".repeat(750);
    let out = chunk_markdown(&body).expect("ok");
    assert_eq!(out.len(), 2, "expected 2 sub-chunks, got {out:?}");
    assert_eq!(out[0].body.chars().count(), WINDOW_CHARS);
    assert_eq!(
        out[1].body.chars().count(),
        750 - (WINDOW_CHARS - OVERLAP_CHARS)
    );
}

#[test]
fn front_matter_is_stripped_from_body() {
    let md = "---\ntitle: foo\ndate: 2024-01-01\n---\n# Heading\n\nBody\n";
    let out = chunk_markdown(md).expect("ok");
    assert_eq!(out.len(), 1);
    assert!(out[0].body.contains("Heading"));
    assert!(
        !out[0].body.contains("title: foo"),
        "front matter leaked into body: {}",
        out[0].body
    );
}

#[test]
fn front_matter_with_dots_close_is_stripped() {
    let md = "---\ntitle: foo\ndate: 2024-01-01\n...\n# Heading\n\nBody\n";
    let out = chunk_markdown(md).expect("ok");
    assert!(out.iter().any(|c| c.body.contains("Heading")));
    assert!(
        out.iter().all(|c| !c.body.contains("title: foo")),
        "front matter with `...` close should be stripped; got {out:?}"
    );
}

#[test]
fn front_matter_without_close_is_treated_as_body() {
    let md = "---\ntitle: foo\n# Heading\n\nBody\n";
    let out = chunk_markdown(md).expect("ok");
    assert!(
        out.iter().any(|c| c.body.contains("Heading")),
        "expected a chunk carrying the heading; got {out:?}"
    );
    assert!(
        out.iter().any(|c| c.body.contains("title: foo")),
        "front matter text should remain in body when close marker is absent; got {out:?}"
    );
}

#[test]
fn code_fence_does_not_open_new_chunk_on_hash_lines() {
    let md = "# Real\n\n```\n# Not a heading\nfoo\n```\n\nMore\n";
    let out = chunk_markdown(md).expect("ok");
    assert_eq!(out.len(), 1, "expected single chunk, got {out:?}");
    assert!(out[0].body.contains("Real"));
    assert!(
        out[0].body.contains("Not a heading") && out[0].body.contains("foo"),
        "code-block contents should stay in body; got {:?}",
        out[0].body
    );
}

#[test]
fn code_fence_with_inner_blank_line_stays_one_segment() {
    let md = "```\nline one\n\nline two\n```\n";
    let out = chunk_markdown(md).expect("ok");
    assert_eq!(
        out.len(),
        1,
        "code fence split on its inner blank line: {out:?}"
    );
    assert!(out[0].body.contains("line one") && out[0].body.contains("line two"));
}

#[test]
fn markdown_japanese_multibyte_chars_count_correctly_for_window() {
    let body: String = "あ".repeat(1000);
    let md = format!("# 見出し\n\n{body}\n");
    let out = chunk_markdown(&md).expect("ok");
    assert!(out.len() >= 2);
    assert!(out[0].body.contains("見出し"));
    for chunk in &out {
        assert!(
            chunk.body.chars().count() <= WINDOW_CHARS,
            "chunk exceeds window: {} chars",
            chunk.body.chars().count()
        );
    }
}

#[test]
fn heading_inline_formatting_is_flattened_in_body() {
    let md = "# **Bold** and *italic*\n\nBody\n";
    let out = chunk_markdown(md).expect("ok");
    assert_eq!(out.len(), 1);
    assert!(out[0].body.starts_with("Bold and italic"));
}
