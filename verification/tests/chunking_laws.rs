//! The chunkers' laws on chosen documents.

use mdya::chunking::markdown::{chunk_events, MdEvent};
use mdya::chunking::{chunk_markdown, chunk_pdf, ChunkingError, OVERLAP_CHARS, WINDOW_CHARS};

fn text(t: &str) -> MdEvent {
    MdEvent::Text(t.to_string())
}

fn bodies(events: &[MdEvent]) -> Vec<String> {
    chunk_events(events).into_iter().map(|c| c.body).collect()
}

#[test]
fn windows_put_together_are_the_text() {
    let body: String = (0..3000).map(|i| char::from(b'a' + (i % 26) as u8)).collect();
    let chunks = chunk_pdf(&body).expect("ok");
    assert_eq!(chunks.len(), 5);
    let mut whole = chunks[0].body.clone();
    for pair in chunks.windows(2) {
        let overlap: String = pair[0].body.chars().skip(WINDOW_CHARS - OVERLAP_CHARS).collect();
        assert!(pair[1].body.starts_with(&overlap));
        whole.extend(pair[1].body.chars().skip(OVERLAP_CHARS));
    }
    assert_eq!(whole, body);
}

#[test]
fn window_edges() {
    for (len, count) in [(700, 1), (701, 2), (1330, 2), (1331, 3), (1960, 3), (1961, 4)] {
        assert_eq!(chunk_pdf(&"x".repeat(len)).expect("ok").len(), count, "{len}");
    }
}

#[test]
fn a_section_is_chunked_by_itself() {
    let a = vec![text("intro"), MdEvent::EndParagraph];
    let b = vec![
        MdEvent::StartHeading,
        text("H"),
        MdEvent::EndHeading,
        text("body"),
        MdEvent::EndParagraph,
    ];
    let joined: Vec<MdEvent> = a.iter().chain(b.iter()).cloned().collect();
    let mut parts = bodies(&a);
    parts.extend(bodies(&b));
    assert_eq!(bodies(&joined), parts);
    assert_eq!(parts, vec!["intro", "H\n\nbody"]);
}

#[test]
fn metadata_leaves_no_trace() {
    let plain = vec![text("body"), MdEvent::EndParagraph];
    let mut with = vec![
        MdEvent::StartMetadata,
        text("title: secret"),
        MdEvent::SoftBreak,
        MdEvent::Code("x".to_string()),
        MdEvent::EndMetadata,
    ];
    with.extend(plain.iter().cloned());
    assert_eq!(bodies(&with), bodies(&plain));
}

#[test]
fn breaks_rules_and_code_bound_segments() {
    let events = vec![
        text("a"),
        MdEvent::SoftBreak,
        text("b"),
        MdEvent::HardBreak,
        MdEvent::Code("c".to_string()),
        MdEvent::Rule,
        MdEvent::Other,
        text("d"),
        MdEvent::StartCodeBlock,
        text("x\n\ny\n"),
        MdEvent::EndCodeBlock,
    ];
    assert_eq!(bodies(&events), vec!["a\nb\nc\n\nd\n\nx\n\ny"]);
}

#[test]
fn an_oversized_block_stands_between_packed_ones() {
    let md = format!("one\n\n{}\n\ntwo\n\nthree\n", "z".repeat(800));
    let found: Vec<String> =
        chunk_markdown(&md).expect("ok").into_iter().map(|c| c.body).collect();
    assert_eq!(
        found,
        vec![
            "one".to_string(),
            "z".repeat(700),
            "z".repeat(170),
            "two\n\nthree".to_string(),
        ]
    );
}

#[test]
fn every_document_owns_a_chunk() {
    for md in ["", "\n\n", "---\na: b\n---\n", "# \n", "***\n", "<!-- c -->\n", "> \n"] {
        let chunks = chunk_markdown(md).expect("ok");
        assert_eq!(chunks.len(), 1, "{md:?}");
        assert_eq!(chunks[0].body, "", "{md:?}");
    }
}

#[test]
fn no_text_is_lost() {
    let md = "Intro *text* `code`\nmore\n\n# H1 **b**\n\n- item one\n- item two\n\n```\nfn x() {}\n```\n\n> quote\n\nlast";
    let all: String =
        chunk_markdown(md).expect("ok").into_iter().map(|c| c.body).collect();
    let ink: String = all.chars().filter(|c| !c.is_whitespace()).collect();
    assert_eq!(ink, "IntrotextcodemoreH1bitemoneitemtwofnx(){}quotelast");
}

#[test]
fn the_error_names_its_reason() {
    let err = ChunkingError::InvalidInput { reason: "shape".to_string() };
    assert_eq!(err.message(), "invalid markdown input: shape");
}

#[test]
fn a_fence_that_fits_is_whole_whatever_its_heading() {
    let code = "b".repeat(699);
    let md = format!("# H\n\n```\n{code}\n```\n");
    let out: Vec<String> =
        chunk_markdown(&md).expect("ok").into_iter().map(|c| c.body).collect();
    assert_eq!(out, vec!["H".to_string(), code]);
    let code = "b".repeat(697);
    let md = format!("# H\n\n```\n{code}\n```\n");
    let out: Vec<String> =
        chunk_markdown(&md).expect("ok").into_iter().map(|c| c.body).collect();
    assert_eq!(out, vec![format!("H\n\n{code}")]);
    let long = "h".repeat(701);
    let out: Vec<String> = chunk_markdown(&format!("# {long}\n\nbody\n"))
        .expect("ok")
        .into_iter()
        .map(|c| c.body)
        .collect();
    assert_eq!(out, vec![long[..700].to_string(), long[630..].to_string(), "body".to_string()]);
}

#[test]
fn a_fence_keeps_its_indentation() {
    let out = chunk_markdown("```\n  x\n y  \n\n```\n").expect("ok");
    assert_eq!(out[0].body, "  x\n y  ");
    let blank = chunk_markdown("```\n   \n\n```\n").expect("ok");
    assert_eq!((blank.len(), blank[0].body.as_str()), (1, ""));
}

#[test]
fn blocks_share_as_few_chunks_as_fit() {
    let events: Vec<MdEvent> = [300, 300, 300, 90, 700, 1]
        .iter()
        .flat_map(|n| [text(&"x".repeat(*n)), MdEvent::EndParagraph])
        .collect();
    let lengths: Vec<usize> = bodies(&events).iter().map(String::len).collect();
    assert_eq!(lengths, vec![602, 392, 700, 1]);
}
