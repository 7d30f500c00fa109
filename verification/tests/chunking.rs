use alexandria::chunking::{chunk_by_fixed_size, chunk_by_heading, chunk_by_paragraph};

#[test]
fn test_chunk_by_heading() {
    let doc = "# Introduction\nSome intro text\n\n# Methods\nMethod details\n\n# Results\nResults here";
    let chunks = chunk_by_heading(doc);
    assert_eq!(chunks.len(), 3);
    assert_eq!(chunks[0].heading.as_deref(), Some("Introduction"));
    assert!(chunks[0].content.contains("intro text"));
    assert_eq!(chunks[1].heading.as_deref(), Some("Methods"));
    assert_eq!(chunks[2].heading.as_deref(), Some("Results"));
}

#[test]
fn test_chunk_by_paragraph() {
    let doc = "First paragraph.\n\nSecond paragraph.\n\nThird paragraph.";
    let chunks = chunk_by_paragraph(doc);
    assert_eq!(chunks.len(), 3);
    assert_eq!(chunks[0].content, "First paragraph.");
    assert_eq!(chunks[1].content, "Second paragraph.");
}

#[test]
fn test_chunk_by_fixed_size() {
    let doc = "abcdefghijklmnopqrstuvwxyz";
    let chunks = chunk_by_fixed_size(doc, 10, 2);
    assert!(!chunks.is_empty());
    assert!(chunks[0].content.len() <= 10);
}

#[test]
fn test_empty_document() {
    assert!(chunk_by_heading("").is_empty());
    assert!(chunk_by_paragraph("").is_empty());
    assert!(chunk_by_fixed_size("", 10, 2).is_empty());
}

#[test]
fn windows_overlap_and_reach_the_end() {
    let chunks = chunk_by_fixed_size("abcdefghijklmnopqrstuvwxyz", 10, 2);
    let texts: Vec<&str> = chunks.iter().map(|c| c.content.as_str()).collect();
    assert_eq!(texts, vec!["abcdefghij", "ijklmnopqr", "qrstuvwxyz"]);
    assert_eq!(
        chunks.iter().map(|c| c.index).collect::<Vec<usize>>(),
        vec![0, 1, 2]
    );
}

#[test]
fn an_overlap_as_wide_as_the_window_still_ends() {
    let chunks = chunk_by_fixed_size("abcd", 2, 5);
    assert!(!chunks.is_empty());
    assert!(chunks.iter().all(|c| c.content.chars().count() <= 2));
}

#[test]
fn text_before_the_first_heading_has_none() {
    let chunks = chunk_by_heading("preamble\n\n## Deep\nbody");
    assert_eq!(chunks.len(), 2);
    assert_eq!(chunks[0].heading, None);
    assert_eq!(chunks[0].content, "preamble");
    assert_eq!(chunks[1].heading.as_deref(), Some("Deep"));
    assert_eq!(chunks[1].content, "## Deep\nbody");
}

#[test]
fn blank_paragraphs_are_dropped_and_the_rest_numbered() {
    let chunks = chunk_by_paragraph("a\n\n   \n\n  b  ");
    assert_eq!(chunks.len(), 2);
    assert_eq!(chunks[1].content, "b");
    assert_eq!(chunks[1].index, 1);
}
