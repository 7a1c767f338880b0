use cc_demon::output::split_message;
use cc_demon::splitter::{is_inside_code_block, MessageSplitter};

#[test]
fn test_no_split_needed() {
    let splitter = MessageSplitter::new(100, false);
    let text = "Short text";
    let chunks = splitter.split(text);
    assert_eq!(chunks.len(), 1);
    assert_eq!(chunks[0], text);
}

#[test]
fn test_split_at_newline() {
    let splitter = MessageSplitter::new(20, false);
    let text = "First line\nSecond line here\nThird";
    let chunks = splitter.split(text);
    assert!(chunks.len() > 1);
    // Splits at a line or word boundary, not mid-word
    assert!(chunks[0].ends_with('\n') || chunks[0].ends_with(' '));
}

#[test]
fn test_split_at_paragraph() {
    let splitter = MessageSplitter::new(30, false);
    let text = "First para\n\nSecond para here is longer";
    let chunks = splitter.split(text);
    assert_eq!(chunks[0], "First para\n\n");
}

#[test]
fn test_code_block_awareness() {
    // Use a larger max to ensure the code block stays together
    let splitter = MessageSplitter::new(100, true);
    let text = "Before\n```\ncode line 1\ncode line 2\n```\nAfter";
    let chunks = splitter.split(text);

    // With format-aware splitting the code block stays intact: either in one
    // chunk or split at block boundaries
    for chunk in &chunks {
        let count = chunk.matches("```").count();
        // Must be 0 or 2 (balanced)
        assert!(
            count == 0 || count == 2,
            "Chunk has unbalanced backticks: {}",
            chunk
        );
    }
}

#[test]
fn test_is_inside_code_block() {
    let text = "before ```code``` after ```more";
    assert!(!is_inside_code_block(text, 0)); // before first ```
    assert!(is_inside_code_block(text, 10)); // inside first code block
    assert!(!is_inside_code_block(text, 20)); // after first block
    assert!(is_inside_code_block(text, 30)); // inside second (unclosed)
}

#[test]
fn test_split_message_plain() {
    let chunks = split_message("abcdef", 10);
    assert_eq!(chunks, vec!["abcdef".to_string()]);
    let chunks = split_message("one\ntwo\nthree", 8);
    assert_eq!(chunks[0], "one\ntwo\n");
    assert_eq!(chunks[1], "three");
    let chunks = split_message("abcdefghij", 4);
    assert_eq!(chunks, vec!["abcd".to_string(), "efgh".to_string(), "ij".to_string()]);
}
