use cc_demon::formatter::{create_formatter, MessageFormat};
use cc_demon::markdown::convert_markdown_to_v2;
use cc_demon::markdown::{escape_char, escape_link_text, escape_plain_text, escape_url};
use cc_demon::markdown::parse_header;

#[test]
fn test_plain_text() {
    let input = "Hello world";
    let result = convert_markdown_to_v2(input);
    assert_eq!(result, "Hello world");
}

#[test]
fn test_bold_conversion() {
    let input = "This is **bold** text";
    let result = convert_markdown_to_v2(input);
    assert_eq!(result, "This is *bold* text");
}

#[test]
fn test_underscore_bold() {
    let input = "This is __bold__ text";
    let result = convert_markdown_to_v2(input);
    assert_eq!(result, "This is *bold* text");
}

#[test]
fn test_italic() {
    let input = "This is _italic_ text";
    let result = convert_markdown_to_v2(input);
    assert_eq!(result, "This is _italic_ text");
}

#[test]
fn test_inline_code() {
    let input = "Use `cargo build` to compile";
    let result = convert_markdown_to_v2(input);
    assert_eq!(result, "Use `cargo build` to compile");
}

#[test]
fn test_code_block() {
    let input = "```rust\nfn main() {\n    println!(\"Hello\");\n}\n```";
    let result = convert_markdown_to_v2(input);
    // Code inside a block must not be escaped
    assert!(result.contains("println!(\"Hello\")"));
}

#[test]
fn test_link() {
    let input = "Check out [Rust](https://rust-lang.org)";
    let result = convert_markdown_to_v2(input);
    assert!(result.contains("[Rust](https://rust-lang.org)"));
}

#[test]
fn test_header() {
    let input = "# Header Text";
    let result = convert_markdown_to_v2(input);
    assert_eq!(result, "*Header Text*");
}

#[test]
fn test_list_items() {
    let input = "- Item 1\n- Item 2";
    let result = convert_markdown_to_v2(input);
    assert_eq!(result, "\\- Item 1\n\\- Item 2");
}

#[test]
fn test_numbered_list() {
    let input = "1. First\n2. Second";
    let result = convert_markdown_to_v2(input);
    assert_eq!(result, "1\\. First\n2\\. Second");
}

#[test]
fn test_blockquote_marker_dropped() {
    let result = convert_markdown_to_v2("> quoted text");
    assert_eq!(result, "quoted text");
}

#[test]
fn test_escape_punctuation() {
    let result = convert_markdown_to_v2("a.b!c");
    assert_eq!(result, "a\\.b\\!c");
}

#[test]
fn test_trailing_newline_kept() {
    let result = convert_markdown_to_v2("line\n");
    assert_eq!(result, "line\n");
}

#[test]
fn test_formatter_choice() {
    let md = create_formatter(MessageFormat::MarkdownV2);
    assert!(md.supports_format_aware_split());
    assert_eq!(md.format("# T"), "*T*");
    let plain = create_formatter(MessageFormat::Plain);
    assert!(!plain.supports_format_aware_split());
    assert_eq!(plain.format("# T"), "# T");
    let html = create_formatter(MessageFormat::Html);
    assert!(!html.supports_format_aware_split());
}

#[test]
fn test_escape_helpers() {
    assert_eq!(escape_char('~'), "\\~");
    assert_eq!(escape_char('a'), "a");
    assert_eq!(escape_plain_text("x-y"), "x\\-y");
    assert_eq!(escape_link_text("a]b\\c"), "a\\]b\\\\c");
    assert_eq!(escape_url("u)v"), "u\\)v");
}

#[test]
fn test_parse_header_levels() {
    assert_eq!(parse_header("## Two"), Some("Two".to_string()));
    assert_eq!(parse_header("####### seven"), None);
    assert_eq!(parse_header("plain"), None);
    assert_eq!(parse_header("#"), Some(String::new()));
}

#[test]
fn test_unclosed_bold_still_closes() {
    assert_eq!(convert_markdown_to_v2("**unclosed"), "*unclosed*");
    assert_eq!(convert_markdown_to_v2("_unclosed"), "_unclosed_");
}

#[test]
fn test_unclosed_code_fence_passes_through() {
    let result = convert_markdown_to_v2("```\nno closing fence");
    assert!(result.contains("no closing fence"));
}

#[test]
fn test_two_code_blocks_keep_their_order() {
    let result = convert_markdown_to_v2("```\nfirst\n```\nmiddle.\n```\nsecond\n```");
    let first = result.find("first").unwrap();
    let second = result.find("second").unwrap();
    assert!(first < second);
    assert!(result.contains("middle\\."));
}
