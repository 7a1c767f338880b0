//! Message formats and formatters for the chat gateway.

use vstd::prelude::*;

use crate::markdown::{convert_markdown_to_v2, spec_convert};
use crate::text::{chars_to_string, str_to_chars};

verus! {

/// Supported message formats for the chat transport.
#[derive(Debug, Clone, Copy, PartialEq, Eq, Structural)]
pub enum MessageFormat {
    /// Telegram MarkdownV2 (the default).
    MarkdownV2,
    /// HTML.
    Html,
    /// Plain text, no formatting.
    Plain,
}

impl Default for MessageFormat {
    /// The default format is MarkdownV2.
    fn default() -> (r: MessageFormat)
        ensures
            r == MessageFormat::MarkdownV2,
    {
        MessageFormat::MarkdownV2
    }
}

/// A message formatter.
pub trait Formatter {
    /// Format text for the target platform.
    fn format(&self, text: &str) -> String;

    /// Whether this formatter's output supports format-aware splitting.
    fn supports_format_aware_split(&self) -> bool;
}

/// Passes text through without modification.
pub struct PlainFormatter;

impl PlainFormatter {
    /// The formatted text: the input itself.
    pub fn format_text(&self, text: &str) -> (r: String)
        ensures
            r@ == text@,
    {
        let c = str_to_chars(text);
        chars_to_string(&c)
    }
}

impl Formatter for PlainFormatter {
    fn format(&self, text: &str) -> String {
        self.format_text(text)
    }

    fn supports_format_aware_split(&self) -> bool {
        false
    }
}

/// Converts standard Markdown to Telegram MarkdownV2.
pub struct MarkdownV2Formatter;

impl MarkdownV2Formatter {
    /// The formatted text: the MarkdownV2 conversion of the input.
    pub fn format_text(&self, text: &str) -> (r: String)
        ensures
            r@ == spec_convert(text@),
    {
        convert_markdown_to_v2(text)
    }
}

impl Formatter for MarkdownV2Formatter {
    fn format(&self, text: &str) -> String {
        self.format_text(text)
    }

    fn supports_format_aware_split(&self) -> bool {
        true
    }
}

/// The formatter chosen for a message format.
pub enum FormatterChoice {
    /// MarkdownV2 conversion.
    Markdown(MarkdownV2Formatter),
    /// Plain passthrough.
    Plain(PlainFormatter),
}

impl FormatterChoice {
    /// Format text with the chosen formatter.
    pub fn format(&self, text: &str) -> (r: String)
        ensures
            self is Markdown ==> r@ == spec_convert(text@),
            self is Plain ==> r@ == text@,
    {
        match self {
            FormatterChoice::Markdown(f) => f.format_text(text),
            FormatterChoice::Plain(f) => f.format_text(text),
        }
    }

    /// Whether the chosen formatter's output supports format-aware splitting.
    pub fn supports_format_aware_split(&self) -> (r: bool)
        ensures
            r == (self is Markdown),
    {
        match self {
            FormatterChoice::Markdown(_) => true,
            FormatterChoice::Plain(_) => false,
        }
    }
}

/// The formatter for a message format.  HTML has no formatter of its own
/// yet and falls back to plain text.
pub fn create_formatter(format: MessageFormat) -> (r: FormatterChoice)
    ensures
        format == MessageFormat::MarkdownV2 ==> r is Markdown,
        format != MessageFormat::MarkdownV2 ==> r is Plain,
{
    match format {
        MessageFormat::MarkdownV2 => FormatterChoice::Markdown(MarkdownV2Formatter),
        MessageFormat::Html => FormatterChoice::Plain(PlainFormatter),
        MessageFormat::Plain => FormatterChoice::Plain(PlainFormatter),
    }
}

} // verus!
