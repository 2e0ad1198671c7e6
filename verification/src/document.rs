//! What is known of a document without analyzing it.

use crate::lsp::{
    Position, Range, RocPosition, SemanticToken, SemanticTokens, SemanticTokensResult, TextEdit,
};
use crate::prefix::{symbol_prefix_at, symbol_prefix_text};
use tower_lsp::lsp_types::Url;
use vstd::prelude::*;
use vstd::utf8::*;

verus! {

/// A version of a document: its URL, its text, and the table of its lines.
///
/// The table is whatever the compiler front end makes of the text; it is kept here
/// for those who turn positions into offsets and regions into ranges.
#[derive(Debug)]
pub struct DocInfo<L> {
    pub url: Url,
    pub line_info: L,
    pub source: String,
    pub version: u32,
}

impl<L: Clone> Clone for DocInfo<L> {
    fn clone(&self) -> (res: Self)
        ensures
            res.url == self.url,
            cloned(self.line_info, res.line_info),
            res.source == self.source,
            res.version == self.version,
    {
        DocInfo {
            url: self.url.clone(),
            line_info: self.line_info.clone(),
            source: self.source.clone(),
            version: self.version,
        }
    }
}

/// From the first character to the start of the line after the last one.
pub open spec fn whole_range(num_lines: u32) -> Range {
    Range {
        start: Position { line: 0, character: 0 },
        end: Position { line: num_lines, character: 0 },
    }
}

/// The text that a formatter's result asks to replace `source` by: none where the
/// source does not parse or is formatted already.
pub open spec fn reformatted(source: Seq<char>, formatted: Option<Seq<char>>) -> Option<Seq<char>> {
    match formatted {
        Some(text) => if text == source {
            None
        } else {
            Some(text)
        },
        None => None,
    }
}

/// Formatting settles: where a document is to be replaced by a text, and the
/// formatter leaves that text as it is, the replaced document needs no edit.
pub proof fn lemma_reformatted_settles(source: Seq<char>, formatted: Option<Seq<char>>)
    ensures
        reformatted(source, formatted) matches Some(text) ==> {
            &&& text != source
            &&& reformatted(text, Some(text)) is None
        },
{
}

/// The text of an optional string.
pub open spec fn opt_text(text: Option<String>) -> Option<Seq<char>> {
    match text {
        Some(t) => Some(t@),
        None => None,
    }
}

impl<L> DocInfo<L> {
    /// The bytes of the source text.
    pub open spec fn source_bytes(&self) -> Seq<u8> {
        encode_utf8(self.source@)
    }

    /// The range that covers the whole document, given the number of lines that its
    /// table counts.
    pub fn whole_document_range(&self, num_lines: u32) -> (res: Range)
        ensures
            res == whole_range(num_lines),
    {
        let start = Position { line: 0, character: 0 };
        let end = Position { line: num_lines, character: 0 };
        Range { start, end }
    }

    /// The symbol, possibly with field accesses, that ends at a position: the
    /// longest run of ASCII letters, digits, `_` and `.` in front of it.
    pub fn get_prefix_at_position(&self, position: RocPosition) -> (res: String)
        requires
            position.offset <= self.source_bytes().len(),
        ensures
            res@ == symbol_prefix_text(self.source_bytes().take(position.offset as int)),
    {
        symbol_prefix_at(self.source.as_str(), position.offset as usize)
    }

    /// The edits that format the document, given the formatter's result for its
    /// source (`None` where that does not parse) and its number of lines: one that
    /// replaces the whole document, or none at all where nothing would change.
    pub fn format(&self, formatted: Option<String>, num_lines: u32) -> (res: Option<Vec<TextEdit>>)
        ensures
            match reformatted(self.source@, opt_text(formatted)) {
                Some(text) => {
                    &&& res matches Some(edits)
                    &&& edits@.len() == 1
                    &&& edits@[0].range == whole_range(num_lines)
                    &&& edits@[0].new_text@ == text
                },
                None => res is None,
            },
    {
        match formatted {
            None => None,
            Some(fmt) => {
                if self.source == fmt {
                    None
                } else {
                    let range = self.whole_document_range(num_lines);
                    let mut edits: Vec<TextEdit> = Vec::new();
                    edits.push(TextEdit { range, new_text: fmt });
                    Some(edits)
                }
            },
        }
    }

    /// The answer to a request for the tokens of the document, given the tokens that
    /// its source has (`None` where it does not parse).
    pub fn semantic_tokens(&self, tokens: Option<Vec<SemanticToken>>) -> (res: Option<
        SemanticTokensResult,
    >)
        ensures
            res == match tokens {
                Some(data) => Some(
                    SemanticTokensResult::Tokens(SemanticTokens { result_id: None, data }),
                ),
                None => None,
            },
    {
        match tokens {
            Some(data) => Some(
                SemanticTokensResult::Tokens(SemanticTokens { result_id: None, data }),
            ),
            None => None,
        }
    }
}

} // verus!
