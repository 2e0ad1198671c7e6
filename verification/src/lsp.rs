//! The values of the language server protocol that requests are answered with.

use tower_lsp::lsp_types::Url;
use vstd::prelude::*;

verus! {

/// A diagnostic as the `lsp-types` crate has it. It is carried through unread.
#[verifier::external_type_specification]
#[verifier::external_body]
pub struct ExDiagnostic(tower_lsp::lsp_types::Diagnostic);

/// A completion item as the `lsp-types` crate has it. It is carried through unread.
#[verifier::external_type_specification]
#[verifier::external_body]
pub struct ExCompletionItem(tower_lsp::lsp_types::CompletionItem);

/// `Diagnostic::clone`, which is derived: a clone is the same value, field by field.
pub assume_specification[ <tower_lsp::lsp_types::Diagnostic as Clone>::clone ](
    diagnostic: &tower_lsp::lsp_types::Diagnostic,
) -> (res: tower_lsp::lsp_types::Diagnostic)
    ensures
        res == *diagnostic,
;

/// A zero-based line and character.
#[derive(Debug, Clone, Copy, PartialEq, Eq, Structural)]
pub struct Position {
    pub line: u32,
    pub character: u32,
}

/// A range of a document, without its end position.
#[derive(Debug, Clone, Copy, PartialEq, Eq, Structural)]
pub struct Range {
    pub start: Position,
    pub end: Position,
}

/// A byte offset into a source text.
#[derive(Debug, Clone, Copy, PartialEq, Eq, Structural)]
pub struct RocPosition {
    pub offset: u32,
}

/// The replacement of a range by a text.
#[derive(Debug, PartialEq, Eq)]
pub struct TextEdit {
    pub range: Range,
    pub new_text: String,
}

/// A range of the document at a URL.
#[derive(Debug, PartialEq, Eq)]
pub struct Location {
    pub uri: Url,
    pub range: Range,
}

/// Where the definition of a symbol is.
#[derive(Debug, PartialEq, Eq)]
pub enum GotoDefinitionResponse {
    Scalar(Location),
}

/// A text to show, marked up.
#[derive(Debug, PartialEq, Eq)]
pub enum MarkedString {
    String(String),
}

/// What to show: a single text.
#[derive(Debug, PartialEq, Eq)]
pub enum HoverContents {
    Scalar(MarkedString),
}

/// What to show of the code under the pointer, and which code it is.
#[derive(Debug, PartialEq, Eq)]
pub struct Hover {
    pub contents: HoverContents,
    pub range: Option<Range>,
}

/// One token of a document, relative to the one before it.
#[derive(Debug, Clone, Copy, PartialEq, Eq, Structural)]
pub struct SemanticToken {
    pub delta_line: u32,
    pub delta_start: u32,
    pub length: u32,
    pub token_type: u32,
    pub token_modifiers_bitset: u32,
}

/// The tokens of a document.
#[derive(Debug, PartialEq, Eq)]
pub struct SemanticTokens {
    pub result_id: Option<String>,
    pub data: Vec<SemanticToken>,
}

/// The answer to a request for tokens.
#[derive(Debug, PartialEq, Eq)]
pub enum SemanticTokensResult {
    Tokens(SemanticTokens),
}

} // verus!
