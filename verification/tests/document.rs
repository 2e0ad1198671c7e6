use roc_analysis::document::DocInfo;
use roc_analysis::lsp::{
    Position, Range, RocPosition, SemanticToken, SemanticTokens, SemanticTokensResult, TextEdit,
};
use tower_lsp::lsp_types::Url;

fn doc(source: &str) -> DocInfo<Vec<u32>> {
    DocInfo {
        url: Url::parse("file:///app/main.roc").unwrap(),
        line_info: vec![0],
        source: source.to_string(),
        version: 3,
    }
}

fn range(line: u32) -> Range {
    Range {
        start: Position { line: 0, character: 0 },
        end: Position { line, character: 0 },
    }
}

#[test]
fn whole_document() {
    assert_eq!(doc("a\nb\n").whole_document_range(3), range(3));
    assert_eq!(doc("").whole_document_range(1), range(1));
}

#[test]
fn prefix_at_position() {
    let doc = doc("x = rec.fie");
    assert_eq!(doc.get_prefix_at_position(RocPosition { offset: 11 }), "rec.fie");
    assert_eq!(doc.get_prefix_at_position(RocPosition { offset: 7 }), "rec");
    assert_eq!(doc.get_prefix_at_position(RocPosition { offset: 3 }), "");
}

#[test]
fn format_replaces_the_whole_document() {
    let edits = doc("x=1\n").format(Some("x = 1\n".to_string()), 2);
    assert_eq!(edits, Some(vec![TextEdit { range: range(2), new_text: "x = 1\n".to_string() }]));
}

#[test]
fn format_of_formatted_source() {
    assert_eq!(doc("x = 1\n").format(Some("x = 1\n".to_string()), 2), None);
}

#[test]
fn format_of_source_that_does_not_parse() {
    assert_eq!(doc("x = (").format(None, 1), None);
}

#[test]
fn formatting_settles() {
    let edits = doc("x=1").format(Some("x = 1\n".to_string()), 1).unwrap();
    let text = edits[0].new_text.clone();
    assert_eq!(doc(&text).format(Some(text.clone()), 2), None);
}

#[test]
fn tokens() {
    let token = SemanticToken {
        delta_line: 0,
        delta_start: 4,
        length: 2,
        token_type: 1,
        token_modifiers_bitset: 0,
    };
    assert_eq!(
        doc("x = 10").semantic_tokens(Some(vec![token])),
        Some(SemanticTokensResult::Tokens(SemanticTokens { result_id: None, data: vec![token] }))
    );
    assert_eq!(doc("x = (").semantic_tokens(None), None);
}

#[test]
fn clone_keeps_the_fields() {
    let doc = doc("x");
    let copy = doc.clone();
    assert_eq!(copy.url, doc.url);
    assert_eq!(copy.line_info, doc.line_info);
    assert_eq!(copy.source, doc.source);
    assert_eq!(copy.version, 3);
}
