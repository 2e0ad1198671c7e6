use roc_analysis::analyzed::{
    AnalysisResult, AnalyzedDocument, AnalyzedModule, CompletionReply, TypeAtPosition,
};
use roc_analysis::document::DocInfo;
use roc_analysis::lsp::{
    GotoDefinitionResponse, Hover, HoverContents, Location, MarkedString, Position, Range,
    RocPosition,
};
use std::collections::HashMap;
use tower_lsp::lsp_types::{CompletionItem, Diagnostic, Url};

type Document = AnalyzedDocument<u8, &'static str, &'static str, &'static str, &'static str>;

fn url(text: &str) -> Url {
    Url::parse(text).unwrap()
}

fn info(source: &str, version: u32) -> DocInfo<u8> {
    DocInfo { url: url("file:///app/main.roc"), line_info: 9, source: source.to_string(), version }
}

fn diagnostic(message: &str) -> Diagnostic {
    Diagnostic { message: message.to_string(), ..Diagnostic::default() }
}

fn checked(source: &str) -> Document {
    let mut module_id_to_url = HashMap::new();
    module_id_to_url.insert(7, url("file:///app/main.roc"));
    module_id_to_url.insert(8, url("file:///app/Dep.roc"));
    AnalyzedDocument {
        doc_info: info(source, 1),
        analysys_result: AnalysisResult {
            module: Some(AnalyzedModule {
                module_id: 7,
                interns: "interns",
                subs: "subs",
                abilities: "abilities",
                declarations: "declarations",
                module_id_to_url,
            }),
            diagnostics: vec![diagnostic("unused"), diagnostic("mismatch")],
        },
    }
}

fn failed(source: &str) -> Document {
    AnalyzedDocument {
        doc_info: info(source, 1),
        analysys_result: AnalysisResult { module: None, diagnostics: vec![diagnostic("parse")] },
    }
}

fn range(line: u32) -> Range {
    Range { start: Position { line, character: 2 }, end: Position { line, character: 5 } }
}

fn item(label: &str) -> CompletionItem {
    CompletionItem { label: label.to_string(), ..CompletionItem::default() }
}

#[test]
fn parts_of_a_document() {
    let doc = checked("x = 1");
    assert_eq!(doc.url(), &url("file:///app/main.roc"));
    assert_eq!(*doc.line_info(), 9);
    assert_eq!(doc.doc_info().source, "x = 1");
    assert_eq!(doc.module().unwrap().module_id, 7);
    assert!(doc.type_checked());
    assert_eq!(doc.diagnostics(), vec![diagnostic("unused"), diagnostic("mismatch")]);
    assert_eq!(
        doc.location(range(1)),
        Location { uri: url("file:///app/main.roc"), range: range(1) }
    );
}

#[test]
fn failed_analysis_answers_nothing() {
    let doc = failed("x = (");
    let at = RocPosition { offset: 0 };
    assert!(!doc.type_checked());
    assert!(doc.module().is_none());
    assert_eq!(doc.diagnostics(), vec![diagnostic("parse")]);
    assert!(doc.symbol_query(at).is_none());
    assert_eq!(doc.symbol_at(Some(5u64)), None);
    assert!(doc.hover_query(at).is_none());
    let found = TypeAtPosition { range: range(0), type_str: "Str".to_string() };
    assert_eq!(doc.hover(Some(found)), None);
    assert!(doc.definition_query(5u64).is_none());
    assert_eq!(doc.definition(Some(range(0))), None);
    assert_eq!(doc.module_url(7), None);
    let latest = info("x = (", 2);
    assert!(doc.completion_query(at, &latest).is_none());
    assert_eq!(doc.completion_position(at, &latest), RocPosition { offset: u32::MAX });
    assert_eq!(doc.completion_items(CompletionReply::Names(vec![item("x")])), None);
}

#[test]
fn symbols() {
    let doc = checked("x = 1");
    let query = doc.symbol_query(RocPosition { offset: 4 }).unwrap();
    assert_eq!(query.position, RocPosition { offset: 4 });
    assert_eq!(*query.declarations, "declarations");
    assert_eq!(*query.abilities, "abilities");
    assert_eq!(doc.symbol_at(Some(5u64)), Some(5));
    assert_eq!(doc.symbol_at::<u64>(None), None);
}

#[test]
fn hovers() {
    let doc = checked("x = 1");
    let query = doc.hover_query(RocPosition { offset: 4 }).unwrap();
    assert_eq!(query.position, RocPosition { offset: 4 });
    assert_eq!(*query.declarations, "declarations");
    assert_eq!(*query.subs, "subs");
    assert_eq!(query.module_id, 7);
    assert_eq!(*query.interns, "interns");
    let found = TypeAtPosition { range: range(0), type_str: "Num *".to_string() };
    assert_eq!(
        doc.hover(Some(found)),
        Some(Hover {
            contents: HoverContents::Scalar(MarkedString::String("Num *".to_string())),
            range: Some(range(0)),
        })
    );
    assert_eq!(doc.hover(None), None);
}

#[test]
fn definitions() {
    let doc = checked("x = 1");
    let query = doc.definition_query(12u64).unwrap();
    assert_eq!(query.symbol, 12);
    assert_eq!(*query.declarations, "declarations");
    assert_eq!(
        doc.definition(Some(range(3))),
        Some(GotoDefinitionResponse::Scalar(Location {
            uri: url("file:///app/main.roc"),
            range: range(3),
        }))
    );
    assert_eq!(doc.definition(None), None);
}

#[test]
fn urls_of_modules() {
    let doc = checked("x = 1");
    assert_eq!(doc.module_url(7), Some(url("file:///app/main.roc")));
    assert_eq!(doc.module_url(8), Some(url("file:///app/Dep.roc")));
    assert_eq!(doc.module_url(9), None);
}

#[test]
fn completion_of_a_name() {
    let doc = checked("x = 1\ny = ");
    let latest = info("x = 1\ny = ab", 2);
    let query = doc.completion_query(RocPosition { offset: 12 }, &latest).unwrap();
    assert_eq!(query.position, RocPosition { offset: 9 });
    assert_eq!(query.symbol_prefix, "ab");
    assert!(!query.is_field_completion);
    assert_eq!(*query.declarations, "declarations");
    assert_eq!(*query.interns, "interns");
    assert_eq!(*query.subs, "subs");
    assert_eq!(query.module_id, 7);
}

#[test]
fn completion_of_a_field() {
    let doc = checked("y = rec");
    let latest = info("y = rec.na", 2);
    let query = doc.completion_query(RocPosition { offset: 10 }, &latest).unwrap();
    assert_eq!(query.position, RocPosition { offset: 6 });
    assert_eq!(query.symbol_prefix, "rec.na");
    assert!(query.is_field_completion);
}

#[test]
fn completion_position_stays_while_typing() {
    let doc = checked("y = \n");
    let first = doc.completion_query(RocPosition { offset: 5 }, &info("y = a\n", 2)).unwrap();
    let second = doc.completion_query(RocPosition { offset: 6 }, &info("y = ab\n", 3)).unwrap();
    assert_eq!(first.position, RocPosition { offset: 3 });
    assert_eq!(first.position, second.position);
}

#[test]
fn completion_position_after_a_deletion() {
    let doc = checked("y = abc");
    let query = doc.completion_query(RocPosition { offset: 5 }, &info("y = a", 2)).unwrap();
    assert_eq!(query.position, RocPosition { offset: 6 });
}

#[test]
fn completion_position_before_the_text() {
    let doc = checked("y");
    let query = doc.completion_query(RocPosition { offset: 0 }, &info("y", 2)).unwrap();
    assert_eq!(query.position, RocPosition { offset: u32::MAX });
    let query = doc.completion_query(RocPosition { offset: 1 }, &info("yyy", 2)).unwrap();
    assert_eq!(query.position, RocPosition { offset: u32::MAX - 1 });
}

#[test]
fn completion_replies() {
    let doc = checked("y");
    let fields = vec![item("name"), item("age")];
    assert_eq!(
        doc.completion_items(CompletionReply::Fields(Some(fields.clone()))),
        Some(fields)
    );
    assert_eq!(doc.completion_items(CompletionReply::Fields(None)), None);
    assert_eq!(
        doc.completion_items(CompletionReply::Names(vec![item("x")])),
        Some(vec![item("x")])
    );
    assert_eq!(doc.completion_items(CompletionReply::Names(vec![])), Some(vec![]));
}

#[test]
fn clone_of_a_document() {
    let doc = checked("y");
    let copy = doc.clone();
    assert_eq!(copy.url(), doc.url());
    assert_eq!(copy.diagnostics(), doc.diagnostics());
    assert_eq!(copy.module_url(8), doc.module_url(8));
    assert_eq!(copy.module().unwrap().subs, "subs");
    assert!(!failed("y").clone().type_checked());
}
