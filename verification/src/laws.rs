//! What a call promises, in terms of its arguments and its result alone.

use crate::analyzed::{
    AnalysisResult, AnalyzedDocument, AnalyzedModule, CompletionQuery, CompletionReply,
    DefinitionQuery, SymbolQuery, TypeAtPosition, TypeQuery,
};
use crate::builder::{
    build_documents, global_anal, lemma_shown_in_order, lemma_shown_is_what_has_a_diagnostic,
    loaded_document, loaded_documents, module_diagnostics, module_id_to_url_from_sources,
    module_urls_outcome, problems_of, shown, AnalysisRequest, AnalyzedDocumentBuilder,
    LoadedModule, ModuleSource,
};
use crate::document::DocInfo;
use crate::lsp::{
    GotoDefinitionResponse, Hover, HoverContents, Location, MarkedString, Range, RocPosition,
    SemanticToken, SemanticTokensResult, TextEdit,
};
use crate::paths::{
    _find_parent_git_repo, all_path_bytes, ancestor_chain, ancestors, file_path_outcome,
    file_url_outcome, find_src_dir, first_hit, in_temp_dir_outcome, join_outcome,
    lemma_first_hit_is_nearest, nearest_repo, opt_url_text, parent_outcome, path_buf_bytes,
    path_bytes, path_to_url, path_url_outcome, relative_outcome, search_dirs, search_outcome,
    src_dir_of, url_path, url_path_of, url_text, ModuleId, ModuleIdToUrl, RepoSearch, RepoStep,
};
use crate::prefix::{
    is_symbol_byte, lemma_symbol_prefix_is_the_end_of_the_text, lemma_symbol_suffix_is_maximal,
    symbol_byte, symbol_prefix_at, symbol_prefix_text, symbol_suffix,
};
use std::path::{Path, PathBuf};
use tower_lsp::lsp_types::{CompletionItem, Diagnostic, Url};
use vstd::prelude::*;
use vstd::utf8::*;

verus! {

/// A symbol is made of ASCII letters, digits, `_` and `.`.
pub proof fn lemma_symbol_characters(b: u8, res: bool)
    requires
        call_ensures(is_symbol_byte, (b,), res),
    ensures
        res <==> {
            ||| 'a' <= b as char <= 'z'
            ||| 'A' <= b as char <= 'Z'
            ||| '0' <= b as char <= '9'
            ||| b as char == '_'
            ||| b as char == '.'
        },
{
}

proof fn lemma_symbol_in_front(before: Seq<u8>)
    ensures
        ({
            let prefix = symbol_prefix_text(before);
            let start = before.len() - prefix.len();
            let in_symbol = |b: u8|
                'a' <= b as char <= 'z' || 'A' <= b as char <= 'Z' || '0' <= b as char <= '9'
                    || b as char == '_' || b as char == '.';
            &&& 0 <= start
            &&& encode_utf8(prefix) == before.skip(start)
            &&& forall|i: int|
                0 <= i < prefix.len() ==> #[trigger] prefix[i] == before[start + i] as char
            &&& forall|i: int| start <= i < before.len() ==> in_symbol(#[trigger] before[i])
            &&& start > 0 ==> !in_symbol(before[start - 1])
        }),
{
    let prefix = symbol_prefix_text(before);
    let start = before.len() - prefix.len();
    lemma_symbol_suffix_is_maximal(before);
    lemma_symbol_prefix_is_the_end_of_the_text(before);
    assert forall|i: int| start <= i < before.len() implies symbol_byte(
        #[trigger] before[i],
    ) by {
        assert(before[i] == symbol_suffix(before)[i - start]);
    }
}

/// The symbol in front of an offset is a piece of the source: the bytes that end there,
/// unchanged. It holds letters, digits, `_` and `.` alone, and nothing of the kind stands in
/// front of it.
pub proof fn lemma_symbol_prefix_at(source: &str, offset: usize, res: String)
    requires
        offset <= encode_utf8(source@).len(),
        call_ensures(symbol_prefix_at, (source, offset), res),
    ensures
        ({
            let bytes = encode_utf8(source@);
            let start = offset - res@.len();
            let in_symbol = |b: u8|
                'a' <= b as char <= 'z' || 'A' <= b as char <= 'Z' || '0' <= b as char <= '9'
                    || b as char == '_' || b as char == '.';
            &&& 0 <= start
            &&& encode_utf8(res@) == bytes.subrange(start, offset as int)
            &&& forall|i: int|
                0 <= i < res@.len() ==> #[trigger] res@[i] == bytes[start + i] as char
            &&& forall|i: int| start <= i < offset ==> in_symbol(#[trigger] bytes[i])
            &&& start > 0 ==> !in_symbol(bytes[start - 1])
        }),
{
    let bytes = encode_utf8(source@);
    let before = bytes.take(offset as int);
    let start = offset - res@.len();
    lemma_symbol_in_front(before);
    assert(before.skip(start) =~= bytes.subrange(start, offset as int));
    assert forall|i: int| 0 <= i < offset implies bytes[i] == before[i] by {}
}

/// The prefix at a position of a document is the symbol that ends there in its source.
pub proof fn lemma_prefix_at_position<L>(doc: DocInfo<L>, position: RocPosition, res: String)
    requires
        position.offset <= encode_utf8(doc.source@).len(),
        call_ensures(DocInfo::<L>::get_prefix_at_position, (&doc, position), res),
    ensures
        ({
            let bytes = encode_utf8(doc.source@);
            let start = position.offset - res@.len();
            let in_symbol = |b: u8|
                'a' <= b as char <= 'z' || 'A' <= b as char <= 'Z' || '0' <= b as char <= '9'
                    || b as char == '_' || b as char == '.';
            &&& 0 <= start
            &&& encode_utf8(res@) == bytes.subrange(start, position.offset as int)
            &&& forall|i: int|
                0 <= i < res@.len() ==> #[trigger] res@[i] == bytes[start + i] as char
            &&& forall|i: int| start <= i < position.offset ==> in_symbol(#[trigger] bytes[i])
            &&& start > 0 ==> !in_symbol(bytes[start - 1])
        }),
{
    let bytes = encode_utf8(doc.source@);
    let before = bytes.take(position.offset as int);
    let start = position.offset - res@.len();
    lemma_symbol_in_front(before);
    assert(before.skip(start) =~= bytes.subrange(start, position.offset as int));
    assert forall|i: int| 0 <= i < position.offset implies bytes[i] == before[i] by {}
}

/// The range of a document covers it: from its first character to the start of the line
/// after its last, so that every position in one of its lines is inside.
pub proof fn lemma_whole_document_range<L>(doc: DocInfo<L>, num_lines: u32, res: Range)
    requires
        call_ensures(DocInfo::<L>::whole_document_range, (&doc, num_lines), res),
    ensures
        res.start.line == 0,
        res.start.character == 0,
        res.end.line == num_lines,
        res.end.character == 0,
{
}

/// There are edits just where the formatter gives a text that is not the source. It is
/// one edit then, of the whole document, and what it puts there is that text.
pub proof fn lemma_format<L>(
    doc: DocInfo<L>,
    formatted: Option<String>,
    num_lines: u32,
    res: Option<Vec<TextEdit>>,
)
    requires
        call_ensures(DocInfo::<L>::format, (&doc, formatted, num_lines), res),
    ensures
        res is Some <==> (formatted is Some && (formatted->0)@ != doc.source@),
        res matches Some(edits) ==> {
            &&& edits@.len() == 1
            &&& edits@[0].new_text@ == (formatted->0)@
            &&& edits@[0].range.start.line == 0
            &&& edits@[0].range.start.character == 0
            &&& edits@[0].range.end.line == num_lines
            &&& edits@[0].range.end.character == 0
        },
{
}

/// The tokens of a document are handed on, all of them and in order, and there are none
/// just where the source has none.
pub proof fn lemma_semantic_tokens<L>(
    doc: DocInfo<L>,
    tokens: Option<Vec<SemanticToken>>,
    res: Option<SemanticTokensResult>,
)
    requires
        call_ensures(DocInfo::<L>::semantic_tokens, (&doc, tokens), res),
    ensures
        res is Some <==> tokens is Some,
        res matches Some(SemanticTokensResult::Tokens(answer)) ==> {
            &&& answer.result_id is None
            &&& answer.data@ == (tokens->0)@
        },
{
}

/// A clone of a version of a document is that version: no field is another.
pub proof fn lemma_clone_of_a_version<L: Clone>(doc: DocInfo<L>, res: DocInfo<L>)
    requires
        call_ensures(DocInfo::<L>::clone, (&doc,), res),
    ensures
        res.url == doc.url,
        cloned(doc.line_info, res.line_info),
        res.source@ == doc.source@,
        res.version == doc.version,
{
}

/// A clone of an analyzed document knows the same version and the same diagnostics, and
/// has a module just where the document has one, with the same number and URLs.
pub proof fn lemma_clone_of_a_document<L: Clone, I: Clone, S: Clone, A: Clone, D: Clone>(
    doc: AnalyzedDocument<L, I, S, A, D>,
    res: AnalyzedDocument<L, I, S, A, D>,
)
    requires
        call_ensures(AnalyzedDocument::<L, I, S, A, D>::clone, (&doc,), res),
    ensures
        res.doc_info.url == doc.doc_info.url,
        cloned(doc.doc_info.line_info, res.doc_info.line_info),
        res.doc_info.source@ == doc.doc_info.source@,
        res.doc_info.version == doc.doc_info.version,
        res.analysys_result.diagnostics@ == doc.analysys_result.diagnostics@,
        res.analysys_result.module is Some <==> doc.analysys_result.module is Some,
        doc.analysys_result.module matches Some(module) ==> {
            let copy = res.analysys_result.module->0;
            &&& copy.module_id == module.module_id
            &&& cloned(module.interns, copy.interns)
            &&& cloned(module.subs, copy.subs)
            &&& cloned(module.abilities, copy.abilities)
            &&& cloned(module.declarations, copy.declarations)
            &&& copy.module_id_to_url@ == module.module_id_to_url@
        },
{
}

/// The same of the outcome of an analysis by itself.
pub proof fn lemma_clone_of_a_result<I: Clone, S: Clone, A: Clone, D: Clone>(
    result: AnalysisResult<I, S, A, D>,
    res: AnalysisResult<I, S, A, D>,
)
    requires
        call_ensures(AnalysisResult::<I, S, A, D>::clone, (&result,), res),
    ensures
        res.diagnostics@ == result.diagnostics@,
        res.module is Some <==> result.module is Some,
        result.module matches Some(module) ==> {
            let copy = res.module->0;
            &&& copy.module_id == module.module_id
            &&& cloned(module.interns, copy.interns)
            &&& cloned(module.subs, copy.subs)
            &&& cloned(module.abilities, copy.abilities)
            &&& cloned(module.declarations, copy.declarations)
            &&& copy.module_id_to_url@ == module.module_id_to_url@
        },
{
}

/// The same of a module by itself.
pub proof fn lemma_clone_of_a_module<I: Clone, S: Clone, A: Clone, D: Clone>(
    module: AnalyzedModule<I, S, A, D>,
    res: AnalyzedModule<I, S, A, D>,
)
    requires
        call_ensures(AnalyzedModule::<I, S, A, D>::clone, (&module,), res),
    ensures
        res.module_id == module.module_id,
        cloned(module.interns, res.interns),
        cloned(module.subs, res.subs),
        cloned(module.abilities, res.abilities),
        cloned(module.declarations, res.declarations),
        res.module_id_to_url@ == module.module_id_to_url@,
{
}

/// What can be read off an analyzed document is what it holds. It counts as type checked
/// just where it has a module.
pub proof fn lemma_parts_of_a_document<L, I, S, A, D>(
    doc: AnalyzedDocument<L, I, S, A, D>,
    url: &Url,
    line_info: &L,
    doc_info: &DocInfo<L>,
    module: Option<&AnalyzedModule<I, S, A, D>>,
    checked: bool,
    diagnostics: Vec<Diagnostic>,
)
    requires
        call_ensures(AnalyzedDocument::<L, I, S, A, D>::url, (&doc,), url),
        call_ensures(AnalyzedDocument::<L, I, S, A, D>::line_info, (&doc,), line_info),
        call_ensures(AnalyzedDocument::<L, I, S, A, D>::doc_info, (&doc,), doc_info),
        call_ensures(AnalyzedDocument::<L, I, S, A, D>::module, (&doc,), module),
        call_ensures(AnalyzedDocument::<L, I, S, A, D>::type_checked, (&doc,), checked),
        call_ensures(AnalyzedDocument::<L, I, S, A, D>::diagnostics, (&doc,), diagnostics),
    ensures
        *url == doc_info.url,
        *line_info == doc_info.line_info,
        *doc_info == doc.doc_info,
        checked <==> module is Some,
        module is Some <==> doc.analysys_result.module is Some,
        module matches Some(m) ==> *m == doc.analysys_result.module->0,
        diagnostics@ == doc.analysys_result.diagnostics@,
{
}

/// A range of a document is located in that document.
pub proof fn lemma_location<L, I, S, A, D>(
    doc: AnalyzedDocument<L, I, S, A, D>,
    range: Range,
    res: Location,
)
    requires
        call_ensures(AnalyzedDocument::<L, I, S, A, D>::location, (&doc, range), res),
    ensures
        res.uri == doc.doc_info.url,
        res.range == range,
{
}

/// A document that is type checked has the symbol that is found in its module at the very
/// position that was asked about; another has none.
pub proof fn lemma_symbol_at<'a, L, I, S, A, D, Y>(
    doc: &'a AnalyzedDocument<L, I, S, A, D>,
    position: RocPosition,
    query: Option<SymbolQuery<'a, A, D>>,
    found: Option<Y>,
    res: Option<Y>,
)
    requires
        call_ensures(AnalyzedDocument::<L, I, S, A, D>::symbol_query, (doc, position), query),
        call_ensures(AnalyzedDocument::<L, I, S, A, D>::symbol_at::<Y>, (doc, found), res),
    ensures
        query is Some <==> doc.analysys_result.module is Some,
        query matches Some(q) ==> {
            let module = doc.analysys_result.module->0;
            &&& q.position.offset == position.offset
            &&& *q.declarations == module.declarations
            &&& *q.abilities == module.abilities
        },
        res == if query is Some {
            found
        } else {
            None
        },
{
}

/// A document that is type checked shows the type that is found in its module at the very
/// position that was asked about, as one text, over the range that it was found at; another
/// shows nothing.
pub proof fn lemma_hover<'a, L, I, S, A, D>(
    doc: &'a AnalyzedDocument<L, I, S, A, D>,
    position: RocPosition,
    query: Option<TypeQuery<'a, I, S, D>>,
    found: Option<TypeAtPosition>,
    res: Option<Hover>,
)
    requires
        call_ensures(AnalyzedDocument::<L, I, S, A, D>::hover_query, (doc, position), query),
        call_ensures(AnalyzedDocument::<L, I, S, A, D>::hover, (doc, found), res),
    ensures
        query is Some <==> doc.analysys_result.module is Some,
        query matches Some(q) ==> {
            let module = doc.analysys_result.module->0;
            &&& q.position.offset == position.offset
            &&& *q.declarations == module.declarations
            &&& *q.subs == module.subs
            &&& q.module_id == module.module_id
            &&& *q.interns == module.interns
        },
        res is Some <==> query is Some && found is Some,
        res matches Some(hover) ==> {
            let HoverContents::Scalar(MarkedString::String(text)) = hover.contents;
            &&& text@ == (found->0).type_str@
            &&& hover.range == Some((found->0).range)
        },
{
}

/// A document that is type checked looks a symbol up in its own declarations, and says
/// that it is defined where its declaration was found, in this document; another knows no
/// definition.
pub proof fn lemma_definition<'a, L, I, S, A, D, Y>(
    doc: &'a AnalyzedDocument<L, I, S, A, D>,
    symbol: Y,
    query: Option<DefinitionQuery<'a, Y, D>>,
    found: Option<Range>,
    res: Option<GotoDefinitionResponse>,
)
    requires
        call_ensures(
            AnalyzedDocument::<L, I, S, A, D>::definition_query::<Y>,
            (doc, symbol),
            query,
        ),
        call_ensures(AnalyzedDocument::<L, I, S, A, D>::definition, (doc, found), res),
    ensures
        query is Some <==> doc.analysys_result.module is Some,
        query matches Some(q) ==> {
            &&& q.symbol == symbol
            &&& *q.declarations == (doc.analysys_result.module->0).declarations
        },
        res is Some <==> query is Some && found is Some,
        res matches Some(GotoDefinitionResponse::Scalar(location)) ==> {
            &&& location.uri == doc.doc_info.url
            &&& Some(location.range) == found
        },
{
}

/// A document has the URL of just those modules that its own module knows one of, and it
/// is that one.
pub proof fn lemma_module_url<L, I, S, A, D>(
    doc: AnalyzedDocument<L, I, S, A, D>,
    module_id: ModuleId,
    res: Option<Url>,
)
    requires
        call_ensures(AnalyzedDocument::<L, I, S, A, D>::module_url, (&doc, module_id), res),
    ensures
        res is Some <==> doc.analysys_result.module is Some && (
        doc.analysys_result.module->0).module_id_to_url@.contains_key(module_id),
        res matches Some(url) ==> url == (
        doc.analysys_result.module->0).module_id_to_url@[module_id],
{
}

/// Completions are looked up as far from the end of the analyzed text as the cursor is
/// from the end of the latest one, and one byte further; as numbers of 32 bits.
pub proof fn lemma_completion_position<L, I, S, A, D>(
    doc: AnalyzedDocument<L, I, S, A, D>,
    position: RocPosition,
    latest_doc: DocInfo<L>,
    res: RocPosition,
)
    requires
        call_ensures(
            AnalyzedDocument::<L, I, S, A, D>::completion_position,
            (&doc, position, &latest_doc),
            res,
        ),
    ensures
        ({
            let latest_len = encode_utf8(latest_doc.source@).len();
            let analyzed_len = encode_utf8(doc.doc_info.source@).len();
            let to_the_end = latest_len - position.offset;
            &&& (analyzed_len - res.offset - (to_the_end + 1)) % 0x1_0000_0000 == 0
            &&& to_the_end + 1 <= analyzed_len <= u32::MAX && position.offset <= latest_len
                ==> analyzed_len - res.offset == to_the_end + 1
        }),
{
}

/// Completions are asked for just where the document is type checked: of the symbol in
/// front of the cursor in the latest text, as a field where that symbol holds a dot, in the
/// document's own module, and at the place that `completion_position` gives.
pub proof fn lemma_completion_query<'a, L, I, S, A, D>(
    doc: &'a AnalyzedDocument<L, I, S, A, D>,
    position: RocPosition,
    latest_doc: &DocInfo<L>,
    at: RocPosition,
    res: Option<CompletionQuery<'a, I, S, D>>,
)
    requires
        position.offset <= encode_utf8(latest_doc.source@).len(),
        call_ensures(
            AnalyzedDocument::<L, I, S, A, D>::completion_position,
            (doc, position, latest_doc),
            at,
        ),
        call_ensures(
            AnalyzedDocument::<L, I, S, A, D>::completion_query,
            (doc, position, latest_doc),
            res,
        ),
    ensures
        res is Some <==> doc.analysys_result.module is Some,
        res matches Some(query) ==> {
            let module = doc.analysys_result.module->0;
            let bytes = encode_utf8(latest_doc.source@);
            let start = position.offset - query.symbol_prefix@.len();
            let in_symbol = |b: u8|
                'a' <= b as char <= 'z' || 'A' <= b as char <= 'Z' || '0' <= b as char <= '9'
                    || b as char == '_' || b as char == '.';
            &&& 0 <= start
            &&& encode_utf8(query.symbol_prefix@) == bytes.subrange(start, position.offset as int)
            &&& forall|i: int| start <= i < position.offset ==> in_symbol(#[trigger] bytes[i])
            &&& start > 0 ==> !in_symbol(bytes[start - 1])
            &&& query.is_field_completion <==> exists|i: int|
                0 <= i < query.symbol_prefix@.len() && #[trigger] query.symbol_prefix@[i] == '.'
            &&& query.position.offset == at.offset
            &&& *query.declarations == module.declarations
            &&& *query.interns == module.interns
            &&& *query.subs == module.subs
            &&& query.module_id == module.module_id
        },
{
    if let Some(query) = res {
        let bytes = encode_utf8(latest_doc.source@);
        let before = bytes.take(position.offset as int);
        let start = position.offset - query.symbol_prefix@.len();
        lemma_symbol_in_front(before);
        assert(before.skip(start) =~= bytes.subrange(start, position.offset as int));
        assert forall|i: int| 0 <= i < position.offset implies bytes[i] == before[i] by {}
    }
}

/// What is offered is what was found, all of it and in order: the fields, where there is a
/// record to have them, or the names; and nothing where the document is not type checked.
pub proof fn lemma_completion_items<L, I, S, A, D>(
    doc: AnalyzedDocument<L, I, S, A, D>,
    reply: CompletionReply,
    res: Option<Vec<CompletionItem>>,
)
    requires
        call_ensures(AnalyzedDocument::<L, I, S, A, D>::completion_items, (&doc, reply), res),
    ensures
        res is Some <==> doc.analysys_result.module is Some && !(reply matches
            CompletionReply::Fields(None)),
        res matches Some(items) ==> match reply {
            CompletionReply::Fields(fields) => items@ == (fields->0)@,
            CompletionReply::Names(names) => items@ == names@,
        },
{
}

/// Of a path and its parent, the parent is the source directory, where there is one.
pub proof fn lemma_src_dir_of<'a>(path: &'a Path, parent: Option<&'a Path>, res: &'a Path)
    requires
        call_ensures(src_dir_of, (path, parent), res),
    ensures
        parent matches Some(dir) ==> res == dir,
        parent is None ==> res == path,
{
}

/// The source directory of a path is what `Path::parent` gives for it, or the path itself
/// where that gives none.
pub proof fn lemma_find_src_dir(path: &Path, res: &Path)
    requires
        call_ensures(find_src_dir, (path,), res),
    ensures
        ({
            ||| parent_outcome(path_bytes(path), Some(path_bytes(res)))
                && path_bytes(res).len() < path_bytes(path).len()
            ||| parent_outcome(path_bytes(path), None) && path_bytes(res) == path_bytes(path)
        }),
        path_bytes(res).is_prefix_of(path_bytes(path)),
{
    if path_bytes(res).len() == path_bytes(path).len() {
        assert(path_bytes(res) =~= path_bytes(path));
    }
}

/// The ancestors of a path start with the path, each is followed by what `Path::parent`
/// gives for it, and the last has no parent.
pub proof fn lemma_ancestors(path: &Path, res: Vec<PathBuf>)
    requires
        call_ensures(ancestors, (path,), res),
    ensures
        res@.len() > 0,
        path_buf_bytes(res@[0]) == path_bytes(path),
        forall|i: int|
            0 < i < res@.len() ==> parent_outcome(
                path_buf_bytes(res@[i - 1]),
                Some(path_buf_bytes(#[trigger] res@[i])),
            ),
        parent_outcome(path_buf_bytes(res@.last()), None),
{
    let chain = all_path_bytes(res@);
    assert(chain[0] == path_buf_bytes(res@[0]));
    assert(chain.last() == path_buf_bytes(res@.last()));
    assert forall|i: int| 0 < i < res@.len() implies parent_outcome(
        path_buf_bytes(res@[i - 1]),
        Some(path_buf_bytes(#[trigger] res@[i])),
    ) by {
        assert(chain[i] == path_buf_bytes(res@[i]));
        assert(chain[i - 1] == path_buf_bytes(res@[i - 1]));
    }
}

/// What a search through `count` places has found is the first of them with the answer
/// `true`; it asks about the first without an answer where all answers so far are `false`,
/// and gives up where those are the answers for all places.
pub proof fn lemma_nearest_repo(count: usize, answers: &Vec<bool>, res: RepoStep)
    requires
        call_ensures(nearest_repo, (count, answers), res),
    ensures
        match res {
            RepoStep::Found(i) => {
                &&& i < count
                &&& i < answers@.len()
                &&& answers@[i as int]
                &&& forall|j: int| 0 <= j < i ==> !(#[trigger] answers@[j])
            },
            RepoStep::Probe(i) => {
                &&& i < count
                &&& i == answers@.len()
                &&& forall|j: int| 0 <= j < i ==> !(#[trigger] answers@[j])
            },
            RepoStep::NotFound => {
                &&& count <= answers@.len()
                &&& forall|j: int| 0 <= j < count ==> !(#[trigger] answers@[j])
            },
        },
{
    lemma_first_hit_is_nearest(answers@);
}

/// The directory that is found is the first of the directories with the answer `true`. What
/// is to be probed is the `.git` of the first without an answer, where all answers so far
/// are `false`.
pub proof fn lemma_search_dirs(dirs: &Vec<PathBuf>, answers: &Vec<bool>, res: RepoSearch)
    requires
        call_ensures(search_dirs, (dirs, answers), res),
    ensures
        match res {
            RepoSearch::Found(dir) => exists|i: int|
                {
                    &&& 0 <= i < dirs@.len()
                    &&& i < answers@.len()
                    &&& #[trigger] answers@[i]
                    &&& forall|j: int| 0 <= j < i ==> !(#[trigger] answers@[j])
                    &&& path_buf_bytes(dir) == path_buf_bytes(dirs@[i])
                },
            RepoSearch::Probe(git) => {
                &&& answers@.len() < dirs@.len()
                &&& forall|j: int| 0 <= j < answers@.len() ==> !(#[trigger] answers@[j])
                &&& join_outcome(
                    path_buf_bytes(dirs@[answers@.len() as int]),
                    encode_utf8(".git"@),
                    path_buf_bytes(git),
                )
            },
            RepoSearch::NotFound => {
                &&& dirs@.len() <= answers@.len()
                &&& forall|j: int| 0 <= j < dirs@.len() ==> !(#[trigger] answers@[j])
            },
        },
{
    lemma_search(all_path_bytes(dirs@), answers, res);
}

proof fn lemma_search(dirs: Seq<Seq<u8>>, answers: &Vec<bool>, res: RepoSearch)
    requires
        search_outcome(dirs, answers@, res),
    ensures
        match res {
            RepoSearch::Found(dir) => exists|i: int|
                {
                    &&& 0 <= i < dirs.len()
                    &&& i < answers@.len()
                    &&& #[trigger] answers@[i]
                    &&& forall|j: int| 0 <= j < i ==> !(#[trigger] answers@[j])
                    &&& path_buf_bytes(dir) == dirs[i]
                },
            RepoSearch::Probe(git) => {
                &&& answers@.len() < dirs.len()
                &&& forall|j: int| 0 <= j < answers@.len() ==> !(#[trigger] answers@[j])
                &&& join_outcome(
                    dirs[answers@.len() as int],
                    encode_utf8(".git"@),
                    path_buf_bytes(git),
                )
            },
            RepoSearch::NotFound => {
                &&& dirs.len() <= answers@.len()
                &&& forall|j: int| 0 <= j < dirs.len() ==> !(#[trigger] answers@[j])
            },
        },
{
    lemma_first_hit_is_nearest(answers@);
    assert(answers@.len() == answers.len());
    let hit = first_hit(answers@) as int;
    if hit < answers@.len() {
        assert(answers@[hit]);
    }
}

/// The repository of a path is searched in the path and in what `Path::parent` gives, again
/// and again, nearest first: the first of these with the answer `true` is found, or the
/// `.git` of the first without an answer is to be probed, or all have the answer `false`.
pub proof fn lemma_find_parent_git_repo(path: &Path, answers: &Vec<bool>, res: RepoSearch)
    requires
        call_ensures(_find_parent_git_repo, (path, answers), res),
    ensures
        exists|dirs: Seq<Seq<u8>>|
            {
                &&& dirs.len() > 0
                &&& dirs[0] == path_bytes(path)
                &&& forall|i: int|
                    0 < i < dirs.len() ==> parent_outcome(dirs[i - 1], Some(#[trigger] dirs[i]))
                &&& #[trigger] parent_outcome(dirs.last(), None)
                &&& match res {
                    RepoSearch::Found(dir) => exists|i: int|
                        {
                            &&& 0 <= i < dirs.len()
                            &&& i < answers@.len()
                            &&& #[trigger] answers@[i]
                            &&& forall|j: int| 0 <= j < i ==> !(#[trigger] answers@[j])
                            &&& path_buf_bytes(dir) == dirs[i]
                        },
                    RepoSearch::Probe(git) => {
                        &&& answers@.len() < dirs.len()
                        &&& forall|j: int| 0 <= j < answers@.len() ==> !(#[trigger] answers@[j])
                        &&& join_outcome(
                            dirs[answers@.len() as int],
                            encode_utf8(".git"@),
                            path_buf_bytes(git),
                        )
                    },
                    RepoSearch::NotFound => {
                        &&& dirs.len() <= answers@.len()
                        &&& forall|j: int| 0 <= j < dirs.len() ==> !(#[trigger] answers@[j])
                    },
                }
            },
{
    let dirs = choose|dirs: Seq<Seq<u8>>| #[trigger]
        ancestor_chain(path_bytes(path), dirs) && search_outcome(dirs, answers@, res);
    lemma_search(dirs, answers, res);
    assert(parent_outcome(dirs.last(), None));
}

/// The path that a URL is made of is the one in the directory for temporary files, where
/// there is one.
pub proof fn lemma_url_path_of<'a>(path: &'a Path, in_temp_dir: Option<&'a Path>, res: &'a Path)
    requires
        call_ensures(url_path_of, (path, in_temp_dir), res),
    ensures
        in_temp_dir matches Some(joined) ==> res == joined,
        in_temp_dir is None ==> res == path,
{
}

/// The URL of a path is what `Url::from_file_path` gives for it where it is absolute, and
/// for the path joined to the directory for temporary files where it is relative. It is in
/// the `file` scheme.
pub proof fn lemma_path_to_url(path: &Path, temp_dir: &Path, res: Option<Url>)
    requires
        call_ensures(path_to_url, (path, temp_dir), res),
    ensures
        res is Some ==> exists|full: Seq<u8>|
            {
                &&& #[trigger] file_url_outcome(full, Some(url_text(res->0)))
                &&& relative_outcome(full, false)
                &&& {
                    ||| relative_outcome(path_bytes(path), false) && full == path_bytes(path)
                    ||| relative_outcome(path_bytes(path), true) && join_outcome(
                        path_bytes(temp_dir),
                        path_bytes(path),
                        full,
                    )
                }
            },
        res is None ==> exists|full: Seq<u8>|
            {
                &&& #[trigger] file_url_outcome(full, None)
                &&& {
                    ||| relative_outcome(path_bytes(path), false) && full == path_bytes(path)
                    ||| relative_outcome(path_bytes(path), true) && join_outcome(
                        path_bytes(temp_dir),
                        path_bytes(path),
                        full,
                    )
                }
            },
        res matches Some(url) ==> "file://"@.is_prefix_of(url_text(url)),
{
    lemma_url_made_of(path_bytes(path), path_bytes(temp_dir), opt_url_text(res));
}

proof fn lemma_url_made_of(path: Seq<u8>, temp_dir: Seq<u8>, url: Option<Seq<char>>) -> (full:
    Seq<u8>)
    requires
        path_url_outcome(path, temp_dir, url),
    ensures
        relative_outcome(path, false) && full == path || relative_outcome(path, true)
            && join_outcome(temp_dir, path, full),
        file_url_outcome(full, url),
        url is Some ==> relative_outcome(full, false),
{
    let in_temp_dir = choose|in_temp_dir: Option<Seq<u8>>| #[trigger]
        in_temp_dir_outcome(path, temp_dir, in_temp_dir) && {
            let full = url_path(path, in_temp_dir);
            &&& file_url_outcome(full, url)
            &&& url is Some ==> relative_outcome(full, false)
        };
    url_path(path, in_temp_dir)
}

proof fn lemma_diagnostics_of(
    can_problems: Map<ModuleId, Vec<Option<Diagnostic>>>,
    type_problems: Map<ModuleId, Vec<Option<Diagnostic>>>,
    module_id: ModuleId,
)
    ensures
        module_diagnostics(can_problems, type_problems, module_id) == ({
            let can = if can_problems.contains_key(module_id) {
                can_problems[module_id]@
            } else {
                Seq::empty()
            };
            let types = if type_problems.contains_key(module_id) {
                type_problems[module_id]@
            } else {
                Seq::empty()
            };
            (can + types).filter_map(|problem: Option<Diagnostic>| problem)
        }),
{
    let can = problems_of(can_problems, module_id);
    let types = problems_of(type_problems, module_id);
    lemma_shown_in_order(can, types);
    lemma_shown_is_what_has_a_diagnostic(can + types);
}

/// Where every problem is shown, there are as many diagnostics as problems, each in the
/// place of its problem.
proof fn lemma_all_shown(problems: Seq<Option<Diagnostic>>)
    requires
        forall|i: int| 0 <= i < problems.len() ==> #[trigger] problems[i] is Some,
    ensures
        shown(problems).len() == problems.len(),
        forall|i: int|
            0 <= i < problems.len() ==> Some(#[trigger] shown(problems)[i]) == problems[i],
    decreases problems.len(),
{
    if problems.len() > 0 {
        let rest = problems.drop_last();
        assert forall|i: int| 0 <= i < rest.len() implies #[trigger] rest[i] is Some by {
            assert(problems[i] is Some);
        }
        lemma_all_shown(rest);
        assert(problems.last() is Some) by {
            assert(problems[problems.len() - 1] is Some);
        }
        assert forall|i: int| 0 <= i < problems.len() implies Some(#[trigger] shown(problems)[i])
            == problems[i] by {
            if i < rest.len() {
                assert(shown(problems)[i] == shown(rest)[i]);
                assert(rest[i] == problems[i]);
            }
        }
    }
}

/// The diagnostics of a module are those of its canonicalization problems `can` and then
/// those of its type problems `types`: of each problem that has one, once, in order, and no
/// others. The problems of the module are used up; nothing else changes.
pub proof fn lemma_build_diagnostics<'a, I: Clone, S, A, D>(
    builder: &mut AnalyzedDocumentBuilder<'a, I, S, A, D>,
    module_id: ModuleId,
    can: Seq<Option<Diagnostic>>,
    types: Seq<Option<Diagnostic>>,
    res: Vec<Diagnostic>,
)
    requires
        can == if old(builder).can_problems@.contains_key(module_id) {
            old(builder).can_problems@[module_id]@
        } else {
            Seq::empty()
        },
        types == if old(builder).type_problems@.contains_key(module_id) {
            old(builder).type_problems@[module_id]@
        } else {
            Seq::empty()
        },
        call_ensures(
            AnalyzedDocumentBuilder::<'a, I, S, A, D>::build_diagnostics,
            (builder, module_id),
            res,
        ),
    ensures
        res@ == (can + types).filter_map(|problem: Option<Diagnostic>| problem),
        forall|d: Diagnostic|
            res@.contains(d) <==> can.contains(Some(d)) || types.contains(Some(d)),
        !can.contains(None) && !types.contains(None) ==> {
            &&& res@.len() == can.len() + types.len()
            &&& forall|i: int| 0 <= i < can.len() ==> Some(#[trigger] res@[i]) == can[i]
            &&& forall|j: int|
                0 <= j < types.len() ==> Some(res@[can.len() + j]) == #[trigger] types[j]
        },
        final(builder).can_problems@ == old(builder).can_problems@.remove(module_id),
        final(builder).type_problems@ == old(builder).type_problems@.remove(module_id),
        final(builder).interns == old(builder).interns,
        final(builder).module_id_to_url@ == old(builder).module_id_to_url@,
        final(builder).declarations_by_id@ == old(builder).declarations_by_id@,
        final(builder).typechecked@ == old(builder).typechecked@,
        final(builder).root_module == old(builder).root_module,
{
    let all = can + types;
    lemma_diagnostics_of(old(builder).can_problems@, old(builder).type_problems@, module_id);
    lemma_shown_in_order(can, types);
    assert forall|d: Diagnostic|
        res@.contains(d) <==> can.contains(Some(d)) || types.contains(Some(d)) by {
        lemma_shown_contains(can, d);
        lemma_shown_contains(types, d);
        lemma_shown_contains(all, d);
        if can.contains(Some(d)) {
            let i = choose|i: int| 0 <= i < can.len() && can[i] == Some(d);
            assert(all[i] == Some(d));
        }
        if types.contains(Some(d)) {
            let j = choose|j: int| 0 <= j < types.len() && types[j] == Some(d);
            assert(all[can.len() + j] == Some(d));
        }
        if all.contains(Some(d)) {
            let k = choose|k: int| 0 <= k < all.len() && all[k] == Some(d);
            if k < can.len() {
                assert(can[k] == Some(d));
            } else {
                assert(types[k - can.len()] == Some(d));
            }
        }
    }
    if !can.contains(None) && !types.contains(None) {
        assert forall|i: int| 0 <= i < all.len() implies #[trigger] all[i] is Some by {
            if i < can.len() {
                assert(all[i] == can[i]);
            } else {
                assert(all[i] == types[i - can.len()]);
            }
        }
        lemma_all_shown(all);
        assert forall|j: int| 0 <= j < types.len() implies Some(res@[can.len() + j])
            == #[trigger] types[j] by {
            assert(all[can.len() + j] == types[j]);
        }
        assert forall|i: int| 0 <= i < can.len() implies Some(#[trigger] res@[i]) == can[i] by {
            assert(all[i] == can[i]);
        }
    }
}

proof fn lemma_shown_contains(problems: Seq<Option<Diagnostic>>, d: Diagnostic)
    ensures
        shown(problems).contains(d) <==> problems.contains(Some(d)),
    decreases problems.len(),
{
    if problems.len() > 0 {
        let rest = problems.drop_last();
        lemma_shown_contains(rest, d);
        if rest.contains(Some(d)) {
            let i = choose|i: int| 0 <= i < rest.len() && rest[i] == Some(d);
            assert(problems[i] == Some(d));
        }
        if problems.contains(Some(d)) {
            let i = choose|i: int| 0 <= i < problems.len() && problems[i] == Some(d);
            if i < rest.len() {
                assert(rest[i] == Some(d));
            }
        }
        if shown(rest).contains(d) {
            let i = choose|i: int| 0 <= i < shown(rest).len() && shown(rest)[i] == d;
            assert(shown(problems)[i] == d);
        }
        if shown(problems).contains(d) {
            let i = choose|i: int| 0 <= i < shown(problems).len() && shown(problems)[i] == d;
            if i < shown(rest).len() {
                assert(shown(rest)[i] == d);
            }
        }
        if problems.last() == Some(d) {
            assert(shown(problems)[shown(rest).len() as int] == d);
            assert(problems[problems.len() - 1] == Some(d));
        }
    }
}

/// The document of a module has the URL, the text, the table of lines and the version that
/// it was given, and the module's own types, abilities and declarations: those that it was
/// type checked with, or the root's where it was not type checked by itself. It knows the
/// URLs of all modules, and reports the module's own problems. What belongs to the module
/// is used up.
pub proof fn lemma_build_document<'a, L, I: Clone, S, A, D>(
    builder: &mut AnalyzedDocumentBuilder<'a, I, S, A, D>,
    url: Url,
    source: String,
    line_info: L,
    module_id: ModuleId,
    version: u32,
    res: AnalyzedDocument<L, I, S, A, D>,
)
    requires
        ({
            ||| old(builder).typechecked@.contains_key(module_id)
            ||| old(builder).root_module is Some && old(
                builder,
            ).declarations_by_id@.contains_key(module_id)
        }),
        call_ensures(
            AnalyzedDocumentBuilder::<'a, I, S, A, D>::build_document::<L>,
            (builder, url, source, line_info, module_id, version),
            res,
        ),
    ensures
        res.doc_info.url == url,
        res.doc_info.source@ == source@,
        res.doc_info.line_info == line_info,
        res.doc_info.version == version,
        res.analysys_result.module is Some,
        ({
            let module = res.analysys_result.module->0;
            &&& module.module_id == module_id
            &&& cloned(*old(builder).interns, module.interns)
            &&& module.module_id_to_url@ == old(builder).module_id_to_url@
            &&& if old(builder).typechecked@.contains_key(module_id) {
                &&& module.subs == old(builder).typechecked@[module_id].solved_subs
                &&& module.abilities == old(builder).typechecked@[module_id].abilities_store
                &&& module.declarations == old(builder).typechecked@[module_id].decls
            } else {
                &&& module.subs == (old(builder).root_module->0).subs
                &&& module.abilities == (old(builder).root_module->0).abilities_store
                &&& module.declarations == old(builder).declarations_by_id@[module_id]
            }
        }),
        ({
            &&& res.analysys_result.diagnostics@ == ({
                let can = if old(builder).can_problems@.contains_key(module_id) {
                    old(builder).can_problems@[module_id]@
                } else {
                    Seq::empty()
                };
                let types = if old(builder).type_problems@.contains_key(module_id) {
                    old(builder).type_problems@[module_id]@
                } else {
                    Seq::empty()
                };
                (can + types).filter_map(|problem: Option<Diagnostic>| problem)
            })
        }),
        final(builder).can_problems@ == old(builder).can_problems@.remove(module_id),
        final(builder).type_problems@ == old(builder).type_problems@.remove(module_id),
        final(builder).typechecked@ == old(builder).typechecked@.remove(module_id),
        old(builder).typechecked@.contains_key(module_id) ==> {
            &&& final(builder).root_module == old(builder).root_module
            &&& final(builder).declarations_by_id@ == old(builder).declarations_by_id@
        },
        !old(builder).typechecked@.contains_key(module_id) ==> {
            &&& final(builder).root_module is None
            &&& final(builder).declarations_by_id@ == old(builder).declarations_by_id@.remove(
                module_id,
            )
        },
        final(builder).interns == old(builder).interns,
        final(builder).module_id_to_url@ == old(builder).module_id_to_url@,
{
    lemma_diagnostics_of(old(builder).can_problems@, old(builder).type_problems@, module_id);
}

/// A program can be made documents of just where no module occurs twice among its sources,
/// no two of them lack a type checked module of their own, and one that lacks it has
/// declarations.
pub proof fn lemma_is_complete<L, I, S, A, D>(loaded: LoadedModule<L, I, S, A, D>, res: bool)
    requires
        call_ensures(LoadedModule::<L, I, S, A, D>::is_complete, (&loaded,), res),
    ensures
        res <==> {
            &&& forall|i: int, j: int|
                0 <= i < j < loaded.sources@.len() ==> (#[trigger] loaded.sources@[i]).module_id
                    != (#[trigger] loaded.sources@[j]).module_id
            &&& forall|i: int, j: int|
                0 <= i < j < loaded.sources@.len() ==> loaded.typechecked@.contains_key(
                    (#[trigger] loaded.sources@[i]).module_id,
                ) || loaded.typechecked@.contains_key((#[trigger] loaded.sources@[j]).module_id)
            &&& forall|i: int|
                0 <= i < loaded.sources@.len() ==> loaded.typechecked@.contains_key(
                    (#[trigger] loaded.sources@[i]).module_id,
                ) || loaded.declarations_by_id@.contains_key(loaded.sources@[i].module_id)
        },
{
}

proof fn lemma_document_of_a_source<L, I: Clone, S, A, D>(
    document: AnalyzedDocument<L, I, S, A, D>,
    loaded: LoadedModule<L, I, S, A, D>,
    i: int,
    version: u32,
    urls: Map<ModuleId, Url>,
)
    requires
        loaded.complete(),
        0 <= i < loaded.sources@.len(),
        loaded_document(document, loaded, i, version, urls),
    ensures
        ({
            let source = loaded.sources@[i];
            let id = source.module_id;
            let module = document.analysys_result.module->0;
            &&& document.doc_info.source@ == source.source@
            &&& document.doc_info.line_info == source.line_info
            &&& document.doc_info.version == version
            &&& document.doc_info.url == urls[id]
            &&& document.analysys_result.module is Some
            &&& module.module_id == id
            &&& cloned(loaded.interns, module.interns)
            &&& module.module_id_to_url@ == urls
            &&& if loaded.typechecked@.contains_key(id) {
                &&& module.subs == loaded.typechecked@[id].solved_subs
                &&& module.abilities == loaded.typechecked@[id].abilities_store
                &&& module.declarations == loaded.typechecked@[id].decls
            } else {
                &&& module.subs == loaded.solved
                &&& module.abilities == loaded.abilities_store
                &&& module.declarations == loaded.declarations_by_id@[id]
            }
            &&& document.analysys_result.diagnostics@ == ({
                let can = if loaded.can_problems@.contains_key(id) {
                    loaded.can_problems@[id]@
                } else {
                    Seq::empty()
                };
                let types = if loaded.type_problems@.contains_key(id) {
                    loaded.type_problems@[id]@
                } else {
                    Seq::empty()
                };
                (can + types).filter_map(|problem: Option<Diagnostic>| problem)
            })
        }),
{
    lemma_diagnostics_of(loaded.can_problems@, loaded.type_problems@, loaded.sources@[i].module_id);
}

/// There is a document for each source of a program, in order, be its module the root or
/// not. It has the text and the table of lines of the source, the version of the analysis
/// and the URL that the module was given; the module's own types, abilities, declarations
/// and problems; and it knows the URLs of all modules.
pub proof fn lemma_build_documents<L, I: Clone, S, A, D>(
    loaded: LoadedModule<L, I, S, A, D>,
    module_id_to_url: ModuleIdToUrl,
    version: u32,
    res: Vec<AnalyzedDocument<L, I, S, A, D>>,
)
    requires
        forall|i: int, j: int|
            0 <= i < j < loaded.sources@.len() ==> {
                let id = (#[trigger] loaded.sources@[i]).module_id;
                let other = (#[trigger] loaded.sources@[j]).module_id;
                &&& id != other
                &&& loaded.typechecked@.contains_key(id) || loaded.typechecked@.contains_key(other)
            },
        forall|i: int|
            0 <= i < loaded.sources@.len() ==> {
                let id = (#[trigger] loaded.sources@[i]).module_id;
                ||| loaded.typechecked@.contains_key(id)
                ||| loaded.declarations_by_id@.contains_key(id)
            },
        forall|i: int|
            0 <= i < loaded.sources@.len() ==> module_id_to_url@.contains_key(
                (#[trigger] loaded.sources@[i]).module_id,
            ),
        call_ensures(build_documents::<L, I, S, A, D>, (loaded, module_id_to_url, version), res),
    ensures
        res@.len() == loaded.sources@.len(),
        forall|i: int|
            0 <= i < res@.len() ==> {
                let source = loaded.sources@[i];
                let id = source.module_id;
                let document = #[trigger] res@[i];
                let module = document.analysys_result.module->0;
                &&& document.doc_info.source@ == source.source@
                &&& document.doc_info.line_info == source.line_info
                &&& document.doc_info.version == version
                &&& document.doc_info.url == module_id_to_url@[id]
                &&& module.module_id_to_url@ == module_id_to_url@
                &&& document.analysys_result.module is Some
                &&& module.module_id == id
                &&& cloned(loaded.interns, module.interns)
                &&& if loaded.typechecked@.contains_key(id) {
                    &&& module.subs == loaded.typechecked@[id].solved_subs
                    &&& module.abilities == loaded.typechecked@[id].abilities_store
                    &&& module.declarations == loaded.typechecked@[id].decls
                } else {
                    &&& module.subs == loaded.solved
                    &&& module.abilities == loaded.abilities_store
                    &&& module.declarations == loaded.declarations_by_id@[id]
                }
                &&& document.analysys_result.diagnostics@ == ({
                    let can = if loaded.can_problems@.contains_key(id) {
                        loaded.can_problems@[id]@
                    } else {
                        Seq::empty()
                    };
                    let types = if loaded.type_problems@.contains_key(id) {
                        loaded.type_problems@[id]@
                    } else {
                        Seq::empty()
                    };
                    (can + types).filter_map(|problem: Option<Diagnostic>| problem)
                })
            },
{
    assert(loaded.complete());
    assert forall|i: int| 0 <= i < res@.len() implies {
        let source = loaded.sources@[i];
        let id = source.module_id;
        let document = #[trigger] res@[i];
        let module = document.analysys_result.module->0;
        &&& document.doc_info.source@ == source.source@
        &&& document.doc_info.line_info == source.line_info
        &&& document.doc_info.version == version
        &&& document.doc_info.url == module_id_to_url@[id]
        &&& module.module_id_to_url@ == module_id_to_url@
        &&& document.analysys_result.module is Some
        &&& module.module_id == id
        &&& cloned(loaded.interns, module.interns)
        &&& if loaded.typechecked@.contains_key(id) {
            &&& module.subs == loaded.typechecked@[id].solved_subs
            &&& module.abilities == loaded.typechecked@[id].abilities_store
            &&& module.declarations == loaded.typechecked@[id].decls
        } else {
            &&& module.subs == loaded.solved
            &&& module.abilities == loaded.abilities_store
            &&& module.declarations == loaded.declarations_by_id@[id]
        }
        &&& document.analysys_result.diagnostics@ == ({
            let can = if loaded.can_problems@.contains_key(id) {
                loaded.can_problems@[id]@
            } else {
                Seq::empty()
            };
            let types = if loaded.type_problems@.contains_key(id) {
                loaded.type_problems@[id]@
            } else {
                Seq::empty()
            };
            (can + types).filter_map(|problem: Option<Diagnostic>| problem)
        })
    } by {
        lemma_document_of_a_source(res@[i], loaded, i, version, module_id_to_url@);
    }
}

/// The URL of each module is that of its own path: what `Url::from_file_path` gives for the
/// path, where it is absolute, or for the path joined to the directory for temporary files.
/// There is one for each source and for nothing else. Where there are no URLs, one of the
/// paths has none.
pub proof fn lemma_module_urls<L>(
    sources: &Vec<ModuleSource<L>>,
    temp_dir: &Path,
    res: Option<ModuleIdToUrl>,
)
    requires
        forall|i: int, j: int|
            0 <= i < j < sources@.len() ==> (#[trigger] sources@[i]).module_id != (
            #[trigger] sources@[j]).module_id,
        call_ensures(module_id_to_url_from_sources::<L>, (sources, temp_dir), res),
    ensures
        res matches Some(urls) ==> {
            &&& forall|id: ModuleId| #[trigger]
                urls@.contains_key(id) <==> exists|i: int|
                    0 <= i < sources@.len() && (#[trigger] sources@[i]).module_id == id
            &&& forall|i: int|
                0 <= i < sources@.len() ==> {
                    let path = path_buf_bytes((#[trigger] sources@[i]).path);
                    let url = url_text(urls@[sources@[i].module_id]);
                    &&& "file://"@.is_prefix_of(url)
                    &&& exists|full: Seq<u8>| #[trigger]
                        file_url_outcome(full, Some(url)) && relative_outcome(full, false) && {
                            ||| relative_outcome(path, false) && full == path
                            ||| relative_outcome(path, true) && join_outcome(
                                path_bytes(temp_dir),
                                path,
                                full,
                            )
                        }
                }
        },
        res is None ==> exists|i: int, full: Seq<u8>|
            {
                let path = path_buf_bytes((#[trigger] sources@[i]).path);
                &&& 0 <= i < sources@.len()
                &&& #[trigger] file_url_outcome(full, None)
                &&& {
                    ||| relative_outcome(path, false) && full == path
                    ||| relative_outcome(path, true) && join_outcome(
                        path_bytes(temp_dir),
                        path,
                        full,
                    )
                }
            },
{
    match res {
        Some(urls) => {
            assert forall|i: int| 0 <= i < sources@.len() implies {
                let path = path_buf_bytes((#[trigger] sources@[i]).path);
                let url = url_text(urls@[sources@[i].module_id]);
                &&& "file://"@.is_prefix_of(url)
                &&& exists|full: Seq<u8>| #[trigger]
                    file_url_outcome(full, Some(url)) && relative_outcome(full, false) && {
                        ||| relative_outcome(path, false) && full == path
                        ||| relative_outcome(path, true) && join_outcome(
                            path_bytes(temp_dir),
                            path,
                            full,
                        )
                    }
            } by {
                let path = path_buf_bytes(sources@[i].path);
                let url = url_text(urls@[sources@[i].module_id]);
                lemma_url_made_of(path, path_bytes(temp_dir), Some(url));
            }
        },
        None => {
            let i = choose|i: int|
                0 <= i < sources@.len() && path_url_outcome(
                    path_buf_bytes((#[trigger] sources@[i]).path),
                    path_bytes(temp_dir),
                    None,
                );
            lemma_url_made_of(path_buf_bytes(sources@[i].path), path_bytes(temp_dir), None);
        },
    }
}

/// Where the program was loaded, the analysis gives a document for each of its sources, in
/// order, be its module the root or not, with the text and the table of lines of the
/// source, the version that was asked for, and the module's own types, abilities,
/// declarations and problems. The URL of each is made of the path of its source, and each
/// knows all others by it.
pub proof fn lemma_documents_of_a_program<L, I: Clone, S, A, D>(
    request: AnalysisRequest<L>,
    loaded: LoadedModule<L, I, S, A, D>,
    temp_dir: &Path,
    res: Option<Vec<AnalyzedDocument<L, I, S, A, D>>>,
)
    requires
        forall|i: int, j: int|
            0 <= i < j < loaded.sources@.len() ==> {
                let id = (#[trigger] loaded.sources@[i]).module_id;
                let other = (#[trigger] loaded.sources@[j]).module_id;
                &&& id != other
                &&& loaded.typechecked@.contains_key(id) || loaded.typechecked@.contains_key(other)
            },
        forall|i: int|
            0 <= i < loaded.sources@.len() ==> {
                let id = (#[trigger] loaded.sources@[i]).module_id;
                ||| loaded.typechecked@.contains_key(id)
                ||| loaded.declarations_by_id@.contains_key(id)
            },
        call_ensures(
            AnalysisRequest::<L>::documents::<I, S, A, D>,
            (request, Ok(loaded), temp_dir),
            res,
        ),
    ensures
        res matches Some(documents) ==> {
            &&& documents@.len() == loaded.sources@.len()
            &&& forall|i: int|
                0 <= i < documents@.len() ==> {
                    let source = loaded.sources@[i];
                    let id = source.module_id;
                    let document = #[trigger] documents@[i];
                    let module = document.analysys_result.module->0;
                    &&& document.doc_info.source@ == source.source@
                    &&& document.doc_info.line_info == source.line_info
                    &&& document.doc_info.version == request.doc_info.version
                    &&& document.analysys_result.module is Some
                    &&& module.module_id == id
                    &&& cloned(loaded.interns, module.interns)
                    &&& if loaded.typechecked@.contains_key(id) {
                        &&& module.subs == loaded.typechecked@[id].solved_subs
                        &&& module.abilities == loaded.typechecked@[id].abilities_store
                        &&& module.declarations == loaded.typechecked@[id].decls
                    } else {
                        &&& module.subs == loaded.solved
                        &&& module.abilities == loaded.abilities_store
                        &&& module.declarations == loaded.declarations_by_id@[id]
                    }
                    &&& document.analysys_result.diagnostics@ == ({
                        let can = if loaded.can_problems@.contains_key(id) {
                            loaded.can_problems@[id]@
                        } else {
                            Seq::empty()
                        };
                        let types = if loaded.type_problems@.contains_key(id) {
                            loaded.type_problems@[id]@
                        } else {
                            Seq::empty()
                        };
                        (can + types).filter_map(|problem: Option<Diagnostic>| problem)
                    })
                }
            &&& forall|i: int|
                0 <= i < documents@.len() ==> {
                    let path = path_buf_bytes(loaded.sources@[i].path);
                    let url = url_text((#[trigger] documents@[i]).doc_info.url);
                    &&& "file://"@.is_prefix_of(url)
                    &&& exists|full: Seq<u8>| #[trigger]
                        file_url_outcome(full, Some(url)) && relative_outcome(full, false) && {
                            ||| relative_outcome(path, false) && full == path
                            ||| relative_outcome(path, true) && join_outcome(
                                path_bytes(temp_dir),
                                path,
                                full,
                            )
                        }
                }
            &&& forall|i: int, j: int|
                0 <= i < documents@.len() && 0 <= j < documents@.len() ==> {
                    let known = (
                    #[trigger] documents@[i]).analysys_result.module->0.module_id_to_url@;
                    let id = loaded.sources@[j].module_id;
                    &&& known.contains_key(id)
                    &&& known[id] == (#[trigger] documents@[j]).doc_info.url
                }
        },
        res is None ==> exists|i: int, full: Seq<u8>|
            {
                let path = path_buf_bytes((#[trigger] loaded.sources@[i]).path);
                &&& 0 <= i < loaded.sources@.len()
                &&& #[trigger] file_url_outcome(full, None)
                &&& {
                    ||| relative_outcome(path, false) && full == path
                    ||| relative_outcome(path, true) && join_outcome(
                        path_bytes(temp_dir),
                        path,
                        full,
                    )
                }
            },
{
    assert(loaded.complete());
    let sources = loaded.sources@;
    let version = request.doc_info.version;
    match res {
        Some(documents) => {
            let urls = choose|urls: Map<ModuleId, Url>| #[trigger]
                module_urls_outcome(sources, path_bytes(temp_dir), urls) && loaded_documents(
                    documents@,
                    loaded,
                    version,
                    urls,
                );
            assert forall|i: int| 0 <= i < documents@.len() implies {
                let source = loaded.sources@[i];
                let id = source.module_id;
                let document = #[trigger] documents@[i];
                let module = document.analysys_result.module->0;
                &&& document.doc_info.source@ == source.source@
                &&& document.doc_info.line_info == source.line_info
                &&& document.doc_info.version == version
                &&& document.analysys_result.module is Some
                &&& module.module_id == id
                &&& cloned(loaded.interns, module.interns)
                &&& if loaded.typechecked@.contains_key(id) {
                    &&& module.subs == loaded.typechecked@[id].solved_subs
                    &&& module.abilities == loaded.typechecked@[id].abilities_store
                    &&& module.declarations == loaded.typechecked@[id].decls
                } else {
                    &&& module.subs == loaded.solved
                    &&& module.abilities == loaded.abilities_store
                    &&& module.declarations == loaded.declarations_by_id@[id]
                }
                &&& document.analysys_result.diagnostics@ == ({
                    let can = if loaded.can_problems@.contains_key(id) {
                        loaded.can_problems@[id]@
                    } else {
                        Seq::empty()
                    };
                    let types = if loaded.type_problems@.contains_key(id) {
                        loaded.type_problems@[id]@
                    } else {
                        Seq::empty()
                    };
                    (can + types).filter_map(|problem: Option<Diagnostic>| problem)
                })
            } by {
                lemma_document_of_a_source(documents@[i], loaded, i, version, urls);
            }
            assert forall|i: int| 0 <= i < documents@.len() implies {
                let path = path_buf_bytes(loaded.sources@[i].path);
                let url = url_text((#[trigger] documents@[i]).doc_info.url);
                &&& "file://"@.is_prefix_of(url)
                &&& exists|full: Seq<u8>| #[trigger]
                    file_url_outcome(full, Some(url)) && relative_outcome(full, false) && {
                        ||| relative_outcome(path, false) && full == path
                        ||| relative_outcome(path, true) && join_outcome(
                            path_bytes(temp_dir),
                            path,
                            full,
                        )
                    }
            } by {
                lemma_document_of_a_source(documents@[i], loaded, i, version, urls);
                let url = url_text(documents@[i].doc_info.url);
                assert(urls.contains_key(sources[i].module_id));
                lemma_url_made_of(path_buf_bytes(sources[i].path), path_bytes(temp_dir), Some(url));
            }
            assert forall|i: int, j: int|
                0 <= i < documents@.len() && 0 <= j < documents@.len() implies {
                let known = (#[trigger] documents@[i]).analysys_result.module->0.module_id_to_url@;
                let id = loaded.sources@[j].module_id;
                &&& known.contains_key(id)
                &&& known[id] == (#[trigger] documents@[j]).doc_info.url
            } by {
                lemma_document_of_a_source(documents@[i], loaded, i, version, urls);
                lemma_document_of_a_source(documents@[j], loaded, j, version, urls);
                assert(urls.contains_key(sources[j].module_id));
            }
        },
        None => {
            let i = choose|i: int|
                0 <= i < sources.len() && path_url_outcome(
                    path_buf_bytes((#[trigger] sources[i]).path),
                    path_bytes(temp_dir),
                    None,
                );
            lemma_url_made_of(path_buf_bytes(sources[i].path), path_bytes(temp_dir), None);
        },
    }
}

/// Where the program could not be loaded, the analysis gives the document that it was asked
/// for alone, as it is, without a module, and reports the failure where it has a diagnostic,
/// and nothing else.
pub proof fn lemma_documents_of_a_failure<L, I: Clone, S, A, D>(
    request: AnalysisRequest<L>,
    problem: Option<Diagnostic>,
    temp_dir: &Path,
    res: Option<Vec<AnalyzedDocument<L, I, S, A, D>>>,
)
    requires
        call_ensures(
            AnalysisRequest::<L>::documents::<I, S, A, D>,
            (request, Err(problem), temp_dir),
            res,
        ),
    ensures
        res is Some,
        ({
            let documents = (res->0)@;
            &&& documents.len() == 1
            &&& documents[0].doc_info == request.doc_info
            &&& documents[0].analysys_result.module is None
            &&& documents[0].analysys_result.diagnostics@ == match problem {
                Some(diagnostic) => seq![diagnostic],
                None => Seq::empty(),
            }
        }),
{
    let list = seq![problem];
    assert(list.drop_last() =~= Seq::empty());
    assert(shown(list.drop_last()) =~= Seq::empty());
    assert(list.last() == problem);
}

/// An analysis is started just where the URL names a file. That file is what is to be
/// loaded, from the directory that `Path::parent` gives for it, or from the path itself where
/// that gives none. The document is known by the URL, the text and the version that it was
/// opened with, before the analysis and in it.
pub proof fn lemma_global_anal<L: Clone>(
    source_url: Url,
    source: String,
    version: u32,
    line_info: L,
    res: Option<(AnalysisRequest<L>, DocInfo<L>)>,
)
    requires
        call_ensures(global_anal::<L>, (source_url, source, version, line_info), res),
    ensures
        res matches Some((request, doc_info)) ==> {
            let path = path_buf_bytes(request.path);
            let src_dir = path_buf_bytes(request.src_dir);
            &&& file_path_outcome(url_text(source_url), Some(path))
            &&& {
                ||| parent_outcome(path, Some(src_dir)) && src_dir.len() < path.len()
                ||| parent_outcome(path, None) && src_dir == path
            }
            &&& request.doc_info.url == source_url
            &&& request.doc_info.line_info == line_info
            &&& request.doc_info.source@ == source@
            &&& request.doc_info.version == version
            &&& doc_info.url == source_url
            &&& cloned(line_info, doc_info.line_info)
            &&& doc_info.source@ == source@
            &&& doc_info.version == version
        },
        res is None ==> file_path_outcome(url_text(source_url), None),
{
    if let Some((request, _)) = res {
        let path = path_buf_bytes(request.path);
        let src_dir = path_buf_bytes(request.src_dir);
        if src_dir.len() == path.len() {
            assert(src_dir =~= path);
        }
    }
}

} // verus!
