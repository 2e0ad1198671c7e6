//! An analyzed document, and how requests about it are answered.
//!
//! A request is answered in two steps. The first, a query, says what is to be looked
//! up in the analyzed module, and with which arguments; there is none where the
//! document did not type check. The second makes the answer of what was found.

use crate::document::DocInfo;
use crate::lsp::{
    GotoDefinitionResponse, Hover, HoverContents, Location, MarkedString, Range, RocPosition,
};
use crate::paths::{ModuleId, ModuleIdToUrl};
use crate::prefix::symbol_prefix_text;
use tower_lsp::lsp_types::{CompletionItem, Diagnostic, Url};
use vstd::arithmetic::div_mod::{lemma_fundamental_div_mod, lemma_fundamental_div_mod_converse};
use vstd::prelude::*;

verus! {

/// A module that type checked, with what the compiler front end found out: the
/// interned names, the solved types, the abilities and the declarations.
#[derive(Debug)]
pub struct AnalyzedModule<I, S, A, D> {
    pub module_id: ModuleId,
    pub interns: I,
    pub subs: S,
    pub abilities: A,
    pub declarations: D,
    pub module_id_to_url: ModuleIdToUrl,
}

/// The outcome of an analysis: the module, unless it failed, and what to report.
#[derive(Debug)]
pub struct AnalysisResult<I, S, A, D> {
    pub module: Option<AnalyzedModule<I, S, A, D>>,
    pub diagnostics: Vec<Diagnostic>,
}

/// A version of a document, together with the outcome of its analysis.
#[derive(Debug)]
pub struct AnalyzedDocument<L, I, S, A, D> {
    pub doc_info: DocInfo<L>,
    pub analysys_result: AnalysisResult<I, S, A, D>,
}

/// `copy` holds a clone of each part of `module`.
pub open spec fn module_cloned<I: Clone, S: Clone, A: Clone, D: Clone>(
    module: AnalyzedModule<I, S, A, D>,
    copy: AnalyzedModule<I, S, A, D>,
) -> bool {
    &&& copy.module_id == module.module_id
    &&& cloned(module.interns, copy.interns)
    &&& cloned(module.subs, copy.subs)
    &&& cloned(module.abilities, copy.abilities)
    &&& cloned(module.declarations, copy.declarations)
    &&& copy.module_id_to_url@ == module.module_id_to_url@
}

/// `copy` holds the same diagnostics, and a clone of the module where there is one.
pub open spec fn result_cloned<I: Clone, S: Clone, A: Clone, D: Clone>(
    result: AnalysisResult<I, S, A, D>,
    copy: AnalysisResult<I, S, A, D>,
) -> bool {
    &&& match (result.module, copy.module) {
        (Some(module), Some(module_copy)) => module_cloned(module, module_copy),
        (None, None) => true,
        _ => false,
    }
    &&& copy.diagnostics@ == result.diagnostics@
}

impl<I: Clone, S: Clone, A: Clone, D: Clone> Clone for AnalyzedModule<I, S, A, D> {
    fn clone(&self) -> (res: Self)
        ensures
            module_cloned(*self, res),
    {
        AnalyzedModule {
            module_id: self.module_id,
            interns: self.interns.clone(),
            subs: self.subs.clone(),
            abilities: self.abilities.clone(),
            declarations: self.declarations.clone(),
            module_id_to_url: self.module_id_to_url.clone(),
        }
    }
}

impl<I: Clone, S: Clone, A: Clone, D: Clone> Clone for AnalysisResult<I, S, A, D> {
    fn clone(&self) -> (res: Self)
        ensures
            result_cloned(*self, res),
    {
        let module = match &self.module {
            Some(module) => Some(module.clone()),
            None => None,
        };
        let diagnostics = self.diagnostics.clone();
        assert(diagnostics@ =~= self.diagnostics@);
        AnalysisResult { module, diagnostics }
    }
}

impl<L: Clone, I: Clone, S: Clone, A: Clone, D: Clone> Clone for AnalyzedDocument<L, I, S, A, D> {
    fn clone(&self) -> (res: Self)
        ensures
            res.doc_info.url == self.doc_info.url,
            cloned(self.doc_info.line_info, res.doc_info.line_info),
            res.doc_info.source == self.doc_info.source,
            res.doc_info.version == self.doc_info.version,
            result_cloned(self.analysys_result, res.analysys_result),
    {
        AnalyzedDocument {
            doc_info: self.doc_info.clone(),
            analysys_result: self.analysys_result.clone(),
        }
    }
}

/// Which symbol is closest to a position.
pub struct SymbolQuery<'a, A, D> {
    pub position: RocPosition,
    pub declarations: &'a D,
    pub abilities: &'a A,
}

/// Which expression is closest to a position, and what its type reads like.
pub struct TypeQuery<'a, I, S, D> {
    pub position: RocPosition,
    pub declarations: &'a D,
    pub subs: &'a S,
    pub module_id: ModuleId,
    pub interns: &'a I,
}

/// Where a symbol is declared.
pub struct DefinitionQuery<'a, Y, D> {
    pub symbol: Y,
    pub declarations: &'a D,
}

/// What could be typed at a position where `symbol_prefix` stands: a field of the
/// record in front of the dot, or a name in scope.
pub struct CompletionQuery<'a, I, S, D> {
    pub position: RocPosition,
    pub symbol_prefix: String,
    pub is_field_completion: bool,
    pub declarations: &'a D,
    pub interns: &'a I,
    pub subs: &'a S,
    pub module_id: ModuleId,
}

/// The expression that a `TypeQuery` found: where it stands, and its type.
#[derive(Debug, PartialEq, Eq)]
pub struct TypeAtPosition {
    pub range: Range,
    pub type_str: String,
}

/// What a `CompletionQuery` found: the fields, where there is such a record, or the
/// names.
#[derive(Debug)]
pub enum CompletionReply {
    Fields(Option<Vec<CompletionItem>>),
    Names(Vec<CompletionItem>),
}

/// The place in the analyzed text that stands for an offset into a later one: as far
/// from the end of the text, and one byte to the left, as an unsigned number of
/// 32 bits.
pub open spec fn completion_offset(offset: u32, latest_len: nat, analyzed_len: nat) -> int {
    (offset - (latest_len - analyzed_len) - 1) % 0x1_0000_0000
}

/// Wherever there is such a place, it is one byte to the left of the offset moved by
/// what the text grew.
pub proof fn lemma_completion_offset_in_text(offset: u32, latest_len: nat, analyzed_len: nat)
    requires
        0 <= offset - (latest_len - analyzed_len) - 1 < 0x1_0000_0000,
    ensures
        completion_offset(offset, latest_len, analyzed_len) + (latest_len - analyzed_len) + 1
            == offset,
{
}

/// A cursor that text is typed at, from `offset` on, stands for one place in the
/// analyzed text, whatever the length of what was typed.
pub proof fn lemma_completion_offset_while_typing(
    offset: u32,
    typed: u32,
    latest_len: nat,
    analyzed_len: nat,
)
    requires
        offset + typed <= u32::MAX,
    ensures
        completion_offset((offset + typed) as u32, latest_len + typed as nat, analyzed_len)
            == completion_offset(offset, latest_len, analyzed_len),
{
}

fn shifted_offset(offset: u32, latest_len: usize, analyzed_len: usize) -> (res: u32)
    ensures
        res == completion_offset(offset, latest_len as nat, analyzed_len as nat),
{
    let latest64: u64 = latest_len as u64;
    let analyzed64: u64 = analyzed_len as u64;
    let latest: u32 = #[verifier::truncate] (latest64 as u32);
    let analyzed: u32 = #[verifier::truncate] (analyzed64 as u32);
    let res: u32 = offset.wrapping_sub(latest).wrapping_add(analyzed).wrapping_sub(1);
    proof {
        let m: int = 0x1_0000_0000;
        assert(latest64 as u32 == latest64 % 0x1_0000_0000) by (bit_vector);
        assert(analyzed64 as u32 == analyzed64 % 0x1_0000_0000) by (bit_vector);
        lemma_fundamental_div_mod(latest_len as int, m);
        lemma_fundamental_div_mod(analyzed_len as int, m);
        let k: int = analyzed_len as int / m - latest_len as int / m;
        let moved: int = offset - latest + analyzed - 1;
        let x: int = offset - (latest_len - analyzed_len) - 1;
        assert(x == moved + m * k);
        let t: int = if res == moved - m {
            1
        } else if res == moved {
            0
        } else {
            -1
        };
        assert(res == moved - m * t);
        assert(x == (k + t) * m + res);
        lemma_fundamental_div_mod_converse(x, m, k + t, res as int);
    }
    res
}

/// Whether a text holds a dot.
fn contains_dot(text: &str) -> (res: bool)
    ensures
        res == text@.contains('.'),
{
    for c in chars: text.chars()
        invariant
            chars.seq() == text@,
            forall|i: int| 0 <= i < chars.index() ==> text@[i] != '.',
    {
        if c == '.' {
            assert(text@[chars.index() as int] == c);
            return true;
        }
    }
    false
}

impl<L, I, S, A, D> AnalyzedDocument<L, I, S, A, D> {
    /// The URL of the document.
    pub fn url(&self) -> (res: &Url)
        ensures
            *res == self.doc_info.url,
    {
        &self.doc_info.url
    }

    /// The table of the document's lines.
    pub fn line_info(&self) -> (res: &L)
        ensures
            *res == self.doc_info.line_info,
    {
        &self.doc_info.line_info
    }

    /// The analyzed module, unless the analysis failed.
    pub fn module(&self) -> (res: Option<&AnalyzedModule<I, S, A, D>>)
        ensures
            match self.analysys_result.module {
                Some(module) => res == Some(&module),
                None => res is None,
            },
    {
        self.analysys_result.module.as_ref()
    }

    /// The version of the document that was analyzed.
    pub fn doc_info(&self) -> (res: &DocInfo<L>)
        ensures
            *res == self.doc_info,
    {
        &self.doc_info
    }

    /// A range of this document.
    pub fn location(&self, range: Range) -> (res: Location)
        ensures
            res == (Location { uri: self.doc_info.url, range }),
    {
        Location { uri: self.doc_info.url.clone(), range }
    }

    /// Whether the analysis got as far as a typed module.
    pub fn type_checked(&self) -> (res: bool)
        ensures
            res == self.analysys_result.module is Some,
    {
        self.analysys_result.module.is_some()
    }

    /// What the analysis reports.
    pub fn diagnostics(&self) -> (res: Vec<Diagnostic>)
        ensures
            res@ == self.analysys_result.diagnostics@,
    {
        let res = self.analysys_result.diagnostics.clone();
        assert(res@ =~= self.analysys_result.diagnostics@);
        res
    }

    /// What to look up for the symbol at a position.
    pub fn symbol_query(&self, position: RocPosition) -> (res: Option<SymbolQuery<'_, A, D>>)
        ensures
            match self.analysys_result.module {
                Some(module) => res == Some(
                    SymbolQuery {
                        position,
                        declarations: &module.declarations,
                        abilities: &module.abilities,
                    },
                ),
                None => res is None,
            },
    {
        let module = self.module()?;
        Some(
            SymbolQuery {
                position,
                declarations: &module.declarations,
                abilities: &module.abilities,
            },
        )
    }

    /// The symbol at a position, given what the `symbol_query` for it found.
    pub fn symbol_at<Y>(&self, found: Option<Y>) -> (res: Option<Y>)
        ensures
            self.analysys_result.module is Some ==> res == found,
            self.analysys_result.module is None ==> res is None,
    {
        self.module()?;
        found
    }

    /// What to look up for the type of the expression at a position.
    pub fn hover_query(&self, position: RocPosition) -> (res: Option<TypeQuery<'_, I, S, D>>)
        ensures
            match self.analysys_result.module {
                Some(module) => res == Some(
                    TypeQuery {
                        position,
                        declarations: &module.declarations,
                        subs: &module.subs,
                        module_id: module.module_id,
                        interns: &module.interns,
                    },
                ),
                None => res is None,
            },
    {
        let module = self.module()?;
        Some(
            TypeQuery {
                position,
                declarations: &module.declarations,
                subs: &module.subs,
                module_id: module.module_id,
                interns: &module.interns,
            },
        )
    }

    /// What to show at a position, given what the `hover_query` for it found: the
    /// type, as a single plain text, over the range of the expression.
    pub fn hover(&self, found: Option<TypeAtPosition>) -> (res: Option<Hover>)
        ensures
            match (self.analysys_result.module, found) {
                (Some(_), Some(at)) => res == Some(
                    Hover {
                        contents: HoverContents::Scalar(MarkedString::String(at.type_str)),
                        range: Some(at.range),
                    },
                ),
                _ => res is None,
            },
    {
        self.module()?;
        let at = found?;
        Some(
            Hover {
                contents: HoverContents::Scalar(MarkedString::String(at.type_str)),
                range: Some(at.range),
            },
        )
    }

    /// What to look up for the definition of a symbol.
    pub fn definition_query<Y>(&self, symbol: Y) -> (res: Option<DefinitionQuery<'_, Y, D>>)
        ensures
            match self.analysys_result.module {
                Some(module) => res == Some(
                    DefinitionQuery { symbol, declarations: &module.declarations },
                ),
                None => res is None,
            },
    {
        let module = self.module()?;
        Some(DefinitionQuery { symbol, declarations: &module.declarations })
    }

    /// Where a symbol is defined, given the range of the declaration that the
    /// `definition_query` for it found: there, in this document.
    pub fn definition(&self, found: Option<Range>) -> (res: Option<GotoDefinitionResponse>)
        ensures
            match (self.analysys_result.module, found) {
                (Some(_), Some(range)) => res == Some(
                    GotoDefinitionResponse::Scalar(Location { uri: self.doc_info.url, range }),
                ),
                _ => res is None,
            },
    {
        self.module()?;
        let range = found?;
        Some(GotoDefinitionResponse::Scalar(self.location(range)))
    }

    /// The URL of a module, by the number that this document's module has for it.
    pub fn module_url(&self, module_id: ModuleId) -> (res: Option<Url>)
        ensures
            match self.analysys_result.module {
                Some(module) => if module.module_id_to_url@.contains_key(module_id) {
                    res == Some(module.module_id_to_url@[module_id])
                } else {
                    res is None
                },
                None => res is None,
            },
    {
        self.module()?.module_id_to_url.get(&module_id).cloned()
    }

    /// The position in the analyzed text at which completions for a position of
    /// `latest_doc` are looked up: the one that is as far from the end, less one byte.
    pub fn completion_position(&self, position: RocPosition, latest_doc: &DocInfo<L>) -> (res:
        RocPosition)
        ensures
            res.offset == completion_offset(
                position.offset,
                latest_doc.source_bytes().len(),
                self.doc_info.source_bytes().len(),
            ),
    {
        let latest_len: usize = latest_doc.source.as_str().as_bytes().len();
        let analyzed_len: usize = self.doc_info.source.as_str().as_bytes().len();
        RocPosition { offset: shifted_offset(position.offset, latest_len, analyzed_len) }
    }

    /// What to look up for the completions at a position of `latest_doc`, a version
    /// of this document that may be later than the analyzed one. The symbol in front
    /// of the position is read from there; a dot in it asks for the fields of a
    /// record. The position is that of `completion_position`.
    pub fn completion_query(
        &self,
        position: RocPosition,
        latest_doc: &DocInfo<L>,
    ) -> (res: Option<CompletionQuery<'_, I, S, D>>)
        requires
            position.offset <= latest_doc.source_bytes().len(),
        ensures
            match self.analysys_result.module {
                Some(module) => {
                    let prefix = symbol_prefix_text(
                        latest_doc.source_bytes().take(position.offset as int),
                    );
                    &&& res matches Some(query)
                    &&& query.position.offset == completion_offset(
                        position.offset,
                        latest_doc.source_bytes().len(),
                        self.doc_info.source_bytes().len(),
                    )
                    &&& query.symbol_prefix@ == prefix
                    &&& query.is_field_completion == prefix.contains('.')
                    &&& query.declarations == module.declarations
                    &&& query.interns == module.interns
                    &&& query.subs == module.subs
                    &&& query.module_id == module.module_id
                },
                None => res is None,
            },
    {
        let symbol_prefix = latest_doc.get_prefix_at_position(position);
        let position = self.completion_position(position, latest_doc);
        let module = self.module()?;
        let is_field_completion = contains_dot(symbol_prefix.as_str());
        Some(
            CompletionQuery {
                position,
                symbol_prefix,
                is_field_completion,
                declarations: &module.declarations,
                interns: &module.interns,
                subs: &module.subs,
                module_id: module.module_id,
            },
        )
    }

    /// The completions at a position, given what the `completion_query` for it found:
    /// the fields, where there is a record to have them, or the names in scope.
    pub fn completion_items(&self, reply: CompletionReply) -> (res: Option<Vec<CompletionItem>>)
        ensures
            match (self.analysys_result.module, reply) {
                (Some(_), CompletionReply::Fields(fields)) => res == fields,
                (Some(_), CompletionReply::Names(names)) => res == Some(names),
                (None, _) => res is None,
            },
    {
        self.module()?;
        match reply {
            CompletionReply::Fields(fields) => fields,
            CompletionReply::Names(names) => Some(names),
        }
    }
}

} // verus!
