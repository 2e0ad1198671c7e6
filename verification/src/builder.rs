//! From a loaded program to its analyzed documents.

use crate::analyzed::{AnalysisResult, AnalyzedDocument, AnalyzedModule};
use crate::document::DocInfo;
use crate::paths::{
    file_path_outcome, find_src_dir, leads_back, lemma_one_url, one_path_url, path_buf_bytes,
    path_bytes, path_to_url, path_url_outcome, src_dir_outcome, url_text, ModuleId, ModuleIdToUrl,
};
use std::collections::HashMap;
use std::path::{Path, PathBuf};
use tower_lsp::lsp_types::{Diagnostic, Url};
use vstd::prelude::*;

verus! {

/// What type checking found out about a module other than the root.
#[derive(Debug)]
pub struct CheckedModule<S, A, D> {
    pub solved_subs: S,
    pub abilities_store: A,
    pub decls: D,
}

/// What type checking found out about the root module, but for its declarations.
#[derive(Debug)]
pub struct RootModule<S, A> {
    pub subs: S,
    pub abilities_store: A,
}

/// The source of a module, with the table of its lines.
#[derive(Debug)]
pub struct ModuleSource<L> {
    pub module_id: ModuleId,
    pub path: PathBuf,
    pub source: String,
    pub line_info: L,
}

/// Diagnostics for the problems of each module, in order. A problem that is not shown
/// has `None`.
pub type Problems = HashMap<ModuleId, Vec<Option<Diagnostic>>>;

/// The diagnostics of the problems that are shown, in order.
pub open spec fn shown(problems: Seq<Option<Diagnostic>>) -> Seq<Diagnostic>
    decreases problems.len(),
{
    if problems.len() == 0 {
        Seq::empty()
    } else {
        match problems.last() {
            Some(diagnostic) => shown(problems.drop_last()).push(diagnostic),
            None => shown(problems.drop_last()),
        }
    }
}

/// The problems of a module: none where the table does not list it.
pub open spec fn problems_of(
    problems: Map<ModuleId, Vec<Option<Diagnostic>>>,
    module_id: ModuleId,
) -> Seq<Option<Diagnostic>> {
    if problems.contains_key(module_id) {
        problems[module_id]@
    } else {
        Seq::empty()
    }
}

/// The diagnostics of a module: those of canonicalization first, then those of type
/// checking.
pub open spec fn module_diagnostics(
    can_problems: Map<ModuleId, Vec<Option<Diagnostic>>>,
    type_problems: Map<ModuleId, Vec<Option<Diagnostic>>>,
    module_id: ModuleId,
) -> Seq<Diagnostic> {
    shown(problems_of(can_problems, module_id)) + shown(problems_of(type_problems, module_id))
}

/// Lists of problems that follow each other are shown one after the other.
pub proof fn lemma_shown_in_order(first: Seq<Option<Diagnostic>>, second: Seq<Option<Diagnostic>>)
    ensures
        shown(first + second) == shown(first) + shown(second),
    decreases second.len(),
{
    if second.len() == 0 {
        assert(first + second =~= first);
    } else {
        lemma_shown_in_order(first, second.drop_last());
        assert((first + second).drop_last() =~= first + second.drop_last());
        assert((first + second).last() == second.last());
    }
}

/// Each problem that is shown is shown once, in order, and nothing else is.
pub proof fn lemma_shown_is_what_has_a_diagnostic(problems: Seq<Option<Diagnostic>>)
    ensures
        shown(problems) == problems.filter_map(|problem: Option<Diagnostic>| problem),
    decreases problems.len(),
{
    reveal(Seq::filter_map);
    if problems.len() > 0 {
        lemma_shown_is_what_has_a_diagnostic(problems.drop_last());
    }
}

/// What a module's problems are shown as is taken out once: nothing is left for the
/// module, and nothing is lost of another.
pub proof fn lemma_diagnostics_taken_once(
    can_problems: Map<ModuleId, Vec<Option<Diagnostic>>>,
    type_problems: Map<ModuleId, Vec<Option<Diagnostic>>>,
    module_id: ModuleId,
)
    ensures
        module_diagnostics(
            can_problems.remove(module_id),
            type_problems.remove(module_id),
            module_id,
        ) == Seq::<Diagnostic>::empty(),
        forall|other: ModuleId|
            other != module_id ==> #[trigger] module_diagnostics(
                can_problems.remove(module_id),
                type_problems.remove(module_id),
                other,
            ) == module_diagnostics(can_problems, type_problems, other),
{
}

/// Appends the diagnostics of the problems that are shown.
fn push_shown(all: &mut Vec<Diagnostic>, problems: Vec<Option<Diagnostic>>)
    ensures
        final(all)@ == old(all)@ + shown(problems@),
{
    let ghost before = all@;
    let ghost list = problems@;
    for problem in it: problems
        invariant
            it.seq() == list,
            all@ == before + shown(list.take(it.index() as int)),
    {
        proof {
            let i = it.index() as int;
            assert(list.take(i + 1).drop_last() =~= list.take(i));
            assert(list.take(i + 1).last() == problem);
        }
        if let Some(diagnostic) = problem {
            all.push(diagnostic);
        }
    }
    assert(list.take(list.len() as int) =~= list);
}

/// What is left to make documents of. Each module is made a document once: what
/// belongs to it is taken out.
pub struct AnalyzedDocumentBuilder<'a, I, S, A, D> {
    pub interns: &'a I,
    pub module_id_to_url: ModuleIdToUrl,
    pub can_problems: Problems,
    pub type_problems: Problems,
    pub declarations_by_id: HashMap<ModuleId, D>,
    pub typechecked: HashMap<ModuleId, CheckedModule<S, A, D>>,
    pub root_module: Option<RootModule<S, A>>,
}

/// The types, abilities and declarations of a module: those that were type checked
/// with it, or, of the root, what the root and the table of declarations hold.
pub open spec fn module_parts<S, A, D>(
    checked: Option<CheckedModule<S, A, D>>,
    root: Option<RootModule<S, A>>,
    declarations: Option<D>,
) -> (S, A, D) {
    match checked {
        Some(m) => (m.solved_subs, m.abilities_store, m.decls),
        None => (root->0.subs, root->0.abilities_store, declarations->0),
    }
}

/// `document` is the document of a module: what is known of its text, the parts of the
/// module, the names and the URLs that all modules share, and the diagnostics.
pub open spec fn document_of<L, I: Clone, S, A, D>(
    document: AnalyzedDocument<L, I, S, A, D>,
    doc_info: DocInfo<L>,
    module_id: ModuleId,
    interns: I,
    urls: Map<ModuleId, Url>,
    parts: (S, A, D),
    diagnostics: Seq<Diagnostic>,
) -> bool {
    &&& document.doc_info == doc_info
    &&& document.analysys_result.module matches Some(module) && {
        &&& module.module_id == module_id
        &&& cloned(interns, module.interns)
        &&& (module.subs, module.abilities, module.declarations) == parts
        &&& module.module_id_to_url@ == urls
    }
    &&& document.analysys_result.diagnostics@ == diagnostics
}

impl<'a, I: Clone, S, A, D> AnalyzedDocumentBuilder<'a, I, S, A, D> {
    /// Whether the parts of a module are there: it was type checked, or it is the
    /// root and its declarations are known.
    pub open spec fn has_module(&self, module_id: ModuleId) -> bool {
        ||| self.typechecked@.contains_key(module_id)
        ||| self.root_module is Some && self.declarations_by_id@.contains_key(module_id)
    }

    /// Takes the problems of a module, and gives their diagnostics.
    pub fn build_diagnostics(&mut self, module_id: ModuleId) -> (res: Vec<Diagnostic>)
        ensures
            res@ == module_diagnostics(old(self).can_problems@, old(self).type_problems@, module_id),
            final(self).can_problems@ == old(self).can_problems@.remove(module_id),
            final(self).type_problems@ == old(self).type_problems@.remove(module_id),
            final(self).interns == old(self).interns,
            final(self).module_id_to_url == old(self).module_id_to_url,
            final(self).declarations_by_id == old(self).declarations_by_id,
            final(self).typechecked == old(self).typechecked,
            final(self).root_module == old(self).root_module,
    {
        let mut all_problems: Vec<Diagnostic> = Vec::new();
        let can_problems = self.can_problems.remove(&module_id).unwrap_or_default();
        let type_problems = self.type_problems.remove(&module_id).unwrap_or_default();
        push_shown(&mut all_problems, can_problems);
        push_shown(&mut all_problems, type_problems);
        all_problems
    }

    /// Makes the document of a module, given its URL, and takes out what belongs to it.
    /// A module that is not among the type checked ones is the root.
    pub fn build_document<L>(
        &mut self,
        url: Url,
        source: String,
        line_info: L,
        module_id: ModuleId,
        version: u32,
    ) -> (res: AnalyzedDocument<L, I, S, A, D>)
        requires
            old(self).has_module(module_id),
        ensures
            document_of(
                res,
                DocInfo { url, line_info, source, version },
                module_id,
                *old(self).interns,
                old(self).module_id_to_url@,
                module_parts(
                    old(self).typechecked@.get(module_id),
                    old(self).root_module,
                    old(self).declarations_by_id@.get(module_id),
                ),
                module_diagnostics(old(self).can_problems@, old(self).type_problems@, module_id),
            ),
            final(self).can_problems@ == old(self).can_problems@.remove(module_id),
            final(self).type_problems@ == old(self).type_problems@.remove(module_id),
            final(self).typechecked@ == old(self).typechecked@.remove(module_id),
            if old(self).typechecked@.contains_key(module_id) {
                &&& final(self).root_module == old(self).root_module
                &&& final(self).declarations_by_id@ == old(self).declarations_by_id@
            } else {
                &&& final(self).root_module is None
                &&& final(self).declarations_by_id@ == old(self).declarations_by_id@.remove(
                    module_id,
                )
            },
            final(self).interns == old(self).interns,
            final(self).module_id_to_url == old(self).module_id_to_url,
    {
        let subs: S;
        let abilities: A;
        let declarations: D;
        match self.typechecked.remove(&module_id) {
            Some(m) => {
                subs = m.solved_subs;
                abilities = m.abilities_store;
                declarations = m.decls;
            },
            None => {
                let rm = self.root_module.take().unwrap();
                subs = rm.subs;
                abilities = rm.abilities_store;
                declarations = self.declarations_by_id.remove(&module_id).unwrap();
            },
        }
        let analyzed_module = AnalyzedModule {
            subs,
            abilities,
            declarations,
            module_id,
            interns: self.interns.clone(),
            module_id_to_url: self.module_id_to_url.clone(),
        };
        let diagnostics = self.build_diagnostics(module_id);
        AnalyzedDocument {
            doc_info: DocInfo { url, line_info, source, version },
            analysys_result: AnalysisResult { module: Some(analyzed_module), diagnostics },
        }
    }
}

/// No module occurs twice.
pub open spec fn distinct_modules<L>(sources: Seq<ModuleSource<L>>) -> bool {
    forall|i: int, j: int|
        0 <= i < j < sources.len() ==> (#[trigger] sources[i]).module_id != (
        #[trigger] sources[j]).module_id
}

/// By some outcomes of the calls that `path_to_url` makes, `urls` holds the URL of
/// each module among the sources, and of no other.
pub open spec fn module_urls_outcome<L>(
    sources: Seq<ModuleSource<L>>,
    temp_dir: Seq<u8>,
    urls: Map<ModuleId, Url>,
) -> bool {
    &&& forall|i: int|
        0 <= i < sources.len() ==> {
            let id = (#[trigger] sources[i]).module_id;
            &&& urls.contains_key(id)
            &&& path_url_outcome(
                path_buf_bytes(sources[i].path),
                temp_dir,
                Some(url_text(urls[id])),
            )
            &&& "file://"@.is_prefix_of(url_text(urls[id]))
        }
    &&& forall|id: ModuleId| #[trigger]
        urls.contains_key(id) ==> exists|i: int|
            0 <= i < sources.len() && (#[trigger] sources[i]).module_id == id
}

/// By some outcomes of the calls that `path_to_url` makes, the path of some module
/// has no URL.
pub open spec fn missing_url_outcome<L>(
    sources: Seq<ModuleSource<L>>,
    temp_dir: Seq<u8>,
) -> bool {
    exists|i: int|
        0 <= i < sources.len() && path_url_outcome(
            path_buf_bytes((#[trigger] sources[i]).path),
            temp_dir,
            None,
        )
}

/// Each source of the first list has its module in the second, with the same path.
pub open spec fn modules_within<L, M>(
    sources: Seq<ModuleSource<L>>,
    others: Seq<ModuleSource<M>>,
) -> bool {
    forall|i: int|
        0 <= i < sources.len() ==> exists|j: int|
            0 <= j < others.len() && {
                &&& (#[trigger] others[j]).module_id == (#[trigger] sources[i]).module_id
                &&& path_buf_bytes(others[j].path) == path_buf_bytes(sources[i].path)
            }
}

/// Neither the source texts nor the order of the sources have any influence on the URLs
/// of modules: two lists of the same modules, with the same paths, have the same
/// outcomes.
pub proof fn lemma_module_urls_depend_on_paths_alone<L, M>(
    sources: Seq<ModuleSource<L>>,
    others: Seq<ModuleSource<M>>,
    temp_dir: Seq<u8>,
    urls: Map<ModuleId, Url>,
)
    requires
        modules_within(sources, others),
        modules_within(others, sources),
    ensures
        module_urls_outcome(sources, temp_dir, urls) == module_urls_outcome(others, temp_dir, urls),
        missing_url_outcome(sources, temp_dir) == missing_url_outcome(others, temp_dir),
{
    lemma_module_urls_within(sources, others, temp_dir, urls);
    lemma_module_urls_within(others, sources, temp_dir, urls);
}

/// Where each call has one outcome for each path, as is the case on one target, two lists
/// of the same modules, with the same paths, have the same URLs, whatever their texts and
/// their order; or both have none.
pub proof fn lemma_one_map_of_module_urls<L, M>(
    sources: Seq<ModuleSource<L>>,
    others: Seq<ModuleSource<M>>,
    temp_dir: Seq<u8>,
    urls: Map<ModuleId, Url>,
    other_urls: Map<ModuleId, Url>,
)
    requires
        modules_within(sources, others),
        modules_within(others, sources),
        forall|i: int|
            0 <= i < sources.len() ==> one_path_url(
                path_buf_bytes((#[trigger] sources[i]).path),
                temp_dir,
            ),
        module_urls_outcome(sources, temp_dir, urls),
    ensures
        !missing_url_outcome(others, temp_dir),
        module_urls_outcome(others, temp_dir, other_urls) ==> {
            &&& urls.dom() == other_urls.dom()
            &&& forall|id: ModuleId| #[trigger]
                urls.contains_key(id) ==> url_text(urls[id]) == url_text(other_urls[id])
        },
{
    lemma_module_urls_depend_on_paths_alone(sources, others, temp_dir, urls);
    lemma_module_urls_depend_on_paths_alone(sources, others, temp_dir, other_urls);
    if missing_url_outcome(sources, temp_dir) {
        let i = choose|i: int|
            0 <= i < sources.len() && path_url_outcome(
                path_buf_bytes((#[trigger] sources[i]).path),
                temp_dir,
                None,
            );
        let url = url_text(urls[sources[i].module_id]);
        lemma_one_url(path_buf_bytes(sources[i].path), temp_dir, None, Some(url));
    }
    if module_urls_outcome(sources, temp_dir, other_urls) {
        assert forall|id: ModuleId| #[trigger] urls.contains_key(id) implies {
            &&& other_urls.contains_key(id)
            &&& url_text(urls[id]) == url_text(other_urls[id])
        } by {
            let i = choose|i: int|
                0 <= i < sources.len() && (#[trigger] sources[i]).module_id == id;
            lemma_one_url(
                path_buf_bytes(sources[i].path),
                temp_dir,
                Some(url_text(urls[id])),
                Some(url_text(other_urls[id])),
            );
        }
        assert forall|id: ModuleId| #[trigger] other_urls.contains_key(id) implies urls.contains_key(
            id,
        ) by {
            let i = choose|i: int|
                0 <= i < sources.len() && (#[trigger] sources[i]).module_id == id;
            assert(urls.contains_key(sources[i].module_id));
        }
        assert(urls.dom() =~= other_urls.dom());
    }
}

proof fn lemma_module_urls_within<L, M>(
    sources: Seq<ModuleSource<L>>,
    others: Seq<ModuleSource<M>>,
    temp_dir: Seq<u8>,
    urls: Map<ModuleId, Url>,
)
    requires
        modules_within(sources, others),
        modules_within(others, sources),
    ensures
        module_urls_outcome(sources, temp_dir, urls) ==> module_urls_outcome(
            others,
            temp_dir,
            urls,
        ),
        missing_url_outcome(sources, temp_dir) ==> missing_url_outcome(others, temp_dir),
{
    if module_urls_outcome(sources, temp_dir, urls) {
        assert forall|j: int| 0 <= j < others.len() implies {
            let id = (#[trigger] others[j]).module_id;
            &&& urls.contains_key(id)
            &&& path_url_outcome(
                path_buf_bytes(others[j].path),
                temp_dir,
                Some(url_text(urls[id])),
            )
            &&& "file://"@.is_prefix_of(url_text(urls[id]))
        } by {
            let i = choose|i: int|
                0 <= i < sources.len() && (#[trigger] sources[i]).module_id == others[j].module_id
                    && path_buf_bytes(sources[i].path) == path_buf_bytes(others[j].path);
            assert(urls.contains_key(sources[i].module_id));
        }
        assert forall|id: ModuleId| #[trigger] urls.contains_key(id) implies exists|j: int|
            0 <= j < others.len() && (#[trigger] others[j]).module_id == id by {
            let i = choose|i: int|
                0 <= i < sources.len() && (#[trigger] sources[i]).module_id == id;
            let j = choose|j: int|
                0 <= j < others.len() && (#[trigger] others[j]).module_id == sources[i].module_id
                    && path_buf_bytes(others[j].path) == path_buf_bytes(sources[i].path);
            assert(others[j].module_id == id);
        }
    }
    if missing_url_outcome(sources, temp_dir) {
        let i = choose|i: int|
            0 <= i < sources.len() && path_url_outcome(
                path_buf_bytes((#[trigger] sources[i]).path),
                temp_dir,
                None,
            );
        let j = choose|j: int|
            0 <= j < others.len() && (#[trigger] others[j]).module_id == sources[i].module_id
                && path_buf_bytes(others[j].path) == path_buf_bytes(sources[i].path);
        assert(path_url_outcome(path_buf_bytes(others[j].path), temp_dir, None));
    }
}

/// The URL of each module, or `None` where the path of one has none.
pub fn module_id_to_url_from_sources<L>(
    sources: &Vec<ModuleSource<L>>,
    temp_dir: &Path,
) -> (res: Option<ModuleIdToUrl>)
    requires
        distinct_modules(sources@),
    ensures
        match res {
            Some(urls) => module_urls_outcome(sources@, path_bytes(temp_dir), urls@),
            None => missing_url_outcome(sources@, path_bytes(temp_dir)),
        },
{
    let mut urls: ModuleIdToUrl = HashMap::new();
    let mut i: usize = 0;
    while i < sources.len()
        invariant
            i <= sources@.len(),
            distinct_modules(sources@),
            module_urls_outcome(sources@.take(i as int), path_bytes(temp_dir), urls@),
        decreases sources@.len() - i,
    {
        let ghost done = sources@.take(i as int);
        let ghost now = sources@.take(i + 1);
        let ghost before = urls@;
        match path_to_url(sources[i].path.as_path(), temp_dir) {
            Some(url) => {
                urls.insert(sources[i].module_id, url);
            },
            None => {
                assert(path_url_outcome(
                    path_buf_bytes(sources@[i as int].path),
                    path_bytes(temp_dir),
                    None,
                ));
                return None;
            },
        }
        proof {
            assert forall|j: int| 0 <= j < now.len() implies {
                let id = (#[trigger] now[j]).module_id;
                &&& urls@.contains_key(id)
                &&& path_url_outcome(
                    path_buf_bytes(now[j].path),
                    path_bytes(temp_dir),
                    Some(url_text(urls@[id])),
                )
                &&& "file://"@.is_prefix_of(url_text(urls@[id]))
            } by {
                assert(now[j] == sources@[j]);
                if j < i {
                    assert(done[j] == sources@[j]);
                    assert(sources@[j].module_id != sources@[i as int].module_id);
                }
            }
            assert forall|id: ModuleId| #[trigger] urls@.contains_key(id) implies exists|j: int|
                0 <= j < now.len() && (#[trigger] now[j]).module_id == id by {
                if id == sources@[i as int].module_id {
                    assert(now[i as int].module_id == id);
                } else {
                    assert(before.contains_key(id));
                    let j = choose|j: int|
                        0 <= j < done.len() && (#[trigger] done[j]).module_id == id;
                    assert(now[j] == done[j]);
                }
            }
        }
        i = i + 1;
    }
    assert(sources@.take(sources@.len() as int) =~= sources@);
    Some(urls)
}

/// A program that was loaded and type checked, with its problems as diagnostics.
#[derive(Debug)]
pub struct LoadedModule<L, I, S, A, D> {
    pub interns: I,
    pub can_problems: Problems,
    pub type_problems: Problems,
    pub declarations_by_id: HashMap<ModuleId, D>,
    pub sources: Vec<ModuleSource<L>>,
    pub typechecked: HashMap<ModuleId, CheckedModule<S, A, D>>,
    pub solved: S,
    pub abilities_store: A,
}

impl<L, I, S, A, D> LoadedModule<L, I, S, A, D> {
    /// Whether every source can be made a document: no module occurs twice, one
    /// module at most was not type checked by itself, and the declarations of that
    /// one, the root, are known.
    pub open spec fn complete(&self) -> bool {
        &&& distinct_modules(self.sources@)
        &&& forall|i: int, j: int|
            0 <= i < j < self.sources@.len() ==> self.typechecked@.contains_key(
                (#[trigger] self.sources@[i]).module_id,
            ) || self.typechecked@.contains_key((#[trigger] self.sources@[j]).module_id)
        &&& forall|i: int|
            0 <= i < self.sources@.len() ==> self.typechecked@.contains_key(
                (#[trigger] self.sources@[i]).module_id,
            ) || self.declarations_by_id@.contains_key(self.sources@[i].module_id)
    }

    /// The root module, but for its declarations.
    pub open spec fn root(&self) -> RootModule<S, A> {
        RootModule { subs: self.solved, abilities_store: self.abilities_store }
    }

    /// Whether every source can be made a document.
    pub fn is_complete(&self) -> (res: bool)
        ensures
            res == self.complete(),
    {
        let n: usize = self.sources.len();
        let mut i: usize = 0;
        while i < n
            invariant
                i <= n == self.sources@.len(),
                forall|k: int, j: int|
                    0 <= k < j < n && k < i ==> {
                        &&& (#[trigger] self.sources@[k]).module_id != (
                        #[trigger] self.sources@[j]).module_id
                        &&& self.typechecked@.contains_key(self.sources@[k].module_id)
                            || self.typechecked@.contains_key(self.sources@[j].module_id)
                    },
                forall|k: int|
                    0 <= k < i ==> self.typechecked@.contains_key(
                        (#[trigger] self.sources@[k]).module_id,
                    ) || self.declarations_by_id@.contains_key(self.sources@[k].module_id),
            decreases n - i,
        {
            let id: ModuleId = self.sources[i].module_id;
            let checked = self.typechecked.contains_key(&id);
            if !checked && !self.declarations_by_id.contains_key(&id) {
                return false;
            }
            let mut j: usize = i + 1;
            while j < n
                invariant
                    i < n == self.sources@.len(),
                    i < j <= n,
                    id == self.sources@[i as int].module_id,
                    checked == self.typechecked@.contains_key(id),
                    forall|k: int|
                        i < k < j ==> {
                            &&& id != (#[trigger] self.sources@[k]).module_id
                            &&& checked || self.typechecked@.contains_key(
                                self.sources@[k].module_id,
                            )
                        },
                decreases n - j,
            {
                let other: ModuleId = self.sources[j].module_id;
                if other == id {
                    return false;
                }
                if !checked && !self.typechecked.contains_key(&other) {
                    return false;
                }
                j = j + 1;
            }
            i = i + 1;
        }
        true
    }
}

/// `document` is the document of the module whose source is number `i` of the program.
pub open spec fn loaded_document<L, I: Clone, S, A, D>(
    document: AnalyzedDocument<L, I, S, A, D>,
    loaded: LoadedModule<L, I, S, A, D>,
    i: int,
    version: u32,
    urls: Map<ModuleId, Url>,
) -> bool {
    let ModuleSource { module_id, source, line_info, .. } = loaded.sources@[i];
    document_of(
        document,
        DocInfo { url: urls[module_id], line_info, source, version },
        module_id,
        loaded.interns,
        urls,
        module_parts(
            loaded.typechecked@.get(module_id),
            Some(loaded.root()),
            loaded.declarations_by_id@.get(module_id),
        ),
        module_diagnostics(loaded.can_problems@, loaded.type_problems@, module_id),
    )
}

/// The documents of a program: one for each source, in order, with the URL that the
/// module has among the URLs of all modules, which each document holds.
pub open spec fn loaded_documents<L, I: Clone, S, A, D>(
    documents: Seq<AnalyzedDocument<L, I, S, A, D>>,
    loaded: LoadedModule<L, I, S, A, D>,
    version: u32,
    urls: Map<ModuleId, Url>,
) -> bool {
    &&& documents.len() == loaded.sources@.len()
    &&& forall|i: int|
        0 <= i < documents.len() ==> loaded_document(
            #[trigger] documents[i],
            loaded,
            i,
            version,
            urls,
        )
}

/// Makes a document of each source of a loaded program, given the URL of each module.
pub fn build_documents<L, I: Clone, S, A, D>(
    loaded: LoadedModule<L, I, S, A, D>,
    module_id_to_url: ModuleIdToUrl,
    version: u32,
) -> (res: Vec<AnalyzedDocument<L, I, S, A, D>>)
    requires
        loaded.complete(),
        forall|i: int|
            0 <= i < loaded.sources@.len() ==> module_id_to_url@.contains_key(
                (#[trigger] loaded.sources@[i]).module_id,
            ),
    ensures
        loaded_documents(res@, loaded, version, module_id_to_url@),
{
    let ghost urls = module_id_to_url@;
    let LoadedModule {
        interns,
        can_problems,
        type_problems,
        declarations_by_id,
        sources,
        typechecked,
        solved,
        abilities_store,
    } = loaded;
    let mut builder = AnalyzedDocumentBuilder {
        interns: &interns,
        module_id_to_url,
        can_problems,
        type_problems,
        declarations_by_id,
        typechecked,
        root_module: Some(RootModule { subs: solved, abilities_store }),
    };
    let mut documents: Vec<AnalyzedDocument<L, I, S, A, D>> = Vec::new();
    for module in it: sources
        invariant
            it.seq() == loaded.sources@,
            loaded.complete(),
            interns == loaded.interns,
            builder.interns == interns,
            builder.module_id_to_url@ == urls,
            documents@.len() == it.index(),
            forall|k: int|
                0 <= k < it.index() ==> loaded_document(
                    #[trigger] documents@[k],
                    loaded,
                    k,
                    version,
                    urls,
                ),
            forall|k: int|
                it.index() <= k < loaded.sources@.len() ==> {
                    let id = (#[trigger] loaded.sources@[k]).module_id;
                    &&& urls.contains_key(id)
                    &&& builder.typechecked@.get(id) == loaded.typechecked@.get(id)
                    &&& builder.declarations_by_id@.get(id) == loaded.declarations_by_id@.get(id)
                    &&& problems_of(builder.can_problems@, id) == problems_of(
                        loaded.can_problems@,
                        id,
                    )
                    &&& problems_of(builder.type_problems@, id) == problems_of(
                        loaded.type_problems@,
                        id,
                    )
                    &&& !loaded.typechecked@.contains_key(id) ==> builder.root_module == Some(
                        loaded.root(),
                    )
                },
    {
        assert(module == loaded.sources@[it.index() as int]);
        let url = builder.module_id_to_url.get(&module.module_id).unwrap().clone();
        let document = builder.build_document(
            url,
            module.source,
            module.line_info,
            module.module_id,
            version,
        );
        documents.push(document);
    }
    documents
}

/// All documents of an analysis are type checked and have its version, and each knows
/// every document by the URL that this one has, under the number of its module.
pub proof fn lemma_documents_know_each_other<L, I: Clone, S, A, D>(
    documents: Seq<AnalyzedDocument<L, I, S, A, D>>,
    loaded: LoadedModule<L, I, S, A, D>,
    version: u32,
    temp_dir: Seq<u8>,
    urls: Map<ModuleId, Url>,
)
    requires
        module_urls_outcome(loaded.sources@, temp_dir, urls),
        loaded_documents(documents, loaded, version, urls),
    ensures
        forall|i: int|
            0 <= i < documents.len() ==> {
                &&& (#[trigger] documents[i]).analysys_result.module is Some
                &&& documents[i].doc_info.version == version
                &&& "file://"@.is_prefix_of(url_text(documents[i].doc_info.url))
            },
        forall|i: int, j: int|
            0 <= i < documents.len() && 0 <= j < documents.len() ==> {
                let known = (#[trigger] documents[i]).analysys_result.module->0.module_id_to_url@;
                let id = (#[trigger] documents[j]).analysys_result.module->0.module_id;
                &&& known.contains_key(id)
                &&& known[id] == documents[j].doc_info.url
            },
{
    assert forall|i: int| 0 <= i < documents.len() implies {
        &&& (#[trigger] documents[i]).analysys_result.module is Some
        &&& documents[i].doc_info.version == version
        &&& "file://"@.is_prefix_of(url_text(documents[i].doc_info.url))
    } by {
        assert(loaded_document(documents[i], loaded, i, version, urls));
        assert(urls.contains_key(loaded.sources@[i].module_id));
    }
    assert forall|i: int, j: int| 0 <= i < documents.len() && 0 <= j < documents.len() implies {
        let known = (#[trigger] documents[i]).analysys_result.module->0.module_id_to_url@;
        let id = (#[trigger] documents[j]).analysys_result.module->0.module_id;
        &&& known.contains_key(id)
        &&& known[id] == documents[j].doc_info.url
    } by {
        assert(loaded_document(documents[i], loaded, i, version, urls));
        assert(loaded_document(documents[j], loaded, j, version, urls));
        assert(urls.contains_key(loaded.sources@[j].module_id));
    }
}

/// What to load for an analysis, and the version of the document it is made of.
#[derive(Debug)]
pub struct AnalysisRequest<L> {
    pub path: PathBuf,
    pub src_dir: PathBuf,
    pub doc_info: DocInfo<L>,
}

impl<L> AnalysisRequest<L> {
    /// The documents that an analysis gives, once its program was loaded: one for
    /// each module, or, where loading failed, the document it was asked for alone,
    /// without a module, and with a diagnostic where the failure has one. `None` where
    /// the path of a module has no URL.
    pub fn documents<I: Clone, S, A, D>(
        self,
        loaded: Result<LoadedModule<L, I, S, A, D>, Option<Diagnostic>>,
        temp_dir: &Path,
    ) -> (res: Option<Vec<AnalyzedDocument<L, I, S, A, D>>>)
        requires
            loaded matches Ok(module) ==> module.complete(),
        ensures
            match loaded {
                Ok(module) => match res {
                    Some(documents) => exists|urls: Map<ModuleId, Url>| #[trigger]
                        module_urls_outcome(module.sources@, path_bytes(temp_dir), urls) && loaded_documents(
                            documents@,
                            module,
                            self.doc_info.version,
                            urls,
                        ),
                    None => missing_url_outcome(module.sources@, path_bytes(temp_dir)),
                },
                Err(problem) => {
                    &&& res matches Some(documents)
                    &&& documents@.len() == 1
                    &&& documents@[0].doc_info == self.doc_info
                    &&& documents@[0].analysys_result.module is None
                    &&& documents@[0].analysys_result.diagnostics@ == shown(seq![problem])
                },
            },
    {
        match loaded {
            Ok(module) => {
                match module_id_to_url_from_sources(&module.sources, temp_dir) {
                    Some(urls) => {
                        assert(module_urls_outcome(module.sources@, path_bytes(temp_dir), urls@));
                        Some(build_documents(module, urls, self.doc_info.version))
                    },
                    None => None,
                }
            },
            Err(problem) => {
                let mut diagnostics: Vec<Diagnostic> = Vec::new();
                if let Some(diagnostic) = problem {
                    diagnostics.push(diagnostic);
                }
                proof {
                    let list = seq![problem];
                    assert(list.drop_last() =~= Seq::empty());
                    assert(shown(list.drop_last()) =~= Seq::empty());
                    assert(diagnostics@ =~= shown(list));
                }
                let mut documents: Vec<AnalyzedDocument<L, I, S, A, D>> = Vec::new();
                documents.push(
                    AnalyzedDocument {
                        doc_info: self.doc_info,
                        analysys_result: AnalysisResult { module: None, diagnostics },
                    },
                );
                Some(documents)
            },
        }
    }
}

/// Starts the analysis of a document: what is to be loaded, and the document as it can
/// be used before the analysis is done. `None` where the URL names no file.
pub fn global_anal<L: Clone>(source_url: Url, source: String, version: u32, line_info: L) -> (res:
    Option<(AnalysisRequest<L>, DocInfo<L>)>)
    ensures
        match res {
            Some((request, doc_info)) => {
                &&& file_path_outcome(url_text(source_url), Some(path_buf_bytes(request.path)))
                &&& leads_back(url_text(source_url), path_buf_bytes(request.path))
                &&& src_dir_outcome(path_buf_bytes(request.path), path_buf_bytes(request.src_dir))
                &&& path_buf_bytes(request.src_dir).is_prefix_of(path_buf_bytes(request.path))
                &&& request.doc_info == (DocInfo { url: source_url, line_info, source, version })
                &&& doc_info.url == source_url
                &&& cloned(line_info, doc_info.line_info)
                &&& doc_info.source == source
                &&& doc_info.version == version
            },
            None => file_path_outcome(url_text(source_url), None),
        },
{
    let path = match source_url.to_file_path() {
        Ok(path) => path,
        Err(_) => {
            return None;
        },
    };
    let src_dir = find_src_dir(path.as_path()).to_path_buf();
    let doc_info = DocInfo { url: source_url, line_info, source, version };
    let doc_info_return = doc_info.clone();
    Some((AnalysisRequest { path, src_dir, doc_info }, doc_info_return))
}

} // verus!
