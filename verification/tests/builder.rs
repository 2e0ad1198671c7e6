use roc_analysis::analyzed::AnalyzedDocument;
use roc_analysis::builder::{
    build_documents, global_anal, module_id_to_url_from_sources, AnalysisRequest,
    AnalyzedDocumentBuilder, CheckedModule, LoadedModule, ModuleSource, Problems, RootModule,
};
use std::collections::HashMap;
use std::path::{Path, PathBuf};
use tower_lsp::lsp_types::{Diagnostic, Url};

type Program = LoadedModule<u8, &'static str, u64, u64, u64>;
type Document = AnalyzedDocument<u8, &'static str, u64, u64, u64>;

fn url(text: &str) -> Url {
    Url::parse(text).unwrap()
}

fn diagnostic(message: &str) -> Diagnostic {
    Diagnostic { message: message.to_string(), ..Diagnostic::default() }
}

fn source(module_id: u32, path: &str) -> ModuleSource<u8> {
    ModuleSource {
        module_id,
        path: PathBuf::from(path),
        source: format!("source of {}", module_id),
        line_info: module_id as u8,
    }
}

fn problems(list: Vec<(u32, Vec<Option<Diagnostic>>)>) -> Problems {
    list.into_iter().collect()
}

fn program() -> Program {
    let mut typechecked = HashMap::new();
    typechecked.insert(2, CheckedModule { solved_subs: 20, abilities_store: 21, decls: 22 });
    typechecked.insert(3, CheckedModule { solved_subs: 30, abilities_store: 31, decls: 32 });
    let mut declarations_by_id = HashMap::new();
    declarations_by_id.insert(1, 12);
    LoadedModule {
        interns: "interns",
        can_problems: problems(vec![
            (1, vec![Some(diagnostic("can a")), None, Some(diagnostic("can b"))]),
            (3, vec![None]),
        ]),
        type_problems: problems(vec![
            (1, vec![Some(diagnostic("type a"))]),
            (2, vec![Some(diagnostic("type b"))]),
        ]),
        declarations_by_id,
        sources: vec![
            source(2, "/app/Dep.roc"),
            source(1, "/app/main.roc"),
            source(3, "Bool.roc"),
        ],
        typechecked,
        solved: 10,
        abilities_store: 11,
    }
}

fn request() -> AnalysisRequest<u8> {
    global_anal(url("file:///app/main.roc"), "main = 1".to_string(), 4, 5).unwrap().0
}

fn messages(document: &Document) -> Vec<String> {
    document.diagnostics().into_iter().map(|d| d.message).collect()
}

#[test]
fn analysis_of_a_file() {
    let (request, info) =
        global_anal(url("file:///app/main.roc"), "main = 1".to_string(), 4, 5u8).unwrap();
    assert_eq!(request.path, Path::new("/app/main.roc"));
    assert_eq!(request.src_dir, Path::new("/app"));
    for doc in [&request.doc_info, &info] {
        assert_eq!(doc.url, url("file:///app/main.roc"));
        assert_eq!(doc.line_info, 5);
        assert_eq!(doc.source, "main = 1");
        assert_eq!(doc.version, 4);
    }
}

#[test]
fn analysis_of_no_file() {
    assert!(global_anal(url("mailto:a@b"), "".to_string(), 0, ()).is_none());
}

#[test]
fn analysis_of_a_file_whose_path_is_not_unicode() {
    let (request, _) =
        global_anal(url("file:///app/%FF.roc"), "".to_string(), 0, ()).unwrap();
    assert_eq!(request.path.to_str(), None);
    assert_eq!(request.src_dir, Path::new("/app"));
}

#[test]
fn analysis_of_a_file_in_a_parent_directory() {
    let made = Url::from_file_path("/tmp/../x/main.roc").unwrap();
    let (request, info) = global_anal(made.clone(), "".to_string(), 0, ()).unwrap();
    assert_eq!(request.path.to_str(), Some("/tmp/../x/main.roc"));
    assert_eq!(request.src_dir.to_str(), Some("/tmp/../x"));
    assert_eq!(info.url, made);
}

#[test]
fn failed_load() {
    let loaded: Result<Program, _> = Err(Some(diagnostic("cannot read")));
    let documents = request().documents(loaded, Path::new("/tmp")).unwrap();
    assert_eq!(documents.len(), 1);
    assert!(!documents[0].type_checked());
    assert_eq!(messages(&documents[0]), vec!["cannot read"]);
    assert_eq!(documents[0].doc_info().source, "main = 1");
    assert_eq!(documents[0].doc_info().version, 4);
    assert_eq!(documents[0].url(), &url("file:///app/main.roc"));
}

#[test]
fn failed_load_without_a_diagnostic() {
    let loaded: Result<Program, _> = Err(None);
    let documents = request().documents(loaded, Path::new("/tmp")).unwrap();
    assert_eq!(documents.len(), 1);
    assert!(messages(&documents[0]).is_empty());
}

#[test]
fn documents_of_a_program() {
    let program = program();
    assert!(program.is_complete());
    let documents = request().documents(Ok(program), Path::new("/tmp")).unwrap();
    assert_eq!(documents.len(), 3);

    let dep = &documents[0];
    assert_eq!(dep.url(), &url("file:///app/Dep.roc"));
    assert_eq!(dep.doc_info().source, "source of 2");
    assert_eq!(*dep.line_info(), 2);
    assert_eq!(dep.doc_info().version, 4);
    assert_eq!(messages(dep), vec!["type b"]);
    let module = dep.module().unwrap();
    assert_eq!((module.module_id, module.interns), (2, "interns"));
    assert_eq!((module.subs, module.abilities, module.declarations), (20, 21, 22));

    let main = &documents[1];
    assert_eq!(main.url(), &url("file:///app/main.roc"));
    assert_eq!(messages(main), vec!["can a", "can b", "type a"]);
    let module = main.module().unwrap();
    assert_eq!(module.module_id, 1);
    assert_eq!((module.subs, module.abilities, module.declarations), (10, 11, 12));

    let bool_module = &documents[2];
    assert_eq!(bool_module.url(), &url("file:///tmp/Bool.roc"));
    assert!(messages(bool_module).is_empty());
}

#[test]
fn documents_know_each_other() {
    let documents = request().documents(Ok(program()), Path::new("/tmp")).unwrap();
    for doc in &documents {
        for other in &documents {
            let id = other.module().unwrap().module_id;
            assert_eq!(doc.module_url(id).as_ref(), Some(other.url()));
        }
        assert_eq!(doc.module_url(99), None);
    }
}

#[test]
fn documents_without_a_url() {
    assert!(request().documents(Ok(program()), Path::new("tmp")).is_none());
}

#[test]
fn documents_of_given_urls() {
    let mut urls = HashMap::new();
    urls.insert(1, url("x:1"));
    urls.insert(2, url("x:2"));
    urls.insert(3, url("x:3"));
    let documents = build_documents(program(), urls, 8);
    let found: Vec<_> = documents.iter().map(|d| d.url().to_string()).collect();
    assert_eq!(found, vec!["x:2", "x:1", "x:3"]);
    assert_eq!(documents[2].doc_info().version, 8);
}

#[test]
fn module_urls() {
    let sources = vec![source(2, "/app/Dep.roc"), source(3, "Bool.roc")];
    let urls = module_id_to_url_from_sources(&sources, Path::new("/tmp")).unwrap();
    assert_eq!(urls.len(), 2);
    assert_eq!(urls[&2], url("file:///app/Dep.roc"));
    assert_eq!(urls[&3], url("file:///tmp/Bool.roc"));
    assert!(module_id_to_url_from_sources(&sources, Path::new("tmp")).is_none());
}

#[test]
fn module_urls_depend_on_paths_alone() {
    let sources = vec![source(2, "/app/Dep.roc"), source(3, "Bool.roc")];
    let mut others = vec![source(3, "Bool.roc"), source(2, "/app/Dep.roc")];
    others[0].source = "another text".to_string();
    assert_eq!(
        module_id_to_url_from_sources(&sources, Path::new("/tmp")),
        module_id_to_url_from_sources(&others, Path::new("/tmp"))
    );
}

#[test]
fn incomplete_programs() {
    let mut twice = program();
    twice.sources.push(source(2, "/app/Dep.roc"));
    assert!(!twice.is_complete());

    let mut two_roots = program();
    two_roots.sources.push(source(5, "/app/Other.roc"));
    two_roots.declarations_by_id.insert(5, 52);
    assert!(!two_roots.is_complete());

    let mut no_declarations = program();
    no_declarations.declarations_by_id.remove(&1);
    assert!(!no_declarations.is_complete());

    let mut no_root = program();
    no_root.sources.remove(1);
    assert!(no_root.is_complete());
}

#[test]
fn builder_takes_out_what_it_uses() {
    let program = program();
    let mut builder = AnalyzedDocumentBuilder {
        interns: &program.interns,
        module_id_to_url: HashMap::new(),
        can_problems: program.can_problems,
        type_problems: program.type_problems,
        declarations_by_id: program.declarations_by_id,
        typechecked: program.typechecked,
        root_module: Some(RootModule { subs: 10, abilities_store: 11 }),
    };
    let dep = builder.build_document(url("x:2"), "dep".to_string(), 0u8, 2, 1);
    assert_eq!(dep.module().unwrap().subs, 20);
    assert!(!builder.typechecked.contains_key(&2));
    assert!(builder.root_module.is_some());
    assert!(builder.build_diagnostics(2).is_empty());

    let main = builder.build_document(url("x:1"), "main".to_string(), 0u8, 1, 1);
    assert_eq!(main.module().unwrap().subs, 10);
    assert!(builder.root_module.is_none());
    assert!(builder.declarations_by_id.is_empty());
    assert!(builder.build_diagnostics(1).is_empty());
    assert!(builder.typechecked.contains_key(&3));
}

#[test]
fn diagnostics_in_order() {
    let program = program();
    let mut builder: AnalyzedDocumentBuilder<'_, &str, u64, u64, u64> = AnalyzedDocumentBuilder {
        interns: &program.interns,
        module_id_to_url: HashMap::new(),
        can_problems: program.can_problems,
        type_problems: program.type_problems,
        declarations_by_id: HashMap::new(),
        typechecked: HashMap::new(),
        root_module: None,
    };
    let first: Vec<_> = builder.build_diagnostics(1).into_iter().map(|d| d.message).collect();
    assert_eq!(first, vec!["can a", "can b", "type a"]);
    assert!(builder.build_diagnostics(1).is_empty());
    assert_eq!(builder.build_diagnostics(2).len(), 1);
    assert!(builder.build_diagnostics(42).is_empty());
}
