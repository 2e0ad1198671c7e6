use roc_analysis::paths::{
    _find_parent_git_repo, ancestors, find_src_dir, nearest_repo, path_to_url, search_dirs,
    src_dir_of, url_path_of, RepoSearch, RepoStep,
};
use std::path::{Path, PathBuf};
use tower_lsp::lsp_types::Url;

fn found(path: &str) -> RepoSearch {
    RepoSearch::Found(PathBuf::from(path))
}

fn probe(path: &str) -> RepoSearch {
    RepoSearch::Probe(PathBuf::from(path))
}

fn url_of(path: &str, temp_dir: &str) -> Option<String> {
    path_to_url(Path::new(path), Path::new(temp_dir)).map(String::from)
}

#[test]
fn src_dir_is_the_parent() {
    let dir = find_src_dir(Path::new("/home/roc/app/main.roc"));
    assert_eq!(dir.to_str(), Some("/home/roc/app"));
    assert_eq!(find_src_dir(Path::new("main.roc")).to_str(), Some(""));
    assert_eq!(find_src_dir(Path::new("/main.roc")).to_str(), Some("/"));
}

#[test]
fn src_dir_of_a_joined_name() {
    for text in ["/", "/a/b", "/a//b/./", "/a/..", "", "a", "a/b/", "./a"] {
        let dir = Path::new(text);
        for name in ["main.roc", ".git", "...", "\u{e9} x"] {
            assert_eq!(find_src_dir(&dir.join(name)), dir);
        }
    }
}

#[test]
fn src_dir_without_a_parent() {
    assert_eq!(find_src_dir(Path::new("/")).to_str(), Some("/"));
    assert_eq!(find_src_dir(Path::new("")).to_str(), Some(""));
}

#[test]
fn src_dir_of_a_given_parent() {
    let path = Path::new("/a/b");
    assert_eq!(src_dir_of(path, Some(Path::new("/a"))), Path::new("/a"));
    assert_eq!(src_dir_of(path, None), path);
}

#[test]
fn ancestors_nearest_first() {
    let all = |path: &str| -> Vec<String> {
        let list = ancestors(Path::new(path));
        list.iter().map(|p| p.to_str().unwrap().to_string()).collect()
    };
    assert_eq!(all("/a/b/c"), vec!["/a/b/c", "/a/b", "/a", "/"]);
    assert_eq!(all("a/b"), vec!["a/b", "a", ""]);
    assert_eq!(all(""), vec![""]);
    assert_eq!(all("/a//../b/.").len(), 4);
    assert_eq!(all("/./"), vec!["/./"]);
}

#[test]
fn repo_steps() {
    assert_eq!(nearest_repo(3, &vec![]), RepoStep::Probe(0));
    assert_eq!(nearest_repo(3, &vec![false]), RepoStep::Probe(1));
    assert_eq!(nearest_repo(3, &vec![false, true]), RepoStep::Found(1));
    assert_eq!(nearest_repo(3, &vec![true, true]), RepoStep::Found(0));
    assert_eq!(nearest_repo(3, &vec![false, false, false]), RepoStep::NotFound);
    assert_eq!(nearest_repo(2, &vec![false, false, true]), RepoStep::NotFound);
    assert_eq!(nearest_repo(0, &vec![]), RepoStep::NotFound);
}

#[test]
fn directories_in_order() {
    let dirs = vec![PathBuf::from("/x/y"), PathBuf::from("/z")];
    assert_eq!(search_dirs(&dirs, &vec![]), probe("/x/y/.git"));
    assert_eq!(search_dirs(&dirs, &vec![false]), probe("/z/.git"));
    assert_eq!(search_dirs(&dirs, &vec![false, true]), found("/z"));
    assert_eq!(search_dirs(&dirs, &vec![true]), found("/x/y"));
    assert_eq!(search_dirs(&dirs, &vec![false, false]), RepoSearch::NotFound);
    assert_eq!(search_dirs(&vec![], &vec![]), RepoSearch::NotFound);
}

#[test]
fn repo_search_probes_upwards() {
    let path = Path::new("/work/app/src");
    let mut answers = Vec::new();
    let mut probed = Vec::new();
    let result = loop {
        match _find_parent_git_repo(path, &answers) {
            RepoSearch::Probe(git) => {
                answers.push(git == Path::new("/work/.git"));
                probed.push(git.to_str().unwrap().to_string());
            }
            other => break other,
        }
    };
    assert_eq!(probed, vec!["/work/app/src/.git", "/work/app/.git", "/work/.git"]);
    assert_eq!(result, found("/work"));
}

#[test]
fn repo_search_finds_the_path_itself() {
    assert_eq!(_find_parent_git_repo(Path::new("/work"), &vec![true]), found("/work"));
}

#[test]
fn repo_search_without_a_repo() {
    let path = Path::new("/a");
    assert_eq!(_find_parent_git_repo(path, &vec![]), probe("/a/.git"));
    assert_eq!(_find_parent_git_repo(path, &vec![false]), probe("/.git"));
    assert_eq!(_find_parent_git_repo(path, &vec![false, false]), RepoSearch::NotFound);
}

#[test]
fn url_of_an_absolute_path() {
    let url = "file:///home/roc/my%20app.roc".to_string();
    assert_eq!(url_of("/home/roc/my app.roc", "/tmp"), Some(url.clone()));
    assert_eq!(url_of("/home/roc/my app.roc", "elsewhere"), Some(url));
}

#[test]
fn url_is_percent_encoded() {
    assert_eq!(url_of("/", "/tmp"), Some("file:///".to_string()));
    assert_eq!(url_of("/a//b/./../c/", "/tmp"), Some("file:///a/b/../c".to_string()));
    assert_eq!(
        url_of("/\t !\"#$%&'()*+,-.:;<=>?@[]^_`{|}~\u{7f}\u{e9}", "/tmp").unwrap(),
        "file:///%09%20!%22%23$%25&'()*+,-.:;%3C=%3E%3F@[]^_%60%7B|%7D~%7F%C3%A9"
    );
    let kept = "0123456789ABCDEFGHIJKLMNOPQRSTUVWXYZabcdefghijklmnopqrstuvwxyz";
    assert_eq!(url_of(kept, "/tmp"), Some(format!("file:///tmp/{}", kept)));
}

#[test]
fn url_of_a_relative_path() {
    assert_eq!(url_of("Bool.roc", "/tmp/roc"), Some("file:///tmp/roc/Bool.roc".to_string()));
    assert_eq!(url_of("Bool.roc", "/tmp/roc"), url_of("/tmp/roc/Bool.roc", "/other"));
}

#[test]
fn no_url_in_a_relative_directory() {
    assert_eq!(url_of("Bool.roc", "tmp"), None);
    assert_eq!(url_of("", ""), None);
}

#[test]
fn path_that_a_url_is_made_of() {
    let path = Path::new("a.roc");
    let joined = Path::new("/tmp/a.roc");
    assert_eq!(url_path_of(path, Some(joined)), joined);
    assert_eq!(url_path_of(path, None), path);
}

#[test]
fn url_leads_back_to_its_path() {
    let temp_dir = Path::new("/tmp");
    for text in ["/", "/a b/c.roc", "/tmp/../x", "/a//b/./c", "/p%41/q?#", "/a\\b", "/d/c:"] {
        let path = Path::new(text);
        let url = path_to_url(path, temp_dir).unwrap();
        assert_eq!(url.to_file_path(), Ok(path.to_path_buf()));
    }
    let url = path_to_url(Path::new("../Bool.roc"), temp_dir).unwrap();
    assert_eq!(url.as_str(), "file:///tmp/../Bool.roc");
    assert_eq!(url.to_file_path(), Ok(PathBuf::from("/tmp/../Bool.roc")));
}

#[test]
fn url_of_a_path_that_is_not_unicode() {
    let path = Url::parse("file:///tmp/%FF.roc").unwrap().to_file_path().unwrap();
    assert_eq!(path.to_str(), None);
    let url = path_to_url(&path, Path::new("/tmp")).unwrap();
    assert_eq!(url.as_str(), "file:///tmp/%FF.roc");
    assert_eq!(url.to_file_path(), Ok(path.clone()));
    assert_eq!(find_src_dir(&path), Path::new("/tmp"));
}
