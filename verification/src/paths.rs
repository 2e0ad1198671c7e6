//! Paths of source files, and the URLs by which an editor knows them.
//!
//! How a path is read depends on the target: separators, drive letters and what
//! counts as absolute differ. The standard library and the `url` crate decide
//! that; what they decide is an input here. The targets meant are those on which the
//! `url` crate makes URLs of paths: Unix, Windows, and a few that read paths as Unix does.

use std::collections::HashMap;
use std::path::{Path, PathBuf};
use tower_lsp::lsp_types::Url;
use vstd::prelude::*;
use vstd::utf8::*;

verus! {

/// A path as the standard library has it: a string of bytes, Unicode or not.
#[verifier::external_type_specification]
#[verifier::external_body]
pub struct ExPath(std::path::Path);

/// An owned path.
#[verifier::external_type_specification]
#[verifier::external_body]
pub struct ExPathBuf(std::path::PathBuf);

/// A URL of the `url` crate, as `tower_lsp::lsp_types` exports it.
#[verifier::external_type_specification]
#[verifier::external_body]
pub struct ExUrl(tower_lsp::lsp_types::Url);

/// The bytes that a path holds, in the encoding of `OsStr::as_encoded_bytes`.
pub uninterp spec fn path_bytes(path: &Path) -> Seq<u8>;

/// The bytes that an owned path holds, in the same encoding.
pub uninterp spec fn path_buf_bytes(path: PathBuf) -> Seq<u8>;

/// The characters that a URL holds: its serialization.
pub uninterp spec fn url_text(url: Url) -> Seq<char>;

/// The bytes of an optional path.
pub open spec fn opt_path_bytes(path: Option<&Path>) -> Option<Seq<u8>> {
    match path {
        Some(p) => Some(path_bytes(p)),
        None => None,
    }
}

/// The serialization of an optional URL.
pub open spec fn opt_url_text(url: Option<Url>) -> Option<Seq<char>> {
    match url {
        Some(u) => Some(url_text(u)),
        None => None,
    }
}

/// On some target, `std::path::Path::parent` gives `parent` for `path`.
pub uninterp spec fn parent_outcome(path: Seq<u8>, parent: Option<Seq<u8>>) -> bool;

/// On some target, `std::path::Path::join` gives `joined` for `base` and `child`.
pub uninterp spec fn join_outcome(base: Seq<u8>, child: Seq<u8>, joined: Seq<u8>) -> bool;

/// On some target, `std::path::Path::is_relative` gives `relative` for `path`.
pub uninterp spec fn relative_outcome(path: Seq<u8>, relative: bool) -> bool;

/// On some target, `Url::from_file_path` gives the URL `url` for `path`, or fails
/// where `url` is `None`.
pub uninterp spec fn file_url_outcome(path: Seq<u8>, url: Option<Seq<char>>) -> bool;

/// On some target, `Url::to_file_path` gives `path` for the URL `url`, or fails where
/// `path` is `None`.
pub uninterp spec fn file_path_outcome(url: Seq<char>, path: Option<Seq<u8>>) -> bool;

/// `PathBuf::as_path`: the same path, borrowed.
pub assume_specification[ std::path::PathBuf::as_path ](path: &std::path::PathBuf) -> (res:
    &std::path::Path)
    ensures
        path_bytes(res) == path_buf_bytes(*path),
;

/// `Path::to_path_buf`: the same path, owned.
pub assume_specification[ std::path::Path::to_path_buf ](path: &std::path::Path) -> (res:
    std::path::PathBuf)
    ensures
        path_buf_bytes(res) == path_bytes(path),
;

/// `Path::parent`: the path without its final component, or `None` where it ends in a
/// root or a prefix or is empty. So what is left is a beginning of the path, and
/// shorter. Of a path that all targets read alike, the final component is the last of
/// its `unix_components`. Which one it is of another path is the target's to say; there
/// the outcome is tied to the path by `parent_outcome` alone.
pub assume_specification[ std::path::Path::parent ](path: &std::path::Path) -> (res: Option<
    &std::path::Path,
>)
    ensures
        parent_outcome(path_bytes(path), opt_path_bytes(res)),
        last_taken_off(path_bytes(path), opt_path_bytes(res)),
        res matches Some(parent) ==> {
            &&& path_bytes(parent).len() < path_bytes(path).len()
            &&& path_bytes(parent).is_prefix_of(path_bytes(path))
        },
        path_bytes(path).len() == 0 ==> res is None,
;

/// `Path::is_relative`. What has neither a root nor a prefix is relative on every target;
/// the answer for another path depends on the target.
pub assume_specification[ std::path::Path::is_relative ](path: &std::path::Path) -> (res: bool)
    ensures
        relative_outcome(path_bytes(path), res),
        unix_spelled(path_bytes(path)) && !rooted(path_bytes(path)) ==> res,
;

/// Calls `Path::join`. What it gives is tied to both paths by `join_outcome`. A relative
/// path is adjoined: where all targets read it and the result alike, the components of
/// the result are those of `base`, then those of `child`. The separator, and when another
/// `child` replaces `base`, are the target's to say.
#[verifier::external_body]
fn path_join(base: &Path, child: &Path) -> (res: PathBuf)
    ensures
        join_outcome(path_bytes(base), path_bytes(child), path_buf_bytes(res)),
        adjoined(path_bytes(base), path_bytes(child), path_buf_bytes(res)),
{
    base.join(child)
}

/// Calls `Path::new` on a string: the path that holds the string's UTF-8 bytes.
#[verifier::external_body]
fn path_of_str(text: &str) -> (res: &Path)
    ensures
        path_bytes(res) == encode_utf8(text@),
{
    Path::new(text)
}

/// Calls `Url::from_file_path`. There is a URL only for an absolute path, and it is in
/// the `file` scheme. Every absolute path that is `unix_spelled` has one, in which, if the
/// path is Unicode, each component is percent encoded by itself, after a slash. For which
/// other absolute paths there is a URL, and how any other URL is spelled, is left to
/// `file_url_outcome`.
#[verifier::external_body]
fn url_from_file_path(path: &Path) -> (res: Option<Url>)
    ensures
        file_url_outcome(path_bytes(path), opt_url_text(res)),
        res matches Some(url) ==> {
            &&& absolute_outcome(path_bytes(path))
            &&& "file://"@.is_prefix_of(url_text(url))
            &&& spells_path(url_text(url), path_bytes(path))
        },
        res is None && unix_spelled(path_bytes(path)) ==> relative_outcome(path_bytes(path), true),
{
    Url::from_file_path(path).ok()
}

/// `Url::to_file_path`. The host that is accepted and the spelling of the path depend
/// on the target. Where both paths are spelled as on Unix, the path of a URL that
/// `Url::from_file_path` made has the components of the path it was made of: it encodes
/// each component by itself, and each is decoded by itself. Success is not claimed,
/// not even for such a URL: the call also fails where memory cannot be reserved.
pub assume_specification[ tower_lsp::lsp_types::Url::to_file_path ](
    url: &tower_lsp::lsp_types::Url,
) -> (res: Result<std::path::PathBuf, ()>)
    ensures
        file_path_outcome(
            url_text(*url),
            match res {
                Ok(path) => Some(path_buf_bytes(path)),
                Err(_) => None,
            },
        ),
        res matches Ok(path) ==> leads_back(url_text(*url), path_buf_bytes(path)),
;

/// `Url::clone`, which is derived: a clone is the same value, field by field.
pub assume_specification[ <tower_lsp::lsp_types::Url as Clone>::clone ](
    url: &tower_lsp::lsp_types::Url,
) -> (res: tower_lsp::lsp_types::Url)
    ensures
        res == *url,
;

/// The component that ends, as a list: nothing where it is empty or a dot.
pub open spec fn component(name: Seq<u8>) -> Seq<Seq<u8>> {
    if name.len() == 0 || (name.len() == 1 && name[0] == 0x2e) {
        Seq::empty()
    } else {
        seq![name]
    }
}

/// The components of `name` followed by `rest`, where `name` holds no slash.
pub open spec fn components_from(name: Seq<u8>, rest: Seq<u8>) -> Seq<Seq<u8>>
    decreases rest.len(),
{
    if rest.len() == 0 {
        component(name)
    } else if rest[0] == 0x2f {
        component(name) + components_from(Seq::empty(), rest.drop_first())
    } else {
        components_from(name.push(rest[0]), rest.drop_first())
    }
}

/// The components of a path on Unix, below the root where it has one: what stands
/// between slashes, without empty ones and dots.
pub open spec fn unix_components(path: Seq<u8>) -> Seq<Seq<u8>> {
    components_from(Seq::empty(), path)
}

/// The path starts with a slash.
pub open spec fn rooted(path: Seq<u8>) -> bool {
    path.len() > 0 && path[0] == 0x2f
}

/// All targets divide the path at its slashes and nowhere else: it holds no backslash, a
/// separator on some of them; it does not start with two slashes, as the name of a server
/// may; and where it has no root, it holds no colon, as behind the name of a drive.
pub open spec fn unix_spelled(path: Seq<u8>) -> bool {
    &&& !path.contains(0x5c)
    &&& if rooted(path) {
        path.len() > 1 ==> path[1] != 0x2f
    } else {
        !path.contains(0x3a)
    }
}

/// On some target, `path` is absolute; it has a root then, as far as all targets read it
/// alike.
pub open spec fn absolute_outcome(path: Seq<u8>) -> bool {
    &&& relative_outcome(path, false)
    &&& unix_spelled(path) ==> rooted(path)
}

/// The two paths have the same components, and a root both or neither.
pub open spec fn same_unix_path(path: Seq<u8>, other: Seq<u8>) -> bool {
    &&& rooted(path) == rooted(other)
    &&& unix_components(path) == unix_components(other)
}

/// `parent` is `path` without its last component, and there is none of a root, as far as
/// all targets read the path alike.
pub open spec fn last_taken_off(path: Seq<u8>, parent: Option<Seq<u8>>) -> bool {
    unix_spelled(path) ==> {
        &&& unix_components(path).len() > 0 ==> {
            &&& parent matches Some(dir)
            &&& rooted(dir) == rooted(path)
            &&& unix_components(dir) == unix_components(path).drop_last()
        }
        &&& rooted(path) && unix_components(path).len() == 0 ==> parent is None
    }
}

/// `joined` is the relative path `child`, seen from `base`, as far as all targets read
/// both alike.
pub open spec fn adjoined(base: Seq<u8>, child: Seq<u8>, joined: Seq<u8>) -> bool {
    unix_spelled(child) && !rooted(child) && unix_spelled(joined) ==> {
        &&& rooted(joined) == rooted(base)
        &&& unix_components(joined) == unix_components(base) + unix_components(child)
    }
}

/// What `Path::join` gives for `base` and `child` may be `joined`.
pub open spec fn joined_path(base: Seq<u8>, child: Seq<u8>, joined: Seq<u8>) -> bool {
    join_outcome(base, child, joined) && adjoined(base, child, joined)
}

/// A byte that stands for itself in a component of the path of a URL: a visible ASCII
/// character without a meaning there.
pub open spec fn kept_in_url(byte: u8) -> bool {
    let c = byte as char;
    &&& '!' <= c <= '~'
    &&& c != '"' && c != '#' && c != '%' && c != '/' && c != '<' && c != '>' && c != '?'
    &&& c != '\\' && c != '`' && c != '{' && c != '}'
}

/// An upper case hexadecimal digit.
pub open spec fn hex_digit(digit: int) -> char {
    if digit < 10 {
        (0x30 + digit) as char
    } else {
        (0x41 + digit - 10) as char
    }
}

/// A component, percent encoded: a byte that is not kept becomes a percent sign and two
/// digits.
pub open spec fn percent_encoded(name: Seq<u8>) -> Seq<char>
    decreases name.len(),
{
    if name.len() == 0 {
        Seq::empty()
    } else {
        let byte = name.last();
        percent_encoded(name.drop_last()) + if kept_in_url(byte) {
            seq![byte as char]
        } else {
            seq!['%', hex_digit(byte as int / 16), hex_digit(byte as int % 16)]
        }
    }
}

/// The components, percent encoded, each after a slash.
pub open spec fn url_segments(components: Seq<Seq<u8>>) -> Seq<char>
    decreases components.len(),
{
    if components.len() == 0 {
        Seq::empty()
    } else {
        url_segments(components.drop_last()).push('/') + percent_encoded(components.last())
    }
}

/// The `file` URL of the absolute path with these components.
pub open spec fn unix_file_url(components: Seq<Seq<u8>>) -> Seq<char> {
    "file://"@ + if components.len() == 0 {
        seq!['/']
    } else {
        url_segments(components)
    }
}

/// `url` is spelled as `unix_file_url` has it, where the path is Unicode and absolute as
/// Unix spells it.
pub open spec fn spells_path(url: Seq<char>, path: Seq<u8>) -> bool {
    unix_spelled(path) && rooted(path) && valid_utf8(path) ==> url == unix_file_url(
        unix_components(path),
    )
}

/// `back` and `path` are both absolute paths as Unix spells them: they start with a
/// slash, and `path` with no second separator; and `back` shows no sign that bytes of
/// `path` were replaced because some target takes Unicode only, or backslashes for
/// separators.
pub open spec fn both_unix(path: Seq<u8>, back: Seq<u8>) -> bool {
    &&& path.len() > 0 && path[0] == 0x2f
    &&& path.len() > 1 ==> path[1] != 0x2f && path[1] != 0x5c
    &&& back.len() > 0 && back[0] == 0x2f
    &&& valid_utf8(back) ==> valid_utf8(path)
    &&& path.contains(0x5c) ==> back.contains(0x5c)
}

/// `back` has the components of every path that `Url::from_file_path` makes `url` of,
/// as far as both are spelled as on Unix.
pub open spec fn leads_back(url: Seq<char>, back: Seq<u8>) -> bool {
    forall|path: Seq<u8>| #[trigger]
        file_url_outcome(path, Some(url)) && both_unix(path, back) ==> unix_components(back)
            == unix_components(path)
}

/// The number by which a module of the analyzed program is known.
pub type ModuleId = u32;

/// The URL of each module. Module numbers are not stable between analyses, so one
/// that one module knows need not mean the same to another document.
pub type ModuleIdToUrl = HashMap<ModuleId, Url>;

/// The directory of a source file, given its parent: the parent, or the path itself
/// where there is none.
pub open spec fn src_dir(path: Seq<u8>, parent: Option<Seq<u8>>) -> Seq<u8> {
    match parent {
        Some(dir) => dir,
        None => path,
    }
}

/// Some outcome of `Path::parent` makes `dir` the source directory of `path`, which is
/// the path itself just where it has no parent, and else the path without its last
/// component.
pub open spec fn src_dir_outcome(path: Seq<u8>, dir: Seq<u8>) -> bool {
    exists|parent: Option<Seq<u8>>| #[trigger]
        parent_outcome(path, parent) && last_taken_off(path, parent) && dir == src_dir(path, parent)
            && (parent is None <==> dir == path)
}

/// The parent, or the path itself where it has none.
pub fn src_dir_of<'a>(path: &'a Path, parent: Option<&'a Path>) -> (res: &'a Path)
    ensures
        res == match parent {
            Some(dir) => dir,
            None => path,
        },
        path_bytes(res) == src_dir(path_bytes(path), opt_path_bytes(parent)),
{
    match parent {
        Some(dir) => dir,
        None => path,
    }
}

/// The directory that holds a source file: the parent of its path, or the path
/// itself where it has none.
pub fn find_src_dir(path: &Path) -> (res: &Path)
    ensures
        src_dir_outcome(path_bytes(path), path_bytes(res)),
        path_bytes(res).is_prefix_of(path_bytes(path)),
        path_bytes(path).len() == 0 ==> path_bytes(res) == path_bytes(path),
{
    let parent = path.parent();
    let dir = src_dir_of(path, parent);
    assert(parent_outcome(path_bytes(path), opt_path_bytes(parent)));
    dir
}

/// Where `Path::parent` has one outcome for a path, the path has one source directory.
pub proof fn lemma_src_dir_of_the_one_parent(
    path: Seq<u8>,
    parent: Option<Seq<u8>>,
    dir: Seq<u8>,
)
    requires
        forall|outcome: Option<Seq<u8>>| #[trigger]
            parent_outcome(path, outcome) ==> outcome == parent,
        src_dir_outcome(path, dir),
    ensures
        dir == src_dir(path, parent),
{
}

/// The name of a file or a directory: not empty, without a separator or a colon, and
/// neither a dot nor two.
pub open spec fn plain_name(name: Seq<u8>) -> bool {
    &&& name.len() > 0
    &&& !name.contains(0x2f)
    &&& !name.contains(0x5c)
    &&& !name.contains(0x3a)
    &&& name != seq![0x2eu8]
    &&& name != seq![0x2eu8, 0x2eu8]
}

proof fn lemma_components_without_a_slash(name: Seq<u8>, rest: Seq<u8>)
    requires
        !rest.contains(0x2f),
    ensures
        components_from(name, rest) == component(name + rest),
    decreases rest.len(),
{
    if rest.len() == 0 {
        assert(name + rest =~= name);
    } else {
        assert(rest.contains(rest[0]));
        assert forall|b: u8| rest.drop_first().contains(b) implies rest.contains(b) by {
            let i = choose|i: int| 0 <= i < rest.drop_first().len() && rest.drop_first()[i] == b;
            assert(rest[i + 1] == b);
        }
        lemma_components_without_a_slash(name.push(rest[0]), rest.drop_first());
        assert(name.push(rest[0]) + rest.drop_first() =~= name + rest);
    }
}

proof fn lemma_components_of_a_name(name: Seq<u8>)
    requires
        plain_name(name),
    ensures
        unix_spelled(name),
        !rooted(name),
        unix_components(name) == seq![name],
{
    lemma_components_without_a_slash(Seq::empty(), name);
    assert(Seq::<u8>::empty() + name =~= name);
    assert(name.contains(name[0]));
    if name.len() == 1 && name[0] == 0x2e {
        assert(name =~= seq![0x2eu8]);
    }
}

/// The source directory of a file is the directory that its name was joined to: one
/// component is taken off.
pub proof fn lemma_src_dir_of_a_joined_name(
    dir: Seq<u8>,
    name: Seq<u8>,
    path: Seq<u8>,
    src_dir: Seq<u8>,
)
    requires
        plain_name(name),
        joined_path(dir, name, path),
        unix_spelled(path),
        src_dir_outcome(path, src_dir),
    ensures
        same_unix_path(src_dir, dir),
{
    lemma_components_of_a_name(name);
    assert(unix_components(path).drop_last() =~= unix_components(dir));
}

/// The path itself, its parent, the parent of that, and so on up to one that has no
/// parent, by some outcomes of `Path::parent`. Each is a shorter beginning of the one
/// before.
pub open spec fn ancestor_chain(path: Seq<u8>, chain: Seq<Seq<u8>>) -> bool {
    &&& 0 < chain.len() <= path.len() + 1
    &&& chain[0] == path
    &&& forall|i: int|
        #![trigger chain[i]]
        0 < i < chain.len() ==> {
            &&& parent_outcome(chain[i - 1], Some(chain[i]))
            &&& last_taken_off(chain[i - 1], Some(chain[i]))
            &&& chain[i].len() < chain[i - 1].len()
            &&& chain[i].is_prefix_of(chain[i - 1])
        }
    &&& parent_outcome(chain.last(), None)
    &&& last_taken_off(chain.last(), None)
}

/// The bytes of each of a list of paths.
pub open spec fn all_path_bytes(paths: Seq<PathBuf>) -> Seq<Seq<u8>> {
    paths.map_values(|p: PathBuf| path_buf_bytes(p))
}

/// The path and its ancestors, nearest first.
pub fn ancestors(path: &Path) -> (res: Vec<PathBuf>)
    ensures
        ancestor_chain(path_bytes(path), all_path_bytes(res@)),
{
    let mut list: Vec<PathBuf> = Vec::new();
    let mut dir: &Path = path;
    list.push(path.to_path_buf());
    loop
        invariant
            list@.len() > 0,
            list@.len() + path_bytes(dir).len() <= path_bytes(path).len() + 1,
            all_path_bytes(list@)[0] == path_bytes(path),
            all_path_bytes(list@).last() == path_bytes(dir),
            forall|i: int|
                #![trigger all_path_bytes(list@)[i]]
                0 < i < list@.len() ==> {
                    &&& parent_outcome(
                        all_path_bytes(list@)[i - 1],
                        Some(all_path_bytes(list@)[i]),
                    )
                    &&& last_taken_off(
                        all_path_bytes(list@)[i - 1],
                        Some(all_path_bytes(list@)[i]),
                    )
                    &&& all_path_bytes(list@)[i].len() < all_path_bytes(list@)[i - 1].len()
                    &&& all_path_bytes(list@)[i].is_prefix_of(all_path_bytes(list@)[i - 1])
                },
        ensures
            ancestor_chain(path_bytes(path), all_path_bytes(list@)),
        decreases path_bytes(dir).len(),
    {
        match dir.parent() {
            Some(parent) => {
                let ghost nearer = all_path_bytes(list@);
                list.push(parent.to_path_buf());
                assert(all_path_bytes(list@) =~= nearer.push(path_bytes(parent)));
                dir = parent;
            },
            None => {
                break;
            },
        }
    }
    list
}

proof fn lemma_ancestor_of_an_absolute_path(path: Seq<u8>, chain: Seq<Seq<u8>>, i: int)
    requires
        ancestor_chain(path, chain),
        rooted(path),
        unix_spelled(path),
        0 <= i < chain.len(),
    ensures
        i <= unix_components(path).len(),
        rooted(chain[i]),
        unix_spelled(chain[i]),
        unix_components(chain[i]) == unix_components(path).take(
            unix_components(path).len() - i,
        ),
    decreases i,
{
    let components = unix_components(path);
    if i == 0 {
        assert(components.take(components.len() as int) =~= components);
    } else {
        lemma_ancestor_of_an_absolute_path(path, chain, i - 1);
        let nearer = chain[i - 1];
        let dir = chain[i];
        assert(unix_components(nearer).len() > 0);
        assert(components.take(components.len() - i + 1).drop_last() =~= components.take(
            components.len() - i,
        ));
        assert forall|b: u8| dir.contains(b) implies nearer.contains(b) by {
            let k = choose|k: int| 0 <= k < dir.len() && dir[k] == b;
            assert(nearer[k] == b);
        }
    }
}

/// An absolute path, as Unix spells it, has as many ancestors above it as components:
/// each has one component less than the one before, up to the root, which has none.
pub proof fn lemma_ancestors_up_to_the_root(path: Seq<u8>, chain: Seq<Seq<u8>>)
    requires
        ancestor_chain(path, chain),
        rooted(path),
        unix_spelled(path),
    ensures
        chain.len() == unix_components(path).len() + 1,
        forall|i: int|
            0 <= i < chain.len() ==> {
                &&& rooted(#[trigger] chain[i])
                &&& unix_components(chain[i]) == unix_components(path).take(
                    unix_components(path).len() - i,
                )
            },
{
    assert forall|i: int| 0 <= i < chain.len() implies {
        &&& rooted(#[trigger] chain[i])
        &&& unix_components(chain[i]) == unix_components(path).take(
            unix_components(path).len() - i,
        )
    } by {
        lemma_ancestor_of_an_absolute_path(path, chain, i);
    }
    lemma_ancestor_of_an_absolute_path(path, chain, chain.len() - 1);
}

/// What is known of the search for the repository that a path belongs to.
#[derive(Debug, PartialEq, Eq)]
pub enum RepoSearch {
    /// This directory holds a `.git`.
    Found(PathBuf),
    /// Whether this path exists is to be looked up next.
    Probe(PathBuf),
    /// Neither the path nor any ancestor holds a `.git`.
    NotFound,
}

/// A step of that search, by the number of the ancestor it concerns.
#[derive(Debug, Clone, Copy, PartialEq, Eq)]
pub enum RepoStep {
    Found(usize),
    Probe(usize),
    NotFound,
}

/// The number of answers before the first `true`.
pub open spec fn first_hit(answers: Seq<bool>) -> nat
    decreases answers.len(),
{
    if answers.len() == 0 || answers[0] {
        0
    } else {
        1 + first_hit(answers.drop_first())
    }
}

/// The nearest of `count` ancestors for which the answer is `true`; where no answer
/// is, the ancestor to ask about next, unless all were asked about.
pub open spec fn nearest_hit(count: nat, answers: Seq<bool>) -> RepoStep {
    let hit = first_hit(answers);
    if hit >= count {
        RepoStep::NotFound
    } else if hit < answers.len() {
        RepoStep::Found(hit as usize)
    } else {
        RepoStep::Probe(hit as usize)
    }
}

proof fn lemma_first_hit_at(answers: Seq<bool>, hit: int)
    requires
        0 <= hit <= answers.len(),
        forall|i: int| 0 <= i < hit ==> !answers[i],
        hit < answers.len() ==> answers[hit],
    ensures
        first_hit(answers) == hit,
    decreases answers.len(),
{
    if hit > 0 {
        lemma_first_hit_at(answers.drop_first(), hit - 1);
    }
}

/// `first_hit` is the position of a `true` with none before it, or the length where
/// there is no `true`.
pub proof fn lemma_first_hit_is_nearest(answers: Seq<bool>)
    ensures
        first_hit(answers) <= answers.len(),
        forall|i: int| 0 <= i < first_hit(answers) ==> !(#[trigger] answers[i]),
        first_hit(answers) < answers.len() ==> answers[first_hit(answers) as int],
    decreases answers.len(),
{
    if answers.len() > 0 && !answers[0] {
        let rest = answers.drop_first();
        lemma_first_hit_is_nearest(rest);
        assert forall|i: int| 0 <= i < first_hit(answers) implies !(#[trigger] answers[i]) by {
            if i > 0 {
                assert(!rest[i - 1]);
            }
        }
        if first_hit(answers) < answers.len() {
            assert(rest[first_hit(rest) as int] == answers[first_hit(answers) as int]);
        }
    }
}

/// Each probe asks about the next ancestor, and its answer decides: that ancestor is
/// the one, or the search goes on with the one after it, or ends where there is none.
pub proof fn lemma_search_step(count: usize, answers: Seq<bool>)
    requires
        nearest_hit(count as nat, answers) is Probe,
    ensures
        nearest_hit(count as nat, answers) == RepoStep::Probe(answers.len() as usize),
        answers.len() < count,
        nearest_hit(count as nat, answers.push(true)) == RepoStep::Found(answers.len() as usize),
        nearest_hit(count as nat, answers.push(false)) == if answers.len() + 1 < count {
            RepoStep::Probe((answers.len() + 1) as usize)
        } else {
            RepoStep::NotFound
        },
{
    lemma_first_hit_is_nearest(answers);
    let n = answers.len() as int;
    assert forall|i: int| 0 <= i < n implies !answers.push(true)[i] && !answers.push(false)[i] by {
        assert(!answers[i]);
    }
    lemma_first_hit_at(answers.push(true), n);
    lemma_first_hit_at(answers.push(false), n + 1);
}

/// Where the search stands, once the first ancestors were looked up with these
/// answers.
pub fn nearest_repo(count: usize, answers: &Vec<bool>) -> (res: RepoStep)
    ensures
        res == nearest_hit(count as nat, answers@),
{
    let mut hit: usize = 0;
    while hit < answers.len() && !answers[hit]
        invariant
            hit <= answers@.len(),
            forall|i: int| 0 <= i < hit ==> !answers@[i],
        decreases answers@.len() - hit,
    {
        hit = hit + 1;
    }
    proof {
        lemma_first_hit_at(answers@, hit as int);
    }
    if hit >= count {
        RepoStep::NotFound
    } else if hit < answers.len() {
        RepoStep::Found(hit)
    } else {
        RepoStep::Probe(hit)
    }
}

/// Where the search through `dirs` stands: the directory found is the one whose `.git`
/// was probed, and the next to probe is the first that was not.
pub open spec fn search_outcome(dirs: Seq<Seq<u8>>, answers: Seq<bool>, res: RepoSearch) -> bool {
    match nearest_hit(dirs.len(), answers) {
        RepoStep::Found(i) => res matches RepoSearch::Found(dir) && path_buf_bytes(dir)
            == dirs[i as int],
        RepoStep::Probe(i) => res matches RepoSearch::Probe(git) && joined_path(
            dirs[i as int],
            encode_utf8(".git"@),
            path_buf_bytes(git),
        ),
        RepoStep::NotFound => res is NotFound,
    }
}

/// What is probed is the `.git` in the directory: its path has one component more.
pub proof fn lemma_probe_is_in_the_directory(dir: Seq<u8>, git: Seq<u8>)
    requires
        joined_path(dir, encode_utf8(".git"@), git),
        unix_spelled(git),
    ensures
        rooted(git) == rooted(dir),
        unix_components(git) == unix_components(dir).push(encode_utf8(".git"@)),
{
    let name = encode_utf8(".git"@);
    reveal_strlit(".git");
    is_ascii_chars_encode_utf8(".git"@);
    assert(name =~= seq!['.' as u8, 'g' as u8, 'i' as u8, 't' as u8]);
    lemma_components_of_a_name(name);
}

/// Searches directories in order for one that holds a `.git`, as `_find_parent_git_repo`
/// does with the ancestors of a path.
pub fn search_dirs(dirs: &Vec<PathBuf>, answers: &Vec<bool>) -> (res: RepoSearch)
    ensures
        search_outcome(all_path_bytes(dirs@), answers@, res),
        res is Probe ==> answers@.len() < dirs@.len(),
{
    proof {
        lemma_first_hit_is_nearest(answers@);
    }
    match nearest_repo(dirs.len(), answers) {
        RepoStep::Found(i) => RepoSearch::Found(dirs[i].as_path().to_path_buf()),
        RepoStep::Probe(i) => RepoSearch::Probe(
            path_join(dirs[i].as_path(), path_of_str(".git")),
        ),
        RepoStep::NotFound => RepoSearch::NotFound,
    }
}

/// Searches the path and its ancestors, nearest first, for one that holds a `.git`.
///
/// Whether a path exists is the caller's to look up: `answers` holds what it found
/// for the paths that were probed so far, in order. The search starts with no
/// answers, and each `Probe` asks for one more; there are no more of them than the path
/// has bytes, and one. To search one list of ancestors through, take `ancestors` once
/// and go on with `search_dirs`.
pub fn _find_parent_git_repo(path: &Path, answers: &Vec<bool>) -> (res: RepoSearch)
    ensures
        exists|chain: Seq<Seq<u8>>| #[trigger]
            ancestor_chain(path_bytes(path), chain) && search_outcome(chain, answers@, res),
        res is Probe ==> answers@.len() <= path_bytes(path).len(),
{
    let dirs = ancestors(path);
    let res = search_dirs(&dirs, answers);
    assert(ancestor_chain(path_bytes(path), all_path_bytes(dirs@)));
    res
}

/// The path that a URL is made of: the one in the directory for temporary files,
/// where there is one, else the path as it stands.
pub open spec fn url_path(path: Seq<u8>, in_temp_dir: Option<Seq<u8>>) -> Seq<u8> {
    match in_temp_dir {
        Some(joined) => joined,
        None => path,
    }
}

/// By some outcomes of `Path::is_relative` and `Path::join`, a path is taken to lie
/// in the directory `temp_dir`, there at `in_temp_dir`; or it is absolute, and
/// `in_temp_dir` is `None`.
pub open spec fn in_temp_dir_outcome(
    path: Seq<u8>,
    temp_dir: Seq<u8>,
    in_temp_dir: Option<Seq<u8>>,
) -> bool {
    match in_temp_dir {
        Some(joined) => relative_outcome(path, true) && joined_path(temp_dir, path, joined),
        None => absolute_outcome(path),
    }
}

/// By some outcomes of the calls that `path_to_url` makes, `url` is the URL of
/// `path`, made of a path that is absolute, and spelled as that; `None` stands for a path
/// without one. A path that is `unix_spelled` has none only where it is not absolute.
pub open spec fn path_url_outcome(
    path: Seq<u8>,
    temp_dir: Seq<u8>,
    url: Option<Seq<char>>,
) -> bool {
    exists|in_temp_dir: Option<Seq<u8>>| #[trigger]
        in_temp_dir_outcome(path, temp_dir, in_temp_dir) && {
            let full = url_path(path, in_temp_dir);
            &&& file_url_outcome(full, url)
            &&& url matches Some(text) ==> absolute_outcome(full) && spells_path(text, full)
            &&& url is None && unix_spelled(full) ==> relative_outcome(full, true)
        }
}

/// The path in the directory for temporary files, where there is one, else the path
/// as it stands.
pub fn url_path_of<'a>(path: &'a Path, in_temp_dir: Option<&'a Path>) -> (res: &'a Path)
    ensures
        res == match in_temp_dir {
            Some(joined) => joined,
            None => path,
        },
        path_bytes(res) == url_path(path_bytes(path), opt_path_bytes(in_temp_dir)),
{
    match in_temp_dir {
        Some(joined) => joined,
        None => path,
    }
}

/// The URL of a source file; a relative path is taken to lie in `temp_dir`. `None`
/// where the path has no URL.
pub fn path_to_url(path: &Path, temp_dir: &Path) -> (res: Option<Url>)
    ensures
        path_url_outcome(path_bytes(path), path_bytes(temp_dir), opt_url_text(res)),
        res matches Some(url) ==> "file://"@.is_prefix_of(url_text(url)),
{
    let joined: PathBuf;
    let mut in_temp_dir: Option<&Path> = None;
    if path.is_relative() {
        joined = path_join(temp_dir, path);
        in_temp_dir = Some(joined.as_path());
    }
    let url = url_from_file_path(url_path_of(path, in_temp_dir));
    assert(in_temp_dir_outcome(
        path_bytes(path),
        path_bytes(temp_dir),
        opt_path_bytes(in_temp_dir),
    ));
    url
}

/// The path that `Url::to_file_path` gives for the URL of a file has the components of
/// the path that `path_to_url` made the URL of: the file's own path, or the one in the
/// directory for temporary files; as far as both are spelled as on Unix.
pub proof fn lemma_url_leads_back_to_its_path(
    path: Seq<u8>,
    temp_dir: Seq<u8>,
    url: Seq<char>,
    back: Seq<u8>,
)
    requires
        path_url_outcome(path, temp_dir, Some(url)),
        leads_back(url, back),
    ensures
        exists|in_temp_dir: Option<Seq<u8>>| #[trigger]
            in_temp_dir_outcome(path, temp_dir, in_temp_dir) && file_url_outcome(
                url_path(path, in_temp_dir),
                Some(url),
            ) && (both_unix(url_path(path, in_temp_dir), back) ==> unix_components(back)
                == unix_components(url_path(path, in_temp_dir))),
{
    let in_temp_dir = choose|in_temp_dir: Option<Seq<u8>>| #[trigger]
        in_temp_dir_outcome(path, temp_dir, in_temp_dir) && file_url_outcome(
            url_path(path, in_temp_dir),
            Some(url),
        );
    assert(in_temp_dir_outcome(path, temp_dir, in_temp_dir));
}

/// What is a URL of a relative path is, for any directory for temporary files, a URL of
/// that path in the first one; and what is a URL of an absolute path is one for any
/// directory.
pub proof fn lemma_url_of_the_path_in_the_temp_dir(
    path: Seq<u8>,
    temp_dir: Seq<u8>,
    url: Seq<char>,
    other_dir: Seq<u8>,
)
    requires
        path_url_outcome(path, temp_dir, Some(url)),
    ensures
        exists|in_temp_dir: Option<Seq<u8>>| #[trigger]
            in_temp_dir_outcome(path, temp_dir, in_temp_dir) && path_url_outcome(
                url_path(path, in_temp_dir),
                other_dir,
                Some(url),
            ),
{
    let in_temp_dir = choose|in_temp_dir: Option<Seq<u8>>| #[trigger]
        in_temp_dir_outcome(path, temp_dir, in_temp_dir) && file_url_outcome(
            url_path(path, in_temp_dir),
            Some(url),
        ) && absolute_outcome(url_path(path, in_temp_dir)) && spells_path(
            url,
            url_path(path, in_temp_dir),
        );
    assert(in_temp_dir_outcome(url_path(path, in_temp_dir), other_dir, None));
}

/// `Path::is_relative` and `Url::from_file_path` have one outcome each for a path.
pub open spec fn one_file_url(path: Seq<u8>) -> bool {
    &&& !(relative_outcome(path, true) && relative_outcome(path, false))
    &&& forall|url: Option<Seq<char>>, other: Option<Seq<char>>| #[trigger]
        file_url_outcome(path, url) && #[trigger] file_url_outcome(path, other) ==> url == other
}

/// Each call that `path_to_url` makes for a path has one outcome, as is the case on one
/// target.
pub open spec fn one_path_url(path: Seq<u8>, temp_dir: Seq<u8>) -> bool {
    &&& one_file_url(path)
    &&& forall|joined: Seq<u8>, other: Seq<u8>| #[trigger]
        join_outcome(temp_dir, path, joined) && #[trigger] join_outcome(temp_dir, path, other)
            ==> joined == other
    &&& forall|joined: Seq<u8>| #[trigger]
        join_outcome(temp_dir, path, joined) ==> one_file_url(joined)
}

proof fn lemma_path_of_a_url(
    path: Seq<u8>,
    temp_dir: Seq<u8>,
    url: Option<Seq<char>>,
) -> (full: Seq<u8>)
    requires
        path_url_outcome(path, temp_dir, url),
    ensures
        file_url_outcome(full, url),
        url is Some ==> relative_outcome(full, false),
        url is None && unix_spelled(full) ==> relative_outcome(full, true),
        if relative_outcome(path, true) {
            full == path && relative_outcome(path, false) || join_outcome(temp_dir, path, full)
        } else {
            full == path && relative_outcome(path, false)
        },
{
    let in_temp_dir = choose|in_temp_dir: Option<Seq<u8>>| #[trigger]
        in_temp_dir_outcome(path, temp_dir, in_temp_dir) && {
            let full = url_path(path, in_temp_dir);
            &&& file_url_outcome(full, url)
            &&& url is Some ==> relative_outcome(full, false)
            &&& url is None && unix_spelled(full) ==> relative_outcome(full, true)
        };
    url_path(path, in_temp_dir)
}

/// A path has a URL where it is absolute, or else where the path joined to the directory
/// for temporary files is, as far as that is `unix_spelled`.
pub proof fn lemma_absolute_path_has_a_url(
    path: Seq<u8>,
    temp_dir: Seq<u8>,
    url: Option<Seq<char>>,
)
    requires
        if relative_outcome(path, true) {
            &&& !relative_outcome(path, false)
            &&& forall|joined: Seq<u8>| #[trigger]
                join_outcome(temp_dir, path, joined) ==> unix_spelled(joined) && !relative_outcome(
                    joined,
                    true,
                )
        } else {
            unix_spelled(path)
        },
        path_url_outcome(path, temp_dir, url),
    ensures
        url is Some,
{
    let full = lemma_path_of_a_url(path, temp_dir, url);
}

/// Where each call has one outcome, a path has one URL, or never one.
pub proof fn lemma_one_url(
    path: Seq<u8>,
    temp_dir: Seq<u8>,
    url: Option<Seq<char>>,
    other: Option<Seq<char>>,
)
    requires
        one_path_url(path, temp_dir),
        path_url_outcome(path, temp_dir, url),
        path_url_outcome(path, temp_dir, other),
    ensures
        url == other,
{
    let full = lemma_path_of_a_url(path, temp_dir, url);
    let other_full = lemma_path_of_a_url(path, temp_dir, other);
    assert(full == other_full);
}

/// Where each call has one outcome, the URL of an absolute path is the same for any
/// directory for temporary files, and the URL of a relative path is that of the path joined
/// to the directory.
pub proof fn lemma_one_url_in_the_temp_dir(
    path: Seq<u8>,
    temp_dir: Seq<u8>,
    url: Seq<char>,
    full: Seq<u8>,
    other_dir: Seq<u8>,
    other: Option<Seq<char>>,
)
    requires
        one_path_url(path, temp_dir),
        path_url_outcome(path, temp_dir, Some(url)),
        if relative_outcome(path, true) {
            join_outcome(temp_dir, path, full)
        } else {
            full == path
        },
        path_url_outcome(full, other_dir, other),
    ensures
        other == Some(url),
{
    let made_of = lemma_path_of_a_url(path, temp_dir, Some(url));
    assert(made_of == full);
    let other_made_of = lemma_path_of_a_url(full, other_dir, other);
    assert(other_made_of == full);
}

/// Where each call has one outcome, the path that `Url::to_file_path` gives for the URL of
/// an absolute path is that path again, and of a relative path the one joined to the
/// directory for temporary files; as far as both are spelled as on Unix.
pub proof fn lemma_one_way_back(
    path: Seq<u8>,
    temp_dir: Seq<u8>,
    url: Seq<char>,
    full: Seq<u8>,
    back: Seq<u8>,
)
    requires
        one_path_url(path, temp_dir),
        path_url_outcome(path, temp_dir, Some(url)),
        if relative_outcome(path, true) {
            join_outcome(temp_dir, path, full)
        } else {
            full == path
        },
        leads_back(url, back),
        both_unix(full, back),
    ensures
        same_unix_path(back, full),
{
    let made_of = lemma_path_of_a_url(path, temp_dir, Some(url));
    assert(made_of == full);
}

/// The URL of an absolute path is spelled of its components, and that of a relative path of
/// the components of the directory for temporary files and then those of the path; as far
/// as the path that the URL is made of is Unicode and spelled as on Unix.
pub proof fn lemma_url_spells_its_path(path: Seq<u8>, temp_dir: Seq<u8>, url: Seq<char>)
    requires
        unix_spelled(path),
        path_url_outcome(path, temp_dir, Some(url)),
    ensures
        exists|in_temp_dir: Option<Seq<u8>>| #[trigger]
            in_temp_dir_outcome(path, temp_dir, in_temp_dir) && match in_temp_dir {
                Some(joined) => unix_spelled(joined) && valid_utf8(joined) && rooted(temp_dir)
                    && !rooted(path) ==> url == unix_file_url(
                    unix_components(temp_dir) + unix_components(path),
                ),
                None => rooted(path) && valid_utf8(path) ==> url == unix_file_url(
                    unix_components(path),
                ),
            },
{
    let in_temp_dir = choose|in_temp_dir: Option<Seq<u8>>| #[trigger]
        in_temp_dir_outcome(path, temp_dir, in_temp_dir) && spells_path(
            url,
            url_path(path, in_temp_dir),
        );
    assert(in_temp_dir_outcome(path, temp_dir, in_temp_dir));
}

} // verus!
