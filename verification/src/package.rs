//! What a dependency record holds, and how `cmkt add` derives it from a repository path.

use vstd::prelude::*;
use crate::text::{replaced, split_on, string_views, replace_all, split_by};

verus! {

/// One dependency fetched with CMake's FetchContent.
pub struct PackageData {
    /// Key of the record in `[dependencies]`, also the FetchContent name.
    pub name: String,
    /// `user/repository` (or `organization/repository`).
    pub repo: String,
    /// Base url of the hosting service.
    pub base_url: String,
    /// Tag or branch to fetch.
    pub tag: String,
    /// `declare` or `populate`.
    pub fetch_mode: String,
    /// Libraries to link.
    pub lib_names: Vec<String>,
}

/// A dependency record over character sequences.
pub struct PackageView {
    pub name: Seq<char>,
    pub repo: Seq<char>,
    pub base_url: Seq<char>,
    pub tag: Seq<char>,
    pub fetch_mode: Seq<char>,
    pub lib_names: Seq<Seq<char>>,
}

impl View for PackageData {
    type V = PackageView;

    open spec fn view(&self) -> PackageView {
        PackageView {
            name: self.name@,
            repo: self.repo@,
            base_url: self.base_url@,
            tag: self.tag@,
            fetch_mode: self.fetch_mode@,
            lib_names: string_views(self.lib_names@),
        }
    }
}

/// The views of a sequence of records.
pub open spec fn package_views(ps: Seq<PackageData>) -> Seq<PackageView> {
    ps.map_values(|p: PackageData| p@)
}

/// The repository path separator.
pub open spec fn slash() -> Seq<char> {
    seq!['/']
}

/// The character that stands for the separator in a record name.
pub open spec fn underscore() -> Seq<char> {
    seq!['_']
}

/// The suffix of a git repository url.
pub open spec fn git_suffix() -> Seq<char> {
    seq!['.', 'g', 'i', 't']
}

/// The record name of a repository path: every `/` becomes `_`.
pub open spec fn spec_package_name(repo: Seq<char>) -> Seq<char> {
    replaced(repo, slash(), underscore())
}

/// The library linked by default: the part after the first `/`, up to the next one,
/// or the whole path when it holds no `/`.
pub open spec fn spec_default_lib_name(repo: Seq<char>) -> Seq<char> {
    let parts = split_on(repo, slash());
    if parts.len() > 1 {
        parts[1]
    } else {
        parts[0]
    }
}

/// The url the repository is cloned from: `{base_url}/{repo}.git`.
pub open spec fn spec_repository_url(base_url: Seq<char>, repo: Seq<char>) -> Seq<char> {
    base_url + slash() + repo + git_suffix()
}

/// The record name of the repository path `repo` (`gabime/spdlog` gives `gabime_spdlog`).
pub fn package_name(repo: &str) -> (name: String)
    ensures
        name@ == spec_package_name(repo@),
{
    let sep = "/";
    let with = "_";
    proof {
        reveal_strlit("/");
        reveal_strlit("_");
        assert(sep@ =~= slash());
        assert(with@ =~= underscore());
    }
    replace_all(repo, sep, with)
}

/// The libraries linked when none are named: the repository part of the path.
pub fn default_lib_names(repo: &str) -> (names: Vec<String>)
    ensures
        string_views(names@) == seq![spec_default_lib_name(repo@)],
{
    let sep = "/";
    proof {
        reveal_strlit("/");
        crate::text::lemma_split_nonempty(repo@, slash());
        assert(sep@ =~= slash());
    }
    let parts = split_by(repo, sep);
    assert(string_views(parts@).len() == parts@.len());
    let chosen = if parts.len() > 1 {
        parts[1].clone()
    } else {
        parts[0].clone()
    };
    assert(chosen@ == spec_default_lib_name(repo@)) by {
        if parts.len() > 1 {
            assert(string_views(parts@)[1] == parts@[1]@);
        } else {
            assert(string_views(parts@)[0] == parts@[0]@);
        }
    }
    let mut names: Vec<String> = Vec::new();
    names.push(chosen);
    assert(string_views(names@) =~= seq![spec_default_lib_name(repo@)]);
    names
}

/// The url of the repository `repo` on the host `base_url`.
pub fn repository_url(base_url: &str, repo: &str) -> (url: String)
    ensures
        url@ == spec_repository_url(base_url@, repo@),
{
    let sep = "/";
    let suffix = ".git";
    proof {
        reveal_strlit("/");
        reveal_strlit(".git");
        assert(sep@ =~= slash());
        assert(suffix@ =~= git_suffix());
    }
    let mut url = String::from_str(base_url);
    url.append(sep);
    url.append(repo);
    url.append(suffix);
    url
}

/// The record that `cmkt add` writes for `repo`; the libraries default to
/// [`default_lib_names`] when none are given.
pub fn new_package(
    repo: String,
    base_url: String,
    tag: String,
    fetch_mode: String,
    lib_names: Option<Vec<String>>,
) -> (p: PackageData)
    ensures
        p.name@ == spec_package_name(repo@),
        p.repo@ == repo@,
        p.base_url@ == base_url@,
        p.tag@ == tag@,
        p.fetch_mode@ == fetch_mode@,
        match lib_names {
            Some(given) => p.lib_names@ == given@,
            None => string_views(p.lib_names@) == seq![spec_default_lib_name(repo@)],
        },
{
    let name = package_name(repo.as_str());
    let libs = match lib_names {
        Some(given) => given,
        None => default_lib_names(repo.as_str()),
    };
    PackageData { name, repo, base_url, tag, fetch_mode, lib_names: libs }
}

/// A record name never holds the path separator.
pub proof fn lemma_package_name_has_no_slash(repo: Seq<char>)
    ensures
        !spec_package_name(repo).contains('/'),
    decreases repo.len(),
{
    let p = slash();
    if repo.len() == 0 {
    } else if crate::text::occurs_at(repo, 0, p) {
        lemma_package_name_has_no_slash(repo.skip(1));
        let rest = spec_package_name(repo.skip(1));
        assert(spec_package_name(repo) == underscore() + rest);
        if spec_package_name(repo).contains('/') {
            let k = choose|k: int| 0 <= k < spec_package_name(repo).len() && spec_package_name(repo)[k] == '/';
            if k > 0 {
                assert(rest[k - 1] == '/');
            }
        }
    } else {
        assert(repo[0] != '/') by {
            if repo[0] == '/' {
                assert(repo.subrange(0, 1) =~= p);
            }
        }
        lemma_package_name_has_no_slash(repo.skip(1));
        let rest = spec_package_name(repo.skip(1));
        assert(spec_package_name(repo) == seq![repo[0]] + rest);
        if spec_package_name(repo).contains('/') {
            let k = choose|k: int| 0 <= k < spec_package_name(repo).len() && spec_package_name(repo)[k] == '/';
            if k > 0 {
                assert(rest[k - 1] == '/');
            }
        }
    }
}

} // verus!
