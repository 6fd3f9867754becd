use cmkt::package::{default_lib_names, new_package, package_name, repository_url};
use cmkt::text::{replace_all, split_by};

#[test]
fn replace_all_replaces_every_occurrence() {
    assert_eq!(replace_all("a/b/c", "/", "_"), "a_b_c");
    assert_eq!(replace_all("refs/heads/main", "refs/heads/", ""), "main");
    assert_eq!(replace_all("aaa", "aa", "b"), "ba");
    assert_eq!(replace_all("", "/", "_"), "");
    assert_eq!(replace_all("none", "/", "_"), "none");
}

#[test]
fn split_by_yields_segments() {
    assert_eq!(split_by("a/b", "/"), vec!["a".to_string(), "b".to_string()]);
    assert_eq!(split_by("", "/"), vec!["".to_string()]);
    assert_eq!(split_by("/", "/"), vec!["".to_string(), "".to_string()]);
    assert_eq!(split_by("x//y/", "/"), vec!["x", "", "y", ""]);
    assert_eq!(split_by("one", "/"), vec!["one".to_string()]);
}

#[test]
fn package_name_joins_path_with_underscores() {
    assert_eq!(package_name("gabime/spdlog"), "gabime_spdlog");
    assert_eq!(package_name("libeigen/eigen"), "libeigen_eigen");
    assert_eq!(package_name("a/b/c"), "a_b_c");
    assert!(!package_name("x/y//z/").contains('/'));
}

#[test]
fn default_lib_names_take_repository_part() {
    assert_eq!(default_lib_names("gabime/spdlog"), vec!["spdlog".to_string()]);
    assert_eq!(default_lib_names("single"), vec!["single".to_string()]);
    assert_eq!(default_lib_names("a/b/c"), vec!["b".to_string()]);
    assert_eq!(default_lib_names("/lead"), vec!["lead".to_string()]);
}

#[test]
fn repository_url_is_base_slash_repo_git() {
    assert_eq!(
        repository_url("https://github.com", "gabime/spdlog"),
        "https://github.com/gabime/spdlog.git"
    );
    assert_eq!(
        repository_url("https://gitlab.com", "libeigen/eigen"),
        "https://gitlab.com/libeigen/eigen.git"
    );
}

#[test]
fn new_package_fills_defaults() {
    let p = new_package(
        "gabime/spdlog".to_string(),
        "https://github.com".to_string(),
        "v1.11.0".to_string(),
        "declare".to_string(),
        None,
    );
    assert_eq!(p.name, "gabime_spdlog");
    assert_eq!(p.repo, "gabime/spdlog");
    assert_eq!(p.base_url, "https://github.com");
    assert_eq!(p.tag, "v1.11.0");
    assert_eq!(p.fetch_mode, "declare");
    assert_eq!(p.lib_names, vec!["spdlog".to_string()]);

    let q = new_package(
        "libeigen/eigen".to_string(),
        "https://gitlab.com".to_string(),
        "master".to_string(),
        "declare".to_string(),
        Some(vec!["Eigen3::Eigen".to_string()]),
    );
    assert_eq!(q.name, "libeigen_eigen");
    assert_eq!(q.lib_names, vec!["Eigen3::Eigen".to_string()]);
}
