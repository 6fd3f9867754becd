use cmkt::manifest::{
    add_package_to_manifest, manifest_text, parse_manifest, project_name, read_packages, try_read_packages,
    try_record_package, ManifestError,
};
use cmkt::package::{new_package, PackageData};
use cmkt::project::{
    cmake_context, cmake_files, project_context, project_directories, project_files, render_files, renderer,
};

const MANIFEST: &str = r#"[package]
name = "demo"

[dependencies]
fmt = { repo = "fmtlib/fmt", base_url = "https://github.com", tag = "10.0.0", fetch_mode = "declare", lib_names = ["fmt::fmt", 3] }

[scripts]
build = "cmake --build build"
"#;

fn spdlog() -> PackageData {
    new_package(
        "gabime/spdlog".to_string(),
        "https://github.com".to_string(),
        "v1.11.0".to_string(),
        "declare".to_string(),
        None,
    )
}

#[test]
fn reads_existing_records() {
    let doc = parse_manifest(MANIFEST).ok().unwrap();
    let ps = read_packages(&doc);
    assert_eq!(ps.len(), 1);
    assert_eq!(ps[0].name, "fmt");
    assert_eq!(ps[0].repo, "fmtlib/fmt");
    assert_eq!(ps[0].base_url, "https://github.com");
    assert_eq!(ps[0].tag, "10.0.0");
    assert_eq!(ps[0].fetch_mode, "declare");
    assert_eq!(ps[0].lib_names, vec!["fmt::fmt".to_string()]);
}

#[test]
fn project_name_prints_the_item() {
    let doc = parse_manifest(MANIFEST).ok().unwrap();
    let name = project_name(&doc).unwrap();
    assert!(name.contains("\"demo\""));
    let bare = parse_manifest("[package]\n").ok().unwrap();
    assert!(project_name(&bare).is_none());
}

#[test]
fn invalid_text_is_rejected() {
    assert!(matches!(parse_manifest("[package"), Err(ManifestError::InvalidDocument)));
}

#[test]
fn added_record_reads_back_last() {
    let mut doc = parse_manifest(MANIFEST).ok().unwrap();
    let ps = match add_package_to_manifest(&mut doc, &spdlog()) {
        Ok(ps) => ps,
        Err(_) => panic!("add failed"),
    };
    assert_eq!(ps.len(), 2);
    assert_eq!(ps[0].name, "fmt");
    assert_eq!(ps[1].name, "gabime_spdlog");
    assert_eq!(ps[1].repo, "gabime/spdlog");
    assert_eq!(ps[1].tag, "v1.11.0");
    assert_eq!(ps[1].lib_names, vec!["spdlog".to_string()]);
    let text = doc.to_string();
    assert!(text.contains("gabime_spdlog"));
    assert!(text.contains("build = \"cmake --build build\""));
}

#[test]
fn added_record_replaces_same_key_in_place() {
    let mut doc = parse_manifest(MANIFEST).ok().unwrap();
    let fmt = new_package(
        "fmt".to_string(),
        "https://example.org".to_string(),
        "11.0.0".to_string(),
        "populate".to_string(),
        Some(vec!["fmt::fmt-header-only".to_string()]),
    );
    let ps = match add_package_to_manifest(&mut doc, &fmt) {
        Ok(ps) => ps,
        Err(_) => panic!("add failed"),
    };
    assert_eq!(ps.len(), 1);
    assert_eq!(ps[0].name, "fmt");
    assert_eq!(ps[0].repo, "fmt");
    assert_eq!(ps[0].base_url, "https://example.org");
    assert_eq!(ps[0].tag, "11.0.0");
    assert_eq!(ps[0].fetch_mode, "populate");
    assert_eq!(ps[0].lib_names, vec!["fmt::fmt-header-only".to_string()]);
}

#[test]
fn unwritable_record_is_refused() {
    let mut doc = parse_manifest("[dependencies]\ngabime_spdlog = \"1.0\"\n").ok().unwrap();
    let before = doc.to_string();
    assert!(matches!(add_package_to_manifest(&mut doc, &spdlog()), Err(ManifestError::UnwritableRecord)));
    assert_eq!(doc.to_string(), before);
    let mut other = parse_manifest("dependencies = 3\n").ok().unwrap();
    assert!(!try_record_package(&mut other, &spdlog()));
}

#[test]
fn malformed_records_are_reported() {
    let doc = parse_manifest("[dependencies]\nx = { repo = \"a\" }\n").ok().unwrap();
    assert!(try_read_packages(&doc).is_none());
    let mut doc = parse_manifest("[dependencies]\nx = \"1.0\"\n").ok().unwrap();
    assert!(matches!(add_package_to_manifest(&mut doc, &spdlog()), Err(ManifestError::MalformedDependencies)));
    let missing = parse_manifest("[package]\nname = \"p\"\n").ok().unwrap();
    assert!(try_read_packages(&missing).is_none());
    let not_table = parse_manifest("dependencies = 1\n").ok().unwrap();
    assert_eq!(read_packages(&not_table).len(), 0);
}

#[test]
fn added_record_without_section_goes_inline() {
    let mut doc = parse_manifest("[package]\nname = \"p\"\n").ok().unwrap();
    let ps = match add_package_to_manifest(&mut doc, &spdlog()) {
        Ok(ps) => ps,
        Err(_) => panic!("add failed"),
    };
    assert!(ps.is_empty());
}

#[test]
fn project_files_follow_binary_type_and_tests() {
    let exe: Vec<String> = project_files("executable", false).into_iter().map(|f| f.output).collect();
    assert_eq!(
        exe,
        vec![
            "project.toml",
            "CMakeLists.txt",
            "CMakePresets.json",
            "README.md",
            ".gitignore",
            "src/CMakeLists.txt",
            "cmake/fetch.cmake",
            "cmake/link.cmake",
            "src/main.cpp",
        ]
    );
    let lib: Vec<String> = project_files("static", true).into_iter().map(|f| f.output).collect();
    assert_eq!(&lib[8..], &["src/lib.h", "src/lib.cpp", "tests/CMakeLists.txt", "tests/main.cpp"]);
    let templates: Vec<String> = project_files("shared", false).into_iter().map(|f| f.template).collect();
    assert_eq!(templates[0], "project.toml.tera");
    assert_eq!(templates[9], "src/lib.cpp.tera");
    let cmake: Vec<String> = cmake_files().into_iter().map(|f| f.output).collect();
    assert_eq!(cmake, vec!["cmake/fetch.cmake", "cmake/link.cmake"]);
}

#[test]
fn project_directories_follow_tests() {
    assert_eq!(project_directories(false), vec!["src", "build", "cmake"]);
    assert_eq!(project_directories(true), vec!["src", "build", "cmake", "tests"]);
}

#[test]
fn render_files_renders_in_order() {
    let templates = vec![
        ("cmake/fetch.cmake.tera".to_string(), "fetch {{ project_name }}".to_string()),
        ("cmake/link.cmake.tera".to_string(), "link {% if with_tests %}tests{% endif %} {{ binary_type }}".to_string()),
    ];
    let t = renderer(&templates);
    let ctx = project_context("demo", "17", "Ninja", "executable", true);
    let out = match render_files(&t, &cmake_files(), &ctx) {
        Ok(out) => out,
        Err(_) => panic!("render failed"),
    };
    assert_eq!(out[0], ("cmake/fetch.cmake".to_string(), "fetch demo".to_string()));
    assert_eq!(out[1], ("cmake/link.cmake".to_string(), "link tests executable".to_string()));
}

#[test]
fn missing_template_is_reported() {
    let t = renderer(&vec![]);
    let ctx = project_context("demo", "17", "Ninja", "executable", false);
    match render_files(&t, &cmake_files(), &ctx) {
        Err(e) => assert_eq!(e.template, "cmake/fetch.cmake.tera"),
        Ok(_) => panic!("rendered without templates"),
    }
}

#[test]
fn adding_twice_keeps_one_record() {
    let mut doc = parse_manifest(MANIFEST).ok().unwrap();
    let once = match add_package_to_manifest(&mut doc, &spdlog()) {
        Ok(ps) => ps,
        Err(_) => panic!("add failed"),
    };
    let text_once = doc.to_string();
    let twice = match add_package_to_manifest(&mut doc, &spdlog()) {
        Ok(ps) => ps,
        Err(_) => panic!("add failed"),
    };
    assert_eq!(once.len(), twice.len());
    for (a, b) in once.iter().zip(twice.iter()) {
        assert_eq!(a.name, b.name);
        assert_eq!(a.repo, b.repo);
        assert_eq!(a.tag, b.tag);
        assert_eq!(a.lib_names, b.lib_names);
    }
    assert_eq!(doc.to_string(), text_once);
}

#[test]
fn unparsable_template_is_left_out() {
    let templates = vec![
        ("cmake/fetch.cmake.tera".to_string(), "{% if %}".to_string()),
        ("cmake/link.cmake.tera".to_string(), "link".to_string()),
    ];
    let t = renderer(&templates);
    let ctx = project_context("demo", "17", "Ninja", "executable", false);
    match render_files(&t, &cmake_files(), &ctx) {
        Err(e) => assert_eq!(e.template, "cmake/fetch.cmake.tera"),
        Ok(_) => panic!("rendered an unparsable template"),
    }
}

#[test]
fn adding_keeps_the_rest_of_the_document() {
    let mut doc = parse_manifest(MANIFEST).ok().unwrap();
    let name_before = project_name(&doc);
    let _ = add_package_to_manifest(&mut doc, &spdlog());
    assert_eq!(project_name(&doc), name_before);
    let text = manifest_text(&doc);
    assert!(text.starts_with("[package]\nname = \"demo\"\n"));
    assert!(text.contains("[scripts]\nbuild = \"cmake --build build\"\n"));
    assert!(text.contains("fmt = { repo = \"fmtlib/fmt\""));
}

#[test]
fn adding_into_a_sub_table_writes_there() {
    let mut doc = parse_manifest("[dependencies.gabime_spdlog]\nrepo = \"old\"\nextra = 1\n").ok().unwrap();
    assert!(try_record_package(&mut doc, &spdlog()));
    let text = manifest_text(&doc);
    assert!(text.contains("repo = \"gabime/spdlog\""));
    assert!(text.contains("extra = 1"));
    assert!(text.contains("lib_names = [\"spdlog\"]"));
}

#[test]
fn cmake_context_holds_the_records() {
    let templates = vec![(
        "cmake/fetch.cmake.tera".to_string(),
        "{{ project_name }}:{% for p in packages %}{{ p.name }}={{ p.repo }}@{{ p.tag }}/{{ p.fetch_mode }}[{{ p.lib_names | join(sep=\",\") }}]{% endfor %}".to_string(),
    ), ("cmake/link.cmake.tera".to_string(), "{{ packages | length }}".to_string())];
    let t = renderer(&templates);
    let ctx = cmake_context("demo", &vec![spdlog()]);
    let out = match render_files(&t, &cmake_files(), &ctx) {
        Ok(out) => out,
        Err(_) => panic!("render failed"),
    };
    assert_eq!(out[0].1, "demo:gabime_spdlog=gabime/spdlog@v1.11.0/declare[spdlog]");
    assert_eq!(out[1].1, "1");
}

const WITH_SUB_TABLE: &str = r#"[dependencies]
fmt = { repo = "fmtlib/fmt", base_url = "https://github.com", tag = "10.0.0", fetch_mode = "declare", lib_names = ["fmt::fmt"] }

[dependencies.local]
path = "../local"
"#;

#[test]
fn added_record_reads_back_beside_a_sub_table() {
    let mut doc = parse_manifest(WITH_SUB_TABLE).ok().unwrap();
    assert_eq!(read_packages(&doc).len(), 1);
    let ps = match add_package_to_manifest(&mut doc, &spdlog()) {
        Ok(ps) => ps,
        Err(_) => panic!("add failed"),
    };
    assert_eq!(ps.len(), 2);
    assert_eq!(ps[0].name, "fmt");
    assert_eq!(ps[1].name, "gabime_spdlog");
    assert_eq!(ps[1].repo, "gabime/spdlog");
    let text = manifest_text(&doc);
    assert!(text.contains("[dependencies.local]\npath = \"../local\"\n"));
    let text_once = text.clone();
    let again = match add_package_to_manifest(&mut doc, &spdlog()) {
        Ok(ps) => ps,
        Err(_) => panic!("add failed"),
    };
    assert_eq!(again.len(), 2);
    assert_eq!(manifest_text(&doc), text_once);
}

#[test]
fn replaced_record_keeps_its_place_beside_a_sub_table() {
    let mut doc = parse_manifest(WITH_SUB_TABLE).ok().unwrap();
    let fmt = new_package(
        "fmt".to_string(),
        "https://example.org".to_string(),
        "11.0.0".to_string(),
        "populate".to_string(),
        None,
    );
    let ps = match add_package_to_manifest(&mut doc, &fmt) {
        Ok(ps) => ps,
        Err(_) => panic!("add failed"),
    };
    assert_eq!(ps.len(), 1);
    assert_eq!(ps[0].name, "fmt");
    assert_eq!(ps[0].tag, "11.0.0");
    assert_eq!(ps[0].lib_names, vec!["fmt".to_string()]);
    let text = manifest_text(&doc);
    let fmt_at = text.find("fmt = {").unwrap();
    let local_at = text.find("[dependencies.local]").unwrap();
    assert!(fmt_at < local_at);
}
