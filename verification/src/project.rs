//! The layout of a new project and the rendering of its files from templates.
//!
//! Rendering goes through `tera`. A `tera::Context` is opaque here; what it holds is
//! named by [`context_entries`]. What a render produces is related to its inputs by
//! [`renders_to`], a relation rather than a function: `tera`'s built-in functions let a
//! template read the clock, random numbers and the environment.

use vstd::prelude::*;
use crate::text::string_views;
use crate::package::{PackageData, PackageView, package_views};

verus! {

#[verifier::external_type_specification]
#[verifier::external_body]
pub struct ExTera(tera::Tera);

#[verifier::external_type_specification]
#[verifier::external_body]
pub struct ExContext(tera::Context);

#[verifier::external_type_specification]
#[verifier::external_body]
pub struct ExTeraError(tera::Error);

/// A record in a context: each field a string or a list of strings.
pub type RecordModel = Map<Seq<char>, (Option<Seq<char>>, Option<Seq<Seq<char>>>)>;

/// A value in a context: a string, a boolean, or a list of records.
pub type ContextValue = (Option<Seq<char>>, Option<bool>, Option<Seq<RecordModel>>);

/// What a context holds: each key with its value.
pub uninterp spec fn context_entries(ctx: tera::Context) -> Map<Seq<char>, ContextValue>;

/// `text` is one possible output of rendering the template `name` among `templates`
/// with a context holding `entries`.
pub uninterp spec fn renders_to(
    templates: Map<Seq<char>, Seq<char>>,
    name: Seq<char>,
    entries: Map<Seq<char>, ContextValue>,
    text: Seq<char>,
) -> bool;

/// The record with the string fields `fields` set to `row`, in order, a later field of
/// the same name replacing an earlier one.
pub open spec fn text_record(fields: Seq<Seq<char>>, row: Seq<Seq<char>>) -> RecordModel
    decreases fields.len(),
{
    if fields.len() == 0 {
        Map::empty()
    } else {
        text_record(fields.drop_last(), row.drop_last()).insert(fields.last(), (Some(row.last()), None))
    }
}

/// The record with the string fields `fields` set to `row` and the list field
/// `list_field` set to `list`.
pub open spec fn record_model(fields: Seq<Seq<char>>, row: Seq<Seq<char>>, list_field: Seq<char>, list: Seq<Seq<char>>) -> RecordModel {
    text_record(fields, row).insert(list_field, (None, Some(list)))
}

/// `tera::Context::new()`: a context that holds nothing.
#[verifier::external_body]
fn new_context() -> (ctx: tera::Context)
    ensures
        context_entries(ctx).is_empty(),
{
    tera::Context::new()
}

/// `ctx.insert(key, value)` for a string: `key` now holds `value`.
#[verifier::external_body]
fn context_insert_text(ctx: &mut tera::Context, key: &str, value: &str)
    ensures
        context_entries(*final(ctx)) == context_entries(*old(ctx)).insert(key@, (Some(value@), None, None)),
{
    ctx.insert(key, value);
}

/// `ctx.insert(key, &value)` for a boolean: `key` now holds `value`.
#[verifier::external_body]
fn context_insert_flag(ctx: &mut tera::Context, key: &str, value: bool)
    ensures
        context_entries(*final(ctx)) == context_entries(*old(ctx)).insert(key@, (None, Some(value), None)),
{
    ctx.insert(key, &value);
}

/// Whether `tera` parses `source` as a template.
pub uninterp spec fn template_parses(source: Seq<char>) -> bool;

/// The templates a renderer holds: name to source.
pub uninterp spec fn renderer_templates(t: tera::Tera) -> Map<Seq<char>, Seq<char>>;

/// `ctx.insert(key, &records)` for a list of records, record `j` holding the string
/// fields `fields` set to `texts[j]` and the list field `list_field` set to `lists[j]`:
/// `key` now holds that list.
#[verifier::external_body]
fn context_insert_records(
    ctx: &mut tera::Context,
    key: &str,
    fields: &Vec<String>,
    texts: &Vec<Vec<String>>,
    list_field: &str,
    lists: &Vec<Vec<String>>,
)
    requires
        texts.len() == lists.len(),
        forall|j: int| 0 <= j < texts.len() ==> (#[trigger] texts@[j]).len() == fields.len(),
    ensures
        context_entries(*final(ctx)) == context_entries(*old(ctx)).insert(
            key@,
            (None, None, Some(Seq::new(texts@.len(), |j: int| record_model(
                string_views(fields@),
                string_views(texts@[j]@),
                list_field@,
                string_views(lists@[j]@),
            )))),
        ),
{
    let records: Vec<tera::Map<String, tera::Value>> = texts.iter().zip(lists.iter()).map(|(row, list)| {
        let mut record: tera::Map<String, tera::Value> =
            fields.iter().cloned().zip(row.iter().map(|t| tera::Value::from(t.as_str()))).collect();
        record.insert(list_field.to_string(), tera::Value::from(list.clone()));
        record
    }).collect();
    ctx.insert(key, &records);
}

/// `tera::Tera::default()`: a renderer without templates.
#[verifier::external_body]
fn new_renderer() -> (t: tera::Tera)
    ensures
        renderer_templates(t).is_empty(),
{
    tera::Tera::default()
}

/// `t.add_raw_template(name, source)`, whose outcome is not used: a template that
/// parses is held under `name` (also when the check of its parent templates that
/// follows fails); one that does not parse is left out.
#[verifier::external_body]
fn register_template(t: &mut tera::Tera, name: &str, source: &str)
    ensures
        renderer_templates(*final(t)) == if template_parses(source@) {
            renderer_templates(*old(t)).insert(name@, source@)
        } else {
            renderer_templates(*old(t))
        },
{
    let _ = t.add_raw_template(name, source);
}

/// `t.render(name, ctx)`: fails for a template the renderer does not hold; a text it
/// returns is one that the template renders to with the context (see [`renders_to`]).
#[verifier::external_body]
fn render_template(t: &tera::Tera, name: &str, ctx: &tera::Context) -> (r: Result<String, tera::Error>)
    ensures
        !renderer_templates(*t).contains_key(name@) ==> r is Err,
        r is Ok ==> renders_to(renderer_templates(*t), name@, context_entries(*ctx), r->Ok_0@),
{
    t.render(name, ctx)
}

/// A file of the project and the template it is rendered from.
pub struct FileRender {
    /// Name of the template.
    pub template: String,
    /// Path of the file, relative to the project directory.
    pub output: String,
}

/// The view of a planned file: (template, output).
pub open spec fn render_view(f: FileRender) -> (Seq<char>, Seq<char>) {
    (f.template@, f.output@)
}

/// The views of planned files.
pub open spec fn render_views(fs: Seq<FileRender>) -> Seq<(Seq<char>, Seq<char>)> {
    fs.map_values(|f: FileRender| render_view(f))
}

/// The planned file `output`, rendered from `output.tera`.
pub open spec fn planned(output: Seq<char>) -> (Seq<char>, Seq<char>) {
    (output + ".tera"@, output)
}

/// The FetchContent declarations and link settings.
pub open spec fn spec_cmake_files() -> Seq<(Seq<char>, Seq<char>)> {
    seq![planned("cmake/fetch.cmake"@), planned("cmake/link.cmake"@)]
}

/// The files of a new project, in the order they are written: the common files, the
/// cmake files, `src/main.cpp` for an `executable` or `src/lib.h` and `src/lib.cpp` for
/// a library, and the test files when tests are wanted.
pub open spec fn spec_project_files(binary_type: Seq<char>, with_tests: bool) -> Seq<(Seq<char>, Seq<char>)> {
    let common = seq![
        planned("project.toml"@),
        planned("CMakeLists.txt"@),
        planned("CMakePresets.json"@),
        planned("README.md"@),
        planned(".gitignore"@),
        planned("src/CMakeLists.txt"@),
    ] + spec_cmake_files();
    let sources = if binary_type == "executable"@ {
        seq![planned("src/main.cpp"@)]
    } else {
        seq![planned("src/lib.h"@), planned("src/lib.cpp"@)]
    };
    let tests = if with_tests {
        seq![planned("tests/CMakeLists.txt"@), planned("tests/main.cpp"@)]
    } else {
        seq![]
    };
    common + sources + tests
}

/// The directories created inside a new project, in order.
pub open spec fn spec_project_directories(with_tests: bool) -> Seq<Seq<char>> {
    if with_tests {
        seq!["src"@, "build"@, "cmake"@, "tests"@]
    } else {
        seq!["src"@, "build"@, "cmake"@]
    }
}

/// The cmake files that `cmkt add` and `cmkt sync` regenerate are the ones a new
/// project gets, rendered from the same templates to the same paths.
pub proof fn lemma_cmake_files_in_project(binary_type: Seq<char>, with_tests: bool)
    ensures
        spec_project_files(binary_type, with_tests).subrange(6, 8) == spec_cmake_files(),
{
    assert(spec_project_files(binary_type, with_tests).subrange(6, 8) =~= spec_cmake_files());
}

/// Asking for tests adds exactly the two test files, last, whatever the binary type:
/// `tests/CMakeLists.txt` and `tests/main.cpp`, each from its `.tera` template.
pub proof fn lemma_project_files_tests(binary_type: Seq<char>)
    ensures
        spec_project_files(binary_type, true).len() == spec_project_files(binary_type, false).len() + 2,
        spec_project_files(binary_type, true).take(spec_project_files(binary_type, false).len() as int)
            == spec_project_files(binary_type, false),
        spec_project_files(binary_type, true)[spec_project_files(binary_type, false).len() as int]
            == ("tests/CMakeLists.txt.tera"@, "tests/CMakeLists.txt"@),
        spec_project_files(binary_type, true).last() == ("tests/main.cpp.tera"@, "tests/main.cpp"@),
{
    reveal_strlit("tests/CMakeLists.txt");
    reveal_strlit("tests/CMakeLists.txt.tera");
    reveal_strlit("tests/main.cpp");
    reveal_strlit("tests/main.cpp.tera");
    reveal_strlit(".tera");
    assert("tests/CMakeLists.txt"@ + ".tera"@ =~= "tests/CMakeLists.txt.tera"@);
    assert("tests/main.cpp"@ + ".tera"@ =~= "tests/main.cpp.tera"@);
    let with = spec_project_files(binary_type, true);
    let without = spec_project_files(binary_type, false);
    assert(with.take(without.len() as int) =~= without);
}

/// Without tests, an `executable` gets the eight common files and then `src/main.cpp`;
/// any other binary type gets them and then `src/lib.h` and `src/lib.cpp`.
pub proof fn lemma_project_files_sources(binary_type: Seq<char>)
    ensures
        binary_type == "executable"@ ==> spec_project_files(binary_type, false).len() == 9
            && spec_project_files(binary_type, false)[8] == ("src/main.cpp.tera"@, "src/main.cpp"@),
        binary_type != "executable"@ ==> spec_project_files(binary_type, false).len() == 10
            && spec_project_files(binary_type, false)[8] == ("src/lib.h.tera"@, "src/lib.h"@)
            && spec_project_files(binary_type, false)[9] == ("src/lib.cpp.tera"@, "src/lib.cpp"@),
        spec_project_files(binary_type, false)[0] == ("project.toml.tera"@, "project.toml"@),
        spec_project_files(binary_type, false)[1] == ("CMakeLists.txt.tera"@, "CMakeLists.txt"@),
        spec_project_files(binary_type, false)[2] == ("CMakePresets.json.tera"@, "CMakePresets.json"@),
        spec_project_files(binary_type, false)[3] == ("README.md.tera"@, "README.md"@),
        spec_project_files(binary_type, false)[4] == (".gitignore.tera"@, ".gitignore"@),
        spec_project_files(binary_type, false)[5] == ("src/CMakeLists.txt.tera"@, "src/CMakeLists.txt"@),
        spec_project_files(binary_type, false)[6] == ("cmake/fetch.cmake.tera"@, "cmake/fetch.cmake"@),
        spec_project_files(binary_type, false)[7] == ("cmake/link.cmake.tera"@, "cmake/link.cmake"@),
{
    reveal_strlit(".tera");
    reveal_strlit("src/main.cpp");
    reveal_strlit("src/main.cpp.tera");
    reveal_strlit("src/lib.h");
    reveal_strlit("src/lib.h.tera");
    reveal_strlit("src/lib.cpp");
    reveal_strlit("src/lib.cpp.tera");
    reveal_strlit("project.toml");
    reveal_strlit("project.toml.tera");
    reveal_strlit("CMakeLists.txt");
    reveal_strlit("CMakeLists.txt.tera");
    reveal_strlit("CMakePresets.json");
    reveal_strlit("CMakePresets.json.tera");
    reveal_strlit("README.md");
    reveal_strlit("README.md.tera");
    reveal_strlit(".gitignore");
    reveal_strlit(".gitignore.tera");
    reveal_strlit("src/CMakeLists.txt");
    reveal_strlit("src/CMakeLists.txt.tera");
    reveal_strlit("cmake/fetch.cmake");
    reveal_strlit("cmake/fetch.cmake.tera");
    reveal_strlit("cmake/link.cmake");
    reveal_strlit("cmake/link.cmake.tera");
    assert("src/main.cpp"@ + ".tera"@ =~= "src/main.cpp.tera"@);
    assert("src/lib.h"@ + ".tera"@ =~= "src/lib.h.tera"@);
    assert("src/lib.cpp"@ + ".tera"@ =~= "src/lib.cpp.tera"@);
    assert("project.toml"@ + ".tera"@ =~= "project.toml.tera"@);
    assert("CMakeLists.txt"@ + ".tera"@ =~= "CMakeLists.txt.tera"@);
    assert("CMakePresets.json"@ + ".tera"@ =~= "CMakePresets.json.tera"@);
    assert("README.md"@ + ".tera"@ =~= "README.md.tera"@);
    assert(".gitignore"@ + ".tera"@ =~= ".gitignore.tera"@);
    assert("src/CMakeLists.txt"@ + ".tera"@ =~= "src/CMakeLists.txt.tera"@);
    assert("cmake/fetch.cmake"@ + ".tera"@ =~= "cmake/fetch.cmake.tera"@);
    assert("cmake/link.cmake"@ + ".tera"@ =~= "cmake/link.cmake.tera"@);
}

/// The planned file `output`.
fn planned_file(output: &str) -> (f: FileRender)
    ensures
        render_view(f) == planned(output@),
{
    let mut template = String::from_str(output);
    template.append(".tera");
    FileRender { template, output: String::from_str(output) }
}

/// Appends the planned file `output` to `files`.
fn plan_file(files: &mut Vec<FileRender>, output: &str)
    ensures
        render_views(final(files)@) == render_views(old(files)@).push(planned(output@)),
{
    let f = planned_file(output);
    files.push(f);
    assert(render_views(files@) =~= render_views(old(files)@).push(planned(output@)));
}

/// The cmake files that `cmkt add` and `cmkt sync` regenerate.
pub fn cmake_files() -> (files: Vec<FileRender>)
    ensures
        render_views(files@) == spec_cmake_files(),
{
    let mut files: Vec<FileRender> = Vec::new();
    plan_file(&mut files, "cmake/fetch.cmake");
    plan_file(&mut files, "cmake/link.cmake");
    assert(render_views(files@) =~= spec_cmake_files());
    files
}

/// The files of a new project (see [`spec_project_files`]).
pub fn project_files(binary_type: &str, with_tests: bool) -> (files: Vec<FileRender>)
    ensures
        render_views(files@) == spec_project_files(binary_type@, with_tests),
        with_tests ==> files.len() >= 2,
        with_tests ==> render_view(files@[files.len() - 2]) == ("tests/CMakeLists.txt.tera"@, "tests/CMakeLists.txt"@),
        with_tests ==> render_view(files@[files.len() - 1]) == ("tests/main.cpp.tera"@, "tests/main.cpp"@),
{
    proof {
        lemma_project_files_tests(binary_type@);
    }
    let mut files: Vec<FileRender> = Vec::new();
    plan_file(&mut files, "project.toml");
    plan_file(&mut files, "CMakeLists.txt");
    plan_file(&mut files, "CMakePresets.json");
    plan_file(&mut files, "README.md");
    plan_file(&mut files, ".gitignore");
    plan_file(&mut files, "src/CMakeLists.txt");
    plan_file(&mut files, "cmake/fetch.cmake");
    plan_file(&mut files, "cmake/link.cmake");
    let executable = String::from_str("executable");
    if String::from_str(binary_type) == executable {
        plan_file(&mut files, "src/main.cpp");
    } else {
        plan_file(&mut files, "src/lib.h");
        plan_file(&mut files, "src/lib.cpp");
    }
    if with_tests {
        plan_file(&mut files, "tests/CMakeLists.txt");
        plan_file(&mut files, "tests/main.cpp");
    }
    assert(render_views(files@) =~= spec_project_files(binary_type@, with_tests));
    files
}

/// The directories to create inside a new project (see [`spec_project_directories`]).
pub fn project_directories(with_tests: bool) -> (dirs: Vec<String>)
    ensures
        string_views(dirs@) == spec_project_directories(with_tests),
{
    let mut dirs: Vec<String> = Vec::new();
    dirs.push(String::from_str("src"));
    dirs.push(String::from_str("build"));
    dirs.push(String::from_str("cmake"));
    if with_tests {
        dirs.push(String::from_str("tests"));
    }
    assert(string_views(dirs@) =~= spec_project_directories(with_tests));
    dirs
}

/// The context a new project's templates are rendered with.
pub open spec fn spec_project_context(
    name: Seq<char>,
    cpp_version: Seq<char>,
    generator: Seq<char>,
    binary_type: Seq<char>,
    with_tests: bool,
) -> Map<Seq<char>, ContextValue> {
    Map::<Seq<char>, ContextValue>::empty().insert("project_name"@, (Some(name), None, None)).insert(
        "cpp_version"@,
        (Some(cpp_version), None, None),
    ).insert("generator"@, (Some(generator), None, None)).insert(
        "binary_type"@,
        (Some(binary_type), None, None),
    ).insert("with_tests"@, (None, Some(with_tests), None))
}

/// The string fields of a dependency record, as the templates see it.
pub open spec fn package_fields() -> Seq<Seq<char>> {
    seq!["name"@, "repo"@, "base_url"@, "tag"@, "fetch_mode"@]
}

/// A dependency record as the templates see it: its five strings and `lib_names`.
pub open spec fn package_record(p: PackageView) -> RecordModel {
    record_model(package_fields(), seq![p.name, p.repo, p.base_url, p.tag, p.fetch_mode], "lib_names"@, p.lib_names)
}

/// The context the cmake files are rendered with: the records under `packages`, then
/// the project name under `project_name`.
pub open spec fn spec_cmake_context(name: Seq<char>, packages: Seq<PackageView>) -> Map<Seq<char>, ContextValue> {
    Map::<Seq<char>, ContextValue>::empty().insert(
        "packages"@,
        (None, None, Some(packages.map_values(|p: PackageView| package_record(p)))),
    ).insert("project_name"@, (Some(name), None, None))
}

/// Every entry of a new project's context is the argument of the same name: the
/// project name, the C++ version, the generator and the binary type as strings, and
/// whether it has tests as a flag; the context holds nothing else.
pub proof fn lemma_project_context_entries(
    name: Seq<char>,
    cpp_version: Seq<char>,
    generator: Seq<char>,
    binary_type: Seq<char>,
    with_tests: bool,
)
    ensures
        ({
            let m = spec_project_context(name, cpp_version, generator, binary_type, with_tests);
            &&& m.dom() == set!["project_name"@, "cpp_version"@, "generator"@, "binary_type"@, "with_tests"@]
            &&& m["project_name"@] == (Some(name), None::<bool>, None::<Seq<RecordModel>>)
            &&& m["cpp_version"@] == (Some(cpp_version), None::<bool>, None::<Seq<RecordModel>>)
            &&& m["generator"@] == (Some(generator), None::<bool>, None::<Seq<RecordModel>>)
            &&& m["binary_type"@] == (Some(binary_type), None::<bool>, None::<Seq<RecordModel>>)
            &&& m["with_tests"@] == (None::<Seq<char>>, Some(with_tests), None::<Seq<RecordModel>>)
        }),
{
    reveal_strlit("project_name");
    reveal_strlit("cpp_version");
    reveal_strlit("generator");
    reveal_strlit("binary_type");
    reveal_strlit("with_tests");
    assert("project_name"@.len() == 12 && "cpp_version"@.len() == 11 && "generator"@.len() == 9);
    assert("binary_type"@.len() == 11 && "with_tests"@.len() == 10);
    assert("cpp_version"@[0] != "binary_type"@[0]);
    let m = spec_project_context(name, cpp_version, generator, binary_type, with_tests);
    assert(m.dom() =~= set!["project_name"@, "cpp_version"@, "generator"@, "binary_type"@, "with_tests"@]);
}

/// The fields of a dependency record as the templates see it: each field of the
/// package under its own name, and nothing else.
pub proof fn lemma_package_record_fields(p: PackageView)
    ensures
        ({
            let r = package_record(p);
            &&& r.dom() == set!["name"@, "repo"@, "base_url"@, "tag"@, "fetch_mode"@, "lib_names"@]
            &&& r["name"@] == (Some(p.name), None::<Seq<Seq<char>>>)
            &&& r["repo"@] == (Some(p.repo), None::<Seq<Seq<char>>>)
            &&& r["base_url"@] == (Some(p.base_url), None::<Seq<Seq<char>>>)
            &&& r["tag"@] == (Some(p.tag), None::<Seq<Seq<char>>>)
            &&& r["fetch_mode"@] == (Some(p.fetch_mode), None::<Seq<Seq<char>>>)
            &&& r["lib_names"@] == (None::<Seq<char>>, Some(p.lib_names))
        }),
{
    reveal_strlit("name");
    reveal_strlit("repo");
    reveal_strlit("base_url");
    reveal_strlit("tag");
    reveal_strlit("fetch_mode");
    reveal_strlit("lib_names");
    assert("name"@.len() == 4 && "repo"@.len() == 4 && "base_url"@.len() == 8 && "tag"@.len() == 3);
    assert("fetch_mode"@.len() == 10 && "lib_names"@.len() == 9);
    assert("name"@[0] != "repo"@[0]);
    let fields = package_fields();
    let row = seq![p.name, p.repo, p.base_url, p.tag, p.fetch_mode];
    reveal_with_fuel(text_record, 6);
    assert(fields.drop_last() =~= seq!["name"@, "repo"@, "base_url"@, "tag"@]);
    assert(fields.drop_last().drop_last() =~= seq!["name"@, "repo"@, "base_url"@]);
    assert(fields.drop_last().drop_last().drop_last() =~= seq!["name"@, "repo"@]);
    assert(fields.drop_last().drop_last().drop_last().drop_last() =~= seq!["name"@]);
    assert(fields.drop_last().drop_last().drop_last().drop_last().drop_last() =~= Seq::<Seq<char>>::empty());
    assert(row.drop_last() =~= seq![p.name, p.repo, p.base_url, p.tag]);
    assert(row.drop_last().drop_last() =~= seq![p.name, p.repo, p.base_url]);
    assert(row.drop_last().drop_last().drop_last() =~= seq![p.name, p.repo]);
    assert(row.drop_last().drop_last().drop_last().drop_last() =~= seq![p.name]);
    let r = package_record(p);
    assert(r.dom() =~= set!["name"@, "repo"@, "base_url"@, "tag"@, "fetch_mode"@, "lib_names"@]);
}

/// The context of the cmake files holds the project name, and under `packages` one
/// record per package, in order, each carrying every field of its package under that
/// field's name.
pub proof fn lemma_cmake_context_entries(name: Seq<char>, packages: Seq<PackageView>)
    ensures
        ({
            let m = spec_cmake_context(name, packages);
            &&& m.dom() == set!["packages"@, "project_name"@]
            &&& m["project_name"@] == (Some(name), None::<bool>, None::<Seq<RecordModel>>)
            &&& m["packages"@].0 is None
            &&& m["packages"@].1 is None
            &&& m["packages"@].2 is Some
            &&& m["packages"@].2->0.len() == packages.len()
            &&& forall|j: int| 0 <= j < packages.len() ==> {
                let r = #[trigger] m["packages"@].2->0[j];
                &&& r.dom() == set!["name"@, "repo"@, "base_url"@, "tag"@, "fetch_mode"@, "lib_names"@]
                &&& r["name"@] == (Some(packages[j].name), None::<Seq<Seq<char>>>)
                &&& r["repo"@] == (Some(packages[j].repo), None::<Seq<Seq<char>>>)
                &&& r["base_url"@] == (Some(packages[j].base_url), None::<Seq<Seq<char>>>)
                &&& r["tag"@] == (Some(packages[j].tag), None::<Seq<Seq<char>>>)
                &&& r["fetch_mode"@] == (Some(packages[j].fetch_mode), None::<Seq<Seq<char>>>)
                &&& r["lib_names"@] == (None::<Seq<char>>, Some(packages[j].lib_names))
            }
        }),
{
    reveal_strlit("packages");
    reveal_strlit("project_name");
    assert("packages"@.len() == 8 && "project_name"@.len() == 12);
    let m = spec_cmake_context(name, packages);
    assert(m.dom() =~= set!["packages"@, "project_name"@]);
    assert forall|j: int| 0 <= j < packages.len() implies {
        let r = #[trigger] m["packages"@].2->0[j];
        &&& r.dom() == set!["name"@, "repo"@, "base_url"@, "tag"@, "fetch_mode"@, "lib_names"@]
        &&& r["name"@] == (Some(packages[j].name), None::<Seq<Seq<char>>>)
        &&& r["repo"@] == (Some(packages[j].repo), None::<Seq<Seq<char>>>)
        &&& r["base_url"@] == (Some(packages[j].base_url), None::<Seq<Seq<char>>>)
        &&& r["tag"@] == (Some(packages[j].tag), None::<Seq<Seq<char>>>)
        &&& r["fetch_mode"@] == (Some(packages[j].fetch_mode), None::<Seq<Seq<char>>>)
        &&& r["lib_names"@] == (None::<Seq<char>>, Some(packages[j].lib_names))
    } by {
        lemma_package_record_fields(packages[j]);
    }
}

/// The context of the cmake files (see [`spec_cmake_context`]).
pub fn cmake_context(project_name: &str, packages: &Vec<PackageData>) -> (ctx: tera::Context)
    ensures
        context_entries(ctx) == spec_cmake_context(project_name@, package_views(packages@)),
        context_entries(ctx)["project_name"@] == (Some(project_name@), None::<bool>, None::<Seq<RecordModel>>),
        context_entries(ctx)["packages"@].2 is Some,
        context_entries(ctx)["packages"@].2->0.len() == packages.len(),
        forall|j: int| 0 <= j < packages.len() ==> {
            let r = #[trigger] context_entries(ctx)["packages"@].2->0[j];
            &&& r["name"@] == (Some(packages@[j].name@), None::<Seq<Seq<char>>>)
            &&& r["repo"@] == (Some(packages@[j].repo@), None::<Seq<Seq<char>>>)
            &&& r["base_url"@] == (Some(packages@[j].base_url@), None::<Seq<Seq<char>>>)
            &&& r["tag"@] == (Some(packages@[j].tag@), None::<Seq<Seq<char>>>)
            &&& r["fetch_mode"@] == (Some(packages@[j].fetch_mode@), None::<Seq<Seq<char>>>)
            &&& r["lib_names"@] == (None::<Seq<char>>, Some(string_views(packages@[j].lib_names@)))
        },
{
    proof {
        lemma_cmake_context_entries(project_name@, package_views(packages@));
    }
    let mut fields: Vec<String> = Vec::new();
    fields.push(String::from_str("name"));
    fields.push(String::from_str("repo"));
    fields.push(String::from_str("base_url"));
    fields.push(String::from_str("tag"));
    fields.push(String::from_str("fetch_mode"));
    assert(string_views(fields@) =~= package_fields());
    let mut texts: Vec<Vec<String>> = Vec::new();
    let mut lists: Vec<Vec<String>> = Vec::new();
    for k in 0..packages.len()
        invariant
            texts.len() == k,
            lists.len() == k,
            fields.len() == 5,
            forall|j: int| 0 <= j < k ==> (#[trigger] texts@[j]).len() == 5,
            forall|j: int| 0 <= j < k ==> #[trigger] string_views(texts@[j]@) == seq![
                packages@[j].name@,
                packages@[j].repo@,
                packages@[j].base_url@,
                packages@[j].tag@,
                packages@[j].fetch_mode@,
            ],
            forall|j: int| 0 <= j < k ==> #[trigger] string_views(lists@[j]@) == string_views(packages@[j].lib_names@),
    {
        let p = &packages[k];
        let mut row: Vec<String> = Vec::new();
        row.push(p.name.clone());
        row.push(p.repo.clone());
        row.push(p.base_url.clone());
        row.push(p.tag.clone());
        row.push(p.fetch_mode.clone());
        assert(string_views(row@) =~= seq![p.name@, p.repo@, p.base_url@, p.tag@, p.fetch_mode@]);
        let libs = p.lib_names.clone();
        assert(string_views(libs@) =~= string_views(p.lib_names@)) by {
            assert forall|i: int| 0 <= i < libs@.len() implies string_views(libs@)[i] == string_views(p.lib_names@)[i] by {
                assert(cloned::<String>(p.lib_names@[i], libs@[i]));
            }
        }
        texts.push(row);
        lists.push(libs);
    }
    let mut ctx = new_context();
    context_insert_records(&mut ctx, "packages", &fields, &texts, "lib_names", &lists);
    context_insert_text(&mut ctx, "project_name", project_name);
    proof {
        let records = Seq::new(texts@.len(), |j: int| record_model(
            string_views(fields@),
            string_views(texts@[j]@),
            "lib_names"@,
            string_views(lists@[j]@),
        ));
        assert(records =~= package_views(packages@).map_values(|p: PackageView| package_record(p)));
        assert(context_entries(ctx) =~= spec_cmake_context(project_name@, package_views(packages@)));
    }
    ctx
}

/// The context of a new project: its name, C++ version, CMake generator, binary type
/// and whether it has tests.
pub fn project_context(
    name: &str,
    cpp_version: &str,
    generator: &str,
    binary_type: &str,
    with_tests: bool,
) -> (ctx: tera::Context)
    ensures
        context_entries(ctx) == spec_project_context(
            name@,
            cpp_version@,
            generator@,
            binary_type@,
            with_tests,
        ),
        context_entries(ctx)["project_name"@] == (Some(name@), None::<bool>, None::<Seq<RecordModel>>),
        context_entries(ctx)["cpp_version"@] == (Some(cpp_version@), None::<bool>, None::<Seq<RecordModel>>),
        context_entries(ctx)["generator"@] == (Some(generator@), None::<bool>, None::<Seq<RecordModel>>),
        context_entries(ctx)["binary_type"@] == (Some(binary_type@), None::<bool>, None::<Seq<RecordModel>>),
        context_entries(ctx)["with_tests"@] == (None::<Seq<char>>, Some(with_tests), None::<Seq<RecordModel>>),
{
    proof {
        lemma_project_context_entries(name@, cpp_version@, generator@, binary_type@, with_tests);
    }
    let mut ctx = new_context();
    context_insert_text(&mut ctx, "project_name", name);
    context_insert_text(&mut ctx, "cpp_version", cpp_version);
    context_insert_text(&mut ctx, "generator", generator);
    context_insert_text(&mut ctx, "binary_type", binary_type);
    context_insert_flag(&mut ctx, "with_tests", with_tests);
    ctx
}

/// The views of (name, source) pairs.
pub open spec fn source_views(templates: Seq<(String, String)>) -> Seq<(Seq<char>, Seq<char>)> {
    templates.map_values(|p: (String, String)| (p.0@, p.1@))
}

/// The templates held after registering `templates` in order: each that parses, under
/// its name, a later one replacing an earlier one of the same name.
pub open spec fn spec_registered(templates: Seq<(Seq<char>, Seq<char>)>) -> Map<Seq<char>, Seq<char>>
    decreases templates.len(),
{
    if templates.len() == 0 {
        Map::empty()
    } else {
        let held = spec_registered(templates.drop_last());
        if template_parses(templates.last().1) {
            held.insert(templates.last().0, templates.last().1)
        } else {
            held
        }
    }
}

/// A renderer holding the templates `(name, source)` (see [`spec_registered`]).
pub fn renderer(templates: &Vec<(String, String)>) -> (t: tera::Tera)
    ensures
        renderer_templates(t) == spec_registered(source_views(templates@)),
{
    let mut t = new_renderer();
    assert(renderer_templates(t) =~= spec_registered(source_views(templates@.take(0))));
    for k in 0..templates.len()
        invariant
            renderer_templates(t) == spec_registered(source_views(templates@.take(k as int))),
    {
        assert(source_views(templates@.take(k + 1)).drop_last() =~= source_views(templates@.take(k as int)));
        assert(source_views(templates@.take(k + 1)).last() == (templates@[k as int].0@, templates@[k as int].1@));
        register_template(&mut t, templates[k].0.as_str(), templates[k].1.as_str());
    }
    assert(templates@.take(templates@.len() as int) =~= templates@);
    t
}

/// A template that did not render.
pub struct RenderError {
    pub template: String,
}

/// Renders each planned file with `ctx`, in order: the outputs pair each planned path
/// with its text, or the first template that fails is reported; a planned template
/// that the renderer does not hold always fails.
pub fn render_files(t: &tera::Tera, files: &Vec<FileRender>, ctx: &tera::Context) -> (r: Result<
    Vec<(String, String)>,
    RenderError,
>)
    ensures
        match r {
            Ok(out) => out@.len() == files@.len() && (forall|i: int|
                0 <= i < out@.len() ==> (#[trigger] out@[i]).0@ == files@[i].output@ && renders_to(
                    renderer_templates(*t),
                    files@[i].template@,
                    context_entries(*ctx),
                    out@[i].1@,
                )),
            Err(e) => exists|i: int| 0 <= i < files@.len() && (#[trigger] files@[i]).template@ == e.template@,
        },
        (exists|i: int|
            0 <= i < files@.len() && !renderer_templates(*t).contains_key((#[trigger] files@[i]).template@))
            ==> r is Err,
{
    let mut out: Vec<(String, String)> = Vec::new();
    for k in 0..files.len()
        invariant
            out@.len() == k,
            forall|i: int| 0 <= i < k ==> (#[trigger] out@[i]).0@ == files@[i].output@ && renders_to(
                renderer_templates(*t),
                files@[i].template@,
                context_entries(*ctx),
                out@[i].1@,
            ),
            forall|i: int| 0 <= i < k ==> renderer_templates(*t).contains_key((#[trigger] files@[i]).template@),
    {
        match render_template(t, files[k].template.as_str(), ctx) {
            Ok(text) => {
                out.push((files[k].output.clone(), text));
            },
            Err(_) => {
                let e = RenderError { template: files[k].template.clone() };
                assert(files@[k as int].template@ == e.template@);
                return Err(e);
            },
        }
    }
    Ok(out)
}

} // verus!
