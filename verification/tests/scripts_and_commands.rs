use cmkt::command::command_line;
use cmkt::remote::{default_branch, RemoteHead};
use cmkt::root::{root_search_step, RootStep, MANIFEST_FILE};
use cmkt::script::{find_script, plan_script, script_steps, ScriptError, ScriptStep, TomlValue};

fn text(s: &str) -> TomlValue {
    TomlValue::Text(s.to_string())
}

fn strings(v: &[&str]) -> Vec<String> {
    v.iter().map(|s| s.to_string()).collect()
}

fn steps_equal(a: &[ScriptStep], b: &[ScriptStep]) -> bool {
    a.len() == b.len()
        && a.iter().zip(b.iter()).all(|(x, y)| match (x, y) {
            (ScriptStep::Shell(p), ScriptStep::Shell(q)) => p == q,
            (ScriptStep::Direct(p), ScriptStep::Direct(q)) => p == q,
            (ScriptStep::Unsupported(p), ScriptStep::Unsupported(q)) => p == q,
            _ => false,
        })
}

#[test]
fn string_script_runs_through_shell() {
    let steps = plan_script(&text("cmake --build build"));
    assert!(steps_equal(&steps, &[ScriptStep::Shell("cmake --build build".to_string())]));
}

#[test]
fn array_of_strings_runs_one_program() {
    let v = TomlValue::Array(vec![text("cmake"), TomlValue::Scalar("3".to_string()), text("--build")]);
    let steps = plan_script(&v);
    assert!(steps_equal(&steps, &[ScriptStep::Direct(strings(&["cmake", "--build"]))]));
}

#[test]
fn array_of_arrays_runs_each_in_turn() {
    let v = TomlValue::Array(vec![
        TomlValue::Array(vec![text("cmake"), text("-B"), text("build")]),
        TomlValue::Array(vec![text("cmake"), text("--build"), text("build")]),
        text("echo done"),
    ]);
    let steps = plan_script(&v);
    assert!(steps_equal(
        &steps,
        &[
            ScriptStep::Direct(strings(&["cmake", "-B", "build"])),
            ScriptStep::Direct(strings(&["cmake", "--build", "build"])),
            ScriptStep::Shell("echo done".to_string()),
        ]
    ));
}

#[test]
fn empty_arrays_do_nothing() {
    assert!(plan_script(&TomlValue::Array(vec![])).is_empty());
    let only_numbers = TomlValue::Array(vec![TomlValue::Scalar("1".to_string())]);
    assert!(plan_script(&only_numbers).is_empty());
}

#[test]
fn other_values_are_reported() {
    let steps = plan_script(&TomlValue::Scalar("42".to_string()));
    assert!(steps_equal(&steps, &[ScriptStep::Unsupported("42".to_string())]));
    let table = TomlValue::Table(vec![("a".to_string(), text("b"))], "{ a = \"b\" }".to_string());
    let steps = plan_script(&table);
    assert!(steps_equal(&steps, &[ScriptStep::Unsupported("{ a = \"b\" }".to_string())]));
}

#[test]
fn find_script_looks_in_scripts_section() {
    let scripts = TomlValue::Table(
        vec![("build".to_string(), text("make")), ("run".to_string(), text("./a.out"))],
        String::new(),
    );
    let config = TomlValue::Table(
        vec![("package".to_string(), TomlValue::Table(vec![], String::new())), ("scripts".to_string(), scripts)],
        String::new(),
    );
    match find_script(&config, "run") {
        Some(TomlValue::Text(s)) => assert_eq!(s, "./a.out"),
        _ => panic!("run not found"),
    }
    assert!(find_script(&config, "test").is_none());
    assert!(find_script(&text("x"), "run").is_none());
    let no_scripts = TomlValue::Table(vec![], String::new());
    assert!(find_script(&no_scripts, "build").is_none());
}

#[test]
fn command_line_shell_and_direct() {
    let shell = command_line(&strings(&["echo hi"]), true, false);
    assert_eq!(shell.program, "sh");
    assert_eq!(shell.args, strings(&["-c", "echo hi"]));
    let windows = command_line(&strings(&["echo hi"]), true, true);
    assert_eq!(windows.program, "cmd");
    assert_eq!(windows.args, strings(&["/C", "echo hi"]));
    let direct = command_line(&strings(&["cmake", "--build", "build"]), false, false);
    assert_eq!(direct.program, "cmake");
    assert_eq!(direct.args, strings(&["--build", "build"]));
    let alone = command_line(&strings(&["ninja"]), false, true);
    assert_eq!(alone.program, "ninja");
    assert!(alone.args.is_empty());
}

#[test]
fn default_branch_follows_head() {
    let heads = vec![
        RemoteHead { name: "refs/heads/dev".to_string(), symref_target: None },
        RemoteHead { name: "HEAD".to_string(), symref_target: Some("refs/heads/master".to_string()) },
    ];
    assert_eq!(default_branch(&heads), "master");
    let plain_head = vec![RemoteHead { name: "HEAD".to_string(), symref_target: None }];
    assert_eq!(default_branch(&plain_head), "main");
    assert_eq!(default_branch(&vec![]), "main");
    let odd = vec![RemoteHead { name: "HEAD".to_string(), symref_target: Some("refs/tags/v1".to_string()) }];
    assert_eq!(default_branch(&odd), "refs/tags/v1");
}

#[test]
fn root_search_steps() {
    assert!(matches!(root_search_step(true, true), RootStep::Found));
    assert!(matches!(root_search_step(true, false), RootStep::Found));
    assert!(matches!(root_search_step(false, true), RootStep::Ascend));
    assert!(matches!(root_search_step(false, false), RootStep::NotFound));
    assert_eq!(MANIFEST_FILE, "project.toml");
}

const CONFIG: &str = r#"[package]
name = "demo"

[scripts]
build = "cmake --build build"
run = ["./build/demo", "--verbose"]
all = [["cmake", "-B", "build"], ["cmake", "--build", "build"]]
odd = 3
"#;

#[test]
fn script_steps_read_project_toml() {
    match script_steps(CONFIG, "build") {
        Ok(steps) => assert!(steps_equal(&steps, &[ScriptStep::Shell("cmake --build build".to_string())])),
        Err(_) => panic!("build not planned"),
    }
    match script_steps(CONFIG, "run") {
        Ok(steps) => assert!(steps_equal(&steps, &[ScriptStep::Direct(strings(&["./build/demo", "--verbose"]))])),
        Err(_) => panic!("run not planned"),
    }
    match script_steps(CONFIG, "all") {
        Ok(steps) => assert!(steps_equal(
            &steps,
            &[
                ScriptStep::Direct(strings(&["cmake", "-B", "build"])),
                ScriptStep::Direct(strings(&["cmake", "--build", "build"])),
            ]
        )),
        Err(_) => panic!("all not planned"),
    }
    match script_steps(CONFIG, "odd") {
        Ok(steps) => assert!(steps_equal(&steps, &[ScriptStep::Unsupported("3".to_string())])),
        Err(_) => panic!("odd not planned"),
    }
}

#[test]
fn script_steps_errors() {
    assert!(matches!(script_steps(CONFIG, "test"), Err(ScriptError::NotFound)));
    assert!(matches!(script_steps("[package]\nname = \"p\"\n", "build"), Err(ScriptError::NotFound)));
    assert!(matches!(script_steps("[scripts", "build"), Err(ScriptError::InvalidData)));
}
