# cmkt

A command line tool for CMake-based C++ projects, in the manner of cargo: it creates
projects from templates, runs scripts kept in `project.toml`, and records
FetchContent dependencies there, regenerating `cmake/fetch.cmake` and
`cmake/link.cmake` from them.

- `src/` is the library, verified with Verus:
  - `text`: `str::replace` and `str::split` for a non-empty pattern, over character sequences;
  - `package`: the dependency record and how `cmkt add` derives it from `user/repo`;
  - `manifest`: reading and writing the records of `[dependencies]` through `toml_edit`;
  - `script`: reading the configuration, finding a script and planning the commands it runs;
  - `command`: the process a command becomes (shell or direct);
  - `remote`: the default branch of a remote from the references it advertises;
  - `root`: the steps of the search for the project root;
  - `project`: the directories and files of a new project, rendered with `tera`.
- `app/main.rs` is the command line around it: arguments, files, processes, git and
  the network. It embeds the project templates with `include_str!` from a
  `templates/` directory beside `app/`, which this tree does not hold.
- `tests/` runs the library on concrete values.
