//! Project management for CMake-based C++ projects: dependency records kept in
//! `project.toml`, script planning, project layout, and the text rules behind them.

pub mod command;
pub mod manifest;
pub mod package;
pub mod project;
pub mod remote;
pub mod root;
pub mod script;
pub mod text;
