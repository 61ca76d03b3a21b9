//! Verified core of `zenops`, a dotfile and package configuration manager.

pub mod ansi;
pub mod cli;
pub mod condition;
pub mod config;
pub mod config_files;
pub mod doctor;
pub mod error;
pub mod expand;
pub mod git;
pub mod import;
pub mod import_apply;
pub mod import_config;
pub mod import_doc;
pub mod import_event;
pub mod import_new;
pub mod import_plan;
pub mod import_run;
pub mod init;
pub mod input_map;
pub mod line_prompter;
pub mod output;
pub mod package_spec;
pub mod pkg;
pub mod pkg_configs;
pub mod pkg_list;
pub mod pkg_manager;
pub mod prompt;
pub mod safe_path;
pub mod shell;
pub mod text;
pub mod toml_model;

pub use cli::{Args, Cli, Cmd, ColorChoice, OutputMode};
