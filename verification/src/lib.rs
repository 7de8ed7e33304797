//! Thorn: a linter engine for Python sources with a framework model graph.
//!
//! The library parses Python into its own AST, runs the checks that plugins
//! register, places and filters the diagnostics, and renders them for CI tools.

pub mod text;
pub mod graph;
pub mod diagnostic;
pub mod ast;
pub mod model;
pub mod syntax;
pub mod grammar;
pub mod parser;
pub mod suppress;
pub mod stmt_grammar;
pub mod stmt_parser;
pub mod python;
pub mod config;
pub mod discover;
pub mod json;
pub mod format;
pub mod plugin;
pub mod linter;
pub mod cli;
pub mod visitor;

pub use diagnostic::{ByteRange, Diagnostic, Level};
pub use graph::{AppGraph, Field, FrameworkSettings, Manager, Model, Relation, RelationKind};
pub use linter::Linter;
pub use plugin::{AstCheck, CheckContext, GraphCheck, InitResult, Plugin, PluginParam};
pub use python::parse_python;

