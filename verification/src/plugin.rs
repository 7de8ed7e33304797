//! What a framework plugin offers the linter: its identity, its command-line
//! parameters, its initialisation, and the checks it runs over each module and
//! over the application graph.

use vstd::prelude::*;
use std::collections::HashMap;
use crate::ast::Module;
use crate::diagnostic::{ByteRange, Diagnostic, Level};
use crate::graph::AppGraph;

verus! {

/// What a plugin's initialisation gives: its application graph and the
/// diagnostics of its dynamic validation.
pub struct InitResult {
    pub graph: AppGraph,
    pub diagnostics: Vec<Diagnostic>,
}

impl Default for InitResult {
    /// An empty graph and no diagnostics.
    fn default() -> (r: InitResult)
        ensures
            r.graph.models@.len() == 0,
            r.diagnostics@.len() == 0,
    {
        InitResult { graph: AppGraph::default(), diagnostics: Vec::new() }
    }
}

/// What a check sees of the file it checks.
pub struct CheckContext<'a> {
    pub module: &'a Module,
    pub source: &'a str,
    pub filename: &'a str,
    pub graph: &'a AppGraph,
}

impl<'a> CheckContext<'a> {
    /// The context for one file.
    pub fn new(module: &'a Module, source: &'a str, filename: &'a str, graph: &'a AppGraph) -> (r: CheckContext<'a>)
        ensures
            r.module == module,
            r.source == source,
            r.filename == filename,
            r.graph == graph,
    {
        CheckContext { module, source, filename, graph }
    }

    /// A diagnostic for this file at `range`, at level `Improve`, with no line
    /// or column yet.
    pub fn diag(&self, code: &str, msg: &str, range: ByteRange) -> (r: Diagnostic)
        ensures
            r.code@ == code@,
            r.message@ == msg@,
            r.range == Some(range),
            r.filename@ == self.filename@,
            r.line is None,
            r.col is None,
            r.level == Level::Improve,
    {
        Diagnostic {
            code: code.to_owned(),
            message: msg.to_owned(),
            range: Some(range),
            filename: self.filename.to_owned(),
            line: None,
            col: None,
            level: Level::Improve,
        }
    }
}

/// A command-line parameter that a plugin declares.
pub struct PluginParam {
    pub name: &'static str,
    pub help: &'static str,
    pub takes_value: bool,
}

/// A framework plugin. Its users implement it; the linter calls it. The
/// project directory reaches it as text.
pub trait Plugin: Send + Sync {
    fn name(&self) -> &'static str;

    fn prefix(&self) -> &'static str;

    fn on_graph_ready(&mut self, graph: &AppGraph) {
    }

    fn cli_params(&self) -> Vec<PluginParam> {
        Vec::new()
    }

    fn initialize(&mut self, project_dir: &str, toml_content: &str, cli_args: &HashMap<String, String>) -> InitResult {
        InitResult::default()
    }

    fn ast_checks(&self) -> Vec<Box<dyn AstCheck>> {
        Vec::new()
    }

    fn graph_checks(&self) -> Vec<Box<dyn GraphCheck>> {
        Vec::new()
    }

    fn project_checks(&self, project_dir: &str, toml: &str) -> Vec<Diagnostic> {
        Vec::new()
    }

    fn read_config_excludes(&self, toml: &str) -> Vec<String> {
        Vec::new()
    }
}

/// A check over one parsed module.
pub trait AstCheck: Send + Sync {
    fn code(&self) -> &'static str;

    fn level(&self) -> Level {
        Level::Improve
    }

    fn check(&self, ctx: &CheckContext) -> Vec<Diagnostic>;
}

/// A check over the application graph.
pub trait GraphCheck: Send + Sync {
    fn code(&self) -> &'static str;

    fn level(&self) -> Level {
        Level::Improve
    }

    fn check(&self, graph: &AppGraph) -> Vec<Diagnostic>;
}

} // verus!
