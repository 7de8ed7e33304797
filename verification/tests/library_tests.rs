use thorn::ast::{CmpOp, Expr, Number, Operator, Stmt};
use thorn::cli::{check_level_of, merge_exclude_lists, refine_diagnostics, relative_to};
use thorn::config::ThornConfig;
use thorn::diagnostic::{default_level, ByteRange, Diagnostic, Level};
use thorn::discover::{keep_path, match_glob};
use thorn::format::{fingerprint, json, summarize_message, text_location_of};
use thorn::graph::AppGraph;
use thorn::linter::{finalize_diagnostics, sort_diagnostics, Linter};
use thorn::parser::strip_string_quotes;
use thorn::plugin::{AstCheck, CheckContext, GraphCheck, Plugin};
use thorn::python::{parse_python, parse_python_clean};
use thorn::suppress::filter_suppressed;
use thorn::visitor::{expr_visits_of, stmt_visits_of, Visit};

fn at_line(code: &str, line: u32) -> Diagnostic {
    let mut d = Diagnostic::new(code, "msg", "f.py");
    d.line = Some(line);
    d
}

// ── Levels and diagnostics ──────────────────────────────────────────

#[test]
fn level_labels() {
    assert_eq!(Level::Fix.label(), "fix");
    assert_eq!(Level::Improve.label(), "improve");
    assert_eq!(Level::All.label(), "all");
    assert_eq!(default_level(), Level::Improve);
}

#[test]
fn level_within_orders_fix_improve_all() {
    assert!(Level::Fix.within(Level::Improve));
    assert!(Level::Improve.within(Level::Improve));
    assert!(!Level::All.within(Level::Improve));
    assert!(!Level::Improve.within(Level::Fix));
    assert!(Level::All.within(Level::All));
}

#[test]
fn resolve_location_counts_lines_and_columns() {
    let src = "a = 1\nbb = 2\n";
    let mut d = Diagnostic::new("X1", "m", "f.py").with_range(ByteRange::new(9, 10));
    d.resolve_location(src);
    assert_eq!(d.line, Some(2));
    assert_eq!(d.col, Some(4));
    let mut first = Diagnostic::new("X1", "m", "f.py").with_range(ByteRange::new(0, 1));
    first.resolve_location(src);
    assert_eq!(first.line, Some(1));
    assert_eq!(first.col, Some(1));
}

#[test]
fn resolve_location_leaves_out_of_range_and_rangeless() {
    let mut past = Diagnostic::new("X1", "m", "f.py").with_range(ByteRange::new(100, 101));
    past.resolve_location("short");
    assert_eq!(past.line, None);
    assert_eq!(past.col, None);
    let mut none = Diagnostic::new("X1", "m", "f.py");
    none.resolve_location("short");
    assert_eq!(none.line, None);
}

#[test]
fn display_string_variants() {
    let mut d = Diagnostic::new("DJ001", "Avoid it", "models.py");
    assert_eq!(d.to_display_string(), "models.py: DJ001 Avoid it");
    d.line = Some(3);
    assert_eq!(d.to_display_string(), "models.py:3: DJ001 Avoid it");
    d.col = Some(14);
    assert_eq!(d.to_display_string(), "models.py:3:14: DJ001 Avoid it");
}

// ── Suppression ─────────────────────────────────────────────────────

#[test]
fn noqa_bare_suppresses_everything_on_the_line() {
    let mut ds = vec![at_line("DJ001", 1), at_line("DJ002", 2)];
    filter_suppressed(&mut ds, "x = 1  # noqa\ny = 2\n");
    assert_eq!(ds.len(), 1);
    assert_eq!(ds[0].code, "DJ002");
}

#[test]
fn noqa_with_codes_suppresses_only_those() {
    let mut ds = vec![at_line("DJ001", 1), at_line("DJ003", 1), at_line("DJ002", 1)];
    filter_suppressed(&mut ds, "x = 1  # noqa: DJ001, DJ002\n");
    assert_eq!(ds.len(), 1);
    assert_eq!(ds[0].code, "DJ003");
}

#[test]
fn thorn_ignore_forms() {
    let mut ds = vec![at_line("DJ001", 1), at_line("DJ009", 1), at_line("DJ001", 2), at_line("DJ001", 3)];
    filter_suppressed(&mut ds, "a  # thorn: ignore[DJ001]\nb  # thorn: ignore\nc  # other comment\n");
    let codes: Vec<(String, Option<u32>)> = ds.iter().map(|d| (d.code.clone(), d.line)).collect();
    assert_eq!(codes, vec![("DJ009".to_string(), Some(1)), ("DJ001".to_string(), Some(3))]);
}

#[test]
fn suppression_keeps_unplaced_and_is_idempotent() {
    let unplaced = Diagnostic::new("DJ001", "m", "f.py");
    let mut ds = vec![unplaced, at_line("DJ001", 1), at_line("DJ001", 7)];
    let src = "x  # noqa\n";
    filter_suppressed(&mut ds, src);
    assert_eq!(ds.len(), 2);
    assert_eq!(ds[0].line, None);
    assert_eq!(ds[1].line, Some(7));
    let before: Vec<Option<u32>> = ds.iter().map(|d| d.line).collect();
    filter_suppressed(&mut ds, src);
    let after: Vec<Option<u32>> = ds.iter().map(|d| d.line).collect();
    assert_eq!(before, after);
}

// ── Discovery ───────────────────────────────────────────────────────

#[test]
fn glob_patterns() {
    assert!(match_glob("*/migrations/*", "app/migrations/0001.py"));
    assert!(!match_glob("*/migrations/*", "app/models.py"));
    assert!(match_glob("*_test.py", "pkg/foo_test.py"));
    assert!(!match_glob("*_test.py", "pkg/foo_test.pyc"));
    assert!(match_glob("build*", "out/build/x.py"));
    assert!(match_glob("vendor", "a/vendor/b.py"));
    assert!(!match_glob("vendor", "a/b.py"));
}

#[test]
fn glob_inner_star_matches_any_characters() {
    assert!(match_glob("*/migrations/*.py", "/p/app/migrations/0001.py"));
    assert!(!match_glob("*/migrations/*.py", "/p/app/migrations/0001.pyc"));
    assert!(!match_glob("*/migrations/*.py", "/p/app/models.py"));
    assert!(match_glob("app*models", "x/app/sub/models.py"));
    assert!(!match_glob("models*app", "x/app/sub/models.py"));
    assert!(match_glob("**/tests/**", "src/tests/a.py"));
    assert!(match_glob("*", "anything.py"));
}

#[test]
fn keep_path_skips_tool_directories_and_excludes() {
    let none: Vec<String> = vec![];
    assert!(keep_path("/p/app/models.py", &none));
    assert!(!keep_path("/p/.venv/lib/x.py", &none));
    assert!(!keep_path("/p/node_modules/x.py", &none));
    assert!(!keep_path("/p/app/__pycache__/x.py", &none));
    assert!(!keep_path("/p/.git/hooks/x.py", &none));
    let ex = vec!["*/migrations/*".to_string()];
    assert!(!keep_path("/p/app/migrations/0001.py", &ex));
    assert!(keep_path("/p/app/views.py", &ex));
}

// ── Strings ─────────────────────────────────────────────────────────

#[test]
fn strip_quotes_variants() {
    assert_eq!(strip_string_quotes("\"abc\""), "abc");
    assert_eq!(strip_string_quotes("'abc'"), "abc");
    assert_eq!(strip_string_quotes("\"\"\"doc\"\"\""), "doc");
    assert_eq!(strip_string_quotes("'''doc'''"), "doc");
    assert_eq!(strip_string_quotes("b'raw'"), "raw");
    assert_eq!(strip_string_quotes("rb\"x\""), "x");
    assert_eq!(strip_string_quotes("noquotes"), "noquotes");
}

// ── Configuration ───────────────────────────────────────────────────

#[test]
fn config_reads_tool_thorn_lists() {
    let text = "[tool.thorn]\nexclude = [\"*/migrations/*\", 3]\ninclude = [\"src\"]\nignore = [\"DJ001\"]\n";
    let c = ThornConfig::from_pyproject_text(text);
    assert_eq!(c.exclude, vec!["*/migrations/*".to_string()]);
    assert_eq!(c.includes, vec!["src".to_string()]);
    assert_eq!(c.ignore, vec!["DJ001".to_string()]);
}

#[test]
fn config_defaults_on_missing_section_or_bad_toml() {
    let c = ThornConfig::from_pyproject_text("[tool.other]\nx = 1\n");
    assert!(c.exclude.is_empty() && c.includes.is_empty() && c.ignore.is_empty());
    let bad = ThornConfig::from_pyproject_text("[tool.thorn\nexclude = ");
    assert!(bad.exclude.is_empty() && bad.includes.is_empty() && bad.ignore.is_empty());
}

#[test]
fn excludes_merge_in_order() {
    let c = ThornConfig::from_pyproject_text("[tool.thorn]\nexclude = [\"a\"]\n");
    let merged = merge_exclude_lists(&c, vec!["b".to_string()], vec![vec!["c".to_string()], vec!["d".to_string()]], "x");
    assert_eq!(merged, vec!["a", "b", "c", "d"]);
    let no_content = merge_exclude_lists(&c, vec!["b".to_string()], vec![vec!["c".to_string()]], "");
    assert_eq!(no_content, vec!["a", "b"]);
}

// ── The command line's filtering ────────────────────────────────────

#[test]
fn check_levels_and_refinement() {
    assert_eq!(check_level_of("fix"), Level::Fix);
    assert_eq!(check_level_of("all"), Level::All);
    assert_eq!(check_level_of("improve"), Level::Improve);
    assert_eq!(check_level_of("anything"), Level::Improve);
    let c = ThornConfig::from_pyproject_text("[tool.thorn]\nignore = [\"DJ002\"]\n");
    let ds = vec![
        Diagnostic::new("DJ001", "m", "/base/app/a.py").with_level(Level::Fix),
        Diagnostic::new("DJ002", "m", "/base/app/b.py").with_level(Level::Fix),
        Diagnostic::new("DJ003", "m", "/base/app/c.py").with_level(Level::All),
        Diagnostic::new("DJ004", "m", "/elsewhere/d.py").with_level(Level::Improve),
        Diagnostic::new("DJ005", "m", "/base/e.py").with_level(Level::Improve),
    ];
    let out = refine_diagnostics(ds, "improve", &c, vec!["DJ005".to_string()], "/base");
    let got: Vec<(String, String)> = out.iter().map(|d| (d.code.clone(), d.filename.clone())).collect();
    assert_eq!(got, vec![
        ("DJ001".to_string(), "app/a.py".to_string()),
        ("DJ004".to_string(), "/elsewhere/d.py".to_string()),
    ]);
    assert_eq!(relative_to("/base//x.py", "/base"), "x.py");
}

// ── Ordering ────────────────────────────────────────────────────────

#[test]
fn sorting_by_file_then_start_is_stable() {
    let ds = vec![
        Diagnostic::new("B1", "m", "b.py").with_range(ByteRange::new(5, 6)),
        Diagnostic::new("A2", "m", "a.py").with_range(ByteRange::new(9, 10)),
        Diagnostic::new("A0", "m", "a.py"),
        Diagnostic::new("A1", "m", "a.py").with_range(ByteRange::new(3, 4)),
        Diagnostic::new("A3", "m", "a.py").with_range(ByteRange::new(3, 8)),
        Diagnostic::new("B0", "m", "b.py").with_range(ByteRange::new(1, 2)),
    ];
    let sorted = sort_diagnostics(ds);
    let codes: Vec<&str> = sorted.iter().map(|d| d.code.as_str()).collect();
    assert_eq!(codes, vec!["A0", "A1", "A3", "A2", "B0", "B1"]);
}

#[test]
fn finalize_locates_then_filters() {
    let src = "x = 1\ny = 2  # noqa: DJ001\n";
    let raw = vec![
        Diagnostic::new("DJ001", "m", "f.py").with_range(ByteRange::new(6, 7)),
        Diagnostic::new("DJ002", "m", "f.py").with_range(ByteRange::new(6, 7)),
        Diagnostic::new("DJ001", "m", "f.py").with_range(ByteRange::new(0, 1)),
    ];
    let out = finalize_diagnostics(raw, src);
    let got: Vec<(String, Option<u32>, Option<u32>)> = out.iter().map(|d| (d.code.clone(), d.line, d.col)).collect();
    assert_eq!(got, vec![
        ("DJ002".to_string(), Some(2), Some(1)),
        ("DJ001".to_string(), Some(1), Some(1)),
    ]);
}

// ── The linter with a plugin ────────────────────────────────────────

struct NameCheck;

impl AstCheck for NameCheck {
    fn code(&self) -> &'static str {
        "T001"
    }
    fn level(&self) -> Level {
        Level::Fix
    }
    fn check(&self, ctx: &CheckContext) -> Vec<Diagnostic> {
        let mut out = Vec::new();
        for stmt in &ctx.module.body {
            if let Stmt::FunctionDef(f) = stmt {
                out.push(ctx.diag("T001", &format!("function {}", f.name), f.range));
            }
        }
        out
    }
}

struct TestPlugin;

impl Plugin for TestPlugin {
    fn name(&self) -> &'static str {
        "test"
    }
    fn prefix(&self) -> &'static str {
        "T"
    }
    fn ast_checks(&self) -> Vec<Box<dyn AstCheck>> {
        vec![Box::new(NameCheck)]
    }
    fn read_config_excludes(&self, _toml: &str) -> Vec<String> {
        vec!["*/generated/*".to_string()]
    }
}

#[test]
fn lint_source_runs_checks_places_and_suppresses() {
    let mut linter = Linter::new(AppGraph::default());
    linter.register(Box::new(TestPlugin));
    let src = "import os\n\ndef keep():\n    pass\n\ndef hide():  # noqa: T001\n    pass\n";
    let ds = linter.lint_source(src, "m.py");
    assert_eq!(ds.len(), 1);
    assert_eq!(ds[0].message, "function keep");
    assert_eq!(ds[0].line, Some(3));
    assert_eq!(ds[0].col, Some(1));
    assert_eq!(ds[0].level, Level::Fix);
    assert_eq!(ds[0].filename, "m.py");
    assert_eq!(linter.plugin_summary(), vec![("test", "T")]);
    assert_eq!(linter.plugin_config_excludes("x"), vec![vec!["*/generated/*".to_string()]]);
}

#[test]
fn lint_source_gives_nothing_for_a_syntax_error() {
    let mut linter = Linter::new(AppGraph::default());
    linter.register(Box::new(TestPlugin));
    let broken = "def keep(:\n    pass\n";
    assert!(parse_python(broken).is_some());
    assert!(parse_python_clean(broken).is_none());
    assert!(linter.lint_source(broken, "m.py").is_empty());
    let missing_paren = "def keep():\n    f(1\n";
    assert!(parse_python_clean(missing_paren).is_none());
    assert!(linter.lint_source(missing_paren, "m.py").is_empty());
    assert!(parse_python_clean("def keep():\n    pass\n").is_some());
}

struct GraphNote(&'static str, Level);

impl GraphCheck for GraphNote {
    fn code(&self) -> &'static str {
        self.0
    }
    fn level(&self) -> Level {
        self.1
    }
    fn check(&self, _graph: &AppGraph) -> Vec<Diagnostic> {
        vec![Diagnostic::new(self.0, "graph", "z.py"), Diagnostic::new(self.0, "graph", "a.py")]
    }
}

struct GraphPlugin(&'static str);

impl Plugin for GraphPlugin {
    fn name(&self) -> &'static str {
        self.0
    }
    fn prefix(&self) -> &'static str {
        "G"
    }
    fn graph_checks(&self) -> Vec<Box<dyn GraphCheck>> {
        vec![Box::new(GraphNote("G1", Level::Fix)), Box::new(GraphNote("G2", Level::All))]
    }
    fn project_checks(&self, project_dir: &str, _toml: &str) -> Vec<Diagnostic> {
        vec![Diagnostic::new(self.0, project_dir, "pyproject.toml").with_level(Level::Fix)]
    }
}

#[test]
fn graph_checks_come_plugin_by_plugin_at_their_levels() {
    let mut linter = Linter::new(AppGraph::default());
    linter.register(Box::new(GraphPlugin("one")));
    linter.register(Box::new(GraphPlugin("two")));
    assert_eq!(linter.plugin_summary(), vec![("one", "G"), ("two", "G")]);
    let found = linter.graph_diagnostics();
    let got: Vec<(String, String, Level)> = found.iter().map(|d| (d.code.clone(), d.filename.clone(), d.level)).collect();
    let expect_one = vec![
        ("G1".to_string(), "z.py".to_string(), Level::Fix),
        ("G1".to_string(), "a.py".to_string(), Level::Fix),
        ("G2".to_string(), "z.py".to_string(), Level::All),
        ("G2".to_string(), "a.py".to_string(), Level::All),
    ];
    let mut expected = expect_one.clone();
    expected.extend(expect_one);
    assert_eq!(got, expected);
}

#[test]
fn project_checks_come_in_plugin_order_with_their_levels() {
    let mut linter = Linter::new(AppGraph::default());
    linter.register(Box::new(GraphPlugin("one")));
    linter.register(Box::new(GraphPlugin("two")));
    let found = linter.project_diagnostics("/proj", "");
    let got: Vec<(String, String, Level)> = found.iter().map(|d| (d.code.clone(), d.message.clone(), d.level)).collect();
    assert_eq!(got, vec![
        ("one".to_string(), "/proj".to_string(), Level::Fix),
        ("two".to_string(), "/proj".to_string(), Level::Fix),
    ]);
}

#[test]
fn finish_dir_orders_file_and_graph_findings_together() {
    let files = vec![
        Diagnostic::new("F", "m", "m.py").with_range(ByteRange::new(5, 6)),
        Diagnostic::new("F", "m", "b.py"),
    ];
    let graph = vec![Diagnostic::new("G", "m", "a.py"), Diagnostic::new("G", "m", "m.py")];
    let out = Linter::finish_dir(files, graph);
    let got: Vec<(String, String)> = out.iter().map(|d| (d.filename.clone(), d.code.clone())).collect();
    assert_eq!(got, vec![
        ("a.py".to_string(), "G".to_string()),
        ("b.py".to_string(), "F".to_string()),
        ("m.py".to_string(), "G".to_string()),
        ("m.py".to_string(), "F".to_string()),
    ]);
}

// ── Renderings ──────────────────────────────────────────────────────

#[test]
fn fingerprint_is_md5_of_file_code_line() {
    let mut d = Diagnostic::new("DJ001", "m", "models.py");
    d.line = Some(10);
    let expected = format!("{:x}", md5::compute("models.py:DJ001:10".as_bytes()));
    assert_eq!(fingerprint(&d), expected);
    let unplaced = Diagnostic::new("DJ001", "m", "models.py");
    let expected0 = format!("{:x}", md5::compute("models.py:DJ001:0".as_bytes()));
    assert_eq!(fingerprint(&unplaced), expected0);
}

#[test]
fn json_lists_every_field() {
    let mut d = Diagnostic::new("DJ001", "msg", "f.py").with_range(ByteRange::new(3, 9)).with_level(Level::All);
    d.line = Some(1);
    let out = json(&[d, Diagnostic::new("X", "y", "g.py")]);
    let v: serde_json::Value = serde_json::from_str(&out).unwrap();
    assert_eq!(v[0]["code"], "DJ001");
    assert_eq!(v[0]["range"][0], 3);
    assert_eq!(v[0]["range"][1], 9);
    assert_eq!(v[0]["line"], 1);
    assert!(v[0]["col"].is_null());
    assert_eq!(v[0]["level"], "All");
    assert!(v[1]["range"].is_null());
    assert_eq!(v[1]["level"], "Improve");
}

#[test]
fn text_parts() {
    let mut d = Diagnostic::new("DJ001", "first line\n   second  \n\n third", "a.py");
    assert_eq!(text_location_of(&d), "a.py");
    d.line = Some(4);
    assert_eq!(text_location_of(&d), "a.py:4");
    d.col = Some(2);
    assert_eq!(text_location_of(&d), "a.py:4:2");
    assert_eq!(summarize_message(&d.message), "first line, second, third");
    assert_eq!(summarize_message(""), "");
}

// ── Parsing ─────────────────────────────────────────────────────────

#[test]
fn parse_function_with_decorators_and_parameters() {
    let m = parse_python("@dec\n@other(1)\ndef f(a, b: int = 2, *args, c, **kw) -> str:\n    return a\n").unwrap();
    if let Stmt::FunctionDef(f) = &m.body[0] {
        assert_eq!(f.name, "f");
        assert_eq!(f.decorator_list.len(), 2);
        let names: Vec<&str> = f.parameters.args.iter().map(|p| p.name.as_str()).collect();
        assert_eq!(names, vec!["a", "b"]);
        // An annotation stands in a `type` node, which is no expression the
        // parser models, so it is left out; the default is kept.
        assert!(f.parameters.args[1].annotation.is_none());
        assert!(f.parameters.args[1].default.is_some());
        assert_eq!(f.parameters.vararg.as_ref().unwrap().name, "args");
        assert_eq!(f.parameters.kwonlyargs[0].name, "c");
        assert_eq!(f.parameters.kwarg.as_ref().unwrap().name, "kw");
        assert!(f.returns.is_none());
        assert!(!f.is_async);
        assert_eq!(f.body.len(), 1);
    } else {
        panic!("expected FunctionDef, got {:?}", m.body[0]);
    }
}

#[test]
fn parse_async_def_and_statements() {
    let src = "async def g():\n    pass\nfor x in y:\n    break\nelse:\n    continue\nwhile z:\n    pass\nif a:\n    pass\nelif b:\n    pass\nelse:\n    pass\nwith open(p):\n    pass\nraise E from c\nassert t, 'm'\nimport a.b as c, d\nglobal g1, g2\ndel q\nx += 1\ny: int = 3\nwith open(p) as fh:\n    pass\n";
    let m = parse_python(src).unwrap();
    // The annotated assignment is left out: its annotation does not parse.
    assert_eq!(m.body.len(), 12);
    assert!(matches!(&m.body[0], Stmt::FunctionDef(f) if f.is_async));
    // The `else` of a loop is an `else_clause`, not a block: its body is empty.
    assert!(matches!(&m.body[1], Stmt::For(f) if f.body.len() == 1 && f.orelse.is_empty()));
    assert!(matches!(&m.body[2], Stmt::While(_)));
    if let Stmt::If(i) = &m.body[3] {
        assert_eq!(i.elif_else_clauses.len(), 2);
        assert!(i.elif_else_clauses[0].test.is_some());
        assert!(i.elif_else_clauses[1].test.is_none());
        assert_eq!(i.elif_else_clauses[1].body.len(), 1);
    } else {
        panic!("expected If");
    }
    if let Stmt::With(w) = &m.body[4] {
        assert_eq!(w.items.len(), 1);
        assert!(w.items[0].optional_vars.is_none());
    } else {
        panic!("expected With, got {:?}", m.body[4]);
    }
    assert!(matches!(&m.body[5], Stmt::Raise(r) if r.exc.is_some() && r.cause.is_some()));
    assert!(matches!(&m.body[6], Stmt::Assert(a) if a.msg.is_some()));
    if let Stmt::Import(i) = &m.body[7] {
        assert_eq!(i.names.len(), 2);
        assert_eq!(i.names[0].name, "a.b");
        assert_eq!(i.names[0].asname.as_deref(), Some("c"));
        assert_eq!(i.names[1].name, "d");
    } else {
        panic!("expected Import");
    }
    assert!(matches!(&m.body[8], Stmt::Global(g) if g.names == vec!["g1".to_string(), "g2".to_string()]));
    assert!(matches!(&m.body[9], Stmt::Delete(d) if d.targets.len() == 1));
    assert!(matches!(&m.body[10], Stmt::AugAssign(a) if a.op == Operator::Add));
    // `open(p) as fh` is an `as_pattern`, which does not parse as an expression.
    assert!(matches!(&m.body[11], Stmt::With(w) if w.items.is_empty()));
}

#[test]
fn parse_expressions() {
    let m = parse_python("r = a < b <= c\nn = 1_000\ns = 'a' \"b\"\nf = f'{x}'\nl = [i for i in xs if i]\nd = {k: v for k, v in p}\nt = x if c else y\nlam = lambda q: q\ni = a in b\nj = a is b\nk = a not in b\n").unwrap();
    // `not in` is one token that the comparison parser does not know: that
    // assignment is left out.
    assert_eq!(m.body.len(), 10);
    let value = |i: usize| -> &Expr {
        if let Stmt::Assign(a) = &m.body[i] { a.value.as_ref() } else { panic!("expected Assign") }
    };
    if let Expr::Compare(c) = value(0) {
        assert_eq!(c.ops, vec![CmpOp::Lt, CmpOp::LtE]);
        assert_eq!(c.comparators.len(), 2);
    } else {
        panic!("expected Compare, got {:?}", value(0));
    }
    assert!(matches!(value(1), Expr::NumberLiteral(n) if matches!(n.value, Number::Int(1000))));
    assert!(matches!(value(2), Expr::StringLiteral(s) if s.value == "ab"));
    assert!(matches!(value(3), Expr::FString(_)));
    assert!(matches!(value(4), Expr::ListComp(l) if l.generators.len() == 1 && l.generators[0].ifs.len() == 1));
    assert!(matches!(value(5), Expr::DictComp(_)));
    assert!(matches!(value(6), Expr::If(_)));
    assert!(matches!(value(7), Expr::Lambda(l) if l.parameters.is_some()));
    assert!(matches!(value(8), Expr::Compare(c) if c.ops == vec![CmpOp::In]));
    assert!(matches!(value(9), Expr::Compare(c) if c.ops == vec![CmpOp::Is]));
}

#[test]
fn integer_literals_read_as_i64_or_zero() {
    let m = parse_python("a = 9223372036854775807\nb = 9223372036854775808\nc = 1_000_000\nd = 0x1F\ne = -5\n").unwrap();
    let value = |i: usize| match &m.body[i] {
        Stmt::Assign(a) => match &*a.value {
            Expr::NumberLiteral(n) => match n.value {
                Number::Int(v) => v,
                _ => panic!("expected an integer"),
            },
            other => panic!("expected a number, got {:?}", other),
        },
        other => panic!("expected an assignment, got {:?}", other),
    };
    assert_eq!(value(0), i64::MAX);
    assert_eq!(value(1), 0);
    assert_eq!(value(2), 1_000_000);
    assert_eq!(value(3), 0);
    assert!(matches!(&m.body[4], Stmt::Assign(a) if matches!(&*a.value, Expr::UnaryOp(_))));
}

// ── Walks ───────────────────────────────────────────────────────────

#[test]
fn walk_lists_children_in_order() {
    let m = parse_python("f(a, *b, k=c)\nif t:\n    pass\nelse:\n    pass\n").unwrap();
    if let Stmt::Expr(e) = &m.body[0] {
        let visits = expr_visits_of(&e.value);
        let names: Vec<String> = visits
            .iter()
            .map(|v| match v {
                Visit::Expr(Expr::Name(n)) => n.id.clone(),
                Visit::Expr(Expr::Starred(_)) => "*".to_string(),
                Visit::Expr(_) => "?".to_string(),
                Visit::Body(_) => "body".to_string(),
            })
            .collect();
        assert_eq!(names, vec!["f", "a", "*", "c"]);
    } else {
        panic!("expected Expr statement");
    }
    let visits = stmt_visits_of(&m.body[1]);
    assert_eq!(visits.len(), 3);
    assert!(matches!(visits[0], Visit::Expr(_)));
    assert!(matches!(visits[1], Visit::Body(_)));
    assert!(matches!(visits[2], Visit::Body(_)));
}

#[test]
fn walk_visits_lambda_parameters_then_body() {
    let m = parse_python("lambda x=d, *a, k=e: b\n").unwrap();
    if let Stmt::Expr(e) = &m.body[0] {
        let visits = expr_visits_of(&e.value);
        let names: Vec<String> = visits
            .iter()
            .map(|v| match v {
                Visit::Expr(Expr::Name(n)) => n.id.clone(),
                Visit::Expr(_) => "?".to_string(),
                Visit::Body(_) => "body".to_string(),
            })
            .collect();
        assert_eq!(names, vec!["d", "e", "b"]);
    } else {
        panic!("expected Expr statement");
    }
}

#[test]
fn looser_checks_show_more() {
    let c = ThornConfig::from_pyproject_text("");
    let sample = || {
        vec![
            Diagnostic::new("A", "m", "a.py").with_level(Level::Fix),
            Diagnostic::new("B", "m", "b.py").with_level(Level::Improve),
            Diagnostic::new("C", "m", "c.py").with_level(Level::All),
        ]
    };
    let fix = refine_diagnostics(sample(), "fix", &c, vec![], "");
    let improve = refine_diagnostics(sample(), "improve", &c, vec![], "");
    let all = refine_diagnostics(sample(), "all", &c, vec![], "");
    assert_eq!(fix.len(), 1);
    assert_eq!(improve.len(), 2);
    assert_eq!(all.len(), 3);
    assert_eq!(fix[0].code, "A");
}
