//! The linter engine: it holds the registered plugins and the application
//! graph, runs the checks over each source, and places, filters and orders
//! what they report.

use vstd::prelude::*;
use vstd::string::StringSliceAdditionalSpecFns;
use vstd::utf8::is_char_boundary;
use crate::diagnostic::{Diagnostic, Level, line_at, col_at};
use crate::graph::AppGraph;
use crate::plugin::{AstCheck, CheckContext, GraphCheck, Plugin};
use crate::python::{parse_python_clean, parses_cleanly};
use crate::suppress::{filter_suppressed, unsuppressed};
use crate::text::lines_spec;

verus! {

// ── Placing and filtering ───────────────────────────────────────────

/// A diagnostic with its line and column set from the start of its range in a
/// text with bytes `b`: left as it is where it has no range, where the range
/// starts past the end of the text, or where it starts inside a character.
pub open spec fn located(d: Diagnostic, b: Seq<u8>) -> Diagnostic {
    match d.range {
        Some(r) => if r.start <= b.len() && is_char_boundary(b, r.start as int) {
            Diagnostic {
                line: Some(line_at(b, r.start as int) as u32),
                col: Some(col_at(b, r.start as int) as u32),
                ..d
            }
        } else {
            d
        },
        None => d,
    }
}

/// Each diagnostic of `ds` located in a text with bytes `b`.
pub open spec fn located_all(ds: Seq<Diagnostic>, b: Seq<u8>) -> Seq<Diagnostic> {
    ds.map_values(|d: Diagnostic| located(d, b))
}

/// What the linter makes of the raw findings for a source: each located,
/// then those that a comment suppresses left out.
pub open spec fn finalized(raw: Seq<Diagnostic>, source: &str) -> Seq<Diagnostic> {
    unsuppressed(located_all(raw, source.spec_bytes()), lines_spec(source@))
}

/// Each diagnostic of `ds` at level `level`.
pub open spec fn at_level(ds: Seq<Diagnostic>, level: Level) -> Seq<Diagnostic> {
    ds.map_values(|d: Diagnostic| Diagnostic { level, ..d })
}

/// Locates each diagnostic in `source`, then drops those that a comment on
/// their line suppresses.
pub fn finalize_diagnostics(raw: Vec<Diagnostic>, source: &str) -> (r: Vec<Diagnostic>)
    ensures
        r@ == finalized(raw@, source),
{
    let ghost b = source.spec_bytes();
    let mut ds = raw;
    let ghost orig = ds@;
    let mut i: usize = 0;
    let bytes_len = source.as_bytes().len();
    while i < ds.len()
        invariant
            b == source.spec_bytes(),
            bytes_len == b.len(),
            ds@.len() == orig.len(),
            i <= ds@.len(),
            forall|k: int| 0 <= k < i ==> #[trigger] ds@[k] == located(orig[k], b),
            forall|k: int| i <= k < ds@.len() ==> #[trigger] ds@[k] == orig[k],
        decreases ds@.len() - i,
    {
        let ok = match ds[i].range {
            Some(r) => (r.start as usize) <= bytes_len && source.is_char_boundary(r.start as usize),
            None => false,
        };
        if ok {
            let mut d = ds.remove(i);
            d.resolve_location(source);
            ds.insert(i, d);
        }
        i = i + 1;
    }
    assert(ds@ =~= located_all(orig, b));
    filter_suppressed(&mut ds, source);
    ds
}

/// One check's findings at that check's level, check after check.
pub open spec fn check_findings(batch: Seq<(Seq<Diagnostic>, Level)>) -> Seq<Diagnostic>
    decreases batch.len(),
{
    if batch.len() == 0 {
        Seq::empty()
    } else {
        check_findings(batch.drop_last()) + at_level(batch.last().0, batch.last().1)
    }
}

/// The findings of each plugin's checks, plugin after plugin: `batches[p]`
/// holds what each check of plugin `p` returned, with that check's level.
pub open spec fn collected(batches: Seq<Seq<(Seq<Diagnostic>, Level)>>) -> Seq<Diagnostic>
    decreases batches.len(),
{
    if batches.len() == 0 {
        Seq::empty()
    } else {
        collected(batches.drop_last()) + check_findings(batches.last())
    }
}

/// Running two groups of checks one after the other gives the findings of the
/// first group, then those of the second; one check alone gives its own
/// findings at its level. Together these fix what the checks' findings are.
pub proof fn lemma_check_findings_compose(a: Seq<(Seq<Diagnostic>, Level)>, b: Seq<(Seq<Diagnostic>, Level)>, found: Seq<Diagnostic>, level: Level)
    ensures
        check_findings(a + b) == check_findings(a) + check_findings(b),
        check_findings(seq![(found, level)]) == at_level(found, level),
    decreases b.len(),
{
    if b.len() == 0 {
        assert(a + b =~= a);
        assert(check_findings(a) + check_findings(b) =~= check_findings(a));
    } else {
        lemma_check_findings_compose(a, b.drop_last(), found, level);
        assert((a + b).drop_last() =~= a + b.drop_last());
        assert((a + b).last() == b.last());
    }
    let one = seq![(found, level)];
    assert(one.drop_last() =~= Seq::<(Seq<Diagnostic>, Level)>::empty());
    assert(check_findings(one.drop_last()) == Seq::<Diagnostic>::empty());
    assert(one.last() == (found, level));
    assert(check_findings(one) == check_findings(one.drop_last()) + at_level(found, level));
    assert(Seq::<Diagnostic>::empty() + at_level(found, level) =~= at_level(found, level));
}

/// Linting with two groups of plugins one after the other gives the findings
/// of the first group, then those of the second; one plugin alone gives the
/// findings of its checks.
pub proof fn lemma_collected_compose(a: Seq<Seq<(Seq<Diagnostic>, Level)>>, b: Seq<Seq<(Seq<Diagnostic>, Level)>>, one: Seq<(Seq<Diagnostic>, Level)>)
    ensures
        collected(a + b) == collected(a) + collected(b),
        collected(seq![one]) == check_findings(one),
    decreases b.len(),
{
    if b.len() == 0 {
        assert(a + b =~= a);
        assert(collected(a) + collected(b) =~= collected(a));
    } else {
        lemma_collected_compose(a, b.drop_last(), one);
        assert((a + b).drop_last() =~= a + b.drop_last());
        assert((a + b).last() == b.last());
    }
    let s = seq![one];
    assert(s.drop_last() =~= Seq::<Seq<(Seq<Diagnostic>, Level)>>::empty());
    assert(collected(s.drop_last()) == Seq::<Diagnostic>::empty());
    assert(s.last() == one);
    assert(collected(s) == collected(s.drop_last()) + check_findings(one));
    assert(Seq::<Diagnostic>::empty() + check_findings(one) =~= check_findings(one));
}

/// The model of what the checks returned: each check's findings, with its level.
pub open spec fn batch_m(outs: Seq<(Vec<Diagnostic>, Level)>) -> Seq<(Seq<Diagnostic>, Level)> {
    outs.map_values(|o: (Vec<Diagnostic>, Level)| (o.0@, o.1))
}

/// Runs every module check, in order: one entry per check, holding what the
/// check returned for `ctx` and the check's level.
pub fn run_ast_checks(checks: &Vec<Box<dyn AstCheck>>, ctx: &CheckContext) -> (r: Vec<(Vec<Diagnostic>, Level)>)
    ensures
        r@.len() == checks@.len(),
{
    let mut out: Vec<(Vec<Diagnostic>, Level)> = Vec::new();
    let mut c: usize = 0;
    while c < checks.len()
        invariant
            c <= checks@.len(),
            out@.len() == c,
        decreases checks@.len() - c,
    {
        let level = checks[c].level();
        let found = checks[c].check(ctx);
        out.push((found, level));
        c = c + 1;
    }
    out
}

/// Runs every graph check, in order: one entry per check, holding what the
/// check returned for `graph` and the check's level.
pub fn run_graph_checks(checks: &Vec<Box<dyn GraphCheck>>, graph: &AppGraph) -> (r: Vec<(Vec<Diagnostic>, Level)>)
    ensures
        r@.len() == checks@.len(),
{
    let mut out: Vec<(Vec<Diagnostic>, Level)> = Vec::new();
    let mut c: usize = 0;
    while c < checks.len()
        invariant
            c <= checks@.len(),
            out@.len() == c,
        decreases checks@.len() - c,
    {
        let level = checks[c].level();
        let found = checks[c].check(graph);
        out.push((found, level));
        c = c + 1;
    }
    out
}

/// Each check's findings at that check's level, check after check.
pub fn leveled_findings(outs: Vec<(Vec<Diagnostic>, Level)>) -> (r: Vec<Diagnostic>)
    ensures
        r@ == check_findings(batch_m(outs@)),
{
    let ghost orig = batch_m(outs@);
    let ghost n = outs@.len();
    let mut rest = outs;
    let mut r: Vec<Diagnostic> = Vec::new();
    let ghost mut k: int = 0;
    assert(orig.take(0) =~= Seq::<(Seq<Diagnostic>, Level)>::empty());
    while rest.len() > 0
        invariant
            orig.len() == n,
            0 <= k <= n,
            rest@.len() == n - k,
            batch_m(rest@) == orig.subrange(k, n as int),
            r@ == check_findings(orig.take(k)),
        decreases rest@.len(),
    {
        assert(batch_m(rest@)[0] == orig[k]);
        let ghost before = rest@;
        let (mut found, level) = rest.remove(0);
        assert(rest@ =~= before.subrange(1, before.len() as int));
        assert forall|j: int| 0 <= j < rest@.len() implies #[trigger] batch_m(rest@)[j] == orig[k + 1 + j] by {
            assert(rest@[j] == before[j + 1]);
            assert(batch_m(before)[j + 1] == orig.subrange(k, n as int)[j + 1]);
        }
        assert(batch_m(rest@) =~= orig.subrange(k + 1, n as int));
        set_levels(&mut found, level);
        r.append(&mut found);
        proof {
            assert(orig.take(k + 1).drop_last() =~= orig.take(k));
            assert(orig.take(k + 1).last() == orig[k]);
            k = k + 1;
        }
    }
    assert(orig.take(n as int) =~= orig);
    r
}

/// The parts one after another.
pub open spec fn joined(parts: Seq<Seq<Diagnostic>>) -> Seq<Diagnostic>
    decreases parts.len(),
{
    if parts.len() == 0 {
        Seq::empty()
    } else {
        joined(parts.drop_last()) + parts.last()
    }
}

/// Sets the level of each diagnostic to `level`.
pub fn set_levels(ds: &mut Vec<Diagnostic>, level: Level)
    ensures
        final(ds)@ == at_level(old(ds)@, level),
{
    let ghost orig = ds@;
    let mut i: usize = 0;
    while i < ds.len()
        invariant
            ds@.len() == orig.len(),
            i <= ds@.len(),
            forall|k: int| 0 <= k < i ==> #[trigger] ds@[k] == (Diagnostic { level, ..orig[k] }),
            forall|k: int| i <= k < ds@.len() ==> #[trigger] ds@[k] == orig[k],
        decreases ds@.len() - i,
    {
        let mut d = ds.remove(i);
        d.level = level;
        ds.insert(i, d);
        i = i + 1;
    }
    assert(ds@ =~= at_level(orig, level));
}

// ── Ordering ────────────────────────────────────────────────────────

/// `a` comes no later than `b` in lexicographic order of code points.
pub open spec fn text_le(a: Seq<char>, b: Seq<char>) -> bool
    decreases a.len(),
{
    if a.len() == 0 {
        true
    } else if b.len() == 0 {
        false
    } else if a[0] != b[0] {
        a[0] < b[0]
    } else {
        text_le(a.drop_first(), b.drop_first())
    }
}

/// Where a diagnostic's range starts, if it has one.
pub open spec fn start_key(d: Diagnostic) -> Option<u32> {
    match d.range {
        Some(r) => Some(r.start),
        None => None,
    }
}

/// `None` first, then starts in increasing order.
pub open spec fn start_le(a: Option<u32>, b: Option<u32>) -> bool {
    match (a, b) {
        (None, _) => true,
        (Some(_), None) => false,
        (Some(x), Some(y)) => x <= y,
    }
}

/// The order of the linter's output: by file name, then by where the range starts.
pub open spec fn key_le(a: Diagnostic, b: Diagnostic) -> bool {
    if a.filename@ == b.filename@ {
        start_le(start_key(a), start_key(b))
    } else {
        text_le(a.filename@, b.filename@)
    }
}

/// The position at which `x` goes into the ordered `s`: before the first
/// element that comes strictly after it.
pub open spec fn insert_position(s: Seq<Diagnostic>, x: Diagnostic) -> int {
    match crate::graph::first_index(s, after(x)) {
        Some(j) => j,
        None => s.len() as int,
    }
}

/// An element that comes strictly after `x`.
pub open spec fn after(x: Diagnostic) -> spec_fn(Diagnostic) -> bool {
    |y: Diagnostic| !key_le(y, x)
}

/// The stable ordering of `ds`: each diagnostic in turn placed after those
/// before it that come no later.
pub open spec fn sorted_diagnostics(ds: Seq<Diagnostic>) -> Seq<Diagnostic>
    decreases ds.len(),
{
    if ds.len() == 0 {
        Seq::empty()
    } else {
        let s = sorted_diagnostics(ds.drop_last());
        s.insert(insert_position(s, ds.last()), ds.last())
    }
}

fn text_le_exec(a: &str, b: &str) -> (r: bool)
    ensures
        r == text_le(a@, b@),
{
    let x = crate::text::chars_of(a);
    let y = crate::text::chars_of(b);
    let mut i: usize = 0;
    assert(x@.skip(0) =~= x@);
    assert(y@.skip(0) =~= y@);
    while i < x.len() && i < y.len() && x[i] == y[i]
        invariant
            i <= x@.len(),
            i <= y@.len(),
            text_le(x@, y@) == text_le(x@.skip(i as int), y@.skip(i as int)),
        decreases x@.len() - i,
    {
        assert(x@.skip(i as int).drop_first() =~= x@.skip(i + 1));
        assert(y@.skip(i as int).drop_first() =~= y@.skip(i + 1));
        i = i + 1;
    }
    if i == x.len() {
        true
    } else if i == y.len() {
        false
    } else {
        assert(x@.skip(i as int)[0] == x@[i as int]);
        assert(y@.skip(i as int)[0] == y@[i as int]);
        x[i] < y[i]
    }
}

fn key_le_exec(a: &Diagnostic, b: &Diagnostic) -> (r: bool)
    ensures
        r == key_le(*a, *b),
{
    if crate::text::str_eq(a.filename.as_str(), b.filename.as_str()) {
        match (a.range, b.range) {
            (None, _) => true,
            (Some(_), None) => false,
            (Some(x), Some(y)) => x.start <= y.start,
        }
    } else {
        text_le_exec(a.filename.as_str(), b.filename.as_str())
    }
}

/// Orders diagnostics by file name, then by where their range starts (those
/// without a range first), keeping the input order among equal keys.
pub fn sort_diagnostics(ds: Vec<Diagnostic>) -> (r: Vec<Diagnostic>)
    ensures
        r@ == sorted_diagnostics(ds@),
{
    let ghost all = ds@;
    let mut pending = ds;
    let mut reversed: Vec<Diagnostic> = Vec::new();
    while pending.len() > 0
        invariant
            all == pending@ + reversed@.reverse(),
        decreases pending@.len(),
    {
        let d = pending.pop().unwrap();
        proof {
            assert(pending@.push(d) + reversed@.reverse() =~= pending@ + reversed@.push(d).reverse());
        }
        reversed.push(d);
    }
    assert(all =~= reversed@.reverse());
    let ghost total = all.len();
    assert forall|j: int| 0 <= j < reversed@.len() implies #[trigger] reversed@[j] == all[total - 1 - j] by {
        assert(reversed@.reverse()[total - 1 - j] == reversed@[j]);
    }
    let mut out: Vec<Diagnostic> = Vec::new();
    assert(all.subrange(0, 0) =~= Seq::<Diagnostic>::empty());
    while reversed.len() > 0
        invariant
            total == all.len(),
            reversed@.len() <= total,
            forall|j: int| 0 <= j < reversed@.len() ==> #[trigger] reversed@[j] == all[total - 1 - j],
            out@ == sorted_diagnostics(all.subrange(0, total - reversed@.len())),
        decreases reversed@.len(),
    {
        let ghost before = total - reversed@.len();
        let d = reversed.pop().unwrap();
        assert(d == all[before]);
        let ghost p = after(d);
        let mut j: usize = 0;
        while j < out.len() && key_le_exec(&out[j], &d)
            invariant
                p == after(d),
                j <= out@.len(),
                forall|k: int| 0 <= k < j ==> !p(#[trigger] out@[k]),
            decreases out@.len() - j,
        {
            j = j + 1;
        }
        proof {
            crate::graph::lemma_first_index_is(out@, p, j as int);
            assert(all.subrange(0, before + 1).drop_last() =~= all.subrange(0, before));
            assert(all.subrange(0, before + 1).last() == d);
        }
        out.insert(j, d);
    }
    assert(all.subrange(0, total as int) =~= all);
    out
}

// ── The linter ──────────────────────────────────────────────────────

/// Appends `x`: the length grows by one and the earlier items stay.
fn push_keeping<T>(v: &mut Vec<T>, x: T)
    ensures
        final(v)@.len() == old(v)@.len() + 1,
        final(v)@.take(old(v)@.len() as int) == old(v)@,
{
    v.push(x);
    assert(v@.take(old(v)@.len() as int) =~= old(v)@);
}

/// The main linter engine: the registered plugins, the application graph, and
/// the exclude patterns of directory walks.
pub struct Linter {
    plugins: Vec<Box<dyn Plugin>>,
    graph: AppGraph,
    exclude_patterns: Vec<String>,
}

impl Linter {
    /// The number of registered plugins.
    pub closed spec fn plugin_count(self) -> nat {
        self.plugins@.len()
    }

    /// The registered plugins, in order.
    pub closed spec fn plugins(self) -> Seq<Box<dyn Plugin>> {
        self.plugins@
    }

    /// The exclude patterns.
    pub closed spec fn excludes(self) -> Seq<String> {
        self.exclude_patterns@
    }

    /// The application graph the checks run against.
    pub closed spec fn graph_view(self) -> AppGraph {
        self.graph
    }

    /// A linter over `graph` with no plugins and no excludes.
    pub fn new(graph: AppGraph) -> (r: Linter)
        ensures
            r.plugin_count() == 0,
            r.excludes().len() == 0,
            r.graph_view() == graph,
    {
        Linter { plugins: Vec::new(), graph, exclude_patterns: Vec::new() }
    }

    /// The exclude patterns of directory walks.
    pub fn exclude_patterns(&self) -> (r: &Vec<String>)
        ensures
            r@ == self.excludes(),
    {
        &self.exclude_patterns
    }

    /// Sets the glob patterns that directory walks exclude (e.g. `"*/migrations/*"`).
    pub fn set_excludes(&mut self, patterns: Vec<String>)
        ensures
            final(self).excludes() == patterns@,
            final(self).plugin_count() == old(self).plugin_count(),
            final(self).graph_view() == old(self).graph_view(),
    {
        self.exclude_patterns = patterns;
    }

    /// Registers a plugin, after letting it see the graph: the plugins held
    /// before stay, in order, and the new one comes last.
    pub fn register(&mut self, plugin: Box<dyn Plugin>)
        ensures
            final(self).plugin_count() == old(self).plugin_count() + 1,
            final(self).plugins().take(old(self).plugin_count() as int) == old(self).plugins(),
            final(self).excludes() == old(self).excludes(),
            final(self).graph_view() == old(self).graph_view(),
    {
        let mut plugin = plugin;
        plugin.on_graph_ready(&self.graph);
        push_keeping(&mut self.plugins, plugin);
    }

    /// Lints one source text: parses it, runs every plugin's module checks
    /// (each finding at its check's level), locates the findings and drops
    /// those that a comment suppresses. A source with a syntax error gives
    /// no diagnostics.
    pub fn lint_source(&self, source: &str, filename: &str) -> (r: Vec<Diagnostic>)
        ensures
            !parses_cleanly(source@) ==> r@.len() == 0,
            parses_cleanly(source@) ==> exists|batches: Seq<Seq<(Seq<Diagnostic>, Level)>>|
                batches.len() == self.plugin_count() && r@ == finalized(collected(batches), source),
    {
        let module = match parse_python_clean(source) {
            Some(m) => m,
            None => return Vec::new(),
        };
        let ctx = CheckContext { module: &module, source, filename, graph: &self.graph };
        let mut diagnostics: Vec<Diagnostic> = Vec::new();
        let ghost mut batches: Seq<Seq<(Seq<Diagnostic>, Level)>> = Seq::empty();
        let mut p: usize = 0;
        while p < self.plugins.len()
            invariant
                p <= self.plugins@.len(),
                batches.len() == p,
                diagnostics@ == collected(batches),
            decreases self.plugins@.len() - p,
        {
            let checks = self.plugins[p].ast_checks();
            let outs = run_ast_checks(&checks, &ctx);
            let ghost current = batch_m(outs@);
            let mut found = leveled_findings(outs);
            diagnostics.append(&mut found);
            proof {
                assert(batches.push(current).drop_last() =~= batches);
                batches = batches.push(current);
            }
            p = p + 1;
        }
        finalize_diagnostics(diagnostics, source)
    }

    /// What every plugin's graph checks report, plugin by plugin and check by
    /// check, each finding at its check's level.
    pub fn graph_diagnostics(&self) -> (r: Vec<Diagnostic>)
        ensures
            exists|batches: Seq<Seq<(Seq<Diagnostic>, Level)>>|
                batches.len() == self.plugin_count() && r@ == collected(batches),
    {
        let mut diagnostics: Vec<Diagnostic> = Vec::new();
        let ghost mut batches: Seq<Seq<(Seq<Diagnostic>, Level)>> = Seq::empty();
        let mut p: usize = 0;
        while p < self.plugins.len()
            invariant
                p <= self.plugins@.len(),
                batches.len() == p,
                diagnostics@ == collected(batches),
            decreases self.plugins@.len() - p,
        {
            let checks = self.plugins[p].graph_checks();
            let outs = run_graph_checks(&checks, &self.graph);
            let ghost current = batch_m(outs@);
            let mut found = leveled_findings(outs);
            diagnostics.append(&mut found);
            proof {
                assert(batches.push(current).drop_last() =~= batches);
                batches = batches.push(current);
            }
            p = p + 1;
        }
        diagnostics
    }

    /// The diagnostics of a directory walk: what the files gave, then what
    /// the graph checks reported, ordered by file and position.
    pub fn finish_dir(file_diagnostics: Vec<Diagnostic>, graph_found: Vec<Diagnostic>) -> (r: Vec<Diagnostic>)
        ensures
            r@ == sorted_diagnostics(file_diagnostics@ + graph_found@),
    {
        let mut all = file_diagnostics;
        let mut found = graph_found;
        all.append(&mut found);
        sort_diagnostics(all)
    }

    /// What every plugin's project checks report for the project at `dir`,
    /// plugin by plugin, as they reported it.
    pub fn project_diagnostics(&self, dir: &str, toml_content: &str) -> (r: Vec<Diagnostic>)
        ensures
            exists|found: Seq<Seq<Diagnostic>>| found.len() == self.plugin_count() && r@ == joined(found),
    {
        let mut diagnostics: Vec<Diagnostic> = Vec::new();
        let ghost mut parts: Seq<Seq<Diagnostic>> = Seq::empty();
        let mut p: usize = 0;
        while p < self.plugins.len()
            invariant
                p <= self.plugins@.len(),
                parts.len() == p,
                diagnostics@ == joined(parts),
            decreases self.plugins@.len() - p,
        {
            let mut found = self.plugins[p].project_checks(dir, toml_content);
            let ghost came = found@;
            diagnostics.append(&mut found);
            proof {
                assert(parts.push(came).drop_last() =~= parts);
                parts = parts.push(came);
            }
            p = p + 1;
        }
        diagnostics
    }

    /// The name and rule prefix of each registered plugin, in order.
    pub fn plugin_summary(&self) -> (r: Vec<(&'static str, &'static str)>)
        ensures
            r@.len() == self.plugin_count(),
    {
        let mut out: Vec<(&'static str, &'static str)> = Vec::new();
        let mut p: usize = 0;
        while p < self.plugins.len()
            invariant
                p <= self.plugins@.len(),
                out@.len() == p,
            decreases self.plugins@.len() - p,
        {
            out.push((self.plugins[p].name(), self.plugins[p].prefix()));
            p = p + 1;
        }
        out
    }

    /// Each registered plugin's framework-specific excludes, in order.
    pub fn plugin_config_excludes(&self, toml_content: &str) -> (r: Vec<Vec<String>>)
        ensures
            r@.len() == self.plugin_count(),
    {
        let mut out: Vec<Vec<String>> = Vec::new();
        let mut p: usize = 0;
        while p < self.plugins.len()
            invariant
                p <= self.plugins@.len(),
                out@.len() == p,
            decreases self.plugins@.len() - p,
        {
            out.push(self.plugins[p].read_config_excludes(toml_content));
            p = p + 1;
        }
        out
    }
}

/// The linter's output is ordered: each diagnostic comes no later than the
/// next, by file name and then by where its range starts.
#[verifier::spinoff_prover]
#[verifier::rlimit(40)]
pub proof fn lemma_sorted_is_ordered(ds: Seq<Diagnostic>)
    ensures
        forall|i: int| 0 <= i < sorted_diagnostics(ds).len() - 1 ==>
            key_le(#[trigger] sorted_diagnostics(ds)[i], sorted_diagnostics(ds)[i + 1]),
    decreases ds.len(),
{
    if ds.len() > 0 {
        lemma_sorted_is_ordered(ds.drop_last());
        let s = sorted_diagnostics(ds.drop_last());
        let x = ds.last();
        let p = insert_position(s, x);
        crate::graph::lemma_first_index(s, after(x));
        let t = s.insert(p, x);
        assert forall|i: int| 0 <= i < t.len() - 1 implies key_le(#[trigger] t[i], t[i + 1]) by {
            if i + 1 < p {
                assert(t[i] == s[i] && t[i + 1] == s[i + 1]);
            } else if i + 1 == p {
                assert(t[i] == s[i] && t[i + 1] == x);
                assert(!after(x)(s[i]));
            } else if i == p {
                assert(t[i] == x && t[i + 1] == s[p]);
                assert(after(x)(s[p]));
                lemma_key_total(s[p], x);
            } else {
                assert(t[i] == s[i - 1] && t[i + 1] == s[i]);
            }
        }
    }
}

/// Any two diagnostics are ordered one way or the other.
pub proof fn lemma_key_total(a: Diagnostic, b: Diagnostic)
    ensures
        key_le(a, b) || key_le(b, a),
{
    if a.filename@ != b.filename@ {
        lemma_text_total(a.filename@, b.filename@);
    }
}

proof fn lemma_text_total(a: Seq<char>, b: Seq<char>)
    ensures
        text_le(a, b) || text_le(b, a),
    decreases a.len(),
{
    if a.len() > 0 && b.len() > 0 && a[0] == b[0] {
        lemma_text_total(a.drop_first(), b.drop_first());
    }
}

/// `a` comes no later than `b` in dictionary order of code points: up to
/// some position the two agree, and there `a` ends or holds the smaller character.
pub open spec fn name_precedes(a: Seq<char>, b: Seq<char>) -> bool {
    exists|k: int|
        0 <= k <= a.len() && k <= b.len() && #[trigger] a.subrange(0, k) == b.subrange(0, k)
            && (k == a.len() || (k < b.len() && a[k] < b[k]))
}

proof fn lemma_text_le_precedes(a: Seq<char>, b: Seq<char>)
    requires
        text_le(a, b),
    ensures
        name_precedes(a, b),
    decreases a.len(),
{
    if a.len() == 0 {
        assert(a.subrange(0, 0) =~= b.subrange(0, 0));
    } else if a[0] != b[0] {
        assert(a.subrange(0, 0) =~= b.subrange(0, 0));
    } else {
        lemma_text_le_precedes(a.drop_first(), b.drop_first());
        let k = choose|k: int|
            0 <= k <= a.drop_first().len() && k <= b.drop_first().len()
                && #[trigger] a.drop_first().subrange(0, k) == b.drop_first().subrange(0, k)
                && (k == a.drop_first().len() || (k < b.drop_first().len() && a.drop_first()[k] < b.drop_first()[k]));
        assert(a.subrange(0, k + 1) =~= seq![a[0]] + a.drop_first().subrange(0, k));
        assert(b.subrange(0, k + 1) =~= seq![b[0]] + b.drop_first().subrange(0, k));
        assert(a.subrange(0, k + 1) == b.subrange(0, k + 1));
    }
}

/// The linter's output comes in dictionary order of file names, and within a
/// file those without a range come first, then by where the range starts.
#[verifier::spinoff_prover]
pub proof fn lemma_sorted_by_file_then_start(ds: Seq<Diagnostic>)
    ensures
        forall|i: int| 0 <= i < sorted_diagnostics(ds).len() - 1 ==>
            name_precedes(#[trigger] sorted_diagnostics(ds)[i].filename@, sorted_diagnostics(ds)[i + 1].filename@),
        forall|i: int| 0 <= i < sorted_diagnostics(ds).len() - 1
            && #[trigger] sorted_diagnostics(ds)[i].filename@ == sorted_diagnostics(ds)[i + 1].filename@ ==>
            match (sorted_diagnostics(ds)[i].range, sorted_diagnostics(ds)[i + 1].range) {
                (Some(x), Some(y)) => x.start <= y.start,
                (Some(_), None) => false,
                _ => true,
            },
{
    lemma_sorted_is_ordered(ds);
    let s = sorted_diagnostics(ds);
    assert forall|i: int| 0 <= i < s.len() - 1 implies name_precedes(#[trigger] s[i].filename@, s[i + 1].filename@) by {
        assert(key_le(s[i], s[i + 1]));
        if s[i].filename@ == s[i + 1].filename@ {
            let a = s[i].filename@;
            assert(a.subrange(0, a.len() as int) == s[i + 1].filename@.subrange(0, a.len() as int));
        } else {
            lemma_text_le_precedes(s[i].filename@, s[i + 1].filename@);
        }
    }
    assert forall|i: int| 0 <= i < s.len() - 1 && #[trigger] s[i].filename@ == s[i + 1].filename@ implies
        match (s[i].range, s[i + 1].range) {
            (Some(x), Some(y)) => x.start <= y.start,
            (Some(_), None) => false,
            _ => true,
        } by {
        assert(key_le(s[i], s[i + 1]));
    }
}

/// Ordering keeps every diagnostic, each as often as it came.
#[verifier::spinoff_prover]
pub proof fn lemma_sorted_is_permutation(ds: Seq<Diagnostic>)
    ensures
        sorted_diagnostics(ds).to_multiset() == ds.to_multiset(),
    decreases ds.len(),
{
    broadcast use vstd::seq_lib::group_to_multiset_ensures;
    if ds.len() > 0 {
        lemma_sorted_is_permutation(ds.drop_last());
        let s = sorted_diagnostics(ds.drop_last());
        let x = ds.last();
        let p = insert_position(s, x);
        crate::graph::lemma_first_index(s, after(x));
        assert(s.insert(p, x) =~= s.subrange(0, p) + seq![x] + s.subrange(p, s.len() as int));
        vstd::seq_lib::lemma_multiset_commutative(s.subrange(0, p), seq![x] + s.subrange(p, s.len() as int));
        vstd::seq_lib::lemma_multiset_commutative(seq![x], s.subrange(p, s.len() as int));
        vstd::seq_lib::lemma_multiset_commutative(s.subrange(0, p), s.subrange(p, s.len() as int));
        assert(s.subrange(0, p) + s.subrange(p, s.len() as int) =~= s);
        assert(s.subrange(0, p) + seq![x] + s.subrange(p, s.len() as int) =~= s.subrange(0, p) + (seq![x] + s.subrange(p, s.len() as int)));
        assert(ds =~= ds.drop_last().push(x));
    }
}

} // verus!
