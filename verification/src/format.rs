//! Renderings of diagnostics for CI tools and people: GitLab Code Quality,
//! GitHub Actions workflow commands, SARIF v2.1.0, raw JSON and plain text.

use vstd::prelude::*;
use crate::diagnostic::{Diagnostic, Level};
use crate::json::{
    JsonM, JsonValue, json_m, items_m, entries_m, json_pretty, to_pretty, jstr, jnum,
    no_entries, no_items, put, append,
};
use crate::text::{
    push_char, trim_spec, lines_spec, lines_of, trim_bounds, sub_chars, string_of, views,
};

verus! {

// ── Decimal numbers ─────────────────────────────────────────────────

/// The decimal digit for `d < 10`.
pub open spec fn digit_char(d: nat) -> char {
    if d == 0 { '0' } else if d == 1 { '1' } else if d == 2 { '2' } else if d == 3 { '3' }
    else if d == 4 { '4' } else if d == 5 { '5' } else if d == 6 { '6' } else if d == 7 { '7' }
    else if d == 8 { '8' } else { '9' }
}

/// The decimal digits of `n`, without leading zeros.
pub open spec fn decimal(n: nat) -> Seq<char>
    decreases n,
{
    if n < 10 {
        seq![digit_char(n)]
    } else {
        decimal(n / 10).push(digit_char(n % 10))
    }
}

#[verifier::spinoff_prover]
fn digit_exec(d: u32) -> (c: char)
    requires
        d < 10,
    ensures
        c == digit_char(d as nat),
{
    if d == 0 { '0' } else if d == 1 { '1' } else if d == 2 { '2' } else if d == 3 { '3' }
    else if d == 4 { '4' } else if d == 5 { '5' } else if d == 6 { '6' } else if d == 7 { '7' }
    else if d == 8 { '8' } else { '9' }
}

/// Appends the decimal digits of `n`.
#[verifier::spinoff_prover]
pub fn push_decimal(out: &mut String, n: u32)
    ensures
        final(out)@ == old(out)@ + decimal(n as nat),
    decreases n,
{
    if n >= 10 {
        push_decimal(out, n / 10);
        let ghost mid = out@;
        push_char(out, digit_exec(n % 10));
        assert(out@ =~= old(out)@ + decimal(n as nat));
    } else {
        push_char(out, digit_exec(n));
        assert(out@ =~= old(out)@ + decimal(n as nat));
    }
}

// ── The diagnostic as one line ──────────────────────────────────────

/// `file:line:col: CODE message`, the line and column where they are known.
pub open spec fn display_text(d: Diagnostic) -> Seq<char> {
    match (d.line, d.col) {
        (Some(l), Some(c)) => d.filename@ + seq![':'] + decimal(l as nat) + seq![':'] + decimal(c as nat)
            + seq![':', ' '] + d.code@ + seq![' '] + d.message@,
        (Some(l), None) => d.filename@ + seq![':'] + decimal(l as nat) + seq![':', ' '] + d.code@ + seq![' '] + d.message@,
        _ => d.filename@ + seq![':', ' '] + d.code@ + seq![' '] + d.message@,
    }
}

impl Diagnostic {
    /// The diagnostic as one line: `file:line:col: CODE message`, leaving out
    /// the column, or the line and the column, where they are not known.
    pub fn to_display_string(&self) -> (r: String)
        ensures
            r@ == display_text(*self),
    {
        let mut out = String::new();
        out.append(self.filename.as_str());
        match self.line {
            Some(l) => {
                push_char(&mut out, ':');
                push_decimal(&mut out, l);
                match self.col {
                    Some(c) => {
                        push_char(&mut out, ':');
                        push_decimal(&mut out, c);
                    },
                    None => {},
                }
            },
            None => {},
        }
        push_char(&mut out, ':');
        push_char(&mut out, ' ');
        out.append(self.code.as_str());
        push_char(&mut out, ' ');
        out.append(self.message.as_str());
        assert(out@ =~= display_text(*self));
        out
    }
}

// ── GitHub Actions ──────────────────────────────────────────────────

/// The workflow command for a level.
pub open spec fn github_command(l: Level) -> Seq<char> {
    match l {
        Level::Fix => seq!['e', 'r', 'r', 'o', 'r'],
        Level::Improve => seq!['w', 'a', 'r', 'n', 'i', 'n', 'g'],
        Level::All => seq!['n', 'o', 't', 'i', 'c', 'e'],
    }
}

/// `::LEVEL file=F[,line=L][,col=C],title=CODE::MESSAGE` and a newline.
pub open spec fn github_line(d: Diagnostic) -> Seq<char> {
    seq![':', ':'] + github_command(d.level) + " file="@ + d.filename@
        + (match d.line { Some(l) => ",line="@ + decimal(l as nat), None => Seq::empty() })
        + (match d.col { Some(c) => ",col="@ + decimal(c as nat), None => Seq::empty() })
        + ",title="@ + d.code@ + "::"@ + d.message@ + seq!['\n']
}

/// The GitHub Actions annotations for `ds`, one line each, in order.
pub open spec fn github_text(ds: Seq<Diagnostic>) -> Seq<char>
    decreases ds.len(),
{
    if ds.len() == 0 {
        Seq::empty()
    } else {
        github_text(ds.drop_last()) + github_line(ds.last())
    }
}

#[verifier::spinoff_prover]
fn github_command_exec(l: Level) -> (r: &'static str)
    ensures
        r@ == github_command(l),
{
    proof {
        reveal_strlit("error");
        reveal_strlit("warning");
        reveal_strlit("notice");
    }
    match l {
        Level::Fix => "error",
        Level::Improve => "warning",
        Level::All => "notice",
    }
}

#[verifier::spinoff_prover]
fn push_github_line(out: &mut String, d: &Diagnostic)
    ensures
        final(out)@ == old(out)@ + github_line(*d),
{
    push_char(out, ':');
    push_char(out, ':');
    out.append(github_command_exec(d.level));
    out.append(" file=");
    out.append(d.filename.as_str());
    let ghost a = out@;
    match d.line {
        Some(l) => {
            out.append(",line=");
            push_decimal(out, l);
        },
        None => {},
    }
    let ghost b = out@;
    match d.col {
        Some(c) => {
            out.append(",col=");
            push_decimal(out, c);
        },
        None => {},
    }
    let ghost c = out@;
    out.append(",title=");
    out.append(d.code.as_str());
    out.append("::");
    out.append(d.message.as_str());
    push_char(out, '\n');
    proof {
        assert(b =~= a + (match d.line { Some(l) => ",line="@ + decimal(l as nat), None => Seq::empty() }));
        assert(c =~= b + (match d.col { Some(x) => ",col="@ + decimal(x as nat), None => Seq::empty() }));
        assert(out@ =~= old(out)@ + github_line(*d));
    }
}

/// GitHub Actions workflow commands, one line per diagnostic.
#[verifier::spinoff_prover]
pub fn github(diagnostics: &[Diagnostic]) -> (r: String)
    ensures
        r@ == github_text(diagnostics@),
{
    let mut out = String::new();
    let mut i: usize = 0;
    while i < diagnostics.len()
        invariant
            i <= diagnostics@.len(),
            out@ == github_text(diagnostics@.take(i as int)),
        decreases diagnostics@.len() - i,
    {
        push_github_line(&mut out, &diagnostics[i]);
        assert(diagnostics@.take(i + 1).drop_last() =~= diagnostics@.take(i as int));
        i = i + 1;
    }
    assert(diagnostics@.take(diagnostics@.len() as int) =~= diagnostics@);
    out
}

/// The number of newline characters in `s`.
pub open spec fn newline_chars(s: Seq<char>) -> nat
    decreases s.len(),
{
    if s.len() == 0 {
        0
    } else {
        newline_chars(s.drop_last()) + (if s.last() == '\n' { 1nat } else { 0nat })
    }
}

/// `s` holds no newline character.
pub open spec fn single_line(s: Seq<char>) -> bool {
    forall|i: int| 0 <= i < s.len() ==> s[i] != '\n'
}

proof fn lemma_newlines_add(a: Seq<char>, b: Seq<char>)
    ensures
        newline_chars(a + b) == newline_chars(a) + newline_chars(b),
    decreases b.len(),
{
    if b.len() == 0 {
        assert(a + b =~= a);
    } else {
        assert((a + b).drop_last() =~= a + b.drop_last());
        lemma_newlines_add(a, b.drop_last());
    }
}

proof fn lemma_single_line_count(s: Seq<char>)
    requires
        single_line(s),
    ensures
        newline_chars(s) == 0,
    decreases s.len(),
{
    if s.len() > 0 {
        lemma_single_line_count(s.drop_last());
    }
}

proof fn lemma_decimal_single_line(n: nat)
    ensures
        single_line(decimal(n)),
    decreases n,
{
    if n >= 10 {
        lemma_decimal_single_line(n / 10);
    }
}

proof fn lemma_github_line_one(d: Diagnostic)
    requires
        single_line(d.filename@),
        single_line(d.code@),
        single_line(d.message@),
    ensures
        newline_chars(github_line(d)) == 1,
{
    reveal_strlit(" file=");
    reveal_strlit(",line=");
    reveal_strlit(",col=");
    reveal_strlit(",title=");
    reveal_strlit("::");
    let line_part = match d.line { Some(l) => ",line="@ + decimal(l as nat), None => Seq::<char>::empty() };
    let col_part = match d.col { Some(c) => ",col="@ + decimal(c as nat), None => Seq::<char>::empty() };
    match d.line { Some(l) => lemma_decimal_single_line(l as nat), None => {} }
    match d.col { Some(c) => lemma_decimal_single_line(c as nat), None => {} }
    let body = seq![':', ':'] + github_command(d.level) + " file="@ + d.filename@ + line_part + col_part
        + ",title="@ + d.code@ + "::"@ + d.message@;
    assert(single_line(line_part));
    assert(single_line(col_part));
    assert(single_line(github_command(d.level)));
    assert(single_line(body));
    assert(github_line(d) =~= body + seq!['\n']);
    lemma_single_line_count(body);
    lemma_newlines_add(body, seq!['\n']);
    let nl = seq!['\n'];
    assert(nl.drop_last() =~= Seq::<char>::empty());
    assert(newline_chars(nl.drop_last()) == 0);
    assert(nl.last() == '\n');
    assert(newline_chars(nl) == 1);
}

/// GitHub output has one line per diagnostic: where no file name, code or
/// message holds a newline, the text holds exactly as many newlines as there
/// are diagnostics.
pub proof fn lemma_github_one_line_each(ds: Seq<Diagnostic>)
    requires
        forall|i: int| 0 <= i < ds.len() ==> single_line(#[trigger] ds[i].filename@) && single_line(ds[i].code@)
            && single_line(ds[i].message@),
    ensures
        newline_chars(github_text(ds)) == ds.len(),
    decreases ds.len(),
{
    if ds.len() > 0 {
        assert forall|i: int| 0 <= i < ds.drop_last().len() implies single_line(#[trigger] ds.drop_last()[i].filename@)
            && single_line(ds.drop_last()[i].code@) && single_line(ds.drop_last()[i].message@) by {
            assert(ds.drop_last()[i] == ds[i]);
        }
        lemma_github_one_line_each(ds.drop_last());
        assert(ds[ds.len() - 1] == ds.last());
        lemma_github_line_one(ds.last());
        lemma_newlines_add(github_text(ds.drop_last()), github_line(ds.last()));
    }
}

// ── GitLab Code Quality ─────────────────────────────────────────────

/// The Code Quality severity for a level.
pub open spec fn gitlab_severity(l: Level) -> Seq<char> {
    match l {
        Level::Fix => seq!['m', 'a', 'j', 'o', 'r'],
        Level::Improve => seq!['m', 'i', 'n', 'o', 'r'],
        Level::All => seq!['i', 'n', 'f', 'o'],
    }
}

/// The text hashed into a diagnostic's fingerprint: `file:CODE:line`, with
/// line 0 where the line is not known.
pub open spec fn fingerprint_input(d: Diagnostic) -> Seq<char> {
    d.filename@ + seq![':'] + d.code@ + seq![':'] + decimal(match d.line { Some(l) => l as nat, None => 0 })
}

/// The lowercase hexadecimal MD5 digest of the UTF-8 bytes of a text
/// (`format!("{:x}", md5::compute(..))`).
pub uninterp spec fn md5_hex(input: Seq<char>) -> Seq<char>;

/// The MD5 digest of a string's bytes in lowercase hexadecimal, with
/// `md5::compute` and the digest's `LowerHex` format. The contract claims that
/// the text is a function of the input (`md5_hex`) and, as the crate's source
/// shows (sixteen bytes, each written as two digits), that it is 32 lowercase
/// hexadecimal digits.
#[verifier::external_body]
#[verifier::spinoff_prover]
fn md5_hex_of(input: &str) -> (r: String)
    ensures
        r@ == md5_hex(input@),
        r@.len() == 32,
        forall|i: int| 0 <= i < 32 ==> (('0' <= #[trigger] r@[i] && r@[i] <= '9') || ('a' <= r@[i] && r@[i] <= 'f')),
{
    format!("{:x}", md5::compute(input.as_bytes()))
}

/// The fingerprint of a diagnostic: the MD5 digest of `file:CODE:line`.
#[verifier::spinoff_prover]
pub fn fingerprint(d: &Diagnostic) -> (r: String)
    ensures
        r@ == md5_hex(fingerprint_input(*d)),
        r@.len() == 32,
        forall|i: int| 0 <= i < 32 ==> (('0' <= #[trigger] r@[i] && r@[i] <= '9') || ('a' <= r@[i] && r@[i] <= 'f')),
{
    let mut input = String::new();
    input.append(d.filename.as_str());
    push_char(&mut input, ':');
    input.append(d.code.as_str());
    push_char(&mut input, ':');
    let line = match d.line { Some(l) => l, None => 0 };
    push_decimal(&mut input, line);
    assert(input@ =~= fingerprint_input(*d));
    md5_hex_of(input.as_str())
}

/// The line at which a Code Quality issue begins: the diagnostic's line, else 1.
pub open spec fn gitlab_begin(d: Diagnostic) -> nat {
    match d.line { Some(l) => l as nat, None => 1 }
}

/// The location of a Code Quality issue: the file and the line it begins at.
pub open spec fn gitlab_location(d: Diagnostic) -> JsonM {
    JsonM::Object(seq![
        ("path"@, JsonM::Str(d.filename@)),
        ("lines"@, JsonM::Object(seq![("begin"@, JsonM::Number(gitlab_begin(d)))])),
    ])
}

/// One Code Quality issue, with the given fingerprint.
pub open spec fn gitlab_issue(d: Diagnostic, fp: Seq<char>) -> JsonM {
    JsonM::Object(seq![
        ("description"@, JsonM::Str(d.code@ + ": "@ + d.message@)),
        ("check_name"@, JsonM::Str(d.code@)),
        ("fingerprint"@, JsonM::Str(fp)),
        ("severity"@, JsonM::Str(gitlab_severity(d.level))),
        ("location"@, gitlab_location(d)),
    ])
}

/// The Code Quality issues for `ds`, the fingerprint of each from `fps`.
pub open spec fn gitlab_issues(ds: Seq<Diagnostic>, fps: Seq<Seq<char>>) -> Seq<JsonM>
    decreases ds.len(),
{
    if ds.len() == 0 {
        Seq::empty()
    } else {
        gitlab_issues(ds.drop_last(), fps).push(gitlab_issue(ds.last(), fps[ds.len() - 1]))
    }
}

/// Issue `i` of the report is the issue of diagnostic `i` with fingerprint `i`,
/// and there is one issue per diagnostic.
pub proof fn lemma_gitlab_issue_per_diagnostic(ds: Seq<Diagnostic>, fps: Seq<Seq<char>>)
    requires
        fps.len() == ds.len(),
    ensures
        gitlab_issues(ds, fps).len() == ds.len(),
        forall|i: int| 0 <= i < ds.len() ==> #[trigger] gitlab_issues(ds, fps)[i] == gitlab_issue(ds[i], fps[i]),
{
    lemma_gitlab_issue_per_diagnostic_prefix(ds, fps);
}

/// `lemma_gitlab_issue_per_diagnostic` for fingerprints that may run past the diagnostics.
proof fn lemma_gitlab_issue_per_diagnostic_prefix(ds: Seq<Diagnostic>, fps: Seq<Seq<char>>)
    requires
        fps.len() >= ds.len(),
    ensures
        gitlab_issues(ds, fps).len() == ds.len(),
        forall|i: int| 0 <= i < ds.len() ==> #[trigger] gitlab_issues(ds, fps)[i] == gitlab_issue(ds[i], fps[i]),
    decreases ds.len(),
{
    if ds.len() > 0 {
        lemma_gitlab_issue_per_diagnostic_prefix(ds.drop_last(), fps);
        assert forall|i: int| 0 <= i < ds.len() implies #[trigger] gitlab_issues(ds, fps)[i] == gitlab_issue(ds[i], fps[i]) by {
            if i < ds.len() - 1 {
                assert(ds.drop_last()[i] == ds[i]);
            }
        }
    }
}

/// In the GitLab report, the fingerprint of issue `i` is the MD5 digest of
/// diagnostic `i`'s own `file:CODE:line`.
pub proof fn lemma_gitlab_fingerprint_of_each(ds: Seq<Diagnostic>)
    ensures
        gitlab_issues(ds, fingerprints(ds)).len() == ds.len(),
        forall|i: int| 0 <= i < ds.len() ==> #[trigger] gitlab_issues(ds, fingerprints(ds))[i]
            == gitlab_issue(ds[i], md5_hex(fingerprint_input(ds[i]))),
{
    lemma_gitlab_issue_per_diagnostic(ds, fingerprints(ds));
}

#[verifier::spinoff_prover]
fn gitlab_severity_exec(l: Level) -> (r: &'static str)
    ensures
        r@ == gitlab_severity(l),
{
    proof {
        reveal_strlit("major");
        reveal_strlit("minor");
        reveal_strlit("info");
    }
    match l {
        Level::Fix => "major",
        Level::Improve => "minor",
        Level::All => "info",
    }
}

#[verifier::spinoff_prover]
fn gitlab_issue_exec(d: &Diagnostic, fp: String) -> (r: JsonValue)
    ensures
        json_m(r) == gitlab_issue(*d, fp@),
{
    let mut description = String::new();
    description.append(d.code.as_str());
    description.append(": ");
    description.append(d.message.as_str());
    let mut lines = no_entries();
    put(&mut lines, "begin", jnum(match d.line { Some(l) => l, None => 1 }));
    assert(entries_m(lines@) =~= seq![("begin"@, JsonM::Number(gitlab_begin(*d)))]);
    let lines_v = JsonValue::Object(lines);
    let mut location = no_entries();
    put(&mut location, "path", jstr(d.filename.as_str()));
    put(&mut location, "lines", lines_v);
    assert(entries_m(location@) =~= seq![
        ("path"@, JsonM::Str(d.filename@)),
        ("lines"@, JsonM::Object(seq![("begin"@, JsonM::Number(gitlab_begin(*d)))])),
    ]);
    let location_v = JsonValue::Object(location);
    assert(json_m(location_v) == gitlab_location(*d));
    let mut issue = no_entries();
    let ghost desc = description@;
    put(&mut issue, "description", JsonValue::Str(description));
    put(&mut issue, "check_name", jstr(d.code.as_str()));
    let ghost fpv = fp@;
    put(&mut issue, "fingerprint", JsonValue::Str(fp));
    put(&mut issue, "severity", jstr(gitlab_severity_exec(d.level)));
    put(&mut issue, "location", location_v);
    assert(desc =~= d.code@ + ": "@ + d.message@);
    assert(entries_m(issue@) =~= seq![
        ("description"@, JsonM::Str(d.code@ + ": "@ + d.message@)),
        ("check_name"@, JsonM::Str(d.code@)),
        ("fingerprint"@, JsonM::Str(fpv)),
        ("severity"@, JsonM::Str(gitlab_severity(d.level))),
        ("location"@, gitlab_location(*d)),
    ]);
    let r = JsonValue::Object(issue);
    r
}

/// The Code Quality report for `ds` as a JSON array, the fingerprint of the
/// `i`-th diagnostic being `fingerprints[i]`.
#[verifier::spinoff_prover]
pub fn gitlab_report(diagnostics: &[Diagnostic], fingerprints: &Vec<String>) -> (r: JsonValue)
    requires
        fingerprints@.len() == diagnostics@.len(),
    ensures
        json_m(r) == JsonM::Array(gitlab_issues(diagnostics@, crate::model::strs_m(fingerprints@))),
        forall|i: int| 0 <= i < diagnostics@.len() ==> #[trigger] gitlab_issues(diagnostics@, crate::model::strs_m(fingerprints@))[i]
            == gitlab_issue(diagnostics@[i], fingerprints@[i]@),
{
    proof { lemma_gitlab_issue_per_diagnostic(diagnostics@, crate::model::strs_m(fingerprints@)); }
    let ghost fps = crate::model::strs_m(fingerprints@);
    let mut items = no_items();
    let n = diagnostics.len();
    let mut i: usize = 0;
    while i < n
        invariant
            n == diagnostics@.len(),
            fps == crate::model::strs_m(fingerprints@),
            fingerprints@.len() == n,
            i <= n,
            items_m(items@) == gitlab_issues(diagnostics@.take(i as int), fps),
        decreases n - i,
    {
        let f = fingerprints[i].clone();
        assert(f@ == fps[i as int]);
        let issue = gitlab_issue_exec(&diagnostics[i], f);
        append(&mut items, issue);
        proof {
            assert(diagnostics@.take(i + 1).drop_last() =~= diagnostics@.take(i as int));
        }
        i = i + 1;
    }
    assert(diagnostics@.take(n as int) =~= diagnostics@);
    JsonValue::Array(items)
}

/// The fingerprint of each diagnostic of `ds`, in order.
pub open spec fn fingerprints(ds: Seq<Diagnostic>) -> Seq<Seq<char>> {
    ds.map_values(|d: Diagnostic| md5_hex(fingerprint_input(d)))
}

/// GitLab Code Quality report: a pretty-printed JSON array with one issue per
/// diagnostic.
pub fn gitlab(diagnostics: &[Diagnostic]) -> (r: String)
    ensures
        r@ == json_pretty(JsonM::Array(gitlab_issues(diagnostics@, fingerprints(diagnostics@)))),
{
    let mut fps: Vec<String> = Vec::new();
    let mut i: usize = 0;
    while i < diagnostics.len()
        invariant
            i <= diagnostics@.len(),
            fps@.len() == i,
            forall|k: int| 0 <= k < i ==> #[trigger] fps@[k]@ == md5_hex(fingerprint_input(diagnostics@[k])),
        decreases diagnostics@.len() - i,
    {
        fps.push(fingerprint(&diagnostics[i]));
        i = i + 1;
    }
    let report = gitlab_report(diagnostics, &fps);
    assert(crate::model::strs_m(fps@) =~= fingerprints(diagnostics@));
    to_pretty(&report)
}

/// A fingerprint depends on the file, the code and the line alone: two
/// diagnostics that agree on those get the same fingerprint.
pub proof fn lemma_fingerprint_determined(a: Diagnostic, b: Diagnostic)
    requires
        a.filename@ == b.filename@,
        a.code@ == b.code@,
        a.line == b.line,
    ensures
        md5_hex(fingerprint_input(a)) == md5_hex(fingerprint_input(b)),
{
}

// ── SARIF v2.1.0 ───────────────────────────────────────────────────

/// The version of this tool that SARIF reports name.
pub const TOOL_VERSION: &'static str = "0.1.0";

/// The SARIF level for a level.
pub open spec fn sarif_level(l: Level) -> Seq<char> {
    match l {
        Level::Fix => seq!['e', 'r', 'r', 'o', 'r'],
        Level::Improve => seq!['w', 'a', 'r', 'n', 'i', 'n', 'g'],
        Level::All => seq!['n', 'o', 't', 'e'],
    }
}

/// The region of a SARIF result: the start line and, where known, the start
/// column; none without a line.
pub open spec fn sarif_region(d: Diagnostic) -> Option<JsonM> {
    match d.line {
        Some(l) => Some(JsonM::Object(seq![("startLine"@, JsonM::Number(l as nat))]
            + (match d.col { Some(c) => seq![("startColumn"@, JsonM::Number(c as nat))], None => Seq::empty() }))),
        None => None,
    }
}

/// The physical location of a SARIF result.
pub open spec fn sarif_physical(d: Diagnostic) -> JsonM {
    JsonM::Object(seq![("artifactLocation"@, JsonM::Object(seq![("uri"@, JsonM::Str(d.filename@))]))]
        + (match sarif_region(d) { Some(r) => seq![("region"@, r)], None => Seq::empty() }))
}

/// One SARIF result.
pub open spec fn sarif_result(d: Diagnostic) -> JsonM {
    JsonM::Object(seq![
        ("ruleId"@, JsonM::Str(d.code@)),
        ("level"@, JsonM::Str(sarif_level(d.level))),
        ("message"@, JsonM::Object(seq![("text"@, JsonM::Str(d.message@))])),
        ("locations"@, JsonM::Array(seq![JsonM::Object(seq![("physicalLocation"@, sarif_physical(d))])])),
    ])
}

/// The SARIF results for `ds`, in order.
pub open spec fn sarif_results(ds: Seq<Diagnostic>) -> Seq<JsonM>
    decreases ds.len(),
{
    if ds.len() == 0 {
        Seq::empty()
    } else {
        sarif_results(ds.drop_last()).push(sarif_result(ds.last()))
    }
}

/// The URL of the SARIF 2.1.0 schema.
pub open spec fn sarif_schema() -> Seq<char> {
    "https://raw.githubusercontent.com/oasis-tcs/sarif-spec/main/sarif-2.1/schema/sarif-schema-2.1.0.json"@
}

/// The tool that the SARIF run names.
pub open spec fn sarif_tool() -> JsonM {
    JsonM::Object(seq![("driver"@, JsonM::Object(seq![("name"@, JsonM::Str("thorn"@)), ("version"@, JsonM::Str(TOOL_VERSION@))]))])
}

/// A SARIF log with one run whose results are those of `ds`.
pub open spec fn sarif_log(ds: Seq<Diagnostic>) -> JsonM {
    JsonM::Object(seq![
        ("$schema"@, JsonM::Str(sarif_schema())),
        ("version"@, JsonM::Str("2.1.0"@)),
        ("runs"@, JsonM::Array(seq![JsonM::Object(seq![("tool"@, sarif_tool()), ("results"@, JsonM::Array(sarif_results(ds)))])])),
    ])
}

#[verifier::spinoff_prover]
fn sarif_level_exec(l: Level) -> (r: &'static str)
    ensures
        r@ == sarif_level(l),
{
    proof {
        reveal_strlit("error");
        reveal_strlit("warning");
        reveal_strlit("note");
    }
    match l {
        Level::Fix => "error",
        Level::Improve => "warning",
        Level::All => "note",
    }
}

#[verifier::spinoff_prover]
fn sarif_physical_exec(d: &Diagnostic) -> (r: JsonValue)
    ensures
        json_m(r) == sarif_physical(*d),
{
    let mut artifact = no_entries();
    put(&mut artifact, "uri", jstr(d.filename.as_str()));
    assert(entries_m(artifact@) =~= seq![("uri"@, JsonM::Str(d.filename@))]);
    let mut phys = no_entries();
    put(&mut phys, "artifactLocation", JsonValue::Object(artifact));
    match d.line {
        Some(l) => {
            let mut region = no_entries();
            put(&mut region, "startLine", jnum(l));
            match d.col {
                Some(c) => { put(&mut region, "startColumn", jnum(c)); },
                None => {},
            }
            assert(entries_m(region@) =~= seq![("startLine"@, JsonM::Number(l as nat))]
                + (match d.col { Some(c) => seq![("startColumn"@, JsonM::Number(c as nat))], None => Seq::<(Seq<char>, JsonM)>::empty() }));
            let region_v = JsonValue::Object(region);
            assert(Some(json_m(region_v)) == sarif_region(*d));
            put(&mut phys, "region", region_v);
        },
        None => {},
    }
    assert(entries_m(phys@) =~= seq![("artifactLocation"@, JsonM::Object(seq![("uri"@, JsonM::Str(d.filename@))]))]
        + (match sarif_region(*d) { Some(r) => seq![("region"@, r)], None => Seq::<(Seq<char>, JsonM)>::empty() }));
    JsonValue::Object(phys)
}

#[verifier::spinoff_prover]
fn sarif_result_exec(d: &Diagnostic) -> (r: JsonValue)
    ensures
        json_m(r) == sarif_result(*d),
{
    let mut message = no_entries();
    put(&mut message, "text", jstr(d.message.as_str()));
    assert(entries_m(message@) =~= seq![("text"@, JsonM::Str(d.message@))]);
    let mut loc = no_entries();
    put(&mut loc, "physicalLocation", sarif_physical_exec(d));
    assert(entries_m(loc@) =~= seq![("physicalLocation"@, sarif_physical(*d))]);
    let mut locations = no_items();
    append(&mut locations, JsonValue::Object(loc));
    assert(items_m(locations@) =~= seq![JsonM::Object(seq![("physicalLocation"@, sarif_physical(*d))])]);
    let mut result = no_entries();
    put(&mut result, "ruleId", jstr(d.code.as_str()));
    put(&mut result, "level", jstr(sarif_level_exec(d.level)));
    put(&mut result, "message", JsonValue::Object(message));
    put(&mut result, "locations", JsonValue::Array(locations));
    assert(entries_m(result@) =~= seq![
        ("ruleId"@, JsonM::Str(d.code@)),
        ("level"@, JsonM::Str(sarif_level(d.level))),
        ("message"@, JsonM::Object(seq![("text"@, JsonM::Str(d.message@))])),
        ("locations"@, JsonM::Array(seq![JsonM::Object(seq![("physicalLocation"@, sarif_physical(*d))])])),
    ]);
    JsonValue::Object(result)
}

/// The SARIF log for `ds` as a JSON value.
#[verifier::spinoff_prover]
pub fn sarif_report(diagnostics: &[Diagnostic]) -> (r: JsonValue)
    ensures
        json_m(r) == sarif_log(diagnostics@),
{
    let mut results = no_items();
    let mut i: usize = 0;
    while i < diagnostics.len()
        invariant
            i <= diagnostics@.len(),
            items_m(results@) == sarif_results(diagnostics@.take(i as int)),
        decreases diagnostics@.len() - i,
    {
        append(&mut results, sarif_result_exec(&diagnostics[i]));
        assert(diagnostics@.take(i + 1).drop_last() =~= diagnostics@.take(i as int));
        i = i + 1;
    }
    assert(diagnostics@.take(diagnostics@.len() as int) =~= diagnostics@);
    let mut driver = no_entries();
    put(&mut driver, "name", jstr("thorn"));
    put(&mut driver, "version", jstr(TOOL_VERSION));
    assert(entries_m(driver@) =~= seq![("name"@, JsonM::Str("thorn"@)), ("version"@, JsonM::Str(TOOL_VERSION@))]);
    let mut tool = no_entries();
    put(&mut tool, "driver", JsonValue::Object(driver));
    assert(entries_m(tool@) =~= seq![("driver"@, JsonM::Object(seq![("name"@, JsonM::Str("thorn"@)), ("version"@, JsonM::Str(TOOL_VERSION@))]))]);
    let mut run = no_entries();
    put(&mut run, "tool", JsonValue::Object(tool));
    put(&mut run, "results", JsonValue::Array(results));
    assert(entries_m(run@) =~= seq![("tool"@, sarif_tool()), ("results"@, JsonM::Array(sarif_results(diagnostics@)))]);
    let mut runs = no_items();
    append(&mut runs, JsonValue::Object(run));
    assert(items_m(runs@) =~= seq![JsonM::Object(seq![("tool"@, sarif_tool()), ("results"@, JsonM::Array(sarif_results(diagnostics@)))])]);
    let mut log = no_entries();
    put(&mut log, "$schema", jstr("https://raw.githubusercontent.com/oasis-tcs/sarif-spec/main/sarif-2.1/schema/sarif-schema-2.1.0.json"));
    put(&mut log, "version", jstr("2.1.0"));
    put(&mut log, "runs", JsonValue::Array(runs));
    assert(entries_m(log@) =~= seq![
        ("$schema"@, JsonM::Str(sarif_schema())),
        ("version"@, JsonM::Str("2.1.0"@)),
        ("runs"@, JsonM::Array(seq![JsonM::Object(seq![("tool"@, sarif_tool()), ("results"@, JsonM::Array(sarif_results(diagnostics@)))])])),
    ]);
    JsonValue::Object(log)
}

/// SARIF v2.1.0 log, pretty-printed: one run of this tool, one result per
/// diagnostic.
#[verifier::spinoff_prover]
pub fn sarif(diagnostics: &[Diagnostic]) -> (r: String)
    ensures
        r@ == json_pretty(sarif_log(diagnostics@)),
{
    to_pretty(&sarif_report(diagnostics))
}

// ── JSON (the diagnostics as they are) ─────────────────────────────

/// The name of a level as JSON spells it.
pub open spec fn level_name(l: Level) -> Seq<char> {
    match l {
        Level::Fix => seq!['F', 'i', 'x'],
        Level::Improve => seq!['I', 'm', 'p', 'r', 'o', 'v', 'e'],
        Level::All => seq!['A', 'l', 'l'],
    }
}

/// A number, or null.
pub open spec fn opt_number(n: Option<u32>) -> JsonM {
    match n {
        Some(x) => JsonM::Number(x as nat),
        None => JsonM::Null,
    }
}

/// One diagnostic as a JSON object; the range as a `[start, end]` pair.
pub open spec fn diagnostic_json(d: Diagnostic) -> JsonM {
    JsonM::Object(seq![
        ("code"@, JsonM::Str(d.code@)),
        ("message"@, JsonM::Str(d.message@)),
        ("range"@, match d.range {
            Some(r) => JsonM::Array(seq![JsonM::Number(r.start as nat), JsonM::Number(r.end as nat)]),
            None => JsonM::Null,
        }),
        ("filename"@, JsonM::Str(d.filename@)),
        ("line"@, opt_number(d.line)),
        ("col"@, opt_number(d.col)),
        ("level"@, JsonM::Str(level_name(d.level))),
    ])
}

/// The diagnostics of `ds` as JSON objects, in order.
pub open spec fn diagnostics_json(ds: Seq<Diagnostic>) -> Seq<JsonM>
    decreases ds.len(),
{
    if ds.len() == 0 {
        Seq::empty()
    } else {
        diagnostics_json(ds.drop_last()).push(diagnostic_json(ds.last()))
    }
}

#[verifier::spinoff_prover]
fn opt_number_exec(n: Option<u32>) -> (r: JsonValue)
    ensures
        json_m(r) == opt_number(n),
{
    match n {
        Some(x) => jnum(x),
        None => JsonValue::Null,
    }
}

#[verifier::spinoff_prover]
fn level_name_exec(l: Level) -> (r: &'static str)
    ensures
        r@ == level_name(l),
{
    proof {
        reveal_strlit("Fix");
        reveal_strlit("Improve");
        reveal_strlit("All");
    }
    match l {
        Level::Fix => "Fix",
        Level::Improve => "Improve",
        Level::All => "All",
    }
}

#[verifier::spinoff_prover]
fn diagnostic_json_exec(d: &Diagnostic) -> (r: JsonValue)
    ensures
        json_m(r) == diagnostic_json(*d),
{
    let range = match d.range {
        Some(r) => {
            let mut pair = no_items();
            append(&mut pair, JsonValue::Number(r.start as u64));
            append(&mut pair, JsonValue::Number(r.end as u64));
            assert(items_m(pair@) =~= seq![JsonM::Number(r.start as nat), JsonM::Number(r.end as nat)]);
            JsonValue::Array(pair)
        },
        None => JsonValue::Null,
    };
    let mut e = no_entries();
    put(&mut e, "code", jstr(d.code.as_str()));
    put(&mut e, "message", jstr(d.message.as_str()));
    put(&mut e, "range", range);
    put(&mut e, "filename", jstr(d.filename.as_str()));
    put(&mut e, "line", opt_number_exec(d.line));
    put(&mut e, "col", opt_number_exec(d.col));
    put(&mut e, "level", jstr(level_name_exec(d.level)));
    assert(entries_m(e@) =~= seq![
        ("code"@, JsonM::Str(d.code@)),
        ("message"@, JsonM::Str(d.message@)),
        ("range"@, match d.range {
            Some(r) => JsonM::Array(seq![JsonM::Number(r.start as nat), JsonM::Number(r.end as nat)]),
            None => JsonM::Null,
        }),
        ("filename"@, JsonM::Str(d.filename@)),
        ("line"@, opt_number(d.line)),
        ("col"@, opt_number(d.col)),
        ("level"@, JsonM::Str(level_name(d.level))),
    ]);
    JsonValue::Object(e)
}

/// The diagnostics as a JSON array value.
#[verifier::spinoff_prover]
pub fn diagnostics_report(diagnostics: &[Diagnostic]) -> (r: JsonValue)
    ensures
        json_m(r) == JsonM::Array(diagnostics_json(diagnostics@)),
{
    let mut items = no_items();
    let mut i: usize = 0;
    while i < diagnostics.len()
        invariant
            i <= diagnostics@.len(),
            items_m(items@) == diagnostics_json(diagnostics@.take(i as int)),
        decreases diagnostics@.len() - i,
    {
        append(&mut items, diagnostic_json_exec(&diagnostics[i]));
        assert(diagnostics@.take(i + 1).drop_last() =~= diagnostics@.take(i as int));
        i = i + 1;
    }
    assert(diagnostics@.take(diagnostics@.len() as int) =~= diagnostics@);
    JsonValue::Array(items)
}

/// The diagnostics as pretty-printed JSON.
#[verifier::spinoff_prover]
pub fn json(diagnostics: &[Diagnostic]) -> (r: String)
    ensures
        r@ == json_pretty(JsonM::Array(diagnostics_json(diagnostics@))),
{
    to_pretty(&diagnostics_report(diagnostics))
}

// ── Text ────────────────────────────────────────────────────────────

/// Where a diagnostic points, as text shows it: `file:line:col`, `file:line`
/// or `file`.
pub open spec fn text_location(d: Diagnostic) -> Seq<char> {
    match (d.line, d.col) {
        (Some(l), Some(c)) => d.filename@ + seq![':'] + decimal(l as nat) + seq![':'] + decimal(c as nat),
        (Some(l), None) => d.filename@ + seq![':'] + decimal(l as nat),
        _ => d.filename@,
    }
}

/// The lines of `ls` without surrounding white space, the empty ones left out.
pub open spec fn trimmed_lines(ls: Seq<Seq<char>>) -> Seq<Seq<char>>
    decreases ls.len(),
{
    if ls.len() == 0 {
        Seq::empty()
    } else {
        let prev = trimmed_lines(ls.drop_last());
        let t = trim_spec(ls.last());
        if t.len() > 0 { prev.push(t) } else { prev }
    }
}

/// The parts joined with `, ` between them.
pub open spec fn join_comma(parts: Seq<Seq<char>>) -> Seq<char>
    decreases parts.len(),
{
    if parts.len() == 0 {
        Seq::empty()
    } else if parts.len() == 1 {
        parts[0]
    } else {
        join_comma(parts.drop_last()) + seq![',', ' '] + parts.last()
    }
}

/// A message on one line: its non-blank lines, trimmed, joined with `, `.
pub open spec fn message_summary(m: Seq<char>) -> Seq<char> {
    join_comma(trimmed_lines(lines_spec(m)))
}

/// Where a diagnostic points, as text shows it.
#[verifier::spinoff_prover]
pub fn text_location_of(d: &Diagnostic) -> (r: String)
    ensures
        r@ == text_location(*d),
{
    let mut out = String::new();
    out.append(d.filename.as_str());
    match d.line {
        Some(l) => {
            push_char(&mut out, ':');
            push_decimal(&mut out, l);
            match d.col {
                Some(c) => {
                    push_char(&mut out, ':');
                    push_decimal(&mut out, c);
                },
                None => {},
            }
        },
        None => {},
    }
    assert(out@ =~= text_location(*d));
    out
}

/// A message on one line: its non-blank lines, trimmed, joined with `, `.
#[verifier::spinoff_prover]
pub fn summarize_message(m: &str) -> (r: String)
    ensures
        r@ == message_summary(m@),
{
    let lines = lines_of(m);
    let ghost ls = views(lines@);
    let mut out = String::new();
    let mut count: usize = 0;
    let mut i: usize = 0;
    assert(lines@.len() == ls.len());
    while i < lines.len()
        invariant
            ls == views(lines@),
            ls.len() == lines@.len(),
            i <= lines@.len(),
            count == trimmed_lines(ls.take(i as int)).len(),
            count <= i,
            out@ == join_comma(trimmed_lines(ls.take(i as int))),
        decreases lines@.len() - i,
    {
        let line = &lines[i];
        assert(ls[i as int] == line@);
        let (a, b) = trim_bounds(line, 0, line.len());
        assert(line@.subrange(0, line@.len() as int) =~= line@);
        assert(ls.take(i + 1).drop_last() =~= ls.take(i as int));
        assert(ls.take(i + 1).last() == ls[i as int]);
        if a < b {
            let part = sub_chars(line, a, b);
            if count > 0 {
                push_char(&mut out, ',');
                push_char(&mut out, ' ');
            }
            let ghost before = out@;
            let s = string_of(part.as_slice());
            out.append(s.as_str());
            proof {
                let prev = trimmed_lines(ls.take(i as int));
                let now = trimmed_lines(ls.take(i + 1));
                assert(now == prev.push(part@));
                assert(now.drop_last() =~= prev);
                if prev.len() == 0 {
                    assert(out@ =~= part@);
                } else {
                    assert(out@ =~= join_comma(prev) + seq![',', ' '] + part@);
                }
            }
            count = count + 1;
        }
        i = i + 1;
    }
    assert(ls.take(ls.len() as int) =~= ls);
    out
}

} // verus!
