use thorn::diagnostic::{Diagnostic, Level};
use thorn::format::{github, gitlab, sarif};

fn make_diag(code: &str, msg: &str, file: &str, line: u32, col: u32, level: Level) -> Diagnostic {
    let mut d = Diagnostic::new(code, msg, file).with_level(level);
    d.line = Some(line);
    d.col = Some(col);
    d
}

fn sample_diagnostics() -> Vec<Diagnostic> {
    vec![
        make_diag("DJ001", "Avoid nullable CharField", "models.py", 10, 5, Level::Fix),
        make_diag("DJ012", "Use select_related", "views.py", 42, 12, Level::Improve),
        make_diag("DJ050", "Unused import", "utils.py", 1, 1, Level::All),
    ]
}

#[test]
fn gitlab_empty() {
    let out = gitlab(&[]);
    assert_eq!(out, "[]");
}

#[test]
fn gitlab_structure() {
    let diags = sample_diagnostics();
    let out = gitlab(&diags);
    let parsed: serde_json::Value = serde_json::from_str(&out).unwrap();
    let arr = parsed.as_array().unwrap();
    assert_eq!(arr.len(), 3);

    let first = &arr[0];
    assert_eq!(first["check_name"], "DJ001");
    assert_eq!(first["severity"], "major");
    assert_eq!(first["location"]["path"], "models.py");
    assert_eq!(first["location"]["lines"]["begin"], 10);
    assert!(first["description"].as_str().unwrap().contains("Avoid nullable CharField"));
    let fp = first["fingerprint"].as_str().unwrap();
    assert_eq!(fp.len(), 32);
    assert!(fp.chars().all(|c| c.is_ascii_hexdigit()));

    assert_eq!(arr[1]["severity"], "minor");

    assert_eq!(arr[2]["severity"], "info");
}

#[test]
fn gitlab_fingerprint_stable() {
    let diags = sample_diagnostics();
    let a = gitlab(&diags);
    let b = gitlab(&diags);
    assert_eq!(a, b, "fingerprints should be deterministic");
}

#[test]
fn gitlab_no_line_defaults_to_1() {
    let d = Diagnostic::new("X001", "msg", "file.py").with_level(Level::Fix);
    let out = gitlab(&[d]);
    let parsed: serde_json::Value = serde_json::from_str(&out).unwrap();
    assert_eq!(parsed[0]["location"]["lines"]["begin"], 1);
}

#[test]
fn github_empty() {
    assert_eq!(github(&[]), "");
}

#[test]
fn github_format() {
    let diags = sample_diagnostics();
    let out = github(&diags);
    let lines: Vec<&str> = out.lines().collect();
    assert_eq!(lines.len(), 3);

    assert_eq!(
        lines[0],
        "::error file=models.py,line=10,col=5,title=DJ001::Avoid nullable CharField"
    );
    assert_eq!(
        lines[1],
        "::warning file=views.py,line=42,col=12,title=DJ012::Use select_related"
    );
    assert_eq!(
        lines[2],
        "::notice file=utils.py,line=1,col=1,title=DJ050::Unused import"
    );
}

#[test]
fn github_no_line_no_col() {
    let d = Diagnostic::new("X001", "oops", "f.py");
    let out = github(&[d]);
    assert_eq!(out, "::warning file=f.py,title=X001::oops\n");
}

#[test]
fn sarif_empty() {
    let out = sarif(&[]);
    let parsed: serde_json::Value = serde_json::from_str(&out).unwrap();
    assert_eq!(parsed["version"], "2.1.0");
    assert!(parsed["$schema"].as_str().unwrap().contains("sarif"));
    let results = parsed["runs"][0]["results"].as_array().unwrap();
    assert!(results.is_empty());
    assert_eq!(parsed["runs"][0]["tool"]["driver"]["name"], "thorn");
}

#[test]
fn sarif_structure() {
    let diags = sample_diagnostics();
    let out = sarif(&diags);
    let parsed: serde_json::Value = serde_json::from_str(&out).unwrap();

    let results = parsed["runs"][0]["results"].as_array().unwrap();
    assert_eq!(results.len(), 3);

    let r0 = &results[0];
    assert_eq!(r0["ruleId"], "DJ001");
    assert_eq!(r0["level"], "error");
    assert_eq!(r0["message"]["text"], "Avoid nullable CharField");
    let loc = &r0["locations"][0]["physicalLocation"];
    assert_eq!(loc["artifactLocation"]["uri"], "models.py");
    assert_eq!(loc["region"]["startLine"], 10);
    assert_eq!(loc["region"]["startColumn"], 5);

    assert_eq!(results[1]["level"], "warning");
    assert_eq!(results[2]["level"], "note");
}

#[test]
fn sarif_no_line_omits_region() {
    let d = Diagnostic::new("X001", "msg", "file.py");
    let out = sarif(&[d]);
    let parsed: serde_json::Value = serde_json::from_str(&out).unwrap();
    let loc = &parsed["runs"][0]["results"][0]["locations"][0]["physicalLocation"];
    assert!(loc.get("region").is_none(), "region should be omitted when no line");
}

#[test]
fn sarif_valid_json() {
    let diags = sample_diagnostics();
    let out = sarif(&diags);
    serde_json::from_str::<serde_json::Value>(&out).expect("SARIF output must be valid JSON");
}
