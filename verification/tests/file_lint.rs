use hpc_constellation::file_lint::{is_allowed_envelope_dir, lint_file, should_skip_dir, should_skip_file, split_lines, LintConfig};

fn path(parts: &[&str]) -> Vec<String> {
    parts.iter().map(|s| s.to_string()).collect()
}

#[test]
fn standard_config_lists() {
    let c = LintConfig::standard(path(&["/", "repo"]));
    assert_eq!(c.allowed_envelope_dirs, vec![path(&["/", "repo", "ai_envelopes"]), path(&["/", "repo", ".ai_envelopes"])]);
    assert_eq!(c.skip_extensions.len(), 19);
    assert_eq!(c.banned_tokens[8], "```");
}

#[test]
fn envelope_dirs_match_whole_components() {
    let c = LintConfig::standard(path(&["/", "repo"]));
    assert!(is_allowed_envelope_dir(&path(&["/", "repo", "ai_envelopes"]), &c));
    assert!(is_allowed_envelope_dir(&path(&["/", "repo", ".ai_envelopes", "log.json"]), &c));
    assert!(!is_allowed_envelope_dir(&path(&["/", "repo", "ai_envelopes_old", "x"]), &c));
    assert!(!is_allowed_envelope_dir(&path(&["/", "repo"]), &c));
}

#[test]
fn skipped_dirs_and_files() {
    assert!(should_skip_dir(Some(".git")));
    assert!(should_skip_dir(Some("node_modules")));
    assert!(!should_skip_dir(Some("src")));
    assert!(!should_skip_dir(None));
    let c = LintConfig::standard(path(&["repo"]));
    assert!(should_skip_file(Some("PNG"), &c));
    assert!(should_skip_file(Some("md"), &c));
    assert!(!should_skip_file(Some("json"), &c));
    assert!(!should_skip_file(None, &c));
}

#[test]
fn lines_follow_str_lines() {
    for text in ["", "a", "a\n", "a\r\nb", "a\n\nb\r", "\r\n", "x\ry\n"] {
        let ours: Vec<String> = split_lines(text).iter().map(|l| l.iter().collect()).collect();
        let std_lines: Vec<String> = text.lines().map(|l| l.to_string()).collect();
        assert_eq!(ours, std_lines, "lines of {:?}", text);
    }
}

#[test]
fn lint_reports_each_token_per_line() {
    let c = LintConfig::standard(path(&["repo"]));
    let mut findings = Vec::new();
    lint_file("repo/a.json", "ok line\n{\"targetRepo\": \"x\", \"target_path\": 1}\n```\n", &c, &mut findings);
    let got: Vec<(usize, &str)> = findings.iter().map(|f| (f.line_number, f.token.as_str())).collect();
    assert_eq!(got, vec![(2, "targetRepo"), (2, "target_path"), (3, "```")]);
    assert_eq!(findings[0].path, "repo/a.json");
    assert_eq!(findings[0].line, "{\"targetRepo\": \"x\", \"target_path\": 1}");
}

#[test]
fn lint_of_clean_file_adds_nothing() {
    let c = LintConfig::standard(path(&["repo"]));
    let mut findings = Vec::new();
    lint_file("repo/b.lua", "local x = 1\nreturn x\n", &c, &mut findings);
    assert!(findings.is_empty());
}
