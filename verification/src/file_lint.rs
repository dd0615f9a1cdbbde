//! Lint rules that keep AI authoring envelopes and metadata out of ordinary
//! repository files. Paths are handled as lists of path components; the
//! directory walk itself is left to the caller.
use vstd::prelude::*;

use crate::text::{has_sub, str_contains, str_eq, views};

verus! {

/// Configuration of the lint.
#[derive(Debug, Clone)]
pub struct LintConfig {
    /// Components of the repository root.
    pub root: Vec<String>,
    /// Directories (as components) where envelopes and logs are allowed.
    pub allowed_envelope_dirs: Vec<Vec<String>>,
    /// File extensions that are never linted.
    pub skip_extensions: Vec<String>,
    /// Substrings that must not appear in ordinary repository files.
    pub banned_tokens: Vec<String>,
}

/// One banned token found on one line.
#[derive(Debug, Clone)]
pub struct LintFinding {
    pub path: String,
    /// 1-based line number.
    pub line_number: usize,
    pub token: String,
    pub line: String,
}

/// The file extensions that are skipped: documents, images, archives and
/// binaries.
pub open spec fn standard_skip_extensions() -> Seq<Seq<char>> {
    seq!["md"@, "png"@, "jpg"@, "jpeg"@, "gif"@, "svg"@, "ico"@, "pdf"@, "zip"@, "tar"@,
        "gz"@, "bz2"@, "xz"@, "7z"@, "exe"@, "dll"@, "so"@, "dylib"@, "wasm"@]
}

/// The tokens that betray an authoring envelope or AI metadata.
pub open spec fn standard_banned_tokens() -> Seq<Seq<char>> {
    seq!["ai_file_envelope"@, "aiauthoringcontract"@, "targetRepo"@, "target_repo"@,
        "targetPath"@, "target_path"@, "Files Generated:"@, "Target Repos:"@, "```"@, "[file:"@]
}

/// The directory names that are never descended into.
pub open spec fn skipped_dir_names() -> Seq<Seq<char>> {
    seq![".git"@, "target"@, "node_modules"@, "dist"@, "build"@, ".idea"@, ".vscode"@]
}

/// The components of the views of a list of paths.
pub open spec fn path_views(ps: Seq<Vec<String>>) -> Seq<Seq<Seq<char>>> {
    ps.map_values(|p: Vec<String>| views(p@))
}

fn clone_path(p: &Vec<String>) -> (r: Vec<String>)
    ensures
        views(r@) == views(p@),
{
    crate::text::clone_strings(p)
}

fn child_path(root: &Vec<String>, name: &str) -> (r: Vec<String>)
    ensures
        views(r@) == views(root@).push(name@),
{
    let mut r = clone_path(root);
    r.push(String::from_str(name));
    assert(views(r@) =~= views(root@).push(name@));
    r
}

impl LintConfig {
    /// The standard lint configuration for the repository at `root`:
    /// envelopes are allowed under `ai_envelopes` and `.ai_envelopes`.
    pub fn standard(root: Vec<String>) -> (r: LintConfig)
        ensures
            views(r.root@) == views(root@),
            path_views(r.allowed_envelope_dirs@)
                == seq![views(root@).push("ai_envelopes"@), views(root@).push(".ai_envelopes"@)],
            views(r.skip_extensions@) == standard_skip_extensions(),
            views(r.banned_tokens@) == standard_banned_tokens(),
    {
        let dirs = vec![child_path(&root, "ai_envelopes"), child_path(&root, ".ai_envelopes")];
        let exts: Vec<String> = vec![String::from_str("md"), String::from_str("png"), String::from_str("jpg"), String::from_str("jpeg"), String::from_str("gif"), String::from_str("svg"), String::from_str("ico"), String::from_str("pdf"), String::from_str("zip"), String::from_str("tar"), String::from_str("gz"), String::from_str("bz2"), String::from_str("xz"), String::from_str("7z"), String::from_str("exe"), String::from_str("dll"), String::from_str("so"), String::from_str("dylib"), String::from_str("wasm")];
        let tokens: Vec<String> = vec![String::from_str("ai_file_envelope"), String::from_str("aiauthoringcontract"), String::from_str("targetRepo"), String::from_str("target_repo"), String::from_str("targetPath"), String::from_str("target_path"), String::from_str("Files Generated:"), String::from_str("Target Repos:"), String::from_str("```"), String::from_str("[file:")];
        assert(views(exts@) =~= standard_skip_extensions());
        assert(views(tokens@) =~= standard_banned_tokens());
        assert(path_views(dirs@) =~= seq![views(root@).push("ai_envelopes"@), views(root@).push(".ai_envelopes"@)]);
        LintConfig { root, allowed_envelope_dirs: dirs, skip_extensions: exts, banned_tokens: tokens }
    }
}


/// A directory name that is never descended into: VCS, build output,
/// dependencies and editor settings.
pub open spec fn is_skipped_dir_name(n: Seq<char>) -> bool {
    n == ".git"@ || n == "target"@ || n == "node_modules"@ || n == "dist"@ || n == "build"@
        || n == ".idea"@ || n == ".vscode"@
}

/// `dir` is a leading run of whole components of `path`.
pub open spec fn component_prefix(dir: Seq<Seq<char>>, path: Seq<Seq<char>>) -> bool {
    dir.len() <= path.len() && path.take(dir.len() as int) == dir
}

/// `path` lies inside one of the allowed envelope directories.
pub open spec fn in_envelope_dir(path: Seq<Seq<char>>, dirs: Seq<Seq<Seq<char>>>) -> bool {
    exists|i: int| 0 <= i < dirs.len() && component_prefix(#[trigger] dirs[i], path)
}

/// ASCII lowercase of one character.
pub open spec fn lower_char(c: char) -> char {
    if 'A' <= c && c <= 'Z' { ((c as u32) + 32) as char } else { c }
}

/// ASCII lowercase of a text: letters A-Z become a-z, all else is kept.
pub open spec fn ascii_lower(s: Seq<char>) -> Seq<char> {
    s.map_values(|c: char| lower_char(c))
}

/// `ext` equals one of `exts`, ignoring ASCII case.
pub open spec fn skipped_extension(ext: Seq<char>, exts: Seq<Seq<char>>) -> bool {
    exists|i: int| 0 <= i < exts.len() && ascii_lower(#[trigger] exts[i]) == ascii_lower(ext)
}

fn lower_char_exec(c: char) -> (r: char)
    ensures
        r == lower_char(c),
{
    if 'A' <= c && c <= 'Z' {
        let u: u32 = c as u32;
        let b: u8 = u as u8;
        assert(b == u);
        ((b + 32) as char)
    } else {
        c
    }
}

/// The ASCII lowercase form of `s`.
pub fn to_ascii_lower(s: &str) -> (r: Vec<char>)
    ensures
        r@ == ascii_lower(s@),
{
    let cs = crate::text::chars_of(s);
    let mut r: Vec<char> = Vec::new();
    let mut i: usize = 0;
    while i < cs.len()
        invariant
            i <= cs@.len(),
            cs@ == s@,
            r@ == ascii_lower(cs@.take(i as int)),
        decreases cs@.len() - i,
    {
        r.push(lower_char_exec(cs[i]));
        assert(cs@.take(i + 1) =~= cs@.take(i as int).push(cs@[i as int]));
        i = i + 1;
        assert(r@ =~= ascii_lower(cs@.take(i as int)));
    }
    assert(cs@.take(cs@.len() as int) =~= cs@);
    r
}

/// Whether `path` lies in a directory where envelopes and logs are allowed
/// (a whole-component prefix match against each allowed directory).
pub fn is_allowed_envelope_dir(path: &Vec<String>, config: &LintConfig) -> (r: bool)
    ensures
        r == in_envelope_dir(views(path@), path_views(config.allowed_envelope_dirs@)),
{
    let dirs = &config.allowed_envelope_dirs;
    let ghost pv = views(path@);
    let ghost dv = path_views(dirs@);
    let mut i: usize = 0;
    while i < dirs.len()
        invariant
            i <= dirs@.len(),
            pv == views(path@),
            dv == path_views(dirs@),
            dirs@ == config.allowed_envelope_dirs@,
            forall|k: int| 0 <= k < i ==> !component_prefix(#[trigger] dv[k], pv),
        decreases dirs@.len() - i,
    {
        let dir = &dirs[i];
        assert(dv[i as int] == views(dir@));
        if dir.len() <= path.len() {
            let mut j: usize = 0;
            let mut same = true;
            assert(pv.take(0) =~= views(dir@).take(0));
            while j < dir.len()
                invariant
                    j <= dir@.len(),
                    dir@.len() <= path@.len(),
                    same == (pv.take(j as int) == views(dir@).take(j as int)),
                    pv == views(path@),
                decreases dir@.len() - j,
            {
                let eq = crate::text::str_eq(path[j].as_str(), dir[j].as_str());
                proof {
                    assert(pv.take(j + 1) =~= pv.take(j as int).push(pv[j as int]));
                    assert(views(dir@).take(j + 1) =~= views(dir@).take(j as int).push(views(dir@)[j as int]));
                    if !same {
                        if pv.take(j + 1) == views(dir@).take(j + 1) {
                            assert(pv.take(j as int) =~= pv.take(j + 1).take(j as int));
                            assert(views(dir@).take(j as int) =~= views(dir@).take(j + 1).take(j as int));
                        }
                    }
                    if !eq && pv.take(j + 1) == views(dir@).take(j + 1) {
                        assert(pv.take(j + 1)[j as int] == pv[j as int]);
                    }
                }
                same = same && eq;
                j = j + 1;
            }
            assert(views(dir@).take(dir@.len() as int) =~= views(dir@));
            if same {
                assert(component_prefix(dv[i as int], pv));
                assert(in_envelope_dir(pv, dv));
                return true;
            }
        }
        i = i + 1;
    }
    false
}

/// Whether a directory with this file name is skipped by the walk.
pub fn should_skip_dir(name: Option<&str>) -> (r: bool)
    ensures
        r == (name matches Some(n) && is_skipped_dir_name(n@)),
{
    match name {
        Some(n) => {
            str_eq(n, ".git") || str_eq(n, "target") || str_eq(n, "node_modules") || str_eq(n, "dist")
                || str_eq(n, "build") || str_eq(n, ".idea") || str_eq(n, ".vscode")
        }
        None => false,
    }
}

/// Whether a file with this extension is skipped: its extension equals one
/// of the configured extensions, ignoring ASCII case.
pub fn should_skip_file(ext: Option<&str>, config: &LintConfig) -> (r: bool)
    ensures
        r == (ext matches Some(e) && skipped_extension(e@, views(config.skip_extensions@))),
{
    match ext {
        Some(e) => {
            let ext_lower = to_ascii_lower(e);
            let exts = &config.skip_extensions;
            let ghost ev = views(exts@);
            let mut i: usize = 0;
            while i < exts.len()
                invariant
                    i <= exts@.len(),
                    ev == views(exts@),
                    exts@ == config.skip_extensions@,
                    ext == Some(e),
                    ext_lower@ == ascii_lower(e@),
                    forall|k: int| 0 <= k < i ==> ascii_lower(#[trigger] ev[k]) != ascii_lower(e@),
                decreases exts@.len() - i,
            {
                let lowered = to_ascii_lower(exts[i].as_str());
                assert(ev[i as int] == exts@[i as int]@);
                if crate::text::chars_eq(&lowered, &ext_lower) {
                    assert(ascii_lower(ev[i as int]) == ascii_lower(e@));
                    assert(skipped_extension(e@, ev));
                    return true;
                }
                i = i + 1;
            }
            false
        }
        None => false,
    }
}


/// Index of the first `'\n'` in `s`, or -1.
pub open spec fn nl_pos(s: Seq<char>) -> int
    decreases s.len(),
{
    if s.len() == 0 {
        -1
    } else if s[0] == '\n' {
        0
    } else {
        let p = nl_pos(s.drop_first());
        if p < 0 { -1 } else { p + 1 }
    }
}

/// The first newline lies inside the text, or there is none.
pub proof fn lemma_nl_pos_bounds(s: Seq<char>)
    ensures
        -1 <= nl_pos(s) < s.len(),
    decreases s.len(),
{
    if s.len() > 0 {
        lemma_nl_pos_bounds(s.drop_first());
    }
}

proof fn lemma_nl_pos_at(t: Seq<char>, q: int)
    requires
        0 <= q <= t.len(),
        forall|k: int| 0 <= k < q ==> t[k] != '\n',
        q < t.len() ==> t[q] == '\n',
    ensures
        nl_pos(t) == (if q < t.len() { q } else { -1 }),
    decreases q,
{
    if q > 0 {
        assert forall|k: int| 0 <= k < q - 1 implies t.drop_first()[k] != '\n' by {
            assert(t.drop_first()[k] == t[k + 1]);
        }
        lemma_nl_pos_at(t.drop_first(), q - 1);
    }
}

/// A line without the `'\r'` of a `"\r\n"` ending.
pub open spec fn strip_cr(l: Seq<char>) -> Seq<char> {
    if l.len() > 0 && l.last() == '\r' { l.drop_last() } else { l }
}

/// The lines of a text as `str::lines` yields them: split at `'\n'`, a
/// `'\r'` just before a `'\n'` dropped, and no empty line after a final
/// line ending.
pub open spec fn text_lines(s: Seq<char>) -> Seq<Seq<char>>
    decreases s.len(),
{
    if s.len() == 0 {
        Seq::empty()
    } else {
        let p = nl_pos(s);
        if p < 0 {
            seq![s]
        } else {
            proof {
                lemma_nl_pos_bounds(s);
            }
            seq![strip_cr(s.take(p))] + text_lines(s.skip(p + 1))
        }
    }
}

/// A finding as path, line number, token and line.
pub open spec fn finding_view(f: LintFinding) -> (Seq<char>, int, Seq<char>, Seq<char>) {
    (f.path@, f.line_number as int, f.token@, f.line@)
}

/// The findings for line number `n`: one per banned token it contains, in
/// the order of the tokens.
pub open spec fn line_findings(path: Seq<char>, n: int, line: Seq<char>, tokens: Seq<Seq<char>>) -> Seq<(Seq<char>, int, Seq<char>, Seq<char>)>
    decreases tokens.len(),
{
    if tokens.len() == 0 {
        Seq::empty()
    } else {
        line_findings(path, n, line, tokens.drop_last())
            + (if has_sub(line, tokens.last()) { seq![(path, n, tokens.last(), line)] } else { Seq::empty() })
    }
}

/// The findings for a file with these lines, line by line.
pub open spec fn file_findings(path: Seq<char>, lines: Seq<Seq<char>>, tokens: Seq<Seq<char>>) -> Seq<(Seq<char>, int, Seq<char>, Seq<char>)>
    decreases lines.len(),
{
    if lines.len() == 0 {
        Seq::empty()
    } else {
        file_findings(path, lines.drop_last(), tokens) + line_findings(path, lines.len() as int, lines.last(), tokens)
    }
}

/// The character views of a list of character vectors.
pub open spec fn char_views(v: Seq<Vec<char>>) -> Seq<Seq<char>> {
    v.map_values(|l: Vec<char>| l@)
}

fn copy_range(cs: &Vec<char>, from: usize, to: usize) -> (r: Vec<char>)
    requires
        from <= to <= cs@.len(),
    ensures
        r@ == cs@.subrange(from as int, to as int),
{
    let mut r: Vec<char> = Vec::new();
    let mut k = from;
    while k < to
        invariant
            from <= k <= to,
            to <= cs@.len(),
            r@ == cs@.subrange(from as int, k as int),
        decreases to - k,
    {
        r.push(cs[k]);
        k = k + 1;
        assert(r@ =~= cs@.subrange(from as int, k as int));
    }
    r
}

/// Split `content` into lines as `str::lines` does.
pub fn split_lines(content: &str) -> (r: Vec<Vec<char>>)
    ensures
        char_views(r@) == text_lines(content@),
{
    let cs = crate::text::chars_of(content);
    let mut out: Vec<Vec<char>> = Vec::new();
    let mut start: usize = 0;
    assert(cs@.skip(0) =~= cs@);
    assert(char_views(out@) =~= Seq::<Seq<char>>::empty());
    while start < cs.len()
        invariant
            start <= cs@.len(),
            cs@ == content@,
            text_lines(cs@) == char_views(out@) + text_lines(cs@.skip(start as int)),
        decreases cs@.len() - start,
    {
        let mut j = start;
        while j < cs.len() && cs[j] != '\n'
            invariant
                start <= j <= cs@.len(),
                forall|k: int| start <= k < j ==> cs@[k] != '\n',
            decreases cs@.len() - j,
        {
            j = j + 1;
        }
        let ghost t = cs@.skip(start as int);
        let ghost q = j - start;
        proof {
            assert forall|k: int| 0 <= k < q implies t[k] != '\n' by {
                assert(t[k] == cs@[start + k]);
            }
            if j < cs@.len() {
                assert(t[q] == cs@[j as int]);
            }
            lemma_nl_pos_at(t, q);
            assert(t.take(q) =~= cs@.subrange(start as int, j as int));
        }
        let end = if j < cs.len() && j > start && cs[j - 1] == '\r' { j - 1 } else { j };
        let line = copy_range(&cs, start, end);
        let ghost before = char_views(out@);
        out.push(line);
        proof {
            assert(char_views(out@) =~= before.push(line@));
            if j < cs@.len() {
                assert(line@ =~= strip_cr(t.take(q)));
                assert(t.skip(q + 1) =~= cs@.skip(j + 1));
                assert(text_lines(t) == seq![strip_cr(t.take(q))] + text_lines(t.skip(q + 1)));
            } else {
                assert(line@ =~= t);
                assert(cs@.skip(cs@.len() as int) =~= Seq::<char>::empty());
            }
        }
        start = if j < cs.len() { j + 1 } else { j };
        proof {
            assert(text_lines(cs@) =~= char_views(out@) + text_lines(cs@.skip(start as int)));
        }
    }
    assert(cs@.skip(start as int) =~= Seq::<char>::empty());
    assert(char_views(out@) + Seq::<Seq<char>>::empty() =~= char_views(out@));
    out
}


/// The findings as path, line number, token and line.
pub open spec fn finding_views(fs: Seq<LintFinding>) -> Seq<(Seq<char>, int, Seq<char>, Seq<char>)> {
    fs.map_values(|f: LintFinding| finding_view(f))
}

/// Lint one file: append to `findings`, line by line and in the order of
/// the banned tokens, one finding for each banned token a line contains.
pub fn lint_file(path: &str, content: &str, config: &LintConfig, findings: &mut Vec<LintFinding>)
    ensures
        finding_views(final(findings)@) == finding_views(old(findings)@)
            + file_findings(path@, text_lines(content@), views(config.banned_tokens@)),
{
    let lines = split_lines(content);
    let tokens = &config.banned_tokens;
    let ghost lv = char_views(lines@);
    let ghost tv = views(tokens@);
    let ghost base = finding_views(findings@);
    let mut i: usize = 0;
    assert(lv.take(0) =~= Seq::<Seq<char>>::empty());
    assert(finding_views(findings@) =~= base + file_findings(path@, lv.take(0), tv));
    while i < lines.len()
        invariant
            i <= lines@.len(),
            lv == char_views(lines@),
            lv == text_lines(content@),
            tv == views(tokens@),
            tokens@ == config.banned_tokens@,
            finding_views(findings@) == base + file_findings(path@, lv.take(i as int), tv),
        decreases lines@.len() - i,
    {
        let line_text = crate::text::string_of(&lines[i]);
        let ghost line = lv[i as int];
        assert(line == lines@[i as int]@);
        let ghost mid = finding_views(findings@);
        let n: usize = i + 1;
        let mut k: usize = 0;
        assert(tv.take(0) =~= Seq::<Seq<char>>::empty());
        assert(finding_views(findings@) =~= mid + line_findings(path@, i + 1, line, tv.take(0)));
        while k < tokens.len()
            invariant
                k <= tokens@.len(),
                i < lines@.len(),
                n == i + 1,
                line == lines@[i as int]@,
                line_text@ == line,
                tv == views(tokens@),
                finding_views(findings@) == mid + line_findings(path@, i + 1, line, tv.take(k as int)),
            decreases tokens@.len() - k,
        {
            let token_chars = crate::text::chars_of(tokens[k].as_str());
            let hit = crate::text::chars_contain(&lines[i], &token_chars);
            let ghost prev = finding_views(findings@);
            assert(tv[k as int] == tokens@[k as int]@);
            if hit {
                findings.push(LintFinding {
                    path: String::from_str(path),
                    line_number: n,
                    token: tokens[k].clone(),
                    line: line_text.clone(),
                });
                assert(finding_views(findings@) =~= prev.push((path@, i + 1, tv[k as int], line)));
            }
            proof {
                let tk = tv.take(k + 1);
                assert(tk.drop_last() =~= tv.take(k as int));
                assert(tk.last() == tv[k as int]);
                assert(finding_views(findings@) =~= mid + line_findings(path@, i + 1, line, tk));
            }
            k = k + 1;
        }
        proof {
            assert(tv.take(tokens@.len() as int) =~= tv);
            let li = lv.take(i + 1);
            assert(li.drop_last() =~= lv.take(i as int));
            assert(li.last() == line);
            assert(finding_views(findings@) =~= base + file_findings(path@, li, tv));
        }
        i = i + 1;
    }
    assert(lv.take(lines@.len() as int) =~= lv);
}


/// The original banned tokens of the standard configuration.
pub open spec fn is_standard_banned(t: Seq<char>) -> bool {
    ||| t == "ai_file_envelope"@
    ||| t == "aiauthoringcontract"@
    ||| t == "targetRepo"@
    ||| t == "target_repo"@
    ||| t == "targetPath"@
    ||| t == "target_path"@
    ||| t == "Files Generated:"@
    ||| t == "Target Repos:"@
    ||| t == "```"@
    ||| t == "[file:"@
}

proof fn lemma_line_findings_members(path: Seq<char>, n: int, line: Seq<char>, tokens: Seq<Seq<char>>, f: (Seq<char>, int, Seq<char>, Seq<char>))
    ensures
        line_findings(path, n, line, tokens).contains(f) <==> (f.0 == path && f.1 == n && f.3 == line && tokens.contains(f.2) && has_sub(line, f.2)),
    decreases tokens.len(),
{
    if tokens.len() > 0 {
        let init = tokens.drop_last();
        let l = tokens.last();
        lemma_line_findings_members(path, n, line, init, f);
        let a = line_findings(path, n, line, init);
        let b: Seq<(Seq<char>, int, Seq<char>, Seq<char>)> = if has_sub(line, l) { seq![(path, n, l, line)] } else { Seq::empty() };
        assert(line_findings(path, n, line, tokens) == a + b);
        assert(tokens[tokens.len() - 1] == l);
        if (a + b).contains(f) {
            let i = choose|i: int| 0 <= i < (a + b).len() && (a + b)[i] == f;
            if i < a.len() {
                assert((a + b)[i] == a[i]);
            } else {
                assert((a + b)[i] == b[i - a.len()]);
            }
        }
        if tokens.contains(f.2) {
            let j = choose|j: int| 0 <= j < tokens.len() && tokens[j] == f.2;
            if j < init.len() {
                assert(init[j] == f.2);
            }
        }
        if init.contains(f.2) {
            let j = choose|j: int| 0 <= j < init.len() && init[j] == f.2;
            assert(tokens[j] == f.2);
        }
        if a.contains(f) {
            let i = choose|i: int| 0 <= i < a.len() && a[i] == f;
            assert((a + b)[i] == f);
        }
        if f.0 == path && f.1 == n && f.3 == line && f.2 == l && has_sub(line, l) {
            assert((a + b)[a.len() as int] == f);
        }
    }
}

proof fn lemma_file_findings_members(path: Seq<char>, lines: Seq<Seq<char>>, tokens: Seq<Seq<char>>, f: (Seq<char>, int, Seq<char>, Seq<char>))
    ensures
        file_findings(path, lines, tokens).contains(f) <==> exists|k: int| 0 <= k < lines.len() && f.0 == path && f.1 == k + 1
            && f.3 == #[trigger] lines[k] && tokens.contains(f.2) && has_sub(lines[k], f.2),
    decreases lines.len(),
{
    if lines.len() > 0 {
        let init = lines.drop_last();
        lemma_file_findings_members(path, init, tokens, f);
        let a = file_findings(path, init, tokens);
        let b = line_findings(path, lines.len() as int, lines.last(), tokens);
        lemma_line_findings_members(path, lines.len() as int, lines.last(), tokens, f);
        assert(file_findings(path, lines, tokens) == a + b);
        assert(lines[lines.len() - 1] == lines.last());
        if (a + b).contains(f) {
            let i = choose|i: int| 0 <= i < (a + b).len() && (a + b)[i] == f;
            if i < a.len() {
                assert((a + b)[i] == a[i]);
                assert(a.contains(f));
                let k = choose|k: int| 0 <= k < init.len() && f.0 == path && f.1 == k + 1 && f.3 == #[trigger] init[k]
                    && tokens.contains(f.2) && has_sub(init[k], f.2);
                assert(lines[k] == init[k]);
            } else {
                assert((a + b)[i] == b[i - a.len()]);
                assert(b.contains(f));
            }
        }
        if exists|k: int| 0 <= k < lines.len() && f.0 == path && f.1 == k + 1 && f.3 == #[trigger] lines[k] && tokens.contains(f.2)
            && has_sub(lines[k], f.2) {
            let k = choose|k: int| 0 <= k < lines.len() && f.0 == path && f.1 == k + 1 && f.3 == #[trigger] lines[k]
                && tokens.contains(f.2) && has_sub(lines[k], f.2);
            if k < init.len() {
                assert(init[k] == lines[k]);
                assert(a.contains(f));
                let i = choose|i: int| 0 <= i < a.len() && a[i] == f;
                assert((a + b)[i] == f);
            } else {
                assert(b.contains(f));
                let i = choose|i: int| 0 <= i < b.len() && b[i] == f;
                assert((a + b)[a.len() + i] == f);
            }
        }
    } else {
        assert(file_findings(path, lines, tokens).len() == 0);
    }
}

/// The standard lint: under the standard configuration a file's findings
/// are exactly, for each line `k` (numbered from 1) and each of the
/// original banned tokens (`ai_file_envelope`, `aiauthoringcontract`,
/// `targetRepo`, `target_repo`, `targetPath`, `target_path`,
/// `Files Generated:`, `Target Repos:`, three backticks, `[file:`) that the
/// line contains, one finding naming the path, the line number, the token
/// and the line.
pub proof fn lemma_standard_lint(path: Seq<char>, lines: Seq<Seq<char>>, f: (Seq<char>, int, Seq<char>, Seq<char>))
    ensures
        file_findings(path, lines, standard_banned_tokens()).contains(f) <==> exists|k: int| 0 <= k < lines.len() && f.0 == path
            && f.1 == k + 1 && f.3 == #[trigger] lines[k] && is_standard_banned(f.2) && has_sub(lines[k], f.2),
{
    lemma_file_findings_members(path, lines, standard_banned_tokens(), f);
    let ts = standard_banned_tokens();
    if ts.contains(f.2) {
        let j = choose|j: int| 0 <= j < ts.len() && ts[j] == f.2;
    }
    if is_standard_banned(f.2) {
        if f.2 == "ai_file_envelope"@ { assert(ts[0] == f.2); }
        else if f.2 == "aiauthoringcontract"@ { assert(ts[1] == f.2); }
        else if f.2 == "targetRepo"@ { assert(ts[2] == f.2); }
        else if f.2 == "target_repo"@ { assert(ts[3] == f.2); }
        else if f.2 == "targetPath"@ { assert(ts[4] == f.2); }
        else if f.2 == "target_path"@ { assert(ts[5] == f.2); }
        else if f.2 == "Files Generated:"@ { assert(ts[6] == f.2); }
        else if f.2 == "Target Repos:"@ { assert(ts[7] == f.2); }
        else if f.2 == "```"@ { assert(ts[8] == f.2); }
        else { assert(ts[9] == f.2); }
    }
}

} // verus!
