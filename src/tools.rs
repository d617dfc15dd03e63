//! The built-in tools, their names and aliases.
use vstd::prelude::*;
use crate::text::{
    chars_of, contains_chars, contains_seq, decimal, decimal_string, equal_chars, find_char, find_char_in,
    is_ws, is_whitespace, lemma_find_char_bounds, lines, slice_chars, split_lines, string_of, trim,
    trim_chars, trim_end,
};
use crate::context::append_chars;
use crate::plugins::ToolPluginManager;

verus! {

/// The built-in tools; each may be requested under several names.
#[derive(Debug, Clone, Copy, PartialEq, Eq, Structural)]
pub enum ToolKind {
    Bash,
    Read,
    Edit,
    Write,
    Glob,
    Grep,
    List,
    FileInfo,
    AskUser,
    ConfirmPlan,
    WebSearch,
    TodoWrite,
}

/// The tool that a requested name stands for, if it is a built-in one.
pub open spec fn kind_of(n: Seq<char>) -> Option<ToolKind> {
    if n == "Bash"@ || n == "run_shell_command"@ {
        Some(ToolKind::Bash)
    } else if n == "Read"@ || n == "read_file"@ || n == "read_lines"@ {
        Some(ToolKind::Read)
    } else if n == "Edit"@ || n == "edit_file"@ {
        Some(ToolKind::Edit)
    } else if n == "Write"@ || n == "write_file"@ {
        Some(ToolKind::Write)
    } else if n == "Glob"@ || n == "glob"@ || n == "glob_files"@ {
        Some(ToolKind::Glob)
    } else if n == "Grep"@ || n == "grep"@ || n == "search"@ || n == "search_files"@ || n
        == "search_content"@ {
        Some(ToolKind::Grep)
    } else if n == "List"@ || n == "list_dir"@ || n == "list_directory"@ {
        Some(ToolKind::List)
    } else if n == "FileInfo"@ || n == "file_info"@ {
        Some(ToolKind::FileInfo)
    } else if n == "AskUser"@ || n == "ask_multiple_choice"@ {
        Some(ToolKind::AskUser)
    } else if n == "ConfirmPlan"@ || n == "confirm_plan"@ {
        Some(ToolKind::ConfirmPlan)
    } else if n == "WebSearch"@ || n == "web_search"@ {
        Some(ToolKind::WebSearch)
    } else if n == "TodoWrite"@ {
        Some(ToolKind::TodoWrite)
    } else {
        None
    }
}

fn is_name(n: &Vec<char>, lit: &str) -> (r: bool)
    ensures
        r == (n@ == lit@),
{
    let l = chars_of(lit);
    equal_chars(n, &l)
}

/// Looks a requested tool name up in the table of built-in tools.
pub fn tool_kind(name: &str) -> (r: Option<ToolKind>)
    ensures
        r == kind_of(name@),
{
    let n = chars_of(name);
    if is_name(&n, "Bash") || is_name(&n, "run_shell_command") {
        Some(ToolKind::Bash)
    } else if is_name(&n, "Read") || is_name(&n, "read_file") || is_name(&n, "read_lines") {
        Some(ToolKind::Read)
    } else if is_name(&n, "Edit") || is_name(&n, "edit_file") {
        Some(ToolKind::Edit)
    } else if is_name(&n, "Write") || is_name(&n, "write_file") {
        Some(ToolKind::Write)
    } else if is_name(&n, "Glob") || is_name(&n, "glob") || is_name(&n, "glob_files") {
        Some(ToolKind::Glob)
    } else if is_name(&n, "Grep") || is_name(&n, "grep") || is_name(&n, "search") || is_name(
        &n,
        "search_files",
    ) || is_name(&n, "search_content") {
        Some(ToolKind::Grep)
    } else if is_name(&n, "List") || is_name(&n, "list_dir") || is_name(&n, "list_directory") {
        Some(ToolKind::List)
    } else if is_name(&n, "FileInfo") || is_name(&n, "file_info") {
        Some(ToolKind::FileInfo)
    } else if is_name(&n, "AskUser") || is_name(&n, "ask_multiple_choice") {
        Some(ToolKind::AskUser)
    } else if is_name(&n, "ConfirmPlan") || is_name(&n, "confirm_plan") {
        Some(ToolKind::ConfirmPlan)
    } else if is_name(&n, "WebSearch") || is_name(&n, "web_search") {
        Some(ToolKind::WebSearch)
    } else if is_name(&n, "TodoWrite") {
        Some(ToolKind::TodoWrite)
    } else {
        None
    }
}

/// The primary names of the built-in tools, in their fixed order.
pub open spec fn builtin_names() -> Seq<Seq<char>> {
    seq![
        "Bash"@,
        "Read"@,
        "Edit"@,
        "Write"@,
        "Glob"@,
        "Grep"@,
        "List"@,
        "FileInfo"@,
        "AskUser"@,
        "ConfirmPlan"@,
        "WebSearch"@,
        "TodoWrite"@,
    ]
}

/// Every tool name the model may use: the built-in ones, then the plugins'.
pub fn get_all_tool_names(plugins: &ToolPluginManager) -> (r: Vec<String>)
    requires
        plugins.wf(),
    ensures
        r@.len() == 12 + plugins.tools@.len(),
        forall|i: int| 0 <= i < 12 ==> #[trigger] r@[i]@ == builtin_names()[i],
        forall|i: int|
            0 <= i < plugins.tools@.len() ==> #[trigger] r@[12 + i]@ == plugins.tools@[i].name@,
{
    let mut names: Vec<String> = Vec::new();
    names.push(String::from_str("Bash"));
    names.push(String::from_str("Read"));
    names.push(String::from_str("Edit"));
    names.push(String::from_str("Write"));
    names.push(String::from_str("Glob"));
    names.push(String::from_str("Grep"));
    names.push(String::from_str("List"));
    names.push(String::from_str("FileInfo"));
    names.push(String::from_str("AskUser"));
    names.push(String::from_str("ConfirmPlan"));
    names.push(String::from_str("WebSearch"));
    names.push(String::from_str("TodoWrite"));
    let mut i: usize = 0;
    while i < plugins.tools.len()
        invariant
            i <= plugins.tools@.len(),
            names@.len() == 12 + i,
            forall|j: int| 0 <= j < 12 ==> #[trigger] names@[j]@ == builtin_names()[j],
            forall|j: int| 0 <= j < i ==> #[trigger] names@[12 + j]@ == plugins.tools@[j].name@,
        decreases plugins.tools@.len() - i,
    {
        names.push(plugins.tools[i].name.clone());
        i = i + 1;
    }
    names
}


/// Each line prefixed with `mark` and ended with a newline.
pub open spec fn marked_lines(ls: Seq<Seq<char>>, mark: Seq<char>) -> Seq<char>
    decreases ls.len(),
{
    if ls.len() == 0 {
        seq![]
    } else {
        marked_lines(ls.drop_last(), mark) + mark + ls.last() + seq!['\n']
    }
}

/// A git-style summary of an edit: a header with both line counts, the removed
/// lines, then the added ones.
pub open spec fn diff_snippet(old_string: Seq<char>, new_string: Seq<char>) -> Seq<char> {
    trim_end(
        "@@ -"@ + decimal(lines(old_string).len()) + " lines +"@ + decimal(lines(new_string).len())
            + " lines @@\n"@ + marked_lines(lines(old_string), "-  "@) + marked_lines(
            lines(new_string),
            "+  "@,
        ),
    )
}

fn append_marked(out: &mut Vec<char>, ls: &Vec<Vec<char>>, mark: &str)
    ensures
        final(out)@ == old(out)@ + marked_lines(Seq::new(ls@.len(), |i: int| ls@[i]@), mark@),
{
    let ghost lv = Seq::new(ls@.len(), |i: int| ls@[i]@);
    let m = chars_of(mark);
    let mut i: usize = 0;
    while i < ls.len()
        invariant
            i <= ls@.len(),
            m@ == mark@,
            lv == Seq::new(ls@.len(), |i: int| ls@[i]@),
            out@ == old(out)@ + marked_lines(lv.take(i as int), mark@),
        decreases ls@.len() - i,
    {
        append_chars(out, &m);
        append_chars(out, &ls[i]);
        out.push('\n');
        assert(lv.take(i + 1).drop_last() =~= lv.take(i as int));
        assert(out@ =~= old(out)@ + marked_lines(lv.take(i + 1), mark@));
        i = i + 1;
    }
    assert(lv.take(i as int) =~= lv);
}

/// Describes an edit for the model and the user: line counts, removed lines
/// marked `-`, added lines marked `+`.
pub fn generate_diff_snippet(old_string: &str, new_string: &str) -> (r: String)
    ensures
        r@ == diff_snippet(old_string@, new_string@),
{
    let old_lines = split_lines(&chars_of(old_string));
    let new_lines = split_lines(&chars_of(new_string));
    assert(Seq::new(old_lines@.len(), |i: int| old_lines@[i]@) =~= lines(old_string@));
    assert(Seq::new(new_lines@.len(), |i: int| new_lines@[i]@) =~= lines(new_string@));
    let mut out = chars_of("@@ -");
    append_chars(&mut out, &chars_of(decimal_string(old_lines.len()).as_str()));
    append_chars(&mut out, &chars_of(" lines +"));
    append_chars(&mut out, &chars_of(decimal_string(new_lines.len()).as_str()));
    append_chars(&mut out, &chars_of(" lines @@\n"));
    append_marked(&mut out, &old_lines, "-  ");
    append_marked(&mut out, &new_lines, "+  ");
    let mut e: usize = out.len();
    while e > 0 && is_whitespace(out[e - 1])
        invariant
            e <= out@.len(),
            forall|j: int| e <= j < out@.len() ==> is_ws(#[trigger] out@[j]),
        decreases e,
    {
        e = e - 1;
    }
    proof {
        crate::text::lemma_trim_end_at(out@, e as int);
    }
    string_of(slice_chars(&out, 0, e).as_slice())
}


// ---------------------------------------------------------------------------
// Web search results

pub open spec fn match_at(s: Seq<char>, p: Seq<char>, i: int) -> bool {
    0 <= i && i + p.len() <= s.len() && s.subrange(i, i + p.len()) == p
}

/// Position of the first occurrence of `p` in `s`.
pub open spec fn find_seq(s: Seq<char>, p: Seq<char>) -> Option<int>
    decreases s.len(),
{
    if s.len() < p.len() {
        None
    } else if s.take(p.len() as int) == p {
        Some(0)
    } else if s.len() == 0 {
        None
    } else {
        match find_seq(s.drop_first(), p) {
            Some(i) => Some(i + 1),
            None => None,
        }
    }
}

pub proof fn lemma_find_seq(s: Seq<char>, p: Seq<char>)
    ensures
        match find_seq(s, p) {
            Some(i) => match_at(s, p, i),
            None => true,
        },
    decreases s.len(),
{
    if s.len() >= p.len() && s.take(p.len() as int) != p && s.len() > 0 {
        lemma_find_seq(s.drop_first(), p);
        if let Some(i) = find_seq(s.drop_first(), p) {
            assert(s.subrange(i + 1, i + 1 + p.len()) =~= s.drop_first().subrange(i, i + p.len()));
        }
    } else if s.len() >= p.len() && s.take(p.len() as int) == p {
        assert(s.subrange(0, p.len() as int) =~= s.take(p.len() as int));
    }
}

fn find_chars(s: &Vec<char>, p: &Vec<char>) -> (r: Option<usize>)
    ensures
        match find_seq(s@, p@) {
            Some(i) => r is Some && r.unwrap() as int == i && match_at(s@, p@, i),
            None => r is None,
        },
{
    proof {
        lemma_find_seq(s@, p@);
    }
    let n = s.len();
    let mut at: usize = 0;
    assert(s@.skip(0) =~= s@);
    while at < n || (at == n && p.len() == 0)
        invariant
            at <= n == s@.len(),
            find_seq(s@, p@) == (match find_seq(s@.skip(at as int), p@) {
                Some(k) => Some(k + at),
                None => None::<int>,
            }),
        decreases n - at + 1,
    {
        let ghost t = s@.skip(at as int);
        if n - at < p.len() {
            return None;
        }
        assert(t.take(p@.len() as int) =~= s@.subrange(at as int, at + p@.len()));
        if equal_chars(&slice_chars(s, at, at + p.len()), p) {
            return Some(at);
        }
        if at == n {
            return None;
        }
        assert(t.drop_first() =~= s@.skip(at + 1));
        at = at + 1;
    }
    let ghost t = s@.skip(at as int);
    assert(t.len() == 0 && p@.len() > 0);
    None
}

/// `s` with every occurrence of `p` (scanning left to right) replaced by `r`.
pub open spec fn replace_seq(s: Seq<char>, p: Seq<char>, r: Seq<char>) -> Seq<char>
    decreases s.len(),
{
    if p.len() == 0 || s.len() < p.len() {
        s
    } else if s.take(p.len() as int) == p {
        r + replace_seq(s.skip(p.len() as int), p, r)
    } else {
        seq![s[0]] + replace_seq(s.drop_first(), p, r)
    }
}

fn replace_chars(s: &Vec<char>, pat: &str, rep: &str) -> (r: Vec<char>)
    requires
        pat@.len() > 0,
    ensures
        r@ == replace_seq(s@, pat@, rep@),
{
    let p = chars_of(pat);
    let rv = chars_of(rep);
    let mut out: Vec<char> = Vec::new();
    let mut i: usize = 0;
    let n = s.len();
    assert(s@.skip(0) =~= s@);
    while i < n
        invariant
            i <= n == s@.len(),
            p@ == pat@,
            rv@ == rep@,
            p@.len() > 0,
            replace_seq(s@, pat@, rep@) == out@ + replace_seq(s@.skip(i as int), pat@, rep@),
        decreases n - i,
    {
        let ghost t = s@.skip(i as int);
        if n - i < p.len() {
            let rest = slice_chars(s, i, n);
            assert(rest@ =~= t);
            append_chars(&mut out, &rest);
            assert(s@.skip(n as int) =~= Seq::<char>::empty());
            assert(replace_seq(s@.skip(n as int), pat@, rep@) =~= Seq::<char>::empty());
            assert(out@ + replace_seq(s@.skip(n as int), pat@, rep@) =~= out@);
            i = n;
        } else if equal_chars(&slice_chars(s, i, i + p.len()), &p) {
            assert(t.take(p@.len() as int) =~= s@.subrange(i as int, i + p@.len()));
            assert(t.skip(p@.len() as int) =~= s@.skip(i + p@.len()));
            let ghost before = out@;
            append_chars(&mut out, &rv);
            assert(before + replace_seq(t, pat@, rep@) =~= out@ + replace_seq(t.skip(p@.len() as int), pat@, rep@));
            i = i + p.len();
        } else {
            assert(t.take(p@.len() as int) =~= s@.subrange(i as int, i + p@.len()));
            assert(t.drop_first() =~= s@.skip(i + 1));
            let ghost before = out@;
            out.push(s[i]);
            assert(before + replace_seq(t, pat@, rep@) =~= out@ + replace_seq(t.drop_first(), pat@, rep@));
            i = i + 1;
        }
    }
    assert(s@.skip(i as int) =~= Seq::<char>::empty());
    assert(replace_seq(s@.skip(i as int), pat@, rep@) =~= Seq::<char>::empty());
    assert(out@ + replace_seq(s@.skip(i as int), pat@, rep@) =~= out@);
    out
}

/// HTML entities of a result text decoded.
pub open spec fn unescaped(t: Seq<char>) -> Seq<char> {
    replace_seq(
        replace_seq(replace_seq(replace_seq(t, "&amp;"@, "&"@), "&lt;"@, "<"@), "&gt;"@, ">"@),
        "&quot;"@,
        "\""@,
    )
}

/// The text between the first `>` of a line and the first `end` after it.
pub open spec fn tag_text(line: Seq<char>, end: Seq<char>) -> Option<Seq<char>> {
    match find_char(line, '>') {
        Some(st) => if 0 <= st < line.len() {
            match find_seq(line.skip(st), end) {
                Some(e) => if e >= 1 {
                    Some(line.subrange(st + 1, st + e))
                } else {
                    None
                },
                None => None,
            }
        } else {
            None
        },
        None => None,
    }
}

/// The bulleted title a result-link line carries, if any.
pub open spec fn result_title(line: Seq<char>) -> Option<Seq<char>> {
    if contains_seq(line, "result__a"@) && contains_seq(line, "href="@) {
        match tag_text(line, "</a>"@) {
            Some(raw) => {
                let t = unescaped(raw);
                if trim(t).len() > 0 && !contains_seq(t, "<"@) {
                    Some("\u{2022} "@ + trim(t))
                } else {
                    None
                }
            },
            None => None,
        }
    } else {
        None
    }
}

/// The snippet text a result-snippet line carries, if any.
pub open spec fn result_snippet(line: Seq<char>) -> Option<Seq<char>> {
    if contains_seq(line, "result__snippet"@) {
        match tag_text(line, "</"@) {
            Some(raw) => {
                let t = replace_seq(replace_seq(unescaped(raw), "<b>"@, ""@), "</b>"@, ""@);
                if trim(t).len() > 0 {
                    Some(trim(t))
                } else {
                    None
                }
            },
            None => None,
        }
    } else {
        None
    }
}

/// One line's contribution: a title, then (after some title) a snippet and a blank.
pub open spec fn result_step(rs: Seq<Seq<char>>, line: Seq<char>) -> Seq<Seq<char>> {
    let r1 = match result_title(line) {
        Some(t) => rs.push(t),
        None => rs,
    };
    match result_snippet(line) {
        Some(s) => if r1.len() > 0 {
            r1.push("  "@ + s).push(seq![])
        } else {
            r1
        },
        None => r1,
    }
}

/// Result lines of a page, line by line, until fifteen are gathered.
pub open spec fn result_lines(ls: Seq<Seq<char>>) -> Seq<Seq<char>>
    decreases ls.len(),
{
    if ls.len() == 0 {
        seq![]
    } else {
        let rs = result_lines(ls.drop_last());
        if rs.len() >= 15 {
            rs
        } else {
            result_step(rs, ls.last())
        }
    }
}

pub open spec fn search_summary(html: Seq<char>) -> Seq<char> {
    let rs = result_lines(lines(html));
    if rs.len() == 0 {
        "No results found or unable to parse search results."@
    } else {
        crate::context::join(rs, "\n"@)
    }
}

fn tag_text_exec(line: &Vec<char>, end: &str) -> (r: Option<Vec<char>>)
    ensures
        crate::context::opt_chars(r) == tag_text(line@, end@),
{
    proof {
        lemma_find_char_bounds(line@, '>');
    }
    let st = match find_char_in(line, '>') {
        Some(st) => st,
        None => {
            return None;
        },
    };
    let rest = slice_chars(line, st, line.len());
    assert(rest@ =~= line@.skip(st as int));
    match find_chars(&rest, &chars_of(end)) {
        Some(e) => {
            if e >= 1 {
                Some(slice_chars(line, st + 1, st + e))
            } else {
                None
            }
        },
        None => None,
    }
}

fn unescape_exec(t: &Vec<char>) -> (r: Vec<char>)
    ensures
        r@ == unescaped(t@),
{
    proof {
        reveal_strlit("&amp;");
        reveal_strlit("&lt;");
        reveal_strlit("&gt;");
        reveal_strlit("&quot;");
    }
    let a = replace_chars(t, "&amp;", "&");
    let b = replace_chars(&a, "&lt;", "<");
    let c = replace_chars(&b, "&gt;", ">");
    replace_chars(&c, "&quot;", "\"")
}

fn title_exec(line: &Vec<char>) -> (r: Option<Vec<char>>)
    ensures
        crate::context::opt_chars(r) == result_title(line@),
{
    if !(contains_chars(line, &chars_of("result__a")) && contains_chars(line, &chars_of("href="))) {
        return None;
    }
    match tag_text_exec(line, "</a>") {
        Some(raw) => {
            let t = unescape_exec(&raw);
            let tt = trim_chars(&t);
            if tt.len() > 0 && !contains_chars(&t, &chars_of("<")) {
                let mut out = chars_of("\u{2022} ");
                append_chars(&mut out, &tt);
                Some(out)
            } else {
                None
            }
        },
        None => None,
    }
}

fn snippet_exec(line: &Vec<char>) -> (r: Option<Vec<char>>)
    ensures
        crate::context::opt_chars(r) == result_snippet(line@),
{
    if !contains_chars(line, &chars_of("result__snippet")) {
        return None;
    }
    proof {
        reveal_strlit("<b>");
        reveal_strlit("</b>");
    }
    match tag_text_exec(line, "</") {
        Some(raw) => {
            let t = replace_chars(&replace_chars(&unescape_exec(&raw), "<b>", ""), "</b>", "");
            let tt = trim_chars(&t);
            if tt.len() > 0 {
                Some(tt)
            } else {
                None
            }
        },
        None => None,
    }
}

fn result_step_exec(results: &mut Vec<Vec<char>>, line: &Vec<char>)
    ensures
        crate::context::chars_view(final(results)@) == result_step(
            crate::context::chars_view(old(results)@),
            line@,
        ),
{
    let ghost r0 = crate::context::chars_view(results@);
    if let Some(t) = title_exec(line) {
        results.push(t);
        assert(crate::context::chars_view(results@) =~= r0.push(t@));
    }
    let ghost r1 = crate::context::chars_view(results@);
    if let Some(sn) = snippet_exec(line) {
        if results.len() > 0 {
            let mut entry = chars_of("  ");
            append_chars(&mut entry, &sn);
            results.push(entry);
            results.push(Vec::new());
            assert(crate::context::chars_view(results@) =~= r1.push("  "@ + sn@).push(seq![]));
        }
    }
}

/// Turns a search result page into bulleted titles with their snippets (at
/// most fifteen lines are gathered), or a notice when nothing was found.
pub fn parse_duckduckgo_results(html: &str) -> (r: String)
    ensures
        r@ == search_summary(html@),
{
    let ls = split_lines(&chars_of(html));
    let ghost lv = lines(html@);
    assert(lv =~= Seq::new(ls@.len(), |i: int| ls@[i]@));
    let mut results: Vec<Vec<char>> = Vec::new();
    let mut i: usize = 0;
    while i < ls.len()
        invariant
            i <= ls@.len() == lv.len(),
            lv == lines(html@),
            forall|j: int| 0 <= j < lv.len() ==> #[trigger] lv[j] == ls@[j]@,
            crate::context::chars_view(results@) == result_lines(lv.take(i as int)),
        decreases ls@.len() - i,
    {
        assert(lv.take(i + 1).drop_last() =~= lv.take(i as int));
        assert(lv.take(i + 1).last() == ls@[i as int]@);
        if results.len() < 15 {
            result_step_exec(&mut results, &ls[i]);
        }
        i = i + 1;
    }
    assert(lv.take(i as int) =~= lv);
    if results.len() == 0 {
        String::from_str("No results found or unable to parse search results.")
    } else {
        string_of(crate::context::join_chars(&results, "\n").as_slice())
    }
}


// ---------------------------------------------------------------------------
// Ignore patterns

/// Patterns skipped by searches when the project has no ignore file.
pub open spec fn default_patterns() -> Seq<Seq<char>> {
    seq![".git"@, "node_modules"@, "target"@, "__pycache__"@, ".venv"@, "venv"@, "*.log"@, ".*"@]
}

pub fn default_ignore_patterns() -> (r: Vec<String>)
    ensures
        r@.len() == 8,
        forall|i: int| 0 <= i < 8 ==> #[trigger] r@[i]@ == default_patterns()[i],
{
    let mut v: Vec<String> = Vec::new();
    v.push(String::from_str(".git"));
    v.push(String::from_str("node_modules"));
    v.push(String::from_str("target"));
    v.push(String::from_str("__pycache__"));
    v.push(String::from_str(".venv"));
    v.push(String::from_str("venv"));
    v.push(String::from_str("*.log"));
    v.push(String::from_str(".*"));
    v
}

/// The patterns of an ignore file: its trimmed lines, without blank lines and
/// `#` comments.
pub open spec fn ignore_patterns(ls: Seq<Seq<char>>) -> Seq<Seq<char>>
    decreases ls.len(),
{
    if ls.len() == 0 {
        seq![]
    } else {
        let t = trim(ls.last());
        if t.len() > 0 && t[0] != '#' {
            ignore_patterns(ls.drop_last()).push(t)
        } else {
            ignore_patterns(ls.drop_last())
        }
    }
}

/// Reads the patterns out of an ignore file's text.
pub fn parse_ignore_file(content: &str) -> (r: Vec<String>)
    ensures
        r@.len() == ignore_patterns(lines(content@)).len(),
        forall|i: int| 0 <= i < r@.len() ==> #[trigger] r@[i]@ == ignore_patterns(lines(content@))[i],
{
    let ls = split_lines(&chars_of(content));
    let ghost lv = lines(content@);
    assert(lv =~= Seq::new(ls@.len(), |i: int| ls@[i]@));
    let mut out: Vec<String> = Vec::new();
    let mut i: usize = 0;
    while i < ls.len()
        invariant
            i <= ls@.len() == lv.len(),
            lv == lines(content@),
            forall|j: int| 0 <= j < lv.len() ==> #[trigger] lv[j] == ls@[j]@,
            out@.len() == ignore_patterns(lv.take(i as int)).len(),
            forall|j: int| 0 <= j < out@.len() ==> #[trigger] out@[j]@ == ignore_patterns(lv.take(i as int))[j],
        decreases ls@.len() - i,
    {
        assert(lv.take(i + 1).drop_last() =~= lv.take(i as int));
        assert(lv.take(i + 1).last() == ls@[i as int]@);
        let t = trim_chars(&ls[i]);
        if t.len() > 0 && t[0] != '#' {
            out.push(string_of(t.as_slice()));
        }
        i = i + 1;
    }
    assert(lv.take(i as int) =~= lv);
    out
}

} // verus!
