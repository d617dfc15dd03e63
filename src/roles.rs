//! Role directives (`@name: message`) and handoffs between model roles.
use vstd::prelude::*;
use crate::text::{
    alnum, chars_of, contains_chars, contains_seq, find_char, find_char_in, is_alphanumeric,
    lemma_find_char_bounds, lines, lower_of, lowercase, slice_chars, split_lines, string_of, trim,
    trim_chars,
};

verus! {

/// A role named at the start of a text, and the text that follows it.
#[derive(Debug, Clone)]
pub struct RoleDirective {
    pub role: String,
    pub content: String,
}

/// The role a conversation currently runs under.
#[derive(Debug, Clone)]
pub struct ActiveRole {
    pub name: String,
    pub model: String,
    pub system_prompt: Option<String>,
}

pub open spec fn role_char(c: char) -> bool {
    alnum(c) || c == '_' || c == '-'
}

/// `@role: rest` at the start of `s` (after trimming): the lower-cased role, made of
/// letters, digits, `_` and `-`, and the trimmed rest.
pub open spec fn role_directive(s: Seq<char>) -> Option<(Seq<char>, Seq<char>)> {
    let t = trim(s);
    if t.len() == 0 || t[0] != '@' {
        None
    } else {
        match find_char(t, ':') {
            None => None,
            Some(k) => {
                let role = lower_of(trim(t.subrange(1, k)));
                if role.len() > 0 && forall|i: int| 0 <= i < role.len() ==> role_char(#[trigger] role[i]) {
                    Some((role, trim(t.skip(k + 1))))
                } else {
                    None
                }
            },
        }
    }
}

pub open spec fn directive_view(r: Option<RoleDirective>) -> Option<(Seq<char>, Seq<char>)> {
    match r {
        Some(d) => Some((d.role@, d.content@)),
        None => None,
    }
}

/// A valid role name: not empty, made of letters, digits, `_` and `-`.
pub open spec fn role_name_ok(role: Seq<char>) -> bool {
    role.len() > 0 && forall|i: int| 0 <= i < role.len() ==> role_char(#[trigger] role[i])
}

/// Checks an already lower-cased role name.
pub fn is_role_name(role: &str) -> (r: bool)
    ensures
        r == role_name_ok(role@),
{
    let rc = chars_of(role);
    if rc.len() == 0 {
        return false;
    }
    let mut i: usize = 0;
    while i < rc.len()
        invariant
            i <= rc@.len(),
            rc@ == role@,
            forall|j: int| 0 <= j < i ==> role_char(#[trigger] rc@[j]),
        decreases rc@.len() - i,
    {
        let c = rc[i];
        if !(is_alphanumeric(c) || c == '_' || c == '-') {
            assert(!role_char(rc@[i as int]));
            return false;
        }
        i = i + 1;
    }
    true
}

fn directive_of_chars(s: &Vec<char>) -> (r: Option<RoleDirective>)
    ensures
        directive_view(r) == role_directive(s@),
{
    let t = trim_chars(s);
    if t.len() == 0 || t[0] != '@' {
        return None;
    }
    proof {
        lemma_find_char_bounds(t@, ':');
    }
    let k = match find_char_in(&t, ':') {
        Some(k) => k,
        None => {
            return None;
        },
    };
    let raw = trim_chars(&slice_chars(&t, 1, k));
    let role = lowercase(string_of(raw.as_slice()).as_str());
    if !is_role_name(role.as_str()) {
        return None;
    }
    let rest = trim_chars(&slice_chars(&t, k + 1, t.len()));
    assert(t@.subrange(k + 1, t@.len() as int) =~= t@.skip(k + 1));
    Some(RoleDirective { role, content: string_of(rest.as_slice()) })
}

/// Reads a leading `@role:` directive, as in `"@planner: make a plan"`.
pub fn parse_role_directive(content: &str) -> (r: Option<RoleDirective>)
    ensures
        directive_view(r) == role_directive(content@),
{
    let c = chars_of(content);
    directive_of_chars(&c)
}

/// The directive a single line of assistant output carries: one at its start, or
/// one that follows "hand off to @" or "handoff to @" (in any case) in it.
pub open spec fn line_directive(line: Seq<char>) -> Option<(Seq<char>, Seq<char>)> {
    let t = trim(line);
    match role_directive(t) {
        Some(d) => Some(d),
        None => {
            let lower = lower_of(t);
            if contains_seq(lower, "hand off to @"@) || contains_seq(lower, "handoff to @"@) {
                match find_char(t, '@') {
                    Some(a) => role_directive(t.skip(a)),
                    None => None,
                }
            } else {
                None
            }
        },
    }
}

/// The first line, in order, that carries a directive.
pub open spec fn first_handoff(ls: Seq<Seq<char>>) -> Option<(Seq<char>, Seq<char>)>
    decreases ls.len(),
{
    if ls.len() == 0 {
        None
    } else {
        match line_directive(ls[0]) {
            Some(d) => Some(d),
            None => first_handoff(ls.drop_first()),
        }
    }
}

fn line_directive_exec(line: &Vec<char>) -> (r: Option<RoleDirective>)
    ensures
        directive_view(r) == line_directive(line@),
{
    let t = trim_chars(line);
    let d = directive_of_chars(&t);
    if d.is_some() {
        return d;
    }
    let lower = chars_of(lowercase(string_of(t.as_slice()).as_str()).as_str());
    if contains_chars(&lower, &chars_of("hand off to @")) || contains_chars(
        &lower,
        &chars_of("handoff to @"),
    ) {
        proof {
            lemma_find_char_bounds(t@, '@');
        }
        match find_char_in(&t, '@') {
            Some(a) => {
                let after = slice_chars(&t, a, t.len());
                assert(after@ =~= t@.skip(a as int));
                directive_of_chars(&after)
            },
            None => None,
        }
    } else {
        None
    }
}

/// Finds a handoff in assistant output: the first line that starts with
/// `@role:` or says "hand off to @role:".
pub fn find_handoff_directive(content: &str) -> (r: Option<RoleDirective>)
    ensures
        directive_view(r) == first_handoff(lines(content@)),
{
    let c = chars_of(content);
    let ls = split_lines(&c);
    let ghost lv = lines(content@);
    assert(lv == Seq::new(ls@.len(), |i: int| ls@[i]@));
    let mut i: usize = 0;
    assert(lv.skip(0) =~= lv);
    while i < ls.len()
        invariant
            i <= ls@.len() == lv.len(),
            lv == lines(content@),
            forall|j: int| 0 <= j < lv.len() ==> #[trigger] lv[j] == ls@[j]@,
            first_handoff(lv) == first_handoff(lv.skip(i as int)),
        decreases ls@.len() - i,
    {
        assert(lv.skip(i as int).drop_first() =~= lv.skip(i + 1));
        assert(lv.skip(i as int)[0] == ls@[i as int]@);
        let d = line_directive_exec(&ls[i]);
        if d.is_some() {
            assert(lv.skip(i as int).len() > 0);
            assert(first_handoff(lv.skip(i as int)) == line_directive(ls@[i as int]@));
            return d;
        }
        i = i + 1;
    }
    None
}

} // verus!
