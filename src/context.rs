//! Token accounting and lossy compression of the transcript.
use vstd::prelude::*;
use crate::text::{
    chars_of, char_count, contains_chars, contains_seq, decimal, decimal_string, equal_chars,
    lines, slice_chars, split_lines, starts_with_chars, string_of, trim, trim_chars, truncate_chars, truncated,
};
use crate::message::{Message, MessageView, ToolCall, ToolCallView, calls_view, msgs_view};
use crate::tools::{ToolKind, kind_of, tool_kind};

verus! {

/// Estimated tokens for `n` characters: one per four, rounded up.
pub open spec fn est(n: nat) -> nat {
    (n + 3) / 4
}

/// `n`, or `usize::MAX` when it is larger.
pub open spec fn cap(n: int) -> int {
    if n > usize::MAX {
        usize::MAX as int
    } else {
        n
    }
}

/// Length of an optional text; none counts as empty.
pub open spec fn opt_len(o: Option<Seq<char>>) -> nat {
    match o {
        Some(s) => s.len(),
        None => 0,
    }
}

pub open spec fn calls_tokens(cs: Seq<ToolCallView>) -> nat
    decreases cs.len(),
{
    if cs.len() == 0 {
        0
    } else {
        calls_tokens(cs.drop_last()) + est(cs.last().name.len()) + est(cs.last().arguments.len())
    }
}

/// Tokens of one message: a role overhead of four, its text and its tool calls.
pub open spec fn message_tokens_spec(m: MessageView) -> nat {
    4 + est(opt_len(m.content)) + match m.tool_calls {
        Some(cs) => calls_tokens(cs),
        None => 0,
    }
}

/// Tokens of a whole transcript.
pub open spec fn history_tokens(ms: Seq<MessageView>) -> nat
    decreases ms.len(),
{
    if ms.len() == 0 {
        0
    } else {
        history_tokens(ms.drop_last()) + message_tokens_spec(ms.last())
    }
}

fn add_capped(a: usize, b: usize) -> (r: usize)
    ensures
        r == cap(a + b),
{
    if a > usize::MAX - b {
        usize::MAX
    } else {
        a + b
    }
}

/// Estimate of the token count of a text: its characters divided by four, rounded up.
pub fn estimate_tokens(text: &str) -> (r: usize)
    ensures
        r == est(text@.len()),
{
    let n = char_count(text);
    n / 4 + if n % 4 == 0 {
        0
    } else {
        1
    }
}

/// Estimated tokens of one message, capped at `usize::MAX`.
pub fn message_tokens(msg: &Message) -> (r: usize)
    ensures
        r == cap(message_tokens_spec(msg@) as int),
{
    let mut tokens: usize = 4;
    if let Some(c) = &msg.content {
        tokens = add_capped(tokens, estimate_tokens(c.as_str()));
    }
    if let Some(tcs) = &msg.tool_calls {
        let mut i: usize = 0;
        let ghost cv = calls_view(tcs@);
        while i < tcs.len()
            invariant
                i <= tcs@.len(),
                cv == calls_view(tcs@),
                tokens == cap((4 + est(opt_len(msg@.content)) + calls_tokens(cv.take(i as int))) as int),
            decreases tcs@.len() - i,
        {
            let tc = &tcs[i];
            tokens = add_capped(tokens, estimate_tokens(tc.function.name.as_str()));
            tokens = add_capped(tokens, estimate_tokens(tc.function.arguments.as_str()));
            i = i + 1;
            assert(cv.take(i as int).drop_last() =~= cv.take(i - 1));
        }
        assert(cv.take(i as int) =~= cv);
    }
    tokens
}

/// Estimated tokens of a transcript, capped at `usize::MAX`.
pub fn total_context_tokens(messages: &[Message]) -> (r: usize)
    ensures
        r == cap(history_tokens(msgs_view(messages@)) as int),
{
    let ghost mv = msgs_view(messages@);
    let mut total: usize = 0;
    let mut i: usize = 0;
    while i < messages.len()
        invariant
            i <= messages@.len(),
            mv == msgs_view(messages@),
            total == cap(history_tokens(mv.take(i as int)) as int),
        decreases messages@.len() - i,
    {
        total = add_capped(total, message_tokens(&messages[i]));
        i = i + 1;
        assert(mv.take(i as int).drop_last() =~= mv.take(i - 1));
    }
    assert(mv.take(i as int) =~= mv);
    total
}

/// Cuts a text to `max_chars` characters, marking the cut with `"..."`.
pub fn safe_truncate(s: &str, max_chars: usize) -> (r: String)
    ensures
        r@ == truncated(s@, max_chars as nat),
{
    let v = chars_of(s);
    truncate_chars(&v, max_chars)
}

/// Number of lines that hold more than whitespace.
pub open spec fn nonblank(ls: Seq<Seq<char>>) -> nat
    decreases ls.len(),
{
    if ls.len() == 0 {
        0
    } else {
        nonblank(ls.drop_last()) + if trim(ls.last()).len() > 0 {
            1nat
        } else {
            0
        }
    }
}

pub open spec fn is_error_text(c: Seq<char>) -> bool {
    "Error:"@.is_prefix_of(c) || "error:"@.is_prefix_of(c)
}

/// The one-line summary of a tool's output, by kind of tool.
pub open spec fn tool_summary(c: Seq<char>, kind: Option<ToolKind>) -> Seq<char> {
    let ls = lines(c);
    if is_error_text(c) {
        "Error: "@ + truncated(
            if ls.len() > 0 {
                ls[0]
            } else {
                "error"@
            },
            80,
        )
    } else {
        match kind {
            Some(ToolKind::Read) => "Read "@ + decimal(ls.len()) + " lines ("@ + decimal(c.len())
                + " chars)"@,
            Some(ToolKind::Bash) => if trim(c).len() == 0 {
                "Command completed (no output)"@
            } else if ls.len() == 1 {
                "Output: "@ + truncated(trim(c), 100)
            } else {
                "Output: "@ + decimal(ls.len()) + " lines"@
            },
            Some(ToolKind::Glob) => "Found "@ + decimal(nonblank(ls)) + " files"@,
            Some(ToolKind::Grep) => "Found "@ + decimal(nonblank(ls)) + " matches"@,
            Some(ToolKind::Edit) => if contains_seq(c, "\u{2713}"@) {
                "Edit successful"@
            } else {
                truncated(c, 80)
            },
            Some(ToolKind::Write) => "File written"@,
            Some(ToolKind::List) => "Listed "@ + decimal(nonblank(ls)) + " items"@,
            _ => if ls.len() <= 2 {
                truncated(c, 150)
            } else {
                decimal(ls.len()) + " lines of output"@
            },
        }
    }
}

fn count_nonblank(ls: &Vec<Vec<char>>) -> (r: usize)
    ensures
        r == nonblank(Seq::new(ls@.len(), |i: int| ls@[i]@)),
{
    let ghost lv = Seq::new(ls@.len(), |i: int| ls@[i]@);
    let mut n: usize = 0;
    let mut i: usize = 0;
    while i < ls.len()
        invariant
            i <= ls@.len(),
            lv == Seq::new(ls@.len(), |i: int| ls@[i]@),
            n == nonblank(lv.take(i as int)),
            n <= i,
        decreases ls@.len() - i,
    {
        let t = trim_chars(&ls[i]);
        assert(lv.take(i + 1).drop_last() =~= lv.take(i as int));
        if t.len() > 0 {
            n = n + 1;
        }
        i = i + 1;
    }
    assert(lv.take(i as int) =~= lv);
    n
}

fn concat3(a: &str, b: &String, c: &str) -> (r: String)
    ensures
        r@ == a@ + b@ + c@,
{
    let s = String::from_str(a);
    let s = s.concat(b.as_str());
    s.concat(c)
}

/// Summarizes a tool's output in one short line, by the kind of tool that produced it.
pub fn summarize_tool_result(content: &str, tool_name: Option<&str>) -> (r: String)
    ensures
        r@ == tool_summary(
            content@,
            match tool_name {
                Some(n) => kind_of(n@),
                None => None,
            },
        ),
{
    let c = chars_of(content);
    let ls = split_lines(&c);
    let ghost lv = Seq::new(ls@.len(), |i: int| ls@[i]@);
    assert(lv =~= lines(content@));
    let line_count = ls.len();
    let err1 = chars_of("Error:");
    let err2 = chars_of("error:");
    if starts_with_chars(&c, &err1) || starts_with_chars(&c, &err2) {
        let first = if ls.len() > 0 {
            truncate_chars(&ls[0], 80)
        } else {
            safe_truncate("error", 80)
        };
        return String::from_str("Error: ").concat(first.as_str());
    }
    let kind = match tool_name {
        Some(n) => tool_kind(n),
        None => None,
    };
    match kind {
        Some(ToolKind::Read) => {
            let a = concat3("Read ", &decimal_string(line_count), " lines (");
            let b = decimal_string(c.len());
            a.concat(b.as_str()).concat(" chars)")
        },
        Some(ToolKind::Bash) => {
            let t = trim_chars(&c);
            if t.len() == 0 {
                String::from_str("Command completed (no output)")
            } else if line_count == 1 {
                String::from_str("Output: ").concat(truncate_chars(&t, 100).as_str())
            } else {
                concat3("Output: ", &decimal_string(line_count), " lines")
            }
        },
        Some(ToolKind::Glob) => concat3("Found ", &decimal_string(count_nonblank(&ls)), " files"),
        Some(ToolKind::Grep) => concat3("Found ", &decimal_string(count_nonblank(&ls)), " matches"),
        Some(ToolKind::Edit) => {
            let mark = chars_of("\u{2713}");
            if contains_chars(&c, &mark) {
                String::from_str("Edit successful")
            } else {
                truncate_chars(&c, 80)
            }
        },
        Some(ToolKind::Write) => String::from_str("File written"),
        Some(ToolKind::List) => concat3("Listed ", &decimal_string(count_nonblank(&ls)), " items"),
        _ => {
            if line_count <= 2 {
                truncate_chars(&c, 150)
            } else {
                decimal_string(line_count).concat(" lines of output")
            }
        },
    }
}

/// A message is sent to the provider only if it is not an internal thought and
/// has non-empty text or at least one tool call.
pub open spec fn is_valid_message(m: MessageView) -> bool {
    &&& m.role != "thought"@
    &&& (match m.content {
        Some(c) => c.len() > 0,
        None => false,
    } || match m.tool_calls {
        Some(cs) => cs.len() > 0,
        None => false,
    })
}

pub open spec fn valid_only(ms: Seq<MessageView>) -> Seq<MessageView>
    decreases ms.len(),
{
    if ms.len() == 0 {
        seq![]
    } else if is_valid_message(ms.last()) {
        valid_only(ms.drop_last()).push(ms.last())
    } else {
        valid_only(ms.drop_last())
    }
}

fn is_valid(m: &Message) -> (r: bool)
    ensures
        r == is_valid_message(m@),
{
    let role = chars_of(m.role.as_str());
    let thought = chars_of("thought");
    if equal_chars(&role, &thought) {
        return false;
    }
    let has_content = match &m.content {
        Some(c) => char_count(c.as_str()) > 0,
        None => false,
    };
    let has_calls = match &m.tool_calls {
        Some(v) => v.len() > 0,
        None => false,
    };
    has_content || has_calls
}

/// The messages fit to send: thoughts and empty messages are left out, order kept.
pub fn filter_valid_messages(messages: &[Message]) -> (r: Vec<Message>)
    ensures
        msgs_view(r@) == valid_only(msgs_view(messages@)),
{
    let ghost mv = msgs_view(messages@);
    let mut r: Vec<Message> = Vec::new();
    let mut i: usize = 0;
    while i < messages.len()
        invariant
            i <= messages@.len(),
            mv == msgs_view(messages@),
            msgs_view(r@) == valid_only(mv.take(i as int)),
        decreases messages@.len() - i,
    {
        assert(mv.take(i + 1).drop_last() =~= mv.take(i as int));
        if is_valid(&messages[i]) {
            r.push(messages[i].copy());
            assert(msgs_view(r@) =~= valid_only(mv.take(i as int)).push(mv[i as int]));
        }
        i = i + 1;
    }
    assert(mv.take(i as int) =~= mv);
    r
}


/// Concatenation of `ps` with `sep` between neighbours.
pub open spec fn join(ps: Seq<Seq<char>>, sep: Seq<char>) -> Seq<char>
    decreases ps.len(),
{
    if ps.len() == 0 {
        seq![]
    } else if ps.len() == 1 {
        ps[0]
    } else {
        join(ps.drop_last(), sep) + sep + ps.last()
    }
}

pub open spec fn chars_view(v: Seq<Vec<char>>) -> Seq<Seq<char>> {
    Seq::new(v.len(), |i: int| v[i]@)
}

pub fn append_chars(a: &mut Vec<char>, b: &Vec<char>)
    ensures
        final(a)@ == old(a)@ + b@,
{
    let mut i: usize = 0;
    while i < b.len()
        invariant
            i <= b@.len(),
            a@ == old(a)@ + b@.take(i as int),
        decreases b@.len() - i,
    {
        a.push(b[i]);
        i = i + 1;
        assert(a@ =~= old(a)@ + b@.take(i as int));
    }
    assert(b@.take(i as int) =~= b@);
}

/// Joins texts with a separator.
pub fn join_chars(ps: &Vec<Vec<char>>, sep: &str) -> (r: Vec<char>)
    ensures
        r@ == join(chars_view(ps@), sep@),
{
    let ghost pv = chars_view(ps@);
    let sv = chars_of(sep);
    if ps.len() == 0 {
        return Vec::new();
    }
    let mut out = slice_chars(&ps[0], 0, ps[0].len());
    assert(pv.take(1).len() == 1);
    let mut i: usize = 1;
    while i < ps.len()
        invariant
            1 <= i <= ps@.len(),
            pv == chars_view(ps@),
            sv@ == sep@,
            out@ == join(pv.take(i as int), sep@),
        decreases ps@.len() - i,
    {
        append_chars(&mut out, &sv);
        append_chars(&mut out, &ps[i]);
        assert(pv.take(i + 1).drop_last() =~= pv.take(i as int));
        assert(pv.take(i + 1).last() == ps@[i as int]@);
        assert(join(pv.take(i + 1), sep@) == join(pv.take(i as int), sep@) + sep@ + ps@[i as int]@);
        assert(out@ =~= join(pv.take(i + 1), sep@));
        i = i + 1;
    }
    assert(pv.take(i as int) =~= pv);
    out
}

/// Name of the last call in `cs` with this id.
pub open spec fn call_name(cs: Seq<ToolCallView>, id: Seq<char>) -> Option<Seq<char>>
    decreases cs.len(),
{
    if cs.len() == 0 {
        None
    } else if cs.last().id == id {
        Some(cs.last().name)
    } else {
        call_name(cs.drop_last(), id)
    }
}

/// Name of the tool call with this id, the latest one if the id repeats.
pub open spec fn name_for_id(h: Seq<MessageView>, id: Seq<char>) -> Option<Seq<char>>
    decreases h.len(),
{
    if h.len() == 0 {
        None
    } else {
        match match h.last().tool_calls {
            Some(cs) => call_name(cs, id),
            None => None,
        } {
            Some(n) => Some(n),
            None => name_for_id(h.drop_last(), id),
        }
    }
}

pub open spec fn opt_chars(o: Option<Vec<char>>) -> Option<Seq<char>> {
    match o {
        Some(v) => Some(v@),
        None => None,
    }
}

fn lookup_in_calls(cs: &Vec<ToolCall>, id: &Vec<char>) -> (r: Option<Vec<char>>)
    ensures
        opt_chars(r) == call_name(calls_view(cs@), id@),
{
    let ghost cv = calls_view(cs@);
    let mut i: usize = cs.len();
    assert(cv.take(i as int) =~= cv);
    while i > 0
        invariant
            i <= cs@.len(),
            cv == calls_view(cs@),
            call_name(cv, id@) == call_name(cv.take(i as int), id@),
        decreases i,
    {
        let cid = chars_of(cs[i - 1].id.as_str());
        assert(cv.take(i as int).drop_last() =~= cv.take(i - 1));
        if equal_chars(&cid, id) {
            return Some(chars_of(cs[i - 1].function.name.as_str()));
        }
        i = i - 1;
    }
    None
}

fn lookup_name(h: &Vec<Message>, id: &Vec<char>) -> (r: Option<Vec<char>>)
    ensures
        opt_chars(r) == name_for_id(msgs_view(h@), id@),
{
    let ghost mv = msgs_view(h@);
    let mut i: usize = h.len();
    assert(mv.take(i as int) =~= mv);
    while i > 0
        invariant
            i <= h@.len(),
            mv == msgs_view(h@),
            name_for_id(mv, id@) == name_for_id(mv.take(i as int), id@),
        decreases i,
    {
        assert(mv.take(i as int).drop_last() =~= mv.take(i - 1));
        if let Some(cs) = &h[i - 1].tool_calls {
            let found = lookup_in_calls(cs, id);
            if found.is_some() {
                return found;
            }
        }
        i = i - 1;
    }
    None
}

/// The line that stands for one message in the summary of older messages.
pub open spec fn summary_part(m: MessageView, h: Seq<MessageView>) -> Option<Seq<char>> {
    if m.role == "user"@ {
        match m.content {
            Some(c) => Some("User: "@ + truncated(c, 120)),
            None => None,
        }
    } else if m.role == "assistant"@ {
        let used: Seq<Seq<char>> = match m.tool_calls {
            Some(cs) => if cs.len() > 0 {
                seq!["Assistant used: "@ + join(cs.map_values(|c: ToolCallView| c.name), ", "@)]
            } else {
                seq![]
            },
            None => seq![],
        };
        let said: Seq<Seq<char>> = match m.content {
            Some(c) => if c.len() > 0 {
                seq!["Assistant: "@ + truncated(c, 150)]
            } else {
                seq![]
            },
            None => seq![],
        };
        if used.len() + said.len() == 0 {
            None
        } else {
            Some(join(used + said, " | "@))
        }
    } else if m.role == "tool"@ {
        match m.content {
            Some(c) => Some(
                "  \u{2192} "@ + tool_summary(
                    c,
                    match m.tool_call_id {
                        Some(id) => match name_for_id(h, id) {
                            Some(n) => kind_of(n),
                            None => None,
                        },
                        None => None,
                    },
                ),
            ),
            None => None,
        }
    } else {
        None
    }
}

fn lit(s: &str) -> (r: Vec<char>)
    ensures
        r@ == s@,
{
    chars_of(s)
}

fn prefixed(p: &str, body: &Vec<char>) -> (r: Vec<char>)
    ensures
        r@ == p@ + body@,
{
    let mut r = lit(p);
    append_chars(&mut r, body);
    r
}

fn summarize_message(m: &Message, h: &Vec<Message>) -> (r: Option<Vec<char>>)
    ensures
        opt_chars(r) == summary_part(m@, msgs_view(h@)),
{
    let role = lit(m.role.as_str());
    if equal_chars(&role, &lit("user")) {
        match &m.content {
            Some(c) => {
                let t = chars_of(safe_truncate(c.as_str(), 120).as_str());
                Some(prefixed("User: ", &t))
            },
            None => None,
        }
    } else if equal_chars(&role, &lit("assistant")) {
        let mut parts: Vec<Vec<char>> = Vec::new();
        let ghost mut used: Seq<Seq<char>> = seq![];
        let ghost mut said: Seq<Seq<char>> = seq![];
        if let Some(cs) = &m.tool_calls {
            if cs.len() > 0 {
                let mut names: Vec<Vec<char>> = Vec::new();
                let mut i: usize = 0;
                while i < cs.len()
                    invariant
                        i <= cs@.len(),
                        names@.len() == i,
                        forall|j: int| 0 <= j < i ==> #[trigger] names@[j]@ == cs@[j].function.name@,
                    decreases cs@.len() - i,
                {
                    names.push(lit(cs[i].function.name.as_str()));
                    i = i + 1;
                }
                assert(chars_view(names@) =~= calls_view(cs@).map_values(|c: ToolCallView| c.name));
                let joined = join_chars(&names, ", ");
                parts.push(prefixed("Assistant used: ", &joined));
                proof {
                    used = seq![parts@[0]@];
                }
            }
        }
        if let Some(c) = &m.content {
            if char_count(c.as_str()) > 0 {
                let t = chars_of(safe_truncate(c.as_str(), 150).as_str());
                let p = prefixed("Assistant: ", &t);
                proof {
                    said = seq![p@];
                }
                parts.push(p);
            }
        }
        assert(chars_view(parts@) =~= used + said);
        if parts.len() == 0 {
            None
        } else {
            Some(join_chars(&parts, " | "))
        }
    } else if equal_chars(&role, &lit("tool")) {
        match &m.content {
            Some(c) => {
                let name = match &m.tool_call_id {
                    Some(id) => lookup_name(h, &lit(id.as_str())),
                    None => None,
                };
                let name_text = match &name {
                    Some(n) => Some(string_of(n.as_slice())),
                    None => None,
                };
                let s = match &name_text {
                    Some(n) => summarize_tool_result(c.as_str(), Some(n.as_str())),
                    None => summarize_tool_result(c.as_str(), None),
                };
                Some(prefixed("  \u{2192} ", &lit(s.as_str())))
            },
            None => None,
        }
    } else {
        None
    }
}

/// Most characters of summary kept before older summary lines are dropped.
pub const MAX_SUMMARY_CHARS: usize = 8000;

pub open spec fn total_len(ps: Seq<Seq<char>>) -> nat
    decreases ps.len(),
{
    if ps.len() == 0 {
        0
    } else {
        total_len(ps.drop_last()) + ps.last().len()
    }
}

/// Summary lines of `ms` in order, stopping once they reach the character cap.
pub open spec fn collect_parts(ms: Seq<MessageView>, h: Seq<MessageView>) -> Seq<Seq<char>>
    decreases ms.len(),
{
    if ms.len() == 0 {
        seq![]
    } else {
        let ps = collect_parts(ms.drop_last(), h);
        if total_len(ps) >= MAX_SUMMARY_CHARS {
            ps
        } else {
            match summary_part(ms.last(), h) {
                Some(p) => ps.push(p),
                None => ps,
            }
        }
    }
}

/// Drops the oldest summary lines while over the cap and more than ten remain.
pub open spec fn trim_parts(ps: Seq<Seq<char>>) -> Seq<Seq<char>>
    decreases ps.len(),
{
    if total_len(ps) > MAX_SUMMARY_CHARS && ps.len() > 10 {
        trim_parts(ps.drop_first())
    } else {
        ps
    }
}

proof fn lemma_total_len_first(ps: Seq<Seq<char>>)
    requires
        ps.len() > 0,
    ensures
        total_len(ps) == ps[0].len() + total_len(ps.drop_first()),
    decreases ps.len(),
{
    if ps.len() > 1 {
        lemma_total_len_first(ps.drop_last());
        assert(ps.drop_last().drop_first() =~= ps.drop_first().drop_last());
        assert(ps.drop_first().last() == ps.last());
        assert(total_len(ps.drop_first()) == total_len(ps.drop_first().drop_last())
            + ps.drop_first().last().len());
    } else {
        assert(ps.drop_first().len() == 0);
        assert(total_len(ps.drop_last()) == 0);
    }
}

/// The compression trigger: 70% of the context size.
pub open spec fn trigger_of(max: nat, trigger_percent: nat) -> nat {
    max * trigger_percent / 100
}

pub open spec fn clamp(x: nat, lo: nat, hi: nat) -> nat {
    if x < lo {
        lo
    } else if x > hi {
        hi
    } else {
        x
    }
}

/// How many recent messages survive compression: the 30% budget divided by the
/// average message size, kept between 6 and 20.
pub open spec fn keep_recent(tokens: nat, len: nat, max: nat, recent_percent: nat) -> nat {
    let avg = tokens / (if len > 0 {
        len
    } else {
        1
    });
    if avg > 0 {
        clamp(max * recent_percent / 100 / avg, 6, 20)
    } else {
        6
    }
}

/// The synthetic system message that replaces `n` older messages.
pub open spec fn summary_message(n: nat, parts: Seq<Seq<char>>) -> MessageView {
    MessageView {
        role: "system"@,
        content: Some(
            "[Previous conversation summary - "@ + decimal(n) + " messages compressed]\n"@ + join(
                parts,
                "\n"@,
            ),
        ),
        tool_calls: None,
        tool_call_id: None,
    }
}

/// What compression makes of a transcript, or `None` when it leaves it alone.
pub open spec fn compressed(h: Seq<MessageView>, max: nat, trigger_percent: nat, recent_percent: nat) -> Option<Seq<MessageView>> {
    let tokens = cap(history_tokens(h) as int) as nat;
    let trig = trigger_of(max, trigger_percent);
    if tokens < trig {
        None
    } else {
        let keep = keep_recent(tokens, h.len(), max, recent_percent);
        if h.len() <= keep + 1 {
            None
        } else {
            let older = h.subrange(1, h.len() - keep);
            let parts = trim_parts(collect_parts(older, h));
            let tail = h.skip(h.len() - keep);
            let rebuilt = seq![h[0], summary_message(older.len(), parts)] + tail;
            if cap(history_tokens(rebuilt) as int) > trig && rebuilt.len() > 4 {
                Some(seq![h[0]] + tail)
            } else {
                Some(rebuilt)
            }
        }
    }
}


/// Share of the context size that triggers compression, in percent.
pub const TRIGGER_PERCENT: usize = 70;

/// Share of the context size given to the recent tail kept verbatim, in percent.
pub const RECENT_PERCENT: usize = 30;

fn percent_of(n: usize, percent: usize) -> (r: usize)
    requires
        percent <= 100,
    ensures
        r == n * percent / 100,
{
    assert((n as u128) * (percent as u128) <= (n as u128) * 100) by (nonlinear_arith)
        requires
            percent <= 100,
    ;
    assert((n as u128) * (percent as u128) / 100 <= n) by (nonlinear_arith)
        requires
            percent <= 100,
    ;
    ((n as u128) * (percent as u128) / 100) as usize
}

/// Compression with the default shares: triggered at 70% of the context size,
/// with 30% for the recent tail.
pub fn compress_history_if_needed(history: &mut Vec<Message>, max_context: usize) -> (r: bool)
    ensures
        match compressed(msgs_view(old(history)@), max_context as nat, 70, 30) {
            None => !r && final(history)@ == old(history)@,
            Some(nh) => r && msgs_view(final(history)@) == nh,
        },
{
    compress_history(history, max_context, TRIGGER_PERCENT, RECENT_PERCENT)
}

/// Keeps the transcript under `trigger_percent`% of the context size: the
/// messages between the first one and a recent tail (sized from
/// `recent_percent`% of the context) are replaced by one summary message, and
/// that summary is dropped too if the result is still over. Returns whether anything
/// was compressed.
pub fn compress_history(
    history: &mut Vec<Message>,
    max_context: usize,
    trigger_percent: usize,
    recent_percent: usize,
) -> (r: bool)
    requires
        trigger_percent <= 100,
        recent_percent <= 100,
    ensures
        match compressed(msgs_view(old(history)@), max_context as nat, trigger_percent as nat, recent_percent as nat) {
            None => !r && final(history)@ == old(history)@,
            Some(nh) => r && msgs_view(final(history)@) == nh,
        },
{
    let ghost h = msgs_view(history@);
    let tokens = total_context_tokens(history.as_slice());
    let trigger = percent_of(max_context, trigger_percent);
    assert(trigger == trigger_of(max_context as nat, trigger_percent as nat));
    if tokens < trigger {
        return false;
    }
    let len = history.len();
    let avg = tokens / (if len > 0 {
        len
    } else {
        1
    });
    let available = percent_of(max_context, recent_percent);
    let keep: usize = if avg > 0 {
        let k = available / avg;
        if k < 6 {
            6
        } else if k > 20 {
            20
        } else {
            k
        }
    } else {
        6
    };
    assert(keep == keep_recent(tokens as nat, len as nat, max_context as nat, recent_percent as nat));
    if len <= keep + 1 {
        return false;
    }
    let end = len - keep;
    let mut parts: Vec<Vec<char>> = Vec::new();
    let mut current: u128 = 0;
    let mut i: usize = 1;
    while i < end
        invariant
            1 <= i <= end < len == history@.len(),
            h == msgs_view(history@),
            chars_view(parts@) == collect_parts(h.subrange(1, i as int), h),
            current == total_len(chars_view(parts@)),
            current < MAX_SUMMARY_CHARS + usize::MAX,
        decreases end - i,
    {
        assert(h.subrange(1, i + 1).drop_last() =~= h.subrange(1, i as int));
        assert(h.subrange(1, i + 1).last() == history@[i as int]@);
        if current < MAX_SUMMARY_CHARS as u128 {
            match summarize_message(&history[i], history) {
                Some(p) => {
                    let ghost before = chars_view(parts@);
                    current = current + p.len() as u128;
                    parts.push(p);
                    assert(chars_view(parts@).drop_last() =~= before);
                    assert(chars_view(parts@) =~= before.push(p@));
                },
                None => {},
            }
        }
        i = i + 1;
    }
    let ghost collected = chars_view(parts@);
    while current > MAX_SUMMARY_CHARS as u128 && parts.len() > 10
        invariant
            trim_parts(chars_view(parts@)) == trim_parts(collected),
            current == total_len(chars_view(parts@)),
        decreases parts@.len(),
    {
        let ghost before = chars_view(parts@);
        proof {
            lemma_total_len_first(before);
        }
        let removed = parts.remove(0);
        assert(chars_view(parts@) =~= before.drop_first());
        current = current - removed.len() as u128;
    }
    let joined = join_chars(&parts, "\n");
    let mut text = lit("[Previous conversation summary - ");
    append_chars(&mut text, &lit(decimal_string(end - 1).as_str()));
    append_chars(&mut text, &lit(" messages compressed]\n"));
    append_chars(&mut text, &joined);
    let summary = Message::text("system", string_of(text.as_slice()));
    let ghost sm = summary_message((end - 1) as nat, trim_parts(collected));
    assert(h.subrange(1, end as int).len() == end - 1);
    assert(summary@ == sm);
    let mut rebuilt: Vec<Message> = Vec::new();
    rebuilt.push(history[0].copy());
    rebuilt.push(summary);
    let mut j: usize = end;
    while j < len
        invariant
            end <= j <= len == history@.len(),
            h == msgs_view(history@),
            msgs_view(rebuilt@) == seq![h[0], sm] + h.subrange(end as int, j as int),
        decreases len - j,
    {
        let ghost before = msgs_view(rebuilt@);
        rebuilt.push(history[j].copy());
        assert(msgs_view(rebuilt@) =~= before.push(h[j as int]));
        assert(h.subrange(end as int, j + 1) =~= h.subrange(end as int, j as int).push(h[j as int]));
        j = j + 1;
    }
    assert(h.subrange(end as int, len as int) =~= h.skip(end as int));
    let new_tokens = total_context_tokens(rebuilt.as_slice());
    if new_tokens > trigger && rebuilt.len() > 4 {
        let ghost before = msgs_view(rebuilt@);
        rebuilt.remove(1);
        assert(msgs_view(rebuilt@) =~= before.remove(1));
        assert(before.remove(1) =~= seq![h[0]] + h.skip(end as int));
    }
    *history = rebuilt;
    true
}


/// A transcript whose estimate is under the trigger is left exactly as it is;
/// in particular compressing an already-compressed transcript that is under the
/// trigger changes nothing.
pub proof fn lemma_compress_below_trigger_is_noop(h: Seq<MessageView>, max: nat, t: nat, rp: nat)
    requires
        cap(history_tokens(h) as int) < trigger_of(max, t),
    ensures
        compressed(h, max, t, rp) is None,
{
}

/// Compression keeps the first (system) message and the recent tail verbatim:
/// at most `len - keep_recent - 1` messages are folded into the summary.
pub proof fn lemma_compress_keeps_head_and_tail(h: Seq<MessageView>, max: nat, t: nat, rp: nat)
    ensures
        match compressed(h, max, t, rp) {
            Some(nh) => {
                let keep = keep_recent(cap(history_tokens(h) as int) as nat, h.len(), max, rp);
                &&& 6 <= keep <= 20
                &&& h.len() > keep + 1
                &&& nh.len() > 0 && nh[0] == h[0]
                &&& nh.len() == keep + 1 || nh.len() == keep + 2
                &&& nh.skip(nh.len() - keep) == h.skip(h.len() - keep)
            },
            None => true,
        },
{
    if let Some(nh) = compressed(h, max, t, rp) {
        let keep = keep_recent(cap(history_tokens(h) as int) as nat, h.len(), max, rp);
        assert(nh.skip(nh.len() - keep) =~= h.skip(h.len() - keep));
    }
}

} // verus!
