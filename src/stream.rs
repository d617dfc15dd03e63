//! Decoding of the provider's streamed reply.
//!
//! Bytes arrive in chunks of any size. Complete lines are taken from a buffer
//! (a partial line waits for the next chunk), each `data: <json>` line becomes
//! events, and the events are folded into the reply: text, and tool calls whose
//! name and arguments arrive as fragments keyed by an index.
use vstd::prelude::*;
use crate::text::{chars_of, equal_chars, find_char, lemma_find_char_bounds, slice_chars, string_of, trim_chars};
use crate::context::append_chars;
use crate::message::{Message, MessageView, ToolCall, ToolCallView, calls_view};
use crate::json::{Json, array_of, field, field_str, field_u64, get_spec, json_of, parse_json, str_of, u64_of};

verus! {

// ---------------------------------------------------------------------------
// Lines

/// The complete lines (each ended by `'\n'`) at the front of `s`.
pub open spec fn complete_lines(s: Seq<char>) -> Seq<Seq<char>>
    decreases s.len(),
{
    match find_char(s, '\n') {
        Some(k) => if 0 <= k < s.len() {
            seq![s.take(k)] + complete_lines(s.skip(k + 1))
        } else {
            seq![]
        },
        None => seq![],
    }
}

/// What follows the last `'\n'` of `s`: a line still waiting for its end.
pub open spec fn partial_tail(s: Seq<char>) -> Seq<char>
    decreases s.len(),
{
    match find_char(s, '\n') {
        Some(k) => if 0 <= k < s.len() {
            partial_tail(s.skip(k + 1))
        } else {
            s
        },
        None => s,
    }
}

proof fn lemma_find_char_concat(a: Seq<char>, b: Seq<char>, c: char)
    ensures
        find_char(a + b, c) == match find_char(a, c) {
            Some(k) => Some(k),
            None => match find_char(b, c) {
                Some(k) => Some(k + a.len()),
                None => None,
            },
        },
    decreases a.len(),
{
    if a.len() == 0 {
        assert(a + b =~= b);
    } else {
        assert((a + b).drop_first() =~= a.drop_first() + b);
        lemma_find_char_concat(a.drop_first(), b, c);
    }
}

/// Splitting input into chunks does not change the lines: the lines of `a + b`
/// are the lines of `a` followed by those completed once `b` arrives, and the
/// waiting tail is the same.
pub proof fn lemma_lines_split_independent(a: Seq<char>, b: Seq<char>)
    ensures
        complete_lines(a + b) == complete_lines(a) + complete_lines(partial_tail(a) + b),
        partial_tail(a + b) == partial_tail(partial_tail(a) + b),
    decreases a.len(),
{
    lemma_find_char_concat(a, b, '\n');
    lemma_find_char_bounds(a, '\n');
    match find_char(a, '\n') {
        Some(k) => {
            let rest = a.skip(k + 1);
            assert((a + b).take(k) =~= a.take(k));
            assert((a + b).skip(k + 1) =~= rest + b);
            lemma_lines_split_independent(rest, b);
            assert(complete_lines(a + b) =~= seq![a.take(k)] + complete_lines(rest + b));
            assert(complete_lines(a) =~= seq![a.take(k)] + complete_lines(rest));
        },
        None => {
            assert(complete_lines(a) =~= seq![]);
            assert(partial_tail(a) == a);
            assert(complete_lines(a) + complete_lines(partial_tail(a) + b) =~= complete_lines(a + b));
        },
    }
}

/// Holds the unfinished last line between chunks.
pub struct LineBuffer {
    pub pending: Vec<char>,
}

impl LineBuffer {
    pub fn new() -> (r: LineBuffer)
        ensures
            r.pending@.len() == 0,
    {
        LineBuffer { pending: Vec::new() }
    }

    /// Appends a chunk and takes out every line it completes, in order.
    pub fn push(&mut self, chunk: &str) -> (r: Vec<Vec<char>>)
        ensures
            Seq::new(r@.len(), |i: int| r@[i]@) == complete_lines(old(self).pending@ + chunk@),
            final(self).pending@ == partial_tail(old(self).pending@ + chunk@),
    {
        let mut buf = slice_chars(&self.pending, 0, self.pending.len());
        append_chars(&mut buf, &chars_of(chunk));
        let ghost all = buf@;
        assert(self.pending@.subrange(0, self.pending@.len() as int) =~= self.pending@);
        let mut out: Vec<Vec<char>> = Vec::new();
        let mut start: usize = 0;
        let n = buf.len();
        assert(all.skip(0) =~= all);
        while start < n
            invariant
                start <= n == buf@.len(),
                buf@ == all,
                all == old(self).pending@ + chunk@,
                complete_lines(all) == Seq::new(out@.len(), |i: int| out@[i]@) + complete_lines(
                    all.skip(start as int),
                ),
                partial_tail(all) == partial_tail(all.skip(start as int)),
            decreases n - start,
        {
            let rest = slice_chars(&buf, start, n);
            let ghost t = all.skip(start as int);
            assert(rest@ == t);
            proof {
                lemma_find_char_bounds(t, '\n');
            }
            let ghost before = Seq::new(out@.len(), |i: int| out@[i]@);
            match crate::text::find_char_in(&rest, '\n') {
                Some(k) => {
                    let line = slice_chars(&rest, 0, k);
                    out.push(line);
                    assert(t.skip(k + 1) =~= all.skip(start + k + 1));
                    assert(Seq::new(out@.len(), |i: int| out@[i]@) =~= before.push(t.take(k as int)));
                    assert(before + complete_lines(t) =~= before.push(t.take(k as int)) + complete_lines(t.skip(k + 1)));
                    start = start + k + 1;
                },
                None => {
                    assert(complete_lines(t) =~= seq![]);
                    assert(partial_tail(t) == t);
                    self.pending = rest;
                    assert(Seq::new(out@.len(), |i: int| out@[i]@) + complete_lines(t) =~= Seq::new(out@.len(), |i: int| out@[i]@));
                    return out;
                },
            }
        }
        assert(all.skip(start as int) =~= Seq::<char>::empty());
        assert(complete_lines(Seq::<char>::empty()) =~= seq![]);
        assert(Seq::new(out@.len(), |i: int| out@[i]@) + complete_lines(all.skip(start as int)) =~= Seq::new(out@.len(), |i: int| out@[i]@));
        self.pending = Vec::new();
        assert(self.pending@ =~= all.skip(start as int));
        out
    }
}

// ---------------------------------------------------------------------------
// Events and their effect on the reply

/// One decoded piece of the provider's reply.
#[derive(Debug, Clone)]
pub enum StreamEvent {
    Reasoning(String),
    Content(String),
    /// A piece of the tool call at `index`: its id, if sent, and the next parts
    /// of its name and arguments.
    ToolCallFragment {
        index: usize,
        id: Option<String>,
        name: Option<String>,
        arguments: Option<String>,
    },
    Usage { prompt_tokens: u64, completion_tokens: u64 },
}

/// The reply gathered so far: its text and its tool calls.
pub ghost struct ReplyView {
    pub content: Seq<char>,
    pub calls: Seq<ToolCallView>,
}

pub open spec fn empty_call() -> ToolCallView {
    ToolCallView { id: seq![], call_type: "function"@, name: seq![], arguments: seq![] }
}

pub open spec fn opt_or_empty(o: Option<String>) -> Seq<char> {
    match o {
        Some(s) => s@,
        None => seq![],
    }
}

/// `calls` grown with empty calls so that position `index` exists.
pub open spec fn grown(calls: Seq<ToolCallView>, index: nat) -> Seq<ToolCallView> {
    if index < calls.len() {
        calls
    } else {
        calls + Seq::new((index + 1 - calls.len()) as nat, |i: int| empty_call())
    }
}

/// The effect of one fragment on the call it belongs to.
pub open spec fn merged(c: ToolCallView, id: Option<String>, name: Option<String>, arguments: Option<String>) -> ToolCallView {
    ToolCallView {
        id: match id {
            Some(s) => s@,
            None => c.id,
        },
        call_type: c.call_type,
        name: c.name + opt_or_empty(name),
        arguments: c.arguments + opt_or_empty(arguments),
    }
}

pub open spec fn apply_event(s: ReplyView, e: StreamEvent) -> ReplyView {
    match e {
        StreamEvent::Content(t) => ReplyView { content: s.content + t@, calls: s.calls },
        StreamEvent::ToolCallFragment { index, id, name, arguments } => if index < usize::MAX {
            let g = grown(s.calls, index as nat);
            ReplyView { content: s.content, calls: g.update(index as int, merged(g[index as int], id, name, arguments)) }
        } else {
            s
        },
        _ => s,
    }
}

pub open spec fn apply_events(s: ReplyView, es: Seq<StreamEvent>) -> ReplyView
    decreases es.len(),
{
    if es.len() == 0 {
        s
    } else {
        apply_event(apply_events(s, es.drop_last()), es.last())
    }
}

pub open spec fn is_fragment_at(e: StreamEvent, i: nat) -> bool {
    e matches StreamEvent::ToolCallFragment { index, .. } && index == i
}

/// The name parts of fragments, joined.
pub open spec fn name_parts(es: Seq<StreamEvent>) -> Seq<char>
    decreases es.len(),
{
    if es.len() == 0 {
        seq![]
    } else {
        name_parts(es.drop_last()) + match es.last() {
            StreamEvent::ToolCallFragment { name, .. } => opt_or_empty(name),
            _ => seq![],
        }
    }
}

/// The argument parts of fragments, joined.
pub open spec fn argument_parts(es: Seq<StreamEvent>) -> Seq<char>
    decreases es.len(),
{
    if es.len() == 0 {
        seq![]
    } else {
        argument_parts(es.drop_last()) + match es.last() {
            StreamEvent::ToolCallFragment { arguments, .. } => opt_or_empty(arguments),
            _ => seq![],
        }
    }
}

proof fn lemma_fragments_append(s: ReplyView, es: Seq<StreamEvent>, i: nat)
    requires
        es.len() > 0,
        i < usize::MAX,
        forall|j: int| 0 <= j < es.len() ==> is_fragment_at(#[trigger] es[j], i),
    ensures
        apply_events(s, es).calls.len() == grown(s.calls, i).len(),
        apply_events(s, es).calls[i as int].name == grown(s.calls, i)[i as int].name + name_parts(es),
        apply_events(s, es).calls[i as int].arguments == grown(s.calls, i)[i as int].arguments
            + argument_parts(es),
    decreases es.len(),
{
    let init = es.drop_last();
    assert(is_fragment_at(es[es.len() - 1], i));
    if init.len() == 0 {
        assert(apply_events(s, init) == s);
        assert(name_parts(init) =~= seq![]);
        assert(argument_parts(init) =~= seq![]);
        assert(grown(s.calls, i)[i as int].name + seq![] =~= grown(s.calls, i)[i as int].name);
        assert(grown(s.calls, i)[i as int].arguments + seq![] =~= grown(s.calls, i)[i as int].arguments);
    } else {
        assert forall|j: int| 0 <= j < init.len() implies is_fragment_at(#[trigger] init[j], i) by {
            assert(init[j] == es[j]);
        }
        lemma_fragments_append(s, init, i);
        let mid = apply_events(s, init);
        assert(grown(mid.calls, i) == mid.calls);
    }
}

/// Reassembly: fragments of one tool call, however the stream split them, give
/// that call the concatenation of their name parts and of their argument parts,
/// so two fragment runs with the same concatenations give the same call.
pub proof fn lemma_fragments_reassemble(s: ReplyView, es1: Seq<StreamEvent>, es2: Seq<StreamEvent>, i: nat)
    requires
        es1.len() > 0,
        es2.len() > 0,
        i < usize::MAX,
        forall|j: int| 0 <= j < es1.len() ==> is_fragment_at(#[trigger] es1[j], i),
        forall|j: int| 0 <= j < es2.len() ==> is_fragment_at(#[trigger] es2[j], i),
        name_parts(es1) == name_parts(es2),
        argument_parts(es1) == argument_parts(es2),
    ensures
        apply_events(s, es1).calls.len() == apply_events(s, es2).calls.len(),
        apply_events(s, es1).calls[i as int].name == grown(s.calls, i)[i as int].name + name_parts(es1),
        apply_events(s, es1).calls[i as int].name == apply_events(s, es2).calls[i as int].name,
        apply_events(s, es1).calls[i as int].arguments == apply_events(s, es2).calls[i as int].arguments,
{
    lemma_fragments_append(s, es1, i);
    lemma_fragments_append(s, es2, i);
}

// ---------------------------------------------------------------------------
// JSON frames

pub open spec fn u64_or_zero(j: Option<Json>) -> u64 {
    match u64_of(j) {
        Some(n) => n,
        None => 0,
    }
}

/// A usage report, when the frame carries one.
pub open spec fn usage_events(v: Json) -> Seq<StreamEvent> {
    match get_spec(v, "usage"@) {
        Some(u) => seq![
            StreamEvent::Usage {
                prompt_tokens: u64_or_zero(get_spec(u, "prompt_tokens"@)),
                completion_tokens: u64_or_zero(get_spec(u, "completion_tokens"@)),
            },
        ],
        None => seq![],
    }
}

/// The first choice's `delta`, or else its `message`.
pub open spec fn delta_of(v: Json) -> Option<Json> {
    match array_of(get_spec(v, "choices"@)) {
        Some(cs) => if cs.len() > 0 {
            match get_spec(cs[0], "delta"@) {
                Some(d) => Some(d),
                None => get_spec(cs[0], "message"@),
            }
        } else {
            None
        },
        None => None,
    }
}

/// The fragment one tool-call entry carries (none for an index that cannot grow the list).
pub open spec fn fragment_of(tc: Json) -> Seq<StreamEvent> {
    let index = u64_or_zero(get_spec(tc, "index"@));
    let f = get_spec(tc, "function"@);
    if index < usize::MAX {
        seq![
            StreamEvent::ToolCallFragment {
                index: index as usize,
                id: str_of(get_spec(tc, "id"@)),
                name: str_of(field(f, "name"@)),
                arguments: str_of(field(f, "arguments"@)),
            },
        ]
    } else {
        seq![]
    }
}

pub open spec fn fragments_of(tcs: Seq<Json>) -> Seq<StreamEvent>
    decreases tcs.len(),
{
    if tcs.len() == 0 {
        seq![]
    } else {
        fragments_of(tcs.drop_last()) + fragment_of(tcs.last())
    }
}

/// Reasoning (`reasoning_content`, else `thinking`), text, then tool-call fragments.
pub open spec fn delta_events(d: Json) -> Seq<StreamEvent> {
    let thought = match get_spec(d, "reasoning_content"@) {
        Some(t) => Some(t),
        None => get_spec(d, "thinking"@),
    };
    let r: Seq<StreamEvent> = match str_of(thought) {
        Some(t) => seq![StreamEvent::Reasoning(t)],
        None => seq![],
    };
    let c: Seq<StreamEvent> = match str_of(get_spec(d, "content"@)) {
        Some(t) => seq![StreamEvent::Content(t)],
        None => seq![],
    };
    let f: Seq<StreamEvent> = match array_of(get_spec(d, "tool_calls"@)) {
        Some(tcs) => fragments_of(tcs),
        None => seq![],
    };
    r + c + f
}

/// The events of one frame: its usage report, then what its first choice
/// carries. Text that is not JSON gives none.
pub open spec fn frame_events_spec(j: Option<Json>) -> Seq<StreamEvent> {
    match j {
        None => seq![],
        Some(v) => usage_events(v) + match delta_of(v) {
            Some(d) => delta_events(d),
            None => seq![],
        },
    }
}

fn delta_events_exec(d: &Json, out: &mut Vec<StreamEvent>)
    ensures
        final(out)@ == old(out)@ + delta_events(*d),
{
    let thought = match d.get("reasoning_content") {
        Some(t) => Some(t),
        None => d.get("thinking"),
    };
    let ghost o0 = out@;
    if let Some(t) = thought {
        if let Some(s) = t.as_str() {
            out.push(StreamEvent::Reasoning(s.clone()));
        }
    }
    let ghost o1 = out@;
    if let Some(c) = d.get("content") {
        if let Some(s) = c.as_str() {
            out.push(StreamEvent::Content(s.clone()));
        }
    }
    let ghost o2 = out@;
    let calls = match d.get("tool_calls") {
        Some(t) => t.as_array(),
        None => None,
    };
    if let Some(calls) = calls {
        let mut i: usize = 0;
        while i < calls.len()
            invariant
                i <= calls@.len(),
                out@ == o2 + fragments_of(calls@.take(i as int)),
            decreases calls@.len() - i,
        {
            let tc = &calls[i];
            let index = field_u64(tc, "index");
            let f = tc.get("function");
            let ghost before = out@;
            if index < usize::MAX as u64 {
                out.push(
                    StreamEvent::ToolCallFragment {
                        index: index as usize,
                        id: field_str(Some(tc), "id"),
                        name: field_str(f, "name"),
                        arguments: field_str(f, "arguments"),
                    },
                );
            }
            assert(calls@.take(i + 1).drop_last() =~= calls@.take(i as int));
            assert(out@ =~= o2 + fragments_of(calls@.take(i + 1)));
            i = i + 1;
        }
        assert(calls@.take(i as int) =~= calls@);
    }
    assert(out@ =~= o0 + delta_events(*d));
}

/// The events of one JSON frame: a usage report, then from the first choice's
/// `delta` (or `message`) its reasoning, its text and its tool-call fragments.
/// A frame that is not valid JSON gives no events.
pub fn frame_events(json: &str) -> (r: Vec<StreamEvent>)
    ensures
        r@ == frame_events_spec(json_of(json@)),
{
    let mut out: Vec<StreamEvent> = Vec::new();
    let v = match parse_json(json) {
        Some(v) => v,
        None => {
            assert(out@ =~= seq![]);
            return out;
        },
    };
    if let Some(u) = v.get("usage") {
        out.push(
            StreamEvent::Usage {
                prompt_tokens: field_u64(u, "prompt_tokens"),
                completion_tokens: field_u64(u, "completion_tokens"),
            },
        );
    }
    let ghost o1 = out@;
    assert(o1 =~= usage_events(v));
    let choices = match v.get("choices") {
        Some(c) => c.as_array(),
        None => None,
    };
    if let Some(cs) = choices {
        if cs.len() > 0 {
            let choice = &cs[0];
            let delta = match choice.get("delta") {
                Some(d) => Some(d),
                None => choice.get("message"),
            };
            if let Some(d) = delta {
                delta_events_exec(d, &mut out);
                return out;
            }
        }
    }
    assert(out@ =~= o1 + seq![]);
    out
}

/// What one line of the stream is.
#[derive(Debug, Clone)]
pub enum LineKind {
    /// Blank, or not a `data: ` line.
    Skip,
    /// `data: [DONE]`: the reply is complete.
    Done,
    /// `data: <json>`: the JSON text.
    Data(String),
}

pub open spec fn line_kind_spec(line: Seq<char>) -> Option<Option<Seq<char>>> {
    let t = crate::text::trim(line);
    if t.len() == 0 || !"data: "@.is_prefix_of(t) {
        None
    } else if t.skip(6) == "[DONE]"@ {
        Some(None)
    } else {
        Some(Some(t.skip(6)))
    }
}

pub open spec fn line_kind_view(k: LineKind) -> Option<Option<Seq<char>>> {
    match k {
        LineKind::Skip => None,
        LineKind::Done => Some(None),
        LineKind::Data(s) => Some(Some(s@)),
    }
}

/// Classifies a line: `None` to skip it, `Some(None)` for the terminator,
/// `Some(Some(json))` for a frame.
pub fn classify_line(line: &Vec<char>) -> (r: LineKind)
    ensures
        line_kind_view(r) == line_kind_spec(line@),
{
    let t = trim_chars(line);
    let prefix = chars_of("data: ");
    proof {
        reveal_strlit("data: ");
    }
    if t.len() == 0 || !crate::text::starts_with_chars(&t, &prefix) {
        return LineKind::Skip;
    }
    let body = slice_chars(&t, 6, t.len());
    assert(body@ =~= t@.skip(6));
    if equal_chars(&body, &chars_of("[DONE]")) {
        LineKind::Done
    } else {
        LineKind::Data(string_of(body.as_slice()))
    }
}

/// The events of a run of complete lines, in order, up to the terminator, and
/// whether the terminator came. Lines that are not frames give nothing.
pub open spec fn lines_events(ls: Seq<Seq<char>>) -> (Seq<StreamEvent>, bool)
    decreases ls.len(),
{
    if ls.len() == 0 {
        (seq![], false)
    } else {
        let (es, done) = lines_events(ls.drop_last());
        if done {
            (es, true)
        } else {
            match line_kind_spec(ls.last()) {
                None => (es, false),
                Some(None) => (es, true),
                Some(Some(j)) => (es + frame_events_spec(json_of(j)), false),
            }
        }
    }
}

/// Once the terminator has been read, later lines change nothing.
pub proof fn lemma_lines_events_done(ls: Seq<Seq<char>>, k: int)
    requires
        0 <= k <= ls.len(),
        lines_events(ls.take(k)).1,
    ensures
        lines_events(ls) == lines_events(ls.take(k)),
    decreases ls.len() - k,
{
    if k < ls.len() {
        assert(ls.take(k + 1).drop_last() =~= ls.take(k));
        lemma_lines_events_done(ls, k + 1);
    } else {
        assert(ls.take(k) =~= ls);
    }
}

/// The events of `a + b` are those of `a`, then (unless `a` ended the stream)
/// those of `b`.
pub proof fn lemma_lines_events_concat(a: Seq<Seq<char>>, b: Seq<Seq<char>>)
    ensures
        lines_events(a + b) == if lines_events(a).1 {
            lines_events(a)
        } else {
            (lines_events(a).0 + lines_events(b).0, lines_events(b).1)
        },
    decreases b.len(),
{
    if b.len() == 0 {
        assert(a + b =~= a);
        assert(lines_events(a).0 + seq![] =~= lines_events(a).0);
    } else {
        lemma_lines_events_concat(a, b.drop_last());
        assert((a + b).drop_last() =~= a + b.drop_last());
        assert((a + b).last() == b.last());
        let (eb, db) = lines_events(b.drop_last());
        let ea = lines_events(a).0;
        if !lines_events(a).1 && !db {
            match line_kind_spec(b.last()) {
                Some(Some(j)) => {
                    assert(ea + eb + frame_events_spec(json_of(j)) =~= ea + (eb + frame_events_spec(json_of(j))));
                },
                _ => {},
            }
        }
    }
}

/// What a fresh decoder's input yields: the events of its complete lines and
/// whether the terminator came.
pub open spec fn decoded(input: Seq<char>) -> (Seq<StreamEvent>, bool) {
    lines_events(complete_lines(input))
}

/// Reassembly does not depend on chunking: feeding `a` and then `b` yields the
/// events (and so, folded, the same text and tool calls) that feeding `a + b`
/// at once yields; a line split between chunks is decoded once, when complete.
pub proof fn lemma_chunking_irrelevant(p: Seq<char>, a: Seq<char>, b: Seq<char>)
    ensures
        ({
            let (e1, d1) = lines_events(complete_lines(p + a));
            let (e2, d2) = lines_events(complete_lines(partial_tail(p + a) + b));
            lines_events(complete_lines(p + (a + b))) == if d1 {
                (e1, true)
            } else {
                (e1 + e2, d2)
            }
        }),
{
    assert(p + (a + b) =~= (p + a) + b);
    lemma_lines_split_independent(p + a, b);
    lemma_lines_events_concat(complete_lines(p + a), complete_lines(partial_tail(p + a) + b));
}

// ---------------------------------------------------------------------------
// The decoder

/// Decoder of one streamed reply.
pub struct StreamDecoder {
    pub lines: LineBuffer,
    pub content: Vec<char>,
    pub tool_calls: Vec<ToolCall>,
    /// Set once the terminator has been read; later input is ignored.
    pub finished: bool,
}

impl StreamDecoder {
    pub open spec fn reply(&self) -> ReplyView {
        ReplyView { content: self.content@, calls: calls_view(self.tool_calls@) }
    }

    pub fn new() -> (r: StreamDecoder)
        ensures
            r.reply() == (ReplyView { content: seq![], calls: seq![] }),
            !r.finished,
            r.lines.pending@.len() == 0,
    {
        let r = StreamDecoder { lines: LineBuffer::new(), content: Vec::new(), tool_calls: Vec::new(), finished: false };
        assert(calls_view(r.tool_calls@) =~= seq![]);
        r
    }

    /// Folds one event into the reply.
    pub fn apply(&mut self, e: &StreamEvent)
        ensures
            final(self).reply() == apply_event(old(self).reply(), *e),
            final(self).lines == old(self).lines,
            final(self).finished == old(self).finished,
    {
        match e {
            StreamEvent::Content(t) => {
                append_chars(&mut self.content, &chars_of(t.as_str()));
            },
            StreamEvent::ToolCallFragment { index, id, name, arguments } => {
                let index = *index;
                if index < usize::MAX {
                    let ghost before = calls_view(self.tool_calls@);
                    if self.tool_calls.len() <= index {
                        while self.tool_calls.len() <= index
                            invariant
                                index < usize::MAX,
                                self.lines == old(self).lines,
                                self.finished == old(self).finished,
                                self.content@ == old(self).content@,
                                before == calls_view(old(self).tool_calls@),
                                before.len() <= self.tool_calls@.len() <= index + 1,
                                calls_view(self.tool_calls@) == before + Seq::new(
                                    (self.tool_calls@.len() - before.len()) as nat,
                                    |i: int| empty_call(),
                                ),
                            decreases index + 1 - self.tool_calls@.len(),
                        {
                            let ghost prev = calls_view(self.tool_calls@);
                            let fresh = ToolCall::new(String::new(), String::new(), String::new());
                            assert(fresh@ == empty_call());
                            self.tool_calls.push(fresh);
                            assert(calls_view(self.tool_calls@) =~= prev.push(empty_call()));
                            assert(calls_view(self.tool_calls@) =~= before + Seq::new(
                                (self.tool_calls@.len() - before.len()) as nat,
                                |i: int| empty_call(),
                            ));
                        }
                    }
                    assert(calls_view(self.tool_calls@) =~= grown(before, index as nat));
                    let mut call = self.tool_calls.remove(index);
                    if let Some(id) = id {
                        call.id = id.clone();
                    }
                    if let Some(n) = name {
                        call.function.name.append(n.as_str());
                    }
                    if let Some(a) = arguments {
                        call.function.arguments.append(a.as_str());
                    }
                    self.tool_calls.insert(index, call);
                    assert(calls_view(self.tool_calls@) =~= grown(before, index as nat).update(
                        index as int,
                        merged(grown(before, index as nat)[index as int], *id, *name, *arguments),
                    ));
                }
            },
            _ => {},
        }
    }

    /// Reads one chunk of the stream and returns the events it completed, in
    /// order; the reply has taken them in. Nothing is read after the terminator.
    pub fn push_chunk(&mut self, chunk: &str) -> (r: Vec<StreamEvent>)
        ensures
            final(self).reply() == apply_events(old(self).reply(), r@),
            old(self).finished ==> r@.len() == 0 && final(self).finished,
            !old(self).finished ==> {
                let (es, done) = lines_events(complete_lines(old(self).lines.pending@ + chunk@));
                &&& r@ == es
                &&& final(self).finished == done
                &&& !done ==> final(self).lines.pending@ == partial_tail(old(self).lines.pending@ + chunk@)
            },
    {
        let mut events: Vec<StreamEvent> = Vec::new();
        if self.finished {
            assert(events@ =~= seq![]);
            return events;
        }
        let lines = self.lines.push(chunk);
        let ghost lv = Seq::new(lines@.len(), |k: int| lines@[k]@);
        assert(lv == complete_lines(old(self).lines.pending@ + chunk@));
        assert(lv.take(0) =~= seq![]);
        let mut i: usize = 0;
        while i < lines.len()
            invariant
                i <= lines@.len() == lv.len(),
                lv == Seq::new(lines@.len(), |k: int| lines@[k]@),
                lv == complete_lines(old(self).lines.pending@ + chunk@),
                self.reply() == apply_events(old(self).reply(), events@),
                !old(self).finished,
                !self.finished,
                self.lines.pending@ == partial_tail(old(self).lines.pending@ + chunk@),
                lines_events(lv.take(i as int)) == (events@, false),
            decreases lines@.len() - i,
        {
            assert(lv.take(i + 1).drop_last() =~= lv.take(i as int));
            assert(lv.take(i + 1).last() == lines@[i as int]@);
            match classify_line(&lines[i]) {
                LineKind::Skip => {},
                LineKind::Done => {
                    self.finished = true;
                    self.lines = LineBuffer::new();
                    proof {
                        lemma_lines_events_done(lv, (i + 1) as int);
                    }
                    assert(lv.take(lv.len() as int) =~= lv);
                    return events;
                },
                LineKind::Data(json) => {
                    let es = frame_events(json.as_str());
                    let ghost start = events@;
                    let mut j: usize = 0;
                    while j < es.len()
                        invariant
                            j <= es@.len(),
                            self.reply() == apply_events(old(self).reply(), events@),
                            !old(self).finished,
                            !self.finished,
                            self.lines.pending@ == partial_tail(old(self).lines.pending@ + chunk@),
                            events@ == start + es@.take(j as int),
                        decreases es@.len() - j,
                    {
                        let ghost before = events@;
                        self.apply(&es[j]);
                        events.push(es[j].clone_event());
                        assert(events@.drop_last() =~= before);
                        j = j + 1;
                        assert(events@ =~= start + es@.take(j as int));
                    }
                    assert(es@.take(j as int) =~= es@);
                },
            }
            i = i + 1;
        }
        assert(lv.take(i as int) =~= lv);
        events
    }

    /// The assistant message the reply amounts to: text if any, tool calls if any.
    pub fn finish(&self) -> (r: Message)
        ensures
            r@ == (MessageView {
                role: "assistant"@,
                content: if self.content@.len() > 0 {
                    Some(self.content@)
                } else {
                    None
                },
                tool_calls: if self.tool_calls@.len() > 0 {
                    Some(calls_view(self.tool_calls@))
                } else {
                    None
                },
                tool_call_id: None,
            }),
    {
        Message {
            role: String::from_str("assistant"),
            content: if self.content.len() > 0 {
                Some(string_of(self.content.as_slice()))
            } else {
                None
            },
            tool_calls: if self.tool_calls.len() > 0 {
                Some(crate::message::copy_calls(&self.tool_calls))
            } else {
                None
            },
            tool_call_id: None,
        }
    }
}

fn clone_text(o: &Option<String>) -> (r: Option<String>)
    ensures
        r == *o,
{
    match o {
        Some(s) => Some(s.clone()),
        None => None,
    }
}

impl StreamEvent {
    pub fn clone_event(&self) -> (r: StreamEvent)
        ensures
            r == *self,
    {
        match self {
            StreamEvent::Reasoning(t) => StreamEvent::Reasoning(t.clone()),
            StreamEvent::Content(t) => StreamEvent::Content(t.clone()),
            StreamEvent::ToolCallFragment { index, id, name, arguments } => {
                StreamEvent::ToolCallFragment {
                    index: *index,
                    id: clone_text(id),
                    name: clone_text(name),
                    arguments: clone_text(arguments),
                }
            },
            StreamEvent::Usage { prompt_tokens, completion_tokens } => StreamEvent::Usage {
                prompt_tokens: *prompt_tokens,
                completion_tokens: *completion_tokens,
            },
        }
    }
}

} // verus!
