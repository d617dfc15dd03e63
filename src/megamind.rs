//! Multi-perspective brainstorming: three personas answer in turn for up to two
//! rounds, then one call condenses the ideas into actionable points.
use vstd::prelude::*;
use crate::context::{append_chars, join, join_chars, chars_view};
use crate::message::{Message, MessageView};
use crate::text::{chars_of, contains_chars, contains_seq, equal_chars, lower_of, lowercase, slice_chars, string_of, trim, trim_chars};

verus! {

/// One persona of the brainstorm.
#[derive(Debug, Clone, Copy)]
pub struct MegamindAgent {
    pub name: &'static str,
    pub model: &'static str,
    pub prompt: &'static str,
    pub icon: &'static str,
}

/// The personas, in the order they speak.
pub fn agents() -> (r: Vec<MegamindAgent>)
    ensures
        r@.len() == 3,
        r@[0].name@ == "Pragmatist"@,
        r@[1].name@ == "Innovator"@,
        r@[2].name@ == "Critic"@,
        forall|i: int| 0 <= i < 3 ==> #[trigger] r@[i].model@ == "grok-3-mini"@,
        r@[0].icon@ == "P"@ && r@[1].icon@ == "I"@ && r@[2].icon@ == "C"@,
{
    let mut v: Vec<MegamindAgent> = Vec::new();
    v.push(
        MegamindAgent {
            name: "Pragmatist",
            model: "grok-3-mini",
            prompt: "You are the Pragmatist. Focus on: feasibility, implementation cost, quick wins.\nRULES: MAX 3 bullet points. Each bullet: 1-2 sentences. Be concise.",
            icon: "P",
        },
    );
    v.push(
        MegamindAgent {
            name: "Innovator",
            model: "grok-3-mini",
            prompt: "You are the Innovator. Focus on: creative solutions, novel approaches, 'what if' thinking.\nRULES: MAX 3 bullet points. Each bullet: 1-2 sentences. Build on previous ideas, don't repeat.",
            icon: "I",
        },
    );
    v.push(
        MegamindAgent {
            name: "Critic",
            model: "grok-3-mini",
            prompt: "You are the Critic. Focus on: risks, edge cases, what could go wrong.\nRULES: MAX 3 bullet points. Each bullet: 1-2 sentences. Only raise NEW concerns.",
            icon: "C",
        },
    );
    v
}

/// Model used for the closing synthesis.
pub const SYNTHESIS_MODEL: &'static str = "grok-3-mini";

/// State of one brainstorm.
#[derive(Debug, Clone)]
pub struct MegamindSession {
    pub topic: String,
    pub round: usize,
    pub max_rounds: usize,
    /// (persona name, answer) in the order given.
    pub agent_responses: Vec<(String, String)>,
}

pub open spec fn responses_view(v: Seq<(String, String)>) -> Seq<(Seq<char>, Seq<char>)> {
    v.map_values(|p: (String, String)| (p.0@, p.1@))
}

/// One earlier answer as the next persona sees it: `[<initial>]: <answer>`.
pub open spec fn context_entry(name: Seq<char>, resp: Seq<char>) -> Seq<char> {
    "\n\n["@ + name.take(if name.len() > 0 { 1int } else { 0int }) + "]: "@ + resp
}

pub open spec fn context_entries(rs: Seq<(Seq<char>, Seq<char>)>) -> Seq<char>
    decreases rs.len(),
{
    if rs.len() == 0 {
        seq![]
    } else {
        context_entries(rs.drop_last()) + context_entry(rs.last().0, rs.last().1)
    }
}

pub open spec fn min(a: int, b: int) -> int {
    if a < b {
        a
    } else {
        b
    }
}

/// What the persona at position `agent_idx` is shown: the topic and the answers
/// given before it in the current round.
pub open spec fn agent_context(topic: Seq<char>, round: nat, rs: Seq<(Seq<char>, Seq<char>)>, agent_idx: nat) -> Seq<char> {
    let start = min(((round - 1) * 3) as int, rs.len() as int);
    let end = min(start + agent_idx, rs.len() as int);
    "TOPIC: "@ + topic + context_entries(rs.subrange(start, end))
}

pub open spec fn consensus_phrases(lower: Seq<char>) -> bool {
    contains_seq(lower, "no major concerns"@) || contains_seq(lower, "looks good"@)
        || contains_seq(lower, "agree with"@) || contains_seq(lower, "solid approach"@)
}

/// Whether an already lower-cased answer signals agreement.
pub fn consensus_in(lower: &str) -> (r: bool)
    ensures
        r == consensus_phrases(lower@),
{
    let l = chars_of(lower);
    contains_chars(&l, &chars_of("no major concerns")) || contains_chars(&l, &chars_of("looks good"))
        || contains_chars(&l, &chars_of("agree with")) || contains_chars(
        &l,
        &chars_of("solid approach"),
    )
}

fn initial(name: &Vec<char>) -> (r: Vec<char>)
    ensures
        r@ == name@.take(if name@.len() > 0 { 1int } else { 0int }),
{
    if name.len() > 0 {
        slice_chars(name, 0, 1)
    } else {
        Vec::new()
    }
}

impl MegamindSession {
    pub fn new(topic: String) -> (r: MegamindSession)
        ensures
            r.topic@ == topic@,
            r.round == 1,
            r.max_rounds == 2,
            r.agent_responses@.len() == 0,
    {
        MegamindSession { topic, round: 1, max_rounds: 2, agent_responses: Vec::new() }
    }

    /// The prompt context for the persona at `agent_idx` in the current round.
    pub fn build_agent_context(&self, agent_idx: usize) -> (r: String)
        requires
            self.round >= 1,
        ensures
            r@ == agent_context(
                self.topic@,
                self.round as nat,
                responses_view(self.agent_responses@),
                agent_idx as nat,
            ),
    {
        let ghost rs = responses_view(self.agent_responses@);
        let n = self.agent_responses.len();
        let raw_start = ((self.round - 1) as u128) * 3;
        let start: usize = if raw_start > n as u128 {
            n
        } else {
            raw_start as usize
        };
        let end: usize = if agent_idx > n - start {
            n
        } else {
            start + agent_idx
        };
        let mut out = chars_of("TOPIC: ");
        append_chars(&mut out, &chars_of(self.topic.as_str()));
        let mut i: usize = start;
        assert(rs.subrange(start as int, start as int) =~= seq![]);
        while i < end
            invariant
                start <= i <= end <= n == self.agent_responses@.len(),
                rs == responses_view(self.agent_responses@),
                out@ == "TOPIC: "@ + self.topic@ + context_entries(rs.subrange(start as int, i as int)),
            decreases end - i,
        {
            let (name, resp) = (&self.agent_responses[i].0, &self.agent_responses[i].1);
            let nc = chars_of(name.as_str());
            append_chars(&mut out, &chars_of("\n\n["));
            append_chars(&mut out, &initial(&nc));
            append_chars(&mut out, &chars_of("]: "));
            append_chars(&mut out, &chars_of(resp.as_str()));
            assert(rs.subrange(start as int, i + 1).drop_last() =~= rs.subrange(start as int, i as int));
            i = i + 1;
        }
        string_of(out.as_slice())
    }

    /// Whether the last answer is the Critic's and it signals agreement.
    pub fn check_consensus(&self) -> (r: bool)
        ensures
            r == (self.agent_responses@.len() > 0 && self.agent_responses@.last().0@ == "Critic"@
                && consensus_phrases(lower_of(self.agent_responses@.last().1@))),
    {
        let n = self.agent_responses.len();
        if n == 0 {
            return false;
        }
        let name = chars_of(self.agent_responses[n - 1].0.as_str());
        if !equal_chars(&name, &chars_of("Critic")) {
            return false;
        }
        let lower = lowercase(self.agent_responses[n - 1].1.as_str());
        consensus_in(lower.as_str())
    }

    /// Stores a persona's answer, trimmed.
    pub fn record_response(&mut self, agent_name: &str, response: &str)
        ensures
            final(self).topic == old(self).topic,
            final(self).round == old(self).round,
            final(self).max_rounds == old(self).max_rounds,
            responses_view(final(self).agent_responses@) == responses_view(
                old(self).agent_responses@,
            ).push((agent_name@, trim(response@))),
    {
        let ghost before = responses_view(self.agent_responses@);
        let t = trim_chars(&chars_of(response));
        self.agent_responses.push((String::from_str(agent_name), string_of(t.as_slice())));
        assert(responses_view(self.agent_responses@) =~= before.push((agent_name@, trim(response@))));
    }

    /// After the last persona of a round: `true` when the brainstorm should move
    /// to the synthesis (consensus, or the last round); otherwise the next round
    /// begins.
    pub fn finish_round(&mut self) -> (r: bool)
        ensures
            r == (old(self).check_consensus_spec() || old(self).round >= old(self).max_rounds),
            final(self).topic == old(self).topic,
            final(self).agent_responses == old(self).agent_responses,
            final(self).max_rounds == old(self).max_rounds,
            r ==> final(self).round == old(self).round,
            !r ==> final(self).round == old(self).round + 1,
    {
        if self.check_consensus() || self.round >= self.max_rounds {
            true
        } else {
            self.round = self.round + 1;
            false
        }
    }

    pub open spec fn check_consensus_spec(&self) -> bool {
        self.agent_responses@.len() > 0 && self.agent_responses@.last().0@ == "Critic"@
            && consensus_phrases(lower_of(self.agent_responses@.last().1@))
    }

    /// The two messages sent to a persona: its prompt, and its context.
    pub fn agent_messages(&self, agent: &MegamindAgent, agent_idx: usize) -> (r: Vec<Message>)
        requires
            self.round >= 1,
        ensures
            r@.len() == 2,
            r@[0]@ == (MessageView { role: "system"@, content: Some(agent.prompt@), tool_calls: None, tool_call_id: None }),
            r@[1]@ == (MessageView {
                role: "user"@,
                content: Some(
                    agent_context(self.topic@, self.round as nat, responses_view(self.agent_responses@), agent_idx as nat)
                        + "\n\nYour perspective:"@,
                ),
                tool_calls: None,
                tool_call_id: None,
            }),
    {
        let mut v: Vec<Message> = Vec::new();
        v.push(Message::text("system", String::from_str(agent.prompt)));
        let ctx = self.build_agent_context(agent_idx).concat("\n\nYour perspective:");
        v.push(Message::text("user", ctx));
        v
    }

    /// The two messages of the closing synthesis: the instruction, and the topic
    /// with every answer as `[<initial>] <answer>`, separated by blank lines.
    pub fn synthesis_messages(&self) -> (r: Vec<Message>)
        ensures
            r@.len() == 2,
            r@[0]@.role == "system"@,
            r@[1]@ == (MessageView {
                role: "user"@,
                content: Some(
                    "TOPIC: "@ + self.topic@ + "\n\nIDEAS:\n"@ + join(
                        responses_view(self.agent_responses@).map_values(
                            |p: (Seq<char>, Seq<char>)| "["@ + p.0.take(if p.0.len() > 0 { 1int } else { 0int }) + "] "@ + p.1,
                        ),
                        "\n\n"@,
                    ),
                ),
                tool_calls: None,
                tool_call_id: None,
            }),
    {
        let ghost target = responses_view(self.agent_responses@).map_values(
            |p: (Seq<char>, Seq<char>)| "["@ + p.0.take(if p.0.len() > 0 { 1int } else { 0int }) + "] "@ + p.1,
        );
        let mut ideas: Vec<Vec<char>> = Vec::new();
        let mut i: usize = 0;
        while i < self.agent_responses.len()
            invariant
                i <= self.agent_responses@.len(),
                target == responses_view(self.agent_responses@).map_values(
                    |p: (Seq<char>, Seq<char>)| "["@ + p.0.take(if p.0.len() > 0 { 1int } else { 0int }) + "] "@ + p.1,
                ),
                ideas@.len() == i,
                forall|j: int| 0 <= j < i ==> #[trigger] ideas@[j]@ == target[j],
            decreases self.agent_responses@.len() - i,
        {
            let nc = chars_of(self.agent_responses[i].0.as_str());
            let mut line = chars_of("[");
            append_chars(&mut line, &initial(&nc));
            append_chars(&mut line, &chars_of("] "));
            append_chars(&mut line, &chars_of(self.agent_responses[i].1.as_str()));
            ideas.push(line);
            i = i + 1;
        }
        assert(chars_view(ideas@) =~= target);
        let joined = join_chars(&ideas, "\n\n");
        let mut text = chars_of("TOPIC: ");
        append_chars(&mut text, &chars_of(self.topic.as_str()));
        append_chars(&mut text, &chars_of("\n\nIDEAS:\n"));
        append_chars(&mut text, &joined);
        let mut v: Vec<Message> = Vec::new();
        v.push(
            Message::text(
                "system",
                String::from_str("Synthesize the brainstorming into 3-5 actionable points. Be brief and practical."),
            ),
        );
        v.push(Message::text("user", string_of(text.as_slice())));
        v
    }
}

} // verus!
