//! The turn engine: what to do after each streamed reply, tool result, pause or
//! failure. The caller performs the requests, the tool runs and the sleeps, and
//! hands the outcomes back.
use vstd::prelude::*;
use crate::config::{ModelRole, RateLimitConfig, has_text, key_index, lemma_key_index};
use crate::context::{compress_history_if_needed, compressed};
use crate::json::{Json, array_of, field, field_str, get_spec, json_of, parse_json, str_of};
use crate::message::{Message, MessageView, ToolCall, TodoItem, TodoStatus, calls_view, copy_text, msgs_view, opt_text};
use crate::roles::{ActiveRole, find_handoff_directive, first_handoff};
use crate::text::{chars_of, contains_str, contains_seq, equal_chars, lines};
use crate::tools::{ToolKind, kind_of, tool_kind};

verus! {

// ---------------------------------------------------------------------------
// Rate window

/// Usage counted in the current one-minute window.
#[derive(Debug, Clone, Copy, PartialEq, Eq, Structural)]
pub struct RateWindow {
    pub tokens_used: usize,
    pub requests_used: usize,
    /// When the window began, in seconds on the caller's clock.
    pub window_start: u64,
}

/// Length of a rate window, in seconds.
pub const WINDOW_SECONDS: u64 = 60;

/// `n`, or `usize::MAX` when it does not fit.
pub open spec fn saturated(n: int) -> usize {
    if n > usize::MAX {
        usize::MAX
    } else {
        n as usize
    }
}

/// `used` has reached `percent`% of `limit`.
pub open spec fn at_percent(used: nat, limit: nat, percent: nat) -> bool {
    used >= limit * percent / 100
}

fn reached(used: usize, limit: usize, percent: u128) -> (r: bool)
    requires
        percent <= 100,
    ensures
        r == at_percent(used as nat, limit as nat, percent as nat),
{
    assert((limit as u128) * percent <= (usize::MAX as u128) * 100) by (nonlinear_arith)
        requires
            percent <= 100,
            limit <= usize::MAX,
    ;
    let threshold = (limit as u128) * percent / 100;
    (used as u128) >= threshold
}

impl RateWindow {
    /// An empty window beginning at `now`.
    pub fn new(now: u64) -> (r: RateWindow)
        ensures
            r.tokens_used == 0 && r.requests_used == 0 && r.window_start == now,
    {
        RateWindow { tokens_used: 0, requests_used: 0, window_start: now }
    }

    /// Starts a new window once a full window has passed since this one began,
    /// whatever pauses happened meanwhile.
    pub fn refresh(&mut self, now: u64)
        ensures
            now >= old(self).window_start + WINDOW_SECONDS ==> *final(self) == RateWindow::new_spec(now),
            now < old(self).window_start + WINDOW_SECONDS ==> *final(self) == *old(self),
    {
        if now >= self.window_start && now - self.window_start >= WINDOW_SECONDS {
            self.tokens_used = 0;
            self.requests_used = 0;
            self.window_start = now;
        }
    }

    pub open spec fn new_spec(now: u64) -> RateWindow {
        RateWindow { tokens_used: 0, requests_used: 0, window_start: now }
    }

    /// Adds an authoritative usage report.
    pub fn record_usage(&mut self, prompt_tokens: u64, completion_tokens: u64)
        ensures
            final(self).tokens_used == saturated(old(self).tokens_used + prompt_tokens + completion_tokens),
            final(self).requests_used == old(self).requests_used,
            final(self).window_start == old(self).window_start,
    {
        let sum = (self.tokens_used as u128) + (prompt_tokens as u128) + (completion_tokens as u128);
        self.tokens_used = if sum > usize::MAX as u128 {
            usize::MAX
        } else {
            sum as usize
        };
    }

    /// Counts one request attempt.
    pub fn record_request(&mut self)
        ensures
            final(self).requests_used == saturated(old(self).requests_used + 1),
            final(self).tokens_used == old(self).tokens_used,
            final(self).window_start == old(self).window_start,
    {
        if self.requests_used < usize::MAX {
            self.requests_used = self.requests_used + 1;
        }
    }

    /// Empties the counters (after a pause the window starts over).
    pub fn reset(&mut self)
        ensures
            final(self).tokens_used == 0 && final(self).requests_used == 0,
            final(self).window_start == old(self).window_start,
    {
        self.tokens_used = 0;
        self.requests_used = 0;
    }

    /// Before a turn starts: allowed only while both counters are under 70% of
    /// their limits.
    pub fn preflight_allows(&self, limits: &RateLimitConfig) -> (r: bool)
        ensures
            r == !(at_percent(self.tokens_used as nat, limits.tpm as nat, 70) || at_percent(
                self.requests_used as nat,
                limits.rpm as nat,
                70,
            )),
    {
        !(reached(self.tokens_used, limits.tpm, 70) || reached(self.requests_used, limits.rpm, 70))
    }

    /// Within a turn: pause once either counter reaches 80% of its limit.
    pub fn needs_pause(&self, limits: &RateLimitConfig) -> (r: bool)
        ensures
            r == (at_percent(self.tokens_used as nat, limits.tpm as nat, 80) || at_percent(
                self.requests_used as nat,
                limits.rpm as nat,
                80,
            )),
    {
        reached(self.tokens_used, limits.tpm, 80) || reached(self.requests_used, limits.rpm, 80)
    }
}

/// Length of the cooldown when the mid-turn check trips, in seconds.
pub const PAUSE_SECONDS: u64 = 60;

// ---------------------------------------------------------------------------
// Errors

/// The message shown for a failed request, by what the error text mentions.
pub open spec fn api_error_message(e: Seq<char>) -> Seq<char> {
    if contains_seq(e, "SAFETY_CHECK"@) || contains_seq(e, "violates usage guidelines"@) {
        "\u{26a0}\u{fe0f} Request blocked by safety filters. Try rephrasing your message."@
    } else if contains_seq(e, "rate_limit"@) || contains_seq(e, "429"@) {
        "\u{26a0}\u{fe0f} Rate limit exceeded. Please wait a moment before trying again."@
    } else if contains_seq(e, "401"@) || contains_seq(e, "permission"@) {
        "\u{26a0}\u{fe0f} API authentication error. Check your API key."@
    } else {
        "API Error: "@ + e
    }
}

/// Turns a transport error into the message shown to the user.
pub fn classify_api_error(error: &str) -> (r: String)
    ensures
        r@ == api_error_message(error@),
{
    if contains_str(error, "SAFETY_CHECK") || contains_str(error, "violates usage guidelines") {
        String::from_str("\u{26a0}\u{fe0f} Request blocked by safety filters. Try rephrasing your message.")
    } else if contains_str(error, "rate_limit") || contains_str(error, "429") {
        String::from_str("\u{26a0}\u{fe0f} Rate limit exceeded. Please wait a moment before trying again.")
    } else if contains_str(error, "401") || contains_str(error, "permission") {
        String::from_str("\u{26a0}\u{fe0f} API authentication error. Check your API key.")
    } else {
        String::from_str("API Error: ").concat(error)
    }
}

// ---------------------------------------------------------------------------
// The engine

/// Empty replies tolerated in a row before the turn gives up.
pub const MAX_EMPTY_RETRIES: usize = 2;

pub open spec fn nudge_text() -> Seq<char> {
    "Please continue with your response."@
}

pub open spec fn empty_warning_text() -> Seq<char> {
    "\u{26a0}\u{fe0f} The model returned an empty response. This may be due to safety filters or API issues. Try rephrasing your request."@
}

pub open spec fn text_message(role: Seq<char>, t: Seq<char>) -> MessageView {
    MessageView { role, content: Some(t), tool_calls: None, tool_call_id: None }
}

/// What to do before the next request.
#[derive(Debug, Clone)]
pub enum RequestStep {
    /// Pause this many seconds, then call `resume_after_pause`.
    Pause(u64),
    /// Send the transcript to this model.
    Send(String),
}

/// What a finished reply leads to.
#[derive(Debug, Clone)]
pub enum ReplyOutcome {
    /// The reply was empty; a nudge was added and the request is repeated.
    Retry,
    /// Too many empty replies: show this warning and roll the turn back.
    GiveUp(String),
    /// The reply asked for tools: take them one by one with `next_call`.
    Dispatch,
    /// The reply handed the conversation to another role; the turn goes on under it.
    Handoff { from: String, to: String },
    /// The reply was plain text: the turn is over.
    Done,
}

/// A request for the user's decision; the turn stops until it is answered.
#[derive(Debug, Clone)]
pub enum Suspension {
    Planning { question: String, options: Vec<String>, call_id: String },
    Confirmation { plan: String, call_id: String },
    BashApproval { call: ToolCall, command: String },
    WebSearchApproval { call: ToolCall, query: String },
}

/// The next thing to do with the current batch of tool calls.
#[derive(Debug, Clone)]
pub enum CallStep {
    /// The batch is done: request the next reply.
    BatchDone,
    /// Run this tool and hand its result to `record_tool_result`.
    Execute(ToolCall),
    /// The todo list was replaced (when the call carried one) and acknowledged.
    Todos(Option<Vec<TodoItem>>),
    /// Hand control to the user; the turn ends here.
    Suspend(Suspension),
}

/// The state of one turn.
pub struct TurnEngine {
    pub history: Vec<Message>,
    pub active_role: Option<ActiveRole>,
    pub default_model: String,
    pub roles: Vec<(String, ModelRole)>,
    pub allowed_commands: Vec<String>,
    pub max_context: usize,
    pub rate_limits: Option<RateLimitConfig>,
    pub rate_limiter_enabled: bool,
    pub window: RateWindow,
    pub empty_retries: usize,
    /// Tool calls of the current reply not yet taken, in order.
    pub pending: Vec<ToolCall>,
    pub finished: bool,
}

/// The message that carries a role's system prompt.
pub open spec fn role_context(name: Seq<char>, prompt: Seq<char>) -> MessageView {
    text_message("system"@, "[Role: @"@ + name + "]\n"@ + prompt)
}

/// `h` with `m` after its first message (appended when `h` has at most one).
pub open spec fn after_first(h: Seq<MessageView>, m: MessageView) -> Seq<MessageView> {
    if h.len() > 1 {
        h.insert(1, m)
    } else {
        h.push(m)
    }
}

/// `h` with the role's system prompt injected, if the role has one.
pub open spec fn with_role_prompt(h: Seq<MessageView>, role: Option<ActiveRole>) -> Seq<MessageView> {
    match role {
        Some(r) => match r.system_prompt {
            Some(p) => after_first(h, role_context(r.name@, p@)),
            None => h,
        },
        None => h,
    }
}

pub open spec fn reply_is_empty(m: MessageView) -> bool {
    m.content is None && m.tool_calls is None
}

/// Counting one more empty reply: the new count, and whether the turn gives up.
pub open spec fn empty_reply_outcome(retries: nat) -> (nat, bool) {
    (retries + 1, retries + 1 > MAX_EMPTY_RETRIES)
}

/// The effect of a run of `n` empty replies on a turn whose count is `retries`:
/// how many warnings it shows and how many replies it takes in before it ends.
pub open spec fn run_of_empty_replies(retries: nat, n: nat) -> (nat, nat)
    decreases n,
{
    if n == 0 {
        (0, 0)
    } else {
        let (next, gives_up) = empty_reply_outcome(retries);
        if gives_up {
            (1, 1)
        } else {
            let (warnings, taken) = run_of_empty_replies(next, (n - 1) as nat);
            (warnings, taken + 1)
        }
    }
}

/// Retry boundary: from a fresh count, any run of three or more empty replies
/// ends the turn on the third with exactly one warning (and one rollback);
/// shorter runs give none.
pub proof fn lemma_one_warning_per_empty_run(n: nat)
    ensures
        n >= 3 ==> run_of_empty_replies(0, n) == (1nat, 3nat),
        n < 3 ==> run_of_empty_replies(0, n) == (0nat, n),
{
    if n >= 3 {
        assert(run_of_empty_replies(2, (n - 2) as nat) == (1nat, 1nat));
        assert(run_of_empty_replies(1, (n - 1) as nat) == (1nat, 2nat));
    } else if n == 2 {
        assert(run_of_empty_replies(2, 0) == (0nat, 0nat));
        assert(run_of_empty_replies(1, 1) == (0nat, 1nat));
    } else if n == 1 {
        assert(run_of_empty_replies(1, 0) == (0nat, 0nat));
    }
}

fn text_msg(role: &str, t: &str) -> (r: Message)
    ensures
        r@ == text_message(role@, t@),
{
    Message::text(role, String::from_str(t))
}

fn clone_role(r: &Option<ActiveRole>) -> (o: Option<ActiveRole>)
    ensures
        o == *r,
{
    match r {
        Some(a) => Some(
            ActiveRole {
                name: a.name.clone(),
                model: a.model.clone(),
                system_prompt: match &a.system_prompt {
                    Some(p) => Some(p.clone()),
                    None => None,
                },
            },
        ),
        None => None,
    }
}

/// Inserts the role's system prompt after the first message.
fn inject_role_prompt(history: &mut Vec<Message>, role: &Option<ActiveRole>)
    ensures
        msgs_view(final(history)@) == with_role_prompt(msgs_view(old(history)@), *role),
{
    if let Some(r) = role {
        if let Some(p) = &r.system_prompt {
            let text = String::from_str("[Role: @").concat(r.name.as_str()).concat("]\n").concat(
                p.as_str(),
            );
            let m = Message::text("system", text);
            let ghost before = msgs_view(history@);
            if history.len() > 1 {
                history.insert(1, m);
                assert(msgs_view(history@) =~= before.insert(1, m@));
            } else {
                history.push(m);
                assert(msgs_view(history@) =~= before.push(m@));
            }
        }
    }
}

impl TurnEngine {
    /// The turn's configuration is that of `o`.
    pub open spec fn same_setup(&self, o: TurnEngine) -> bool {
        &&& self.default_model == o.default_model
        &&& self.roles == o.roles
        &&& self.allowed_commands == o.allowed_commands
        &&& self.max_context == o.max_context
        &&& self.rate_limits == o.rate_limits
        &&& self.rate_limiter_enabled == o.rate_limiter_enabled
    }

    pub open spec fn wf(&self) -> bool {
        self.finished || self.empty_retries <= MAX_EMPTY_RETRIES
    }

    /// Opens a turn over `history` under `active_role` (injecting its prompt).
    pub fn start(
        history: Vec<Message>,
        active_role: Option<ActiveRole>,
        default_model: String,
        roles: Vec<(String, ModelRole)>,
        allowed_commands: Vec<String>,
        max_context: usize,
        rate_limits: Option<RateLimitConfig>,
        rate_limiter_enabled: bool,
        window: RateWindow,
    ) -> (r: TurnEngine)
        ensures
            r.wf(),
            !r.finished,
            r.empty_retries == 0,
            r.pending@.len() == 0,
            msgs_view(r.history@) == with_role_prompt(msgs_view(history@), active_role),
            r.active_role == active_role,
            r.default_model == default_model,
            r.roles == roles,
            r.allowed_commands == allowed_commands,
            r.max_context == max_context,
            r.rate_limits == rate_limits,
            r.rate_limiter_enabled == rate_limiter_enabled,
            r.window == window,
    {
        let mut history = history;
        inject_role_prompt(&mut history, &active_role);
        TurnEngine {
            history,
            active_role,
            default_model,
            roles,
            allowed_commands,
            max_context,
            rate_limits,
            rate_limiter_enabled,
            window,
            empty_retries: 0,
            pending: Vec::new(),
            finished: false,
        }
    }

    pub open spec fn pause_due(&self) -> bool {
        self.rate_limiter_enabled && match self.rate_limits {
            Some(l) => at_percent(self.window.tokens_used as nat, l.tpm as nat, 80) || at_percent(
                self.window.requests_used as nat,
                l.rpm as nat,
                80,
            ),
            None => false,
        }
    }

    pub open spec fn model_in_use(&self) -> Seq<char> {
        match self.active_role {
            Some(r) => r.model@,
            None => self.default_model@,
        }
    }

    /// Before each request: compresses the transcript if it grew too large, then
    /// either asks for a pause (rate limit near) or counts the request and names
    /// the model to send to.
    pub fn begin_request(&mut self) -> (r: RequestStep)
        ensures
            final(self).same_setup(*old(self)),
            match compressed(msgs_view(old(self).history@), old(self).max_context as nat, 70, 30) {
                Some(h) => msgs_view(final(self).history@) == h,
                None => final(self).history@ == old(self).history@,
            },
            final(self).pending@ == old(self).pending@,
            final(self).finished == old(self).finished,
            final(self).empty_retries == old(self).empty_retries,
            final(self).active_role == old(self).active_role,
            old(self).pause_due() ==> (r matches RequestStep::Pause(s) && s == PAUSE_SECONDS
                && final(self).window == old(self).window),
            !old(self).pause_due() ==> (r matches RequestStep::Send(m) && m@ == old(
                self,
            ).model_in_use() && final(self).window.requests_used == saturated(
                old(self).window.requests_used + 1,
            ) && final(self).window.tokens_used == old(self).window.tokens_used),
    {
        compress_history_if_needed(&mut self.history, self.max_context);
        if self.rate_limiter_enabled {
            if let Some(l) = &self.rate_limits {
                if self.window.needs_pause(l) {
                    return RequestStep::Pause(PAUSE_SECONDS);
                }
            }
        }
        self.window.record_request();
        let model = match &self.active_role {
            Some(r) => r.model.clone(),
            None => self.default_model.clone(),
        };
        RequestStep::Send(model)
    }

    /// After the pause: a new window starts with both counters at zero.
    pub fn resume_after_pause(&mut self)
        ensures
            final(self).same_setup(*old(self)),
            final(self).window.tokens_used == 0 && final(self).window.requests_used == 0,
            final(self).history@ == old(self).history@,
            final(self).pending@ == old(self).pending@,
            final(self).finished == old(self).finished,
            final(self).empty_retries == old(self).empty_retries,
    {
        self.window.reset();
    }

    /// Counts a usage report of the provider.
    pub fn record_usage(&mut self, prompt_tokens: u64, completion_tokens: u64)
        ensures
            final(self).same_setup(*old(self)),
            final(self).window.tokens_used == saturated(
                old(self).window.tokens_used + prompt_tokens + completion_tokens,
            ),
            final(self).window.requests_used == old(self).window.requests_used,
            final(self).history@ == old(self).history@,
            final(self).finished == old(self).finished,
            final(self).empty_retries == old(self).empty_retries,
    {
        self.window.record_usage(prompt_tokens, completion_tokens);
    }

    /// A request failed: the turn ends; returns the message to show. The caller
    /// rolls the transaction back.
    pub fn on_api_error(&mut self, error: &str) -> (r: String)
        ensures
            final(self).same_setup(*old(self)),
            r@ == api_error_message(error@),
            final(self).finished,
            final(self).history@ == old(self).history@,
    {
        self.finished = true;
        classify_api_error(error)
    }

    /// Takes in a complete reply (as `StreamDecoder::finish` builds it).
    pub fn on_reply(&mut self, reply: Message) -> (r: ReplyOutcome)
        requires
            old(self).wf(),
            !old(self).finished,
        ensures
            final(self).same_setup(*old(self)),
            final(self).wf(),
            final(self).window == old(self).window,
            reply_is_empty(reply@) ==> {
                let (next, gives_up) = empty_reply_outcome(old(self).empty_retries as nat);
                &&& final(self).empty_retries == next
                &&& gives_up ==> (r matches ReplyOutcome::GiveUp(w) && w@ == empty_warning_text()
                    && final(self).finished && final(self).history@ == old(self).history@)
                &&& !gives_up ==> r is Retry && !final(self).finished && msgs_view(
                    final(self).history@,
                ) == msgs_view(old(self).history@).push(text_message("user"@, nudge_text()))
            },
            !reply_is_empty(reply@) ==> final(self).empty_retries == 0,
            !reply_is_empty(reply@) && reply.tool_calls is Some ==> {
                &&& r is Dispatch
                &&& !final(self).finished
                &&& msgs_view(final(self).history@) == msgs_view(old(self).history@).push(reply@)
                &&& calls_view(final(self).pending@) == calls_view(reply.tool_calls.unwrap()@)
            },
            !reply_is_empty(reply@) && reply.tool_calls is None ==> {
                let h = msgs_view(old(self).history@).push(reply@);
                let content = match opt_text(reply.content) {
                    Some(c) => c,
                    None => seq![],
                };
                match first_handoff(lines(content)) {
                    Some((role, task)) => match key_index(old(self).roles@, role) {
                        Some(i) => {
                            let rc = old(self).roles@[i].1;
                            &&& r matches ReplyOutcome::Handoff { from, to } && to@ == role
                                && from@ == match old(self).active_role {
                                    Some(a) => a.name@,
                                    None => "default"@,
                                }
                            &&& !final(self).finished
                            &&& final(self).active_role matches Some(a) && a.name@ == role
                                && a.model == rc.model && a.system_prompt == rc.prompt
                            &&& msgs_view(final(self).history@) == with_role_prompt(
                                h.push(text_message("user"@, "Continue with the following task:\n"@ + task)),
                                final(self).active_role,
                            )
                        },
                        None => r is Done && final(self).finished && msgs_view(final(self).history@) == h,
                    },
                    None => r is Done && final(self).finished && msgs_view(final(self).history@) == h,
                }
            },
    {
        let empty = reply.content.is_none() && reply.tool_calls.is_none();
        if empty {
            self.empty_retries = self.empty_retries + 1;
            if self.empty_retries > MAX_EMPTY_RETRIES {
                self.finished = true;
                return ReplyOutcome::GiveUp(
                    String::from_str(
                        "\u{26a0}\u{fe0f} The model returned an empty response. This may be due to safety filters or API issues. Try rephrasing your request.",
                    ),
                );
            }
            let ghost before = msgs_view(self.history@);
            let nudge = text_msg("user", "Please continue with your response.");
            self.history.push(nudge);
            assert(msgs_view(self.history@) =~= before.push(nudge@));
            return ReplyOutcome::Retry;
        }
        self.empty_retries = 0;
        let ghost before = msgs_view(self.history@);
        let ghost rv = reply@;
        let content = copy_text(&reply.content);
        let calls = match &reply.tool_calls {
            Some(v) => Some(crate::message::copy_calls(v)),
            None => None,
        };
        self.history.push(reply);
        assert(msgs_view(self.history@) =~= before.push(rv));
        if let Some(v) = calls {
            self.pending = v;
            return ReplyOutcome::Dispatch;
        }
        let text = match &content {
            Some(c) => c.clone(),
            None => String::new(),
        };
        let handoff = find_handoff_directive(text.as_str());
        if let Some(d) = handoff {
            proof {
                lemma_key_index(self.roles@, d.role@);
            }
            let found = match crate::config::find_key(&self.roles, d.role.as_str()) {
                Some(i) => i,
                None => {
                    self.finished = true;
                    return ReplyOutcome::Done;
                },
            };
            let from = match &self.active_role {
                Some(a) => a.name.clone(),
                None => String::from_str("default"),
            };
            let rc = &self.roles[found].1;
            let new_role = ActiveRole {
                name: d.role.clone(),
                model: rc.model.clone(),
                system_prompt: match &rc.prompt {
                    Some(p) => Some(p.clone()),
                    None => None,
                },
            };
            let task = String::from_str("Continue with the following task:\n").concat(
                d.content.as_str(),
            );
            let ghost h2 = msgs_view(self.history@);
            let m = Message::text("user", task);
            self.history.push(m);
            assert(msgs_view(self.history@) =~= h2.push(m@));
            let role_opt = Some(new_role);
            inject_role_prompt(&mut self.history, &role_opt);
            self.active_role = role_opt;
            return ReplyOutcome::Handoff { from, to: d.role };
        }
        self.finished = true;
        ReplyOutcome::Done
    }

    /// Records the result of a tool the caller ran for `call`.
    pub fn record_tool_result(&mut self, call: &ToolCall, result: String)
        ensures
            final(self).same_setup(*old(self)),
            msgs_view(final(self).history@) == msgs_view(old(self).history@).push(
                MessageView {
                    role: "tool"@,
                    content: Some(result@),
                    tool_calls: None,
                    tool_call_id: Some(call.id@),
                },
            ),
            final(self).pending@ == old(self).pending@,
            final(self).finished == old(self).finished,
            final(self).empty_retries == old(self).empty_retries,
            final(self).window == old(self).window,
    {
        let ghost before = msgs_view(self.history@);
        let m = Message {
            role: String::from_str("tool"),
            content: Some(result),
            tool_calls: None,
            tool_call_id: Some(call.id.clone()),
        };
        self.history.push(m);
        assert(msgs_view(self.history@) =~= before.push(m@));
    }

    /// Takes the next tool call of the batch. Planning and confirmation requests,
    /// web searches and shell commands that are not pre-approved suspend the
    /// turn; todo updates are acknowledged at once; the rest are to be run.
    pub fn next_call(&mut self) -> (r: CallStep)
        requires
            old(self).wf(),
        ensures
            final(self).same_setup(*old(self)),
            final(self).wf(),
            final(self).window == old(self).window,
            final(self).empty_retries == old(self).empty_retries,
            old(self).pending@.len() == 0 ==> r is BatchDone && final(self).history@ == old(
                self,
            ).history@ && final(self).finished == old(self).finished && final(self).pending@.len() == 0,
            old(self).pending@.len() > 0 ==> {
                let c = old(self).pending@[0];
                let rest = calls_view(old(self).pending@).drop_first();
                let suspended = final(self).finished && final(self).history@ == old(self).history@
                    && final(self).pending@.len() == 0;
                let goes_on = final(self).finished == old(self).finished && calls_view(
                    final(self).pending@,
                ) == rest;
                match kind_of(c.function.name@) {
                    Some(ToolKind::AskUser) => r matches CallStep::Suspend(
                        Suspension::Planning { question, options, call_id },
                    ) && call_id@ == c.id@ && question@ == arg_text(c, "question"@, "Select options"@)
                        && options@.map_values(|o: String| o@) == arg_items(c, "options"@) && suspended,
                    Some(ToolKind::ConfirmPlan) => r matches CallStep::Suspend(
                        Suspension::Confirmation { plan, call_id },
                    ) && call_id@ == c.id@ && plan@ == arg_text(c, "plan"@, ""@) && suspended,
                    Some(ToolKind::WebSearch) => r matches CallStep::Suspend(
                        Suspension::WebSearchApproval { call, query },
                    ) && call == c && query@ == arg_text(c, "query"@, ""@) && suspended,
                    Some(ToolKind::Bash) => if has_text(
                        old(self).allowed_commands@,
                        arg_text(c, "command"@, ""@),
                    ) {
                        r matches CallStep::Execute(x) && x == c && final(self).history@
                            == old(self).history@ && goes_on
                    } else {
                        r matches CallStep::Suspend(
                            Suspension::BashApproval { call, command },
                        ) && call == c && command@ == arg_text(c, "command"@, ""@) && suspended
                    },
                    Some(ToolKind::TodoWrite) => r matches CallStep::Todos(t)
                        && todos_view(t) == todos_of(c) && goes_on && msgs_view(final(self).history@)
                        == msgs_view(old(self).history@).push(
                        MessageView {
                            role: "tool"@,
                            content: Some("Todo list updated."@),
                            tool_calls: None,
                            tool_call_id: Some(c.id@),
                        },
                    ),
                    _ => r matches CallStep::Execute(x) && x == c && final(self).history@
                        == old(self).history@ && goes_on,
                }
            },
    {
        if self.pending.len() == 0 {
            return CallStep::BatchDone;
        }
        let ghost pv = calls_view(self.pending@);
        let c = self.pending.remove(0);
        assert(calls_view(self.pending@) =~= pv.drop_first());
        let kind = tool_kind(c.function.name.as_str());
        match kind {
            Some(ToolKind::AskUser) => {
                self.finished = true;
                self.pending = Vec::new();
                let question = argument_text(&c, "question", "Select options");
                let options = string_items(&c, "options");
                CallStep::Suspend(Suspension::Planning { question, options, call_id: c.id })
            },
            Some(ToolKind::ConfirmPlan) => {
                self.finished = true;
                self.pending = Vec::new();
                let plan = argument_text(&c, "plan", "");
                CallStep::Suspend(Suspension::Confirmation { plan, call_id: c.id })
            },
            Some(ToolKind::Bash) => {
                let command = argument_text(&c, "command", "");
                if contains_text(&self.allowed_commands, command.as_str()) {
                    CallStep::Execute(c)
                } else {
                    self.finished = true;
                    self.pending = Vec::new();
                    CallStep::Suspend(Suspension::BashApproval { call: c, command })
                }
            },
            Some(ToolKind::WebSearch) => {
                self.finished = true;
                self.pending = Vec::new();
                let query = argument_text(&c, "query", "");
                CallStep::Suspend(Suspension::WebSearchApproval { call: c, query })
            },
            Some(ToolKind::TodoWrite) => {
                let todos = parse_todos(&c);
                let ghost before = msgs_view(self.history@);
                let m = Message {
                    role: String::from_str("tool"),
                    content: Some(String::from_str("Todo list updated.")),
                    tool_calls: None,
                    tool_call_id: Some(c.id.clone()),
                };
                self.history.push(m);
                assert(msgs_view(self.history@) =~= before.push(m@));
                CallStep::Todos(todos)
            },
            _ => CallStep::Execute(c),
        }
    }
}

fn contains_text(v: &Vec<String>, t: &str) -> (r: bool)
    ensures
        r == has_text(v@, t@),
{
    let tc = chars_of(t);
    let mut i: usize = 0;
    while i < v.len()
        invariant
            i <= v@.len(),
            tc@ == t@,
            forall|j: int| 0 <= j < i ==> #[trigger] v@[j]@ != t@,
        decreases v@.len() - i,
    {
        let c = chars_of(v[i].as_str());
        if equal_chars(&c, &tc) {
            return true;
        }
        i = i + 1;
    }
    false
}

/// The arguments of a call, parsed.
pub open spec fn call_args(c: ToolCall) -> Option<Json> {
    json_of(c.function.arguments@)
}

/// The text argument `key` of a call, or `dflt` when it has none.
pub open spec fn arg_text(c: ToolCall, key: Seq<char>, dflt: Seq<char>) -> Seq<char> {
    match str_of(field(call_args(c), key)) {
        Some(s) => s@,
        None => dflt,
    }
}

/// The text argument `key` of a call, or `dflt` when it has none.
fn argument_text(c: &ToolCall, key: &str, dflt: &str) -> (r: String)
    ensures
        r@ == arg_text(*c, key@, dflt@),
{
    let args = parse_json(c.function.arguments.as_str());
    let a = match &args {
        Some(a) => Some(a),
        None => None,
    };
    match field_str(a, key) {
        Some(s) => s,
        None => String::from_str(dflt),
    }
}

pub open spec fn item_text(j: Json) -> Seq<char> {
    match str_of(Some(j)) {
        Some(s) => s@,
        None => seq![],
    }
}

/// The texts of the array argument `key` (a non-text item reads as empty).
pub open spec fn arg_items(c: ToolCall, key: Seq<char>) -> Seq<Seq<char>> {
    match array_of(field(call_args(c), key)) {
        Some(items) => items.map_values(|j: Json| item_text(j)),
        None => seq![],
    }
}

fn string_items(c: &ToolCall, key: &str) -> (r: Vec<String>)
    ensures
        r@.len() == arg_items(*c, key@).len(),
        forall|i: int| 0 <= i < r@.len() ==> #[trigger] r@[i]@ == arg_items(*c, key@)[i],
{
    let mut out: Vec<String> = Vec::new();
    let args = parse_json(c.function.arguments.as_str());
    let arr = match &args {
        Some(a) => match a.get(key) {
            Some(x) => x.as_array(),
            None => None,
        },
        None => None,
    };
    if let Some(arr) = arr {
        let mut i: usize = 0;
        while i < arr.len()
            invariant
                i <= arr@.len(),
                array_of(field(call_args(*c), key@)) == Some(arr@),
                out@.len() == i,
                forall|j: int| 0 <= j < i ==> #[trigger] out@[j]@ == item_text(arr@[j]),
            decreases arr.len() - i,
        {
            let s = match arr[i].as_str() {
                Some(s) => s.clone(),
                None => String::new(),
            };
            out.push(s);
            i = i + 1;
        }
    }
    out
}

/// Status named in a todo item.
pub open spec fn status_of(s: Seq<char>) -> TodoStatus {
    if s == "in_progress"@ {
        TodoStatus::InProgress
    } else if s == "completed"@ {
        TodoStatus::Completed
    } else {
        TodoStatus::Pending
    }
}

pub fn parse_status(s: &str) -> (r: TodoStatus)
    ensures
        r == status_of(s@),
{
    let c = chars_of(s);
    if equal_chars(&c, &chars_of("in_progress")) {
        TodoStatus::InProgress
    } else if equal_chars(&c, &chars_of("completed")) {
        TodoStatus::Completed
    } else {
        TodoStatus::Pending
    }
}

/// A todo item as text, status and active form.
pub open spec fn todo_view(t: TodoItem) -> (Seq<char>, TodoStatus, Seq<char>) {
    (t.content@, t.status, t.active_form@)
}

/// The todo an array entry describes, when it has text content, status and active form.
pub open spec fn todo_entry(j: Json) -> Option<(Seq<char>, TodoStatus, Seq<char>)> {
    match (str_of(get_spec(j, "content"@)), str_of(get_spec(j, "status"@)), str_of(get_spec(j, "activeForm"@))) {
        (Some(c), Some(s), Some(a)) => Some((c@, status_of(s@), a@)),
        _ => None,
    }
}

pub open spec fn todo_entries(items: Seq<Json>) -> Seq<(Seq<char>, TodoStatus, Seq<char>)>
    decreases items.len(),
{
    if items.len() == 0 {
        seq![]
    } else {
        match todo_entry(items.last()) {
            Some(t) => todo_entries(items.drop_last()).push(t),
            None => todo_entries(items.drop_last()),
        }
    }
}

/// The items of a todo-list update; `None` when it carries no `todos` array.
pub open spec fn todos_of(c: ToolCall) -> Option<Seq<(Seq<char>, TodoStatus, Seq<char>)>> {
    match array_of(field(call_args(c), "todos"@)) {
        Some(items) => Some(todo_entries(items)),
        None => None,
    }
}

pub open spec fn todos_view(o: Option<Vec<TodoItem>>) -> Option<Seq<(Seq<char>, TodoStatus, Seq<char>)>> {
    match o {
        Some(v) => Some(v@.map_values(|t: TodoItem| todo_view(t))),
        None => None,
    }
}

/// The items of a todo-list update; items without a text content, status or
/// active form are left out.
fn parse_todos(c: &ToolCall) -> (r: Option<Vec<TodoItem>>)
    ensures
        todos_view(r) == todos_of(*c),
{
    let args = parse_json(c.function.arguments.as_str());
    let arr = match &args {
        Some(a) => match a.get("todos") {
            Some(t) => t.as_array(),
            None => None,
        },
        None => None,
    };
    let arr = match arr {
        Some(a) => a,
        None => {
            return None;
        },
    };
    let mut out: Vec<TodoItem> = Vec::new();
    let mut i: usize = 0;
    while i < arr.len()
        invariant
            i <= arr@.len(),
            out@.map_values(|t: TodoItem| todo_view(t)) == todo_entries(arr@.take(i as int)),
        decreases arr.len() - i,
    {
        let item = &arr[i];
        let ghost before = out@.map_values(|t: TodoItem| todo_view(t));
        assert(arr@.take(i + 1).drop_last() =~= arr@.take(i as int));
        let content = field_str(Some(item), "content");
        let status = field_str(Some(item), "status");
        let active = field_str(Some(item), "activeForm");
        if let (Some(content), Some(status), Some(active_form)) = (content, status, active) {
            let t = TodoItem { content, status: parse_status(status.as_str()), active_form };
            out.push(t);
            assert(out@.map_values(|t: TodoItem| todo_view(t)) =~= before.push(todo_view(t)));
        }
        i = i + 1;
    }
    assert(arr@.take(i as int) =~= arr@);
    Some(out)
}

/// The role a user message activates and the text it sends: a leading `@role:`
/// naming a configured role switches to it and sends the rest; otherwise the
/// message goes as it is, under no role.
pub fn directive_for_input(roles: &Vec<(String, ModelRole)>, input: &str) -> (r: (Option<ActiveRole>, String))
    ensures
        match crate::roles::role_directive(input@) {
            Some((role, rest)) => match key_index(roles@, role) {
                Some(i) => r.0 matches Some(a) && a.name@ == role && a.model == roles@[i].1.model
                    && a.system_prompt == roles@[i].1.prompt && r.1@ == rest,
                None => r.0.is_none() && r.1@ == input@,
            },
            None => r.0.is_none() && r.1@ == input@,
        },
{
    match crate::roles::parse_role_directive(input) {
        Some(d) => match crate::config::find_key(roles, d.role.as_str()) {
            Some(i) => {
                let rc = &roles[i].1;
                let role = ActiveRole {
                    name: d.role,
                    model: rc.model.clone(),
                    system_prompt: match &rc.prompt {
                        Some(p) => Some(p.clone()),
                        None => None,
                    },
                };
                (Some(role), d.content)
            },
            None => (None, String::from_str(input)),
        },
        None => (None, String::from_str(input)),
    }
}

} // verus!
