//! The display layer's copy of the conversation, rebuilt from delivered events.
//!
//! Streamed tokens grow the message they belong to, final messages replace the
//! streamed partial, and once the user has cancelled, events of the abandoned
//! turn are dropped until that turn reports its end.
use vstd::prelude::*;
use crate::events::AppEvent;
use crate::message::{Message, MessageView, msgs_view};
use crate::text::chars_of;

verus! {

/// What the user sees, and the context kept for the next request.
pub struct DisplayTranscript {
    pub messages: Vec<Message>,
    pub api_messages: Vec<Message>,
    /// Set when the user cancels; cleared when the abandoned turn ends.
    pub cancel_requested: bool,
}

pub open spec fn ends_turn(e: AppEvent) -> bool {
    e is Finished || e is Error
}

pub open spec fn text_of(o: Option<Seq<char>>) -> Seq<char> {
    match o {
        Some(t) => t,
        None => seq![],
    }
}

/// The shown messages after a message arrives: it replaces a streamed assistant
/// partial, or is appended.
pub open spec fn with_message(ms: Seq<MessageView>, m: MessageView) -> Seq<MessageView> {
    if ms.len() > 0 && ms.last().role == "assistant"@ && m.role == "assistant"@ {
        ms.update(ms.len() - 1, m)
    } else {
        ms.push(m)
    }
}

/// The shown messages after a streamed piece of text of role `role`: it extends
/// the last message when that one is of the same kind, else starts a new one.
pub open spec fn with_piece(ms: Seq<MessageView>, role: Seq<char>, s: Seq<char>) -> Seq<MessageView> {
    let extends = ms.len() > 0 && ms.last().role == role && (role == "thought"@
        || ms.last().tool_calls is None);
    if extends {
        ms.update(
            ms.len() - 1,
            MessageView { content: Some(text_of(ms.last().content) + s), ..ms.last() },
        )
    } else {
        ms.push(MessageView { role, content: Some(s), tool_calls: None, tool_call_id: None })
    }
}

/// The shown messages after one event (while not cancelled).
pub open spec fn shown_after(ms: Seq<MessageView>, e: AppEvent) -> Seq<MessageView> {
    match e {
        AppEvent::NewMessage(m) => with_message(ms, m@),
        AppEvent::Token(s) => with_piece(ms, "assistant"@, s@),
        AppEvent::ThinkingToken(s) => with_piece(ms, "thought"@, s@),
        _ => ms,
    }
}

fn is_role(m: &Message, role: &str) -> (r: bool)
    ensures
        r == (m.role@ == role@),
{
    crate::text::equal_chars(&chars_of(m.role.as_str()), &chars_of(role))
}

impl DisplayTranscript {
    pub fn new(messages: Vec<Message>) -> (r: DisplayTranscript)
        ensures
            r.messages@ == messages@,
            r.api_messages@.len() == 0,
            !r.cancel_requested,
    {
        DisplayTranscript { messages, api_messages: Vec::new(), cancel_requested: false }
    }

    /// The user asks to stop the running turn; its further events will be dropped.
    pub fn cancel(&mut self)
        ensures
            final(self).cancel_requested,
            final(self).messages@ == old(self).messages@,
            final(self).api_messages@ == old(self).api_messages@,
    {
        self.cancel_requested = true;
    }

    fn add_piece(&mut self, role: &str, s: &String)
        ensures
            msgs_view(final(self).messages@) == with_piece(msgs_view(old(self).messages@), role@, s@),
            final(self).api_messages@ == old(self).api_messages@,
            final(self).cancel_requested == old(self).cancel_requested,
    {
        let ghost before = msgs_view(self.messages@);
        let n = self.messages.len();
        if n > 0 && is_role(&self.messages[n - 1], role) && (crate::text::equal_chars(
            &chars_of(role),
            &chars_of("thought"),
        ) || self.messages[n - 1].tool_calls.is_none()) {
            let mut last = self.messages.remove(n - 1);
            let text = match &last.content {
                Some(c) => c.clone().concat(s.as_str()),
                None => s.clone(),
            };
            last.content = Some(text);
            let ghost lv = last@;
            self.messages.push(last);
            assert(msgs_view(self.messages@) =~= before.update(n - 1, lv));
        } else {
            let m = Message::text(role, s.clone());
            self.messages.push(m);
            assert(msgs_view(self.messages@) =~= before.push(m@));
        }
    }

    /// Applies one delivered event. While a cancellation is pending, events are
    /// dropped, and the end of the abandoned turn clears the cancellation.
    pub fn apply(&mut self, event: &AppEvent)
        ensures
            (msgs_view(final(self).messages@), final(self).cancel_requested) == display_step(
                msgs_view(old(self).messages@),
                old(self).cancel_requested,
                *event,
            ),
            old(self).cancel_requested ==> final(self).messages@ == old(self).messages@
                && final(self).api_messages@ == old(self).api_messages@,
            !old(self).cancel_requested ==> {
                match event {
                    AppEvent::NewMessage(m) => msgs_view(final(self).api_messages@) == msgs_view(
                        old(self).api_messages@,
                    ).push(m@),
                    _ => final(self).api_messages@ == old(self).api_messages@,
                }
            },
    {
        if self.cancel_requested {
            match event {
                AppEvent::Finished | AppEvent::Error(_) => {
                    self.cancel_requested = false;
                },
                _ => {},
            }
            return;
        }
        match event {
            AppEvent::NewMessage(m) => {
                let ghost before = msgs_view(self.messages@);
                let n = self.messages.len();
                let a = m.copy();
                if n > 0 && is_role(&self.messages[n - 1], "assistant") && is_role(m, "assistant") {
                    self.messages.set(n - 1, a);
                    assert(msgs_view(self.messages@) =~= before.update(n - 1, m@));
                } else {
                    self.messages.push(a);
                    assert(msgs_view(self.messages@) =~= before.push(m@));
                }
                let ghost api = msgs_view(self.api_messages@);
                let b = m.copy();
                self.api_messages.push(b);
                assert(msgs_view(self.api_messages@) =~= api.push(m@));
            },
            AppEvent::Token(s) => {
                self.add_piece("assistant", s);
            },
            AppEvent::ThinkingToken(s) => {
                self.add_piece("thought", s);
            },
            _ => {},
        }
    }
}

/// One event's effect on the shown messages and the pending cancellation.
pub open spec fn display_step(ms: Seq<MessageView>, cancelled: bool, e: AppEvent) -> (Seq<MessageView>, bool) {
    if cancelled {
        (ms, !ends_turn(e))
    } else {
        (shown_after(ms, e), false)
    }
}

/// The effect of a run of events, in order.
pub open spec fn display_run(ms: Seq<MessageView>, cancelled: bool, events: Seq<AppEvent>) -> (Seq<MessageView>, bool)
    decreases events.len(),
{
    if events.len() == 0 {
        (ms, cancelled)
    } else {
        let (m2, c2) = display_run(ms, cancelled, events.drop_last());
        display_step(m2, c2, events.last())
    }
}

/// Late events are harmless: after a cancellation, any run of events that does
/// not end the abandoned turn leaves the shown messages exactly as they were,
/// and the cancellation stays pending.
pub proof fn lemma_cancelled_turn_changes_nothing(ms: Seq<MessageView>, events: Seq<AppEvent>)
    requires
        forall|i: int| 0 <= i < events.len() ==> !ends_turn(#[trigger] events[i]),
    ensures
        display_run(ms, true, events) == (ms, true),
    decreases events.len(),
{
    if events.len() > 0 {
        let init = events.drop_last();
        assert forall|i: int| 0 <= i < init.len() implies !ends_turn(#[trigger] init[i]) by {
            assert(init[i] == events[i]);
        }
        lemma_cancelled_turn_changes_nothing(ms, init);
        assert(!ends_turn(events[events.len() - 1]));
    }
}

} // verus!
