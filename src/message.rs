//! Transcript data: messages, tool calls and todo items.
use vstd::prelude::*;

verus! {

/// The name and serialized arguments of a requested action.
#[derive(Debug, Clone)]
pub struct FunctionCall {
    pub name: String,
    pub arguments: String,
}

/// An action the assistant asked for; `id` correlates the answering tool message.
#[derive(Debug, Clone)]
pub struct ToolCall {
    pub id: String,
    pub call_type: String,
    pub function: FunctionCall,
}

/// One conversational turn-unit.
#[derive(Debug, Clone)]
pub struct Message {
    pub role: String,
    pub content: Option<String>,
    pub tool_calls: Option<Vec<ToolCall>>,
    pub tool_call_id: Option<String>,
}

pub ghost struct ToolCallView {
    pub id: Seq<char>,
    pub call_type: Seq<char>,
    pub name: Seq<char>,
    pub arguments: Seq<char>,
}

pub ghost struct MessageView {
    pub role: Seq<char>,
    pub content: Option<Seq<char>>,
    pub tool_calls: Option<Seq<ToolCallView>>,
    pub tool_call_id: Option<Seq<char>>,
}

pub open spec fn opt_text(o: Option<String>) -> Option<Seq<char>> {
    match o {
        Some(s) => Some(s@),
        None => None,
    }
}

pub open spec fn calls_view(v: Seq<ToolCall>) -> Seq<ToolCallView> {
    v.map_values(|c: ToolCall| c@)
}

pub open spec fn msgs_view(v: Seq<Message>) -> Seq<MessageView> {
    v.map_values(|m: Message| m@)
}

impl View for ToolCall {
    type V = ToolCallView;

    open spec fn view(&self) -> ToolCallView {
        ToolCallView {
            id: self.id@,
            call_type: self.call_type@,
            name: self.function.name@,
            arguments: self.function.arguments@,
        }
    }
}

impl View for Message {
    type V = MessageView;

    open spec fn view(&self) -> MessageView {
        MessageView {
            role: self.role@,
            content: opt_text(self.content),
            tool_calls: match self.tool_calls {
                Some(v) => Some(calls_view(v@)),
                None => None,
            },
            tool_call_id: opt_text(self.tool_call_id),
        }
    }
}

pub fn copy_text(o: &Option<String>) -> (r: Option<String>)
    ensures
        opt_text(r) == opt_text(*o),
{
    match o {
        Some(s) => Some(s.clone()),
        None => None,
    }
}

impl ToolCall {
    /// A call with the given id, name and arguments, of type `"function"`.
    pub fn new(id: String, name: String, arguments: String) -> (r: ToolCall)
        ensures
            r.id@ == id@,
            r.call_type@ == "function"@,
            r.function.name@ == name@,
            r.function.arguments@ == arguments@,
    {
        ToolCall { id, call_type: String::from_str("function"), function: FunctionCall { name, arguments } }
    }

    pub fn copy(&self) -> (r: ToolCall)
        ensures
            r@ == self@,
    {
        ToolCall {
            id: self.id.clone(),
            call_type: self.call_type.clone(),
            function: FunctionCall {
                name: self.function.name.clone(),
                arguments: self.function.arguments.clone(),
            },
        }
    }
}

pub fn copy_calls(v: &Vec<ToolCall>) -> (r: Vec<ToolCall>)
    ensures
        calls_view(r@) == calls_view(v@),
{
    let mut r: Vec<ToolCall> = Vec::new();
    let mut i: usize = 0;
    while i < v.len()
        invariant
            i <= v@.len(),
            r@.len() == i,
            forall|j: int| 0 <= j < i ==> #[trigger] r@[j]@ == v@[j]@,
        decreases v@.len() - i,
    {
        r.push(v[i].copy());
        i = i + 1;
    }
    assert(calls_view(r@) =~= calls_view(v@));
    r
}

impl Message {
    /// A message with only a role and a text.
    pub fn text(role: &str, content: String) -> (r: Message)
        ensures
            r@ == (MessageView {
                role: role@,
                content: Some(content@),
                tool_calls: None,
                tool_call_id: None,
            }),
    {
        Message {
            role: String::from_str(role),
            content: Some(content),
            tool_calls: None,
            tool_call_id: None,
        }
    }

    pub fn copy(&self) -> (r: Message)
        ensures
            r@ == self@,
    {
        Message {
            role: self.role.clone(),
            content: copy_text(&self.content),
            tool_calls: match &self.tool_calls {
                Some(v) => Some(copy_calls(v)),
                None => None,
            },
            tool_call_id: copy_text(&self.tool_call_id),
        }
    }
}

pub fn copy_messages(v: &Vec<Message>) -> (r: Vec<Message>)
    ensures
        msgs_view(r@) == msgs_view(v@),
{
    let mut r: Vec<Message> = Vec::new();
    let mut i: usize = 0;
    while i < v.len()
        invariant
            i <= v@.len(),
            r@.len() == i,
            forall|j: int| 0 <= j < i ==> #[trigger] r@[j]@ == v@[j]@,
        decreases v@.len() - i,
    {
        r.push(v[i].copy());
        i = i + 1;
    }
    assert(msgs_view(r@) =~= msgs_view(v@));
    r
}

/// Progress of one todo item.
#[derive(Debug, Clone, Copy, PartialEq, Eq, Structural)]
pub enum TodoStatus {
    Pending,
    InProgress,
    Completed,
}

/// One entry of the model-maintained task list.
#[derive(Debug, Clone)]
pub struct TodoItem {
    pub content: String,
    pub status: TodoStatus,
    pub active_form: String,
}

} // verus!
