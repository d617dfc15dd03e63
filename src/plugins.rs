//! Registry of user-defined tools (loaded from YAML files by the application).
use vstd::prelude::*;
use crate::text::{chars_of, equal_chars, string_of};
use crate::message::opt_text;

verus! {

/// One parameter of a user-defined tool.
#[derive(Debug, Clone)]
pub struct ToolParameter {
    pub name: String,
    pub param_type: String,
    pub description: String,
    pub required: bool,
    pub default: Option<String>,
}

/// A user-defined tool: a shell command with `{{param}}` placeholders.
#[derive(Debug, Clone)]
pub struct YamlTool {
    pub name: String,
    pub description: String,
    pub parameters: Vec<ToolParameter>,
    pub command: String,
    pub working_dir: Option<String>,
    pub sandbox_aware: bool,
    pub category: Option<String>,
    pub icon: Option<String>,
}

/// Why a tool definition was not accepted.
#[derive(Debug, Clone, Copy, PartialEq, Eq, Structural)]
pub enum PluginError {
    MissingName,
    MissingDescription,
    MissingCommand,
}

impl PluginError {
    pub fn message(&self) -> (r: String)
        ensures
            r@ == match self {
                PluginError::MissingName => "Tool name is required"@,
                PluginError::MissingDescription => "Tool description is required"@,
                PluginError::MissingCommand => "Tool command is required"@,
            },
    {
        match self {
            PluginError::MissingName => String::from_str("Tool name is required"),
            PluginError::MissingDescription => String::from_str("Tool description is required"),
            PluginError::MissingCommand => String::from_str("Tool command is required"),
        }
    }
}

/// The loaded user-defined tools, at most one per name.
pub struct ToolPluginManager {
    pub tools: Vec<YamlTool>,
}

/// Index of the tool called `n`, if any.
pub open spec fn tool_index(tools: Seq<YamlTool>, n: Seq<char>) -> Option<int> {
    if exists|i: int| 0 <= i < tools.len() && #[trigger] tools[i].name@ == n {
        Some(choose|i: int| 0 <= i < tools.len() && #[trigger] tools[i].name@ == n)
    } else {
        None
    }
}

impl ToolPluginManager {
    /// Tool names are unique.
    pub open spec fn wf(&self) -> bool {
        forall|i: int, j: int|
            0 <= i < j < self.tools@.len() ==> #[trigger] self.tools@[i].name@
                != #[trigger] self.tools@[j].name@
    }

    /// An empty registry.
    pub fn new() -> (r: ToolPluginManager)
        ensures
            r.wf(),
            r.tools@.len() == 0,
    {
        ToolPluginManager { tools: Vec::new() }
    }

    fn find(&self, name: &Vec<char>) -> (r: Option<usize>)
        requires
            self.wf(),
        ensures
            match r {
                Some(i) => i < self.tools@.len() && self.tools@[i as int].name@ == name@,
                None => forall|i: int|
                    0 <= i < self.tools@.len() ==> #[trigger] self.tools@[i].name@ != name@,
            },
    {
        let mut i: usize = 0;
        while i < self.tools.len()
            invariant
                i <= self.tools@.len(),
                forall|j: int| 0 <= j < i ==> #[trigger] self.tools@[j].name@ != name@,
            decreases self.tools@.len() - i,
        {
            let n = chars_of(self.tools[i].name.as_str());
            if equal_chars(&n, name) {
                return Some(i);
            }
            i = i + 1;
        }
        None
    }

    /// Adds a tool, replacing one of the same name; a tool without a name,
    /// description or command is refused.
    pub fn register(&mut self, tool: YamlTool) -> (r: Result<(), PluginError>)
        requires
            old(self).wf(),
        ensures
            final(self).wf(),
            tool.name@.len() == 0 ==> r == Err::<(), PluginError>(PluginError::MissingName),
            tool.name@.len() > 0 && tool.description@.len() == 0 ==> r == Err::<(), PluginError>(
                PluginError::MissingDescription,
            ),
            tool.name@.len() > 0 && tool.description@.len() > 0 && tool.command@.len() == 0 ==> r
                == Err::<(), PluginError>(PluginError::MissingCommand),
            r is Err ==> final(self).tools@ == old(self).tools@,
            r is Ok <==> (tool.name@.len() > 0 && tool.description@.len() > 0
                && tool.command@.len() > 0),
            r is Ok ==> {
                match tool_index(old(self).tools@, tool.name@) {
                    Some(i) => final(self).tools@ == old(self).tools@.update(i, tool),
                    None => final(self).tools@ == old(self).tools@.push(tool),
                }
            },
    {
        if char_len(&tool.name) == 0 {
            return Err(PluginError::MissingName);
        }
        if char_len(&tool.description) == 0 {
            return Err(PluginError::MissingDescription);
        }
        if char_len(&tool.command) == 0 {
            return Err(PluginError::MissingCommand);
        }
        let n = chars_of(tool.name.as_str());
        match self.find(&n) {
            Some(i) => {
                proof {
                    let k = tool_index(old(self).tools@, tool.name@).unwrap();
                    assert(old(self).tools@[i as int].name@ == tool.name@);
                    if k != i as int {
                        assert(old(self).tools@[k].name@ == tool.name@);
                    }
                }
                self.tools.set(i, tool);
                assert forall|a: int, b: int|
                    0 <= a < b < self.tools@.len() implies #[trigger] self.tools@[a].name@
                    != #[trigger] self.tools@[b].name@ by {
                    if a != i as int && b != i as int {
                        assert(old(self).tools@[a].name@ != old(self).tools@[b].name@);
                    } else if a == i as int {
                        assert(old(self).tools@[i as int].name@ != old(self).tools@[b].name@);
                    } else {
                        assert(old(self).tools@[a].name@ != old(self).tools@[i as int].name@);
                    }
                }
            },
            None => {
                self.tools.push(tool);
            },
        }
        Ok(())
    }

    /// Removes every tool.
    pub fn clear(&mut self)
        ensures
            final(self).wf(),
            final(self).tools@.len() == 0,
    {
        self.tools = Vec::new();
    }

    /// All loaded tools.
    pub fn get_tools(&self) -> (r: &Vec<YamlTool>)
        ensures
            r@ == self.tools@,
    {
        &self.tools
    }

    /// The tool called `name`, if one is loaded.
    pub fn get_tool(&self, name: &str) -> (r: Option<&YamlTool>)
        requires
            self.wf(),
        ensures
            match tool_index(self.tools@, name@) {
                Some(i) => r == Some(&self.tools@[i]),
                None => r.is_none(),
            },
    {
        let n = chars_of(name);
        match self.find(&n) {
            Some(i) => {
                proof {
                    let k = tool_index(self.tools@, name@).unwrap();
                    assert(self.tools@[i as int].name@ == name@);
                    if k != i as int {
                        assert(self.tools@[k].name@ == name@);
                    }
                }
                Some(&self.tools[i])
            },
            None => None,
        }
    }

    /// Whether a tool called `name` is loaded.
    pub fn contains_tool(&self, name: &str) -> (r: bool)
        requires
            self.wf(),
        ensures
            r == tool_index(self.tools@, name@).is_some(),
    {
        let n = chars_of(name);
        let f = self.find(&n);
        proof {
            if f.is_some() {
                assert(self.tools@[f.unwrap() as int].name@ == name@);
            }
        }
        f.is_some()
    }

    /// Name, description and icon of each loaded tool, in registry order.
    pub fn get_tool_descriptions(&self) -> (r: Vec<(String, String, Option<String>)>)
        ensures
            r@.len() == self.tools@.len(),
            forall|i: int|
                0 <= i < r@.len() ==> {
                    &&& (#[trigger] r@[i]).0@ == self.tools@[i].name@
                    &&& r@[i].1@ == self.tools@[i].description@
                    &&& opt_text(r@[i].2) == opt_text(self.tools@[i].icon)
                },
    {
        let mut r: Vec<(String, String, Option<String>)> = Vec::new();
        let mut i: usize = 0;
        while i < self.tools.len()
            invariant
                i <= self.tools@.len(),
                r@.len() == i,
                forall|j: int|
                    0 <= j < i ==> {
                        &&& (#[trigger] r@[j]).0@ == self.tools@[j].name@
                        &&& r@[j].1@ == self.tools@[j].description@
                        &&& opt_text(r@[j].2) == opt_text(self.tools@[j].icon)
                    },
            decreases self.tools@.len() - i,
        {
            let t = &self.tools[i];
            let icon = match &t.icon {
                Some(s) => Some(s.clone()),
                None => None,
            };
            r.push((t.name.clone(), t.description.clone(), icon));
            i = i + 1;
        }
        r
    }
}

fn char_len(s: &String) -> (r: usize)
    ensures
        r == s@.len(),
{
    s.as_str().unicode_len()
}

/// `s` quoted for a POSIX shell: wrapped in single quotes, each `'` written `'"'"'`.
pub open spec fn shell_quoted(s: Seq<char>) -> Seq<char> {
    seq!['\''] + escape_quotes(s) + seq!['\'']
}

pub open spec fn escape_quotes(s: Seq<char>) -> Seq<char>
    decreases s.len(),
{
    if s.len() == 0 {
        seq![]
    } else {
        escape_quotes(s.drop_last()) + if s.last() == '\'' {
            seq!['\'', '"', '\'', '"', '\'']
        } else {
            seq![s.last()]
        }
    }
}

/// Quotes a value for substitution into a shell command.
pub fn shell_escape(s: &str) -> (r: String)
    ensures
        r@ == shell_quoted(s@),
{
    let v = chars_of(s);
    let mut out: Vec<char> = Vec::new();
    out.push('\'');
    let mut i: usize = 0;
    while i < v.len()
        invariant
            i <= v@.len(),
            out@ == seq!['\''] + escape_quotes(v@.take(i as int)),
        decreases v@.len() - i,
    {
        let c = v[i];
        if c == '\'' {
            out.push('\'');
            out.push('"');
            out.push('\'');
            out.push('"');
            out.push('\'');
        } else {
            out.push(c);
        }
        i = i + 1;
        assert(v@.take(i as int).drop_last() =~= v@.take(i - 1));
        assert(out@ =~= seq!['\''] + escape_quotes(v@.take(i as int)));
    }
    out.push('\'');
    assert(v@.take(i as int) =~= v@);
    string_of(out.as_slice())
}

} // verus!
