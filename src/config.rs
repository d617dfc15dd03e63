//! Configuration: roles, pre-approved commands, rate limits and user settings.
use vstd::prelude::*;
use crate::text::{chars_of, equal_chars};

verus! {

/// A named model and persona the conversation can switch to.
#[derive(Debug, Clone)]
pub struct ModelRole {
    pub model: String,
    pub prompt: Option<String>,
}

/// User-toggleable settings.
#[derive(Debug, Clone, Copy)]
pub struct Settings {
    pub rate_limiter_enabled: bool,
}

impl Default for Settings {
    fn default() -> (r: Settings)
        ensures
            r.rate_limiter_enabled,
    {
        Settings { rate_limiter_enabled: true }
    }
}

/// Display data of one setting.
#[derive(Debug, Clone, Copy)]
pub struct SettingInfo {
    pub key: &'static str,
    pub name: &'static str,
    pub description: &'static str,
}

/// Every available setting, in display order.
pub fn get_settings_info() -> (r: Vec<SettingInfo>)
    ensures
        r@.len() == 1,
        r@[0].key@ == "rate_limiter_enabled"@,
        r@[0].name@ == "Rate Limiter"@,
        r@[0].description@ == "Pauses execution when approaching the API context/min rate limit until it clears"@,
{
    let mut v: Vec<SettingInfo> = Vec::new();
    v.push(
        SettingInfo {
            key: "rate_limiter_enabled",
            name: "Rate Limiter",
            description: "Pauses execution when approaching the API context/min rate limit until it clears",
        },
    );
    v
}

/// Limits of one model: context size, tokens per minute, requests per minute.
#[derive(Debug, Clone, Copy, PartialEq, Eq, Structural)]
pub struct RateLimitConfig {
    pub max_context: usize,
    pub tpm: usize,
    pub rpm: usize,
}

impl RateLimitConfig {
    pub fn new(max_context: usize, tpm: usize, rpm: usize) -> (r: RateLimitConfig)
        ensures
            r == (RateLimitConfig { max_context, tpm, rpm }),
    {
        RateLimitConfig { max_context, tpm, rpm }
    }
}

fn limit_entry(model: &str, max_context: usize, tpm: usize, rpm: usize) -> (r: (String, RateLimitConfig))
    ensures
        r.0@ == model@,
        r.1 == (RateLimitConfig { max_context, tpm, rpm }),
{
    (String::from_str(model), RateLimitConfig::new(max_context, tpm, rpm))
}

/// Limits of the known models, by model name.
pub open spec fn default_limits() -> Seq<(Seq<char>, RateLimitConfig)> {
    seq![
        ("grok-code-fast-1"@, RateLimitConfig { max_context: 256_000, tpm: 2_000_000, rpm: 480 }),
        ("grok-3"@, RateLimitConfig { max_context: 131_072, tpm: 1_000_000, rpm: 300 }),
        ("grok-3-mini"@, RateLimitConfig { max_context: 131_072, tpm: 1_500_000, rpm: 400 }),
        ("grok-4-1-fast-reasoning"@, RateLimitConfig { max_context: 2_000_000, tpm: 3_000_000, rpm: 300 }),
        ("grok-4-1-fast-non-reasoning"@, RateLimitConfig { max_context: 2_000_000, tpm: 3_000_000, rpm: 300 }),
        ("grok-4-fast-reasoning"@, RateLimitConfig { max_context: 2_000_000, tpm: 3_000_000, rpm: 300 }),
        ("grok-4-fast-non-reasoning"@, RateLimitConfig { max_context: 2_000_000, tpm: 3_000_000, rpm: 300 }),
        ("grok-4-0709"@, RateLimitConfig { max_context: 256_000, tpm: 2_000_000, rpm: 480 }),
        ("grok-2-vision-1212"@, RateLimitConfig { max_context: 32_768, tpm: 500_000, rpm: 200 }),
    ]
}

pub open spec fn limits_view(v: Seq<(String, RateLimitConfig)>) -> Seq<(Seq<char>, RateLimitConfig)> {
    v.map_values(|e: (String, RateLimitConfig)| (e.0@, e.1))
}

/// Limits of the known models.
pub fn default_rate_limits() -> (r: Vec<(String, RateLimitConfig)>)
    ensures
        limits_view(r@) == default_limits(),
{
    let mut v: Vec<(String, RateLimitConfig)> = Vec::new();
    v.push(limit_entry("grok-code-fast-1", 256_000, 2_000_000, 480));
    v.push(limit_entry("grok-3", 131_072, 1_000_000, 300));
    v.push(limit_entry("grok-3-mini", 131_072, 1_500_000, 400));
    v.push(limit_entry("grok-4-1-fast-reasoning", 2_000_000, 3_000_000, 300));
    v.push(limit_entry("grok-4-1-fast-non-reasoning", 2_000_000, 3_000_000, 300));
    v.push(limit_entry("grok-4-fast-reasoning", 2_000_000, 3_000_000, 300));
    v.push(limit_entry("grok-4-fast-non-reasoning", 2_000_000, 3_000_000, 300));
    v.push(limit_entry("grok-4-0709", 256_000, 2_000_000, 480));
    v.push(limit_entry("grok-2-vision-1212", 32_768, 500_000, 200));
    assert(limits_view(v@) =~= default_limits());
    v
}

/// In the default limits, `grok-3` is found, with its own entry.
pub proof fn lemma_default_limit_of_grok3(v: Seq<(String, RateLimitConfig)>)
    requires
        limits_view(v) == default_limits(),
    ensures
        key_index(v, "grok-3"@) == Some(1int),
        v[1].1 == (RateLimitConfig { max_context: 131_072, tpm: 1_000_000, rpm: 300 }),
{
    reveal_strlit("grok-code-fast-1");
    reveal_strlit("grok-3");
    assert(default_limits().len() == 9);
    assert(v.len() == limits_view(v).len());
    assert(limits_view(v)[0].0 == v[0].0@);
    assert(limits_view(v)[1] == (v[1].0@, v[1].1));
    assert(v[0].0@ != "grok-3"@);
    assert(v.take(2).drop_last() =~= v.take(1));
    assert(v.take(1).drop_last() =~= v.take(0));
    assert(v[1].0@ == "grok-3"@);
    assert(key_index(v.take(0), "grok-3"@) is None);
    assert(v.take(1).last() == v[0]);
    assert(key_index(v.take(1), "grok-3"@) is None);
    assert(v.take(2).last() == v[1]);
    assert(key_index(v.take(2), "grok-3"@) == Some(1int));
    lemma_key_index_prefix(v, 2);
}

/// A key found in a prefix is found at the same place in the whole list.
pub proof fn lemma_key_index_prefix<V>(v: Seq<(String, V)>, n: int)
    requires
        0 <= n <= v.len(),
    ensures
        key_index(v.take(n), "grok-3"@) is Some ==> key_index(v, "grok-3"@) == key_index(v.take(n), "grok-3"@),
    decreases v.len() - n,
{
    if n < v.len() {
        lemma_key_index_prefix(v, n + 1);
        assert(v.take(n + 1).drop_last() =~= v.take(n));
    } else {
        assert(v.take(n) =~= v);
    }
}

/// Cursor over the settings list of the settings screen.
#[derive(Debug, Clone)]
pub struct SettingsModalState {
    pub selected_index: usize,
    pub settings_list: Vec<SettingInfo>,
}

impl SettingsModalState {
    pub fn new() -> (r: SettingsModalState)
        ensures
            r.selected_index == 0,
            r.settings_list@.len() == 1,
            r.settings_list@[0].key@ == "rate_limiter_enabled"@,
    {
        SettingsModalState { selected_index: 0, settings_list: get_settings_info() }
    }

    /// Moves the cursor up one entry, stopping at the first.
    pub fn move_up(&mut self)
        ensures
            final(self).settings_list@ == old(self).settings_list@,
            final(self).selected_index == if old(self).selected_index > 0 {
                (old(self).selected_index - 1) as usize
            } else {
                0
            },
    {
        if self.selected_index > 0 {
            self.selected_index = self.selected_index - 1;
        }
    }

    /// Moves the cursor down one entry, stopping at the last.
    pub fn move_down(&mut self)
        ensures
            final(self).settings_list@ == old(self).settings_list@,
            final(self).selected_index == if old(self).selected_index + 1 < old(
                self,
            ).settings_list@.len() {
                (old(self).selected_index + 1) as usize
            } else {
                old(self).selected_index
            },
    {
        let last = if self.settings_list.len() > 0 {
            self.settings_list.len() - 1
        } else {
            0
        };
        if self.selected_index < last {
            self.selected_index = self.selected_index + 1;
        }
    }

    /// Key of the setting under the cursor.
    pub fn current_setting_key(&self) -> (r: Option<&'static str>)
        ensures
            self.selected_index < self.settings_list@.len() ==> r == Some(
                self.settings_list@[self.selected_index as int].key,
            ),
            self.selected_index >= self.settings_list@.len() ==> r.is_none(),
    {
        if self.selected_index < self.settings_list.len() {
            Some(self.settings_list[self.selected_index].key)
        } else {
            None
        }
    }
}

/// The whole configuration. The keyed lists are looked up by the first entry
/// with a given key.
#[derive(Debug, Clone)]
pub struct Config {
    pub model: String,
    pub sandbox_enabled: bool,
    /// Pre-approved shell commands per working directory.
    pub allowed_commands: Vec<(String, Vec<String>)>,
    /// Roles by name.
    pub roles: Vec<(String, ModelRole)>,
    pub settings: Settings,
    /// Rate limits by model name.
    pub rate_limits: Vec<(String, RateLimitConfig)>,
}

/// Position of the first entry of `v` whose key is `k`.
pub open spec fn key_index<V>(v: Seq<(String, V)>, k: Seq<char>) -> Option<int>
    decreases v.len(),
{
    if v.len() == 0 {
        None
    } else {
        match key_index(v.drop_last(), k) {
            Some(i) => Some(i),
            None => if v.last().0@ == k {
                Some(v.len() - 1)
            } else {
                None
            },
        }
    }
}

pub proof fn lemma_key_index<V>(v: Seq<(String, V)>, k: Seq<char>)
    ensures
        match key_index(v, k) {
            Some(i) => 0 <= i < v.len() && v[i].0@ == k && forall|j: int|
                0 <= j < i ==> #[trigger] v[j].0@ != k,
            None => forall|j: int| 0 <= j < v.len() ==> #[trigger] v[j].0@ != k,
        },
    decreases v.len(),
{
    if v.len() > 0 {
        lemma_key_index(v.drop_last(), k);
        assert forall|j: int| 0 <= j < v.len() - 1 implies v.drop_last()[j] == v[j] by {}
    }
}

/// Any two sequences with the same keys in the same places agree on lookups.
pub proof fn lemma_key_index_same_keys<V>(v: Seq<(String, V)>, w: Seq<(String, V)>, k: Seq<char>)
    requires
        v.len() == w.len(),
        forall|j: int| 0 <= j < v.len() ==> #[trigger] v[j].0@ == w[j].0@,
    ensures
        key_index(v, k) == key_index(w, k),
{
    lemma_key_index(v, k);
    lemma_key_index(w, k);
    if let Some(i) = key_index(v, k) {
        if let Some(i2) = key_index(w, k) {
            if i2 < i {
                assert(v[i2].0@ == w[i2].0@);
            } else if i < i2 {
                assert(v[i].0@ == w[i].0@);
            }
        } else {
            assert(v[i].0@ == w[i].0@);
        }
    } else if let Some(i2) = key_index(w, k) {
        assert(v[i2].0@ == w[i2].0@);
    }
}

pub open spec fn has_text(v: Seq<String>, t: Seq<char>) -> bool {
    exists|i: int| 0 <= i < v.len() && #[trigger] v[i]@ == t
}

pub(crate) fn find_key<V>(v: &Vec<(String, V)>, k: &str) -> (r: Option<usize>)
    ensures
        match key_index(v@, k@) {
            Some(i) => r is Some && r.unwrap() as int == i && 0 <= i < v@.len() && v@[i].0@ == k@,
            None => r.is_none(),
        },
{
    proof {
        lemma_key_index(v@, k@);
    }
    let kc = chars_of(k);
    let mut i: usize = 0;
    while i < v.len()
        invariant
            i <= v@.len(),
            kc@ == k@,
            forall|j: int| 0 <= j < i ==> #[trigger] v@[j].0@ != k@,
            match key_index(v@, k@) {
                Some(m) => 0 <= m < v@.len() && v@[m].0@ == k@ && forall|j: int|
                    0 <= j < m ==> #[trigger] v@[j].0@ != k@,
                None => forall|j: int| 0 <= j < v@.len() ==> #[trigger] v@[j].0@ != k@,
            },
        decreases v@.len() - i,
    {
        let c = chars_of(v[i].0.as_str());
        if equal_chars(&c, &kc) {
            return Some(i);
        }
        i = i + 1;
    }
    None
}

fn contains_text(v: &Vec<String>, t: &str) -> (r: bool)
    ensures
        r == has_text(v@, t@),
{
    let tc = chars_of(t);
    let mut i: usize = 0;
    while i < v.len()
        invariant
            i <= v@.len(),
            tc@ == t@,
            forall|j: int| 0 <= j < i ==> #[trigger] v@[j]@ != t@,
        decreases v@.len() - i,
    {
        let c = chars_of(v[i].as_str());
        if equal_chars(&c, &tc) {
            return true;
        }
        i = i + 1;
    }
    false
}

fn role_entry(name: &str, model: &str, prompt: &str) -> (r: (String, ModelRole))
    ensures
        r.0@ == name@,
        r.1.model@ == model@,
{
    (
        String::from_str(name),
        ModelRole { model: String::from_str(model), prompt: Some(String::from_str(prompt)) },
    )
}

impl Default for Config {
    /// The base model `grok-3`, no sandbox, nothing pre-approved, the planner,
    /// coder and auditor roles, and the known models' rate limits.
    fn default() -> (r: Config)
        ensures
            r.model@ == "grok-3"@,
            !r.sandbox_enabled,
            r.allowed_commands@.len() == 0,
            r.roles@.len() == 3,
            r.roles@[0].0@ == "planner"@,
            r.roles@[0].1.model@ == "grok-4.1-fast-reasoning"@,
            r.roles@[1].0@ == "coder"@,
            r.roles@[1].1.model@ == "grok-code-fast-1"@,
            r.roles@[2].0@ == "auditor"@,
            r.roles@[2].1.model@ == "grok-3-mini"@,
            r.settings.rate_limiter_enabled,
            limits_view(r.rate_limits@) == default_limits(),
    {
        let mut roles: Vec<(String, ModelRole)> = Vec::new();
        roles.push(
            role_entry(
                "planner",
                "grok-4.1-fast-reasoning",
                "You are a planning assistant. Analyze requests carefully, break them into steps, and create detailed implementation plans. Focus on the 'what' and 'why', not the 'how'. When your plan is complete, hand off to @coder for implementation.",
            ),
        );
        roles.push(
            role_entry(
                "coder",
                "grok-code-fast-1",
                "You are a code execution assistant. Implement the plan given to you efficiently. Use tools to read, edit, and test code. Be concise and focus on execution.",
            ),
        );
        roles.push(
            role_entry(
                "auditor",
                "grok-3-mini",
                "You are a code auditor. Check the implementation for bugs, edge cases, and improvements. Be concise.",
            ),
        );
        Config {
            model: String::from_str("grok-3"),
            sandbox_enabled: false,
            allowed_commands: Vec::new(),
            roles,
            settings: Settings::default(),
            rate_limits: default_rate_limits(),
        }
    }
}

impl Config {
    /// The pre-approved commands for `cwd`.
    pub open spec fn allowed_in(&self, cwd: Seq<char>) -> Seq<String> {
        match key_index(self.allowed_commands@, cwd) {
            Some(i) => self.allowed_commands@[i].1@,
            None => seq![],
        }
    }

    /// Whether `command` is pre-approved in directory `cwd`.
    pub fn is_command_allowed(&self, command: &str, cwd: &str) -> (r: bool)
        ensures
            r == has_text(self.allowed_in(cwd@), command@),
    {
        match find_key(&self.allowed_commands, cwd) {
            Some(i) => contains_text(&self.allowed_commands[i].1, command),
            None => false,
        }
    }

    /// Pre-approves `command` in directory `cwd`.
    pub fn allow_command(&mut self, command: String, cwd: String)
        ensures
            final(self).model == old(self).model,
            final(self).sandbox_enabled == old(self).sandbox_enabled,
            final(self).settings == old(self).settings,
            final(self).roles@ == old(self).roles@,
            final(self).rate_limits@ == old(self).rate_limits@,
            final(self).allowed_in(cwd@) == old(self).allowed_in(cwd@).push(command),
            forall|d: Seq<char>|
                d != cwd@ ==> #[trigger] final(self).allowed_in(d) == old(self).allowed_in(d),
    {
        let ghost before = self.allowed_commands@;
        match find_key(&self.allowed_commands, cwd.as_str()) {
            Some(i) => {
                let mut entry = self.allowed_commands.remove(i);
                entry.1.push(command);
                self.allowed_commands.insert(i, entry);
                assert(self.allowed_commands@ =~= before.update(i as int, entry));
                assert forall|d: Seq<char>| true implies key_index(self.allowed_commands@, d)
                    == #[trigger] key_index(before, d) by {
                    lemma_key_index_same_keys(self.allowed_commands@, before, d);
                }
                assert(self.allowed_in(cwd@) =~= old(self).allowed_in(cwd@).push(command));
                assert forall|d: Seq<char>| d != cwd@ implies #[trigger] self.allowed_in(d)
                    == old(self).allowed_in(d) by {
                    lemma_key_index(before, d);
                    if let Some(j) = key_index(before, d) {
                        assert(j != i as int);
                    }
                }
            },
            None => {
                let mut cmds: Vec<String> = Vec::new();
                cmds.push(command);
                self.allowed_commands.push((cwd, cmds));
                assert(self.allowed_commands@.drop_last() =~= before);
                assert(self.allowed_in(cwd@) =~= old(self).allowed_in(cwd@).push(command));
                assert forall|d: Seq<char>| d != cwd@ implies #[trigger] self.allowed_in(d)
                    == old(self).allowed_in(d) by {
                    lemma_key_index(before, d);
                    if let Some(j) = key_index(before, d) {
                        assert(self.allowed_commands@[j] == before[j]);
                    }
                }
            },
        }
    }

    /// The role called `name`, if configured.
    pub fn get_role(&self, name: &str) -> (r: Option<&ModelRole>)
        ensures
            match key_index(self.roles@, name@) {
                Some(i) => r.is_some() && *r.unwrap() == self.roles@[i].1,
                None => r.is_none(),
            },
    {
        match find_key(&self.roles, name) {
            Some(i) => Some(&self.roles[i].1),
            None => None,
        }
    }

    /// The rate limits of `model`, if configured.
    pub fn get_rate_limit(&self, model: &str) -> (r: Option<&RateLimitConfig>)
        ensures
            match key_index(self.rate_limits@, model@) {
                Some(i) => r.is_some() && *r.unwrap() == self.rate_limits@[i].1,
                None => r.is_none(),
            },
    {
        match find_key(&self.rate_limits, model) {
            Some(i) => Some(&self.rate_limits[i].1),
            None => None,
        }
    }
}

} // verus!
