//! The tool registry of a chat: which tools exist, which of them each session has
//! disabled, and which tool a call by name reaches.
use vstd::prelude::*;
use std::collections::HashMap;
use crate::text::{views_of, strings_contain, string_of, concat_strs};
use crate::arguments::copy_strings;

verus! {

broadcast use vstd::std_specs::hash::group_hash_axioms;

/// Why a session's tool configuration cannot be used.
#[derive(Debug)]
pub enum ToolConfigError {
    /// No configuration was registered for the session.
    SessionConfigNotFound(i64),
    /// The session disables a tool that the registry does not have.
    DisabledToolNotFound(String),
}

/// What a call of a tool by name comes to.
#[derive(Debug)]
pub enum ToolCallPlan {
    /// The session has no configuration.
    SessionConfigMissing,
    /// Run the tool at this index of the registry.
    Run(usize),
    /// No enabled tool has the name.
    ToolNotFound,
    /// The session's configuration is invalid.
    InvalidConfig(ToolConfigError),
}

/// The tools of a chat, by name, and for each session the names of the tools it
/// has disabled.
#[derive(Debug)]
pub struct ChatTools {
    config: HashMap<i64, Vec<String>>,
    tools: Vec<String>,
}

/// The first disabled tool, from index `i` on, that is not among `tools`.
pub open spec fn first_unknown_disabled(disabled: Seq<Seq<char>>, tools: Seq<Seq<char>>, i: int) -> Option<int>
    decreases disabled.len() - i,
{
    if i < 0 || i >= disabled.len() {
        None
    } else if !tools.contains(disabled[i]) {
        Some(i)
    } else {
        first_unknown_disabled(disabled, tools, i + 1)
    }
}

/// The first tool, from index `i` on, named `name` and not disabled.
pub open spec fn first_enabled_named(
    tools: Seq<Seq<char>>,
    disabled: Seq<Seq<char>>,
    name: Seq<char>,
    i: int,
) -> Option<int>
    decreases tools.len() - i,
{
    if i < 0 || i >= tools.len() {
        None
    } else if tools[i] == name && !disabled.contains(tools[i]) {
        Some(i)
    } else {
        first_enabled_named(tools, disabled, name, i + 1)
    }
}

/// The indices, below `n`, of the tools that are not disabled, in order.
pub open spec fn enabled_indices(tools: Seq<Seq<char>>, disabled: Seq<Seq<char>>, n: int) -> Seq<usize>
    decreases n,
{
    if n <= 0 {
        Seq::empty()
    } else if !disabled.contains(tools[n - 1]) {
        enabled_indices(tools, disabled, n - 1).push((n - 1) as usize)
    } else {
        enabled_indices(tools, disabled, n - 1)
    }
}

/// The message of a disabled tool that the registry does not have.
pub open spec fn disabled_tool_message(tool: Seq<char>) -> Seq<char> {
    "disabled tool not found: "@ + tool
}

/// The message of a call of a tool that no enabled tool answers.
pub open spec fn tool_not_found_message(name: Seq<char>) -> Seq<char> {
    "Tool Call Error: Tool not found: "@ + name
}

impl ChatTools {
    /// The names of the tools.
    pub closed spec fn tool_names(self) -> Seq<Seq<char>> {
        views_of(self.tools@)
    }

    /// Whether `session_id` has a configuration.
    pub closed spec fn has_config(self, session_id: i64) -> bool {
        self.config@.contains_key(session_id)
    }

    /// The names of the tools that `session_id` disables.
    pub closed spec fn disabled_of(self, session_id: i64) -> Seq<Seq<char>> {
        views_of(self.config@[session_id]@)
    }

    /// A registry of the tools named `tools` with one session configuration.
    pub fn new(session_id: i64, disabled_tools: Vec<String>, tools: Vec<String>) -> (r: ChatTools)
        ensures
            r.tool_names() == views_of(tools@),
            r.has_config(session_id),
            r.disabled_of(session_id) == views_of(disabled_tools@),
            forall|id: i64| #[trigger] r.has_config(id) ==> id == session_id,
    {
        let mut config: HashMap<i64, Vec<String>> = HashMap::new();
        config.insert(session_id, disabled_tools);
        ChatTools { config, tools }
    }

    /// Registers or replaces the configuration of `session_id`.
    pub fn upsert_configs(&mut self, session_id: i64, disabled_tools: Vec<String>)
        ensures
            final(self).tool_names() == old(self).tool_names(),
            final(self).has_config(session_id),
            final(self).disabled_of(session_id) == views_of(disabled_tools@),
            forall|id: i64|
                id != session_id ==> (#[trigger] final(self).has_config(id) == old(self).has_config(id)
                    && (old(self).has_config(id) ==> final(self).disabled_of(id) == old(
                    self,
                ).disabled_of(id))),
    {
        self.config.insert(session_id, disabled_tools);
    }

    /// The disabled tools of `session_id`, once checked: the session must have a
    /// configuration, and every tool it disables must exist.
    pub fn validate_session_tool_config(&self, session_id: i64) -> (r: Result<&Vec<String>, ToolConfigError>)
        ensures
            !self.has_config(session_id) ==> (r matches Err(ToolConfigError::SessionConfigNotFound(id))
                && id == session_id),
            self.has_config(session_id) ==> match first_unknown_disabled(
                self.disabled_of(session_id),
                self.tool_names(),
                0,
            ) {
                Some(k) => r matches Err(ToolConfigError::DisabledToolNotFound(t)) && t@ == self.disabled_of(
                    session_id,
                )[k],
                None => r matches Ok(d) && views_of(d@) == self.disabled_of(session_id),
            },
    {
        let disabled = match self.config.get(&session_id) {
            Some(d) => d,
            None => {
                return Err(ToolConfigError::SessionConfigNotFound(session_id));
            },
        };
        let ghost dis = views_of(disabled@);
        let ghost names = views_of(self.tools@);
        let mut i: usize = 0;
        while i < disabled.len()
            invariant
                i <= disabled.len(),
                self.config@.contains_key(session_id),
                self.config@[session_id] == *disabled,
                dis == views_of(disabled@),
                names == views_of(self.tools@),
                first_unknown_disabled(dis, names, i as int) == first_unknown_disabled(dis, names, 0),
            decreases disabled.len() - i,
        {
            assert(dis[i as int] == disabled@[i as int]@);
            if !strings_contain(&self.tools, &disabled[i]) {
                return Err(ToolConfigError::DisabledToolNotFound(disabled[i].clone()));
            }
            i = i + 1;
        }
        Ok(disabled)
    }

    /// The indices of the tools that `session_id` has not disabled, or `None` when
    /// there are none.
    pub fn get_enabled_tools(&self, session_id: i64) -> (r: Result<Option<Vec<usize>>, ToolConfigError>)
        ensures
            !self.has_config(session_id) ==> (r matches Err(ToolConfigError::SessionConfigNotFound(id))
                && id == session_id),
            self.has_config(session_id) ==> match first_unknown_disabled(
                self.disabled_of(session_id),
                self.tool_names(),
                0,
            ) {
                Some(k) => r matches Err(ToolConfigError::DisabledToolNotFound(t)) && t@ == self.disabled_of(
                    session_id,
                )[k],
                None => {
                    let enabled = enabled_indices(
                        self.tool_names(),
                        self.disabled_of(session_id),
                        self.tool_names().len() as int,
                    );
                    if enabled.len() == 0 {
                        r matches Ok(None)
                    } else {
                        r matches Ok(Some(v)) && v@ == enabled
                    }
                },
            },
    {
        let disabled = self.validate_session_tool_config(session_id)?;
        let ghost dis = views_of(disabled@);
        let ghost names = views_of(self.tools@);
        let mut enabled: Vec<usize> = Vec::new();
        let mut i: usize = 0;
        while i < self.tools.len()
            invariant
                i <= self.tools.len(),
                dis == views_of(disabled@),
                names == views_of(self.tools@),
                names.len() == self.tools.len(),
                enabled@ == enabled_indices(names, dis, i as int),
            decreases self.tools.len() - i,
        {
            assert(names[i as int] == self.tools@[i as int]@);
            if !strings_contain(disabled, &self.tools[i]) {
                enabled.push(i);
            }
            i = i + 1;
        }
        if enabled.len() == 0 {
            Ok(None)
        } else {
            Ok(Some(enabled))
        }
    }

    /// The index of the first tool named `tool_name` that `session_id` has not
    /// disabled.
    pub fn get_tool_by_name(&self, tool_name: &String, session_id: i64) -> (r: Result<Option<usize>, ToolConfigError>)
        ensures
            r matches Ok(Some(i)) ==> i < self.tool_names().len(),
            !self.has_config(session_id) ==> (r matches Err(ToolConfigError::SessionConfigNotFound(id))
                && id == session_id),
            self.has_config(session_id) ==> match first_unknown_disabled(
                self.disabled_of(session_id),
                self.tool_names(),
                0,
            ) {
                Some(k) => r matches Err(ToolConfigError::DisabledToolNotFound(t)) && t@ == self.disabled_of(
                    session_id,
                )[k],
                None => r matches Ok(found) && found == (match first_enabled_named(
                    self.tool_names(),
                    self.disabled_of(session_id),
                    tool_name@,
                    0,
                ) {
                    Some(i) => Some(i as usize),
                    None => None::<usize>,
                }),
            },
    {
        let disabled = self.validate_session_tool_config(session_id)?;
        let ghost dis = views_of(disabled@);
        let ghost names = views_of(self.tools@);
        let mut i: usize = 0;
        while i < self.tools.len()
            invariant
                i <= self.tools.len(),
                self.has_config(session_id),
                dis == self.disabled_of(session_id),
                first_unknown_disabled(dis, names, 0) is None,
                dis == views_of(disabled@),
                names == views_of(self.tools@),
                names == self.tool_names(),
                names.len() == self.tools.len(),
                first_enabled_named(names, dis, tool_name@, i as int) == first_enabled_named(
                    names,
                    dis,
                    tool_name@,
                    0,
                ),
            decreases self.tools.len() - i,
        {
            assert(names[i as int] == self.tools@[i as int]@);
            if self.tools[i] == *tool_name && !strings_contain(disabled, &self.tools[i]) {
                return Ok(Some(i));
            }
            i = i + 1;
        }
        Ok(None)
    }

    /// What a call of the tool `tool_name` in `session_id` comes to: the session
    /// must have a configuration, then the tool is looked up by name.
    pub fn plan_tool_call(&self, tool_name: &String, session_id: i64) -> (r: ToolCallPlan)
        ensures
            r matches ToolCallPlan::Run(i) ==> i < self.tool_names().len(),
            !self.has_config(session_id) ==> r is SessionConfigMissing,
            self.has_config(session_id) ==> match first_unknown_disabled(
                self.disabled_of(session_id),
                self.tool_names(),
                0,
            ) {
                Some(k) => r matches ToolCallPlan::InvalidConfig(
                    ToolConfigError::DisabledToolNotFound(t),
                ) && t@ == self.disabled_of(session_id)[k],
                None => match first_enabled_named(
                    self.tool_names(),
                    self.disabled_of(session_id),
                    tool_name@,
                    0,
                ) {
                    Some(i) => r == ToolCallPlan::Run(i as usize),
                    None => r is ToolNotFound,
                },
            },
    {
        if !self.config.contains_key(&session_id) {
            return ToolCallPlan::SessionConfigMissing;
        }
        match self.get_tool_by_name(tool_name, session_id) {
            Ok(Some(i)) => ToolCallPlan::Run(i),
            Ok(None) => ToolCallPlan::ToolNotFound,
            Err(e) => ToolCallPlan::InvalidConfig(e),
        }
    }
}

impl ToolConfigError {
    /// The message of a disabled tool that does not exist; the other error's
    /// message shows the whole configuration, which only the caller can render.
    pub fn disabled_tool_message(&self) -> (r: Option<String>)
        ensures
            match self {
                ToolConfigError::DisabledToolNotFound(t) => r matches Some(m) && m@
                    == disabled_tool_message(t@),
                ToolConfigError::SessionConfigNotFound(_) => r is None,
            },
    {
        match self {
            ToolConfigError::DisabledToolNotFound(t) => Some(
                concat_strs("disabled tool not found: ", t.as_str()),
            ),
            ToolConfigError::SessionConfigNotFound(_) => None,
        }
    }
}

/// The message of a call of a tool that no enabled tool answers.
pub fn tool_not_found_error(tool_name: &str) -> (r: String)
    ensures
        r@ == tool_not_found_message(tool_name@),
{
    concat_strs("Tool Call Error: Tool not found: ", tool_name)
}

/// The content of the message that closes a tool call: its output, or a fixed
/// note when it had none.
pub fn tool_completion_content(output: Option<String>) -> (r: String)
    ensures
        match output {
            Some(o) => r == o,
            None => r@ == "tool call complete"@,
        },
{
    match output {
        Some(o) => o,
        None => string_of("tool call complete"),
    }
}

/// The error of a tool call that reported failure, with its output.
pub fn failed_tool_output_error(tool_output: &str) -> (r: String)
    ensures
        r@ == "Tool Call Error- output: "@ + tool_output@,
{
    concat_strs("Tool Call Error- output: ", tool_output)
}

/// A message that a call of a tool sends back to the chat.
#[derive(Debug, PartialEq, Eq)]
pub enum ToolMessage {
    /// The error shown to the user.
    ChatToolError(String),
    /// The error that closes the call `tool_call_id` of `session_id`.
    ToolCallError { session_id: i64, tool_call_id: String, text: String },
    /// The output that closes the call `tool_call_id` of `session_id`.
    ToolCallComplete { session_id: i64, tool_call_id: String, output: String },
}

/// What a call of a tool by name comes to: run the tool with the call's
/// arguments, id, session and the session's configuration (its disabled tools),
/// or send messages and run nothing.
#[derive(Debug)]
pub enum ToolCallStep {
    Run { tool: usize, tool_call_id: String, session_id: i64, disabled_tools: Vec<String> },
    Send(Vec<ToolMessage>),
}

/// Whether `msgs` report the error `error`: first to the user, then, when the
/// error belongs to a call, as the error that closes the call `target`.
pub open spec fn reports_error(msgs: Seq<ToolMessage>, error: Seq<char>, target: Option<(i64, Seq<char>)>) -> bool {
    &&& msgs.len() == (if target is Some { 2int } else { 1int })
    &&& msgs[0] matches ToolMessage::ChatToolError(t) && t@ == "Chat Tool Error: "@ + error
    &&& (target matches Some((s, c)) ==> msgs[1] matches ToolMessage::ToolCallError {
        session_id,
        tool_call_id,
        text,
    } && session_id == s && tool_call_id@ == c && text@ == "Tool Call Error: "@ + error)
}

/// Whether `step` runs tool `i` for the call `tool_call_id` of `session_id`, with
/// `disabled` as the session's disabled tools.
pub open spec fn runs_tool(step: ToolCallStep, i: int, tool_call_id: String, session_id: i64, disabled: Seq<Seq<char>>) -> bool {
    step matches ToolCallStep::Run { tool, tool_call_id: c, session_id: s, disabled_tools } && tool == i
        && c == tool_call_id && s == session_id && views_of(disabled_tools@) == disabled
}

/// Whether `msgs` is the one message that closes the call `tool_call_id` of
/// `session_id` with `output`.
pub open spec fn completes(msgs: Seq<ToolMessage>, session_id: i64, tool_call_id: String, output: String) -> bool {
    msgs == seq![ToolMessage::ToolCallComplete { session_id, tool_call_id, output }]
}

/// The error of a call in a session without configuration, as the text reads.
pub open spec fn missing_config_error() -> Seq<char> {
    "session config not found. session_id: {} tool_call_id: {}"@
}

/// The messages that report a tool error `error`: to the user, and, for the call
/// `target` of a session, as the error that closes that call.
pub fn chat_tool_error_messages(error: &str, target: Option<(i64, String)>) -> (r: Vec<ToolMessage>)
    ensures
        reports_error(
            r@,
            error@,
            match target {
                Some((s, c)) => Some((s, c@)),
                None => None,
            },
        ),
{
    let mut out: Vec<ToolMessage> = Vec::new();
    out.push(ToolMessage::ChatToolError(concat_strs("Chat Tool Error: ", error)));
    if let Some((session_id, tool_call_id)) = target {
        out.push(
            ToolMessage::ToolCallError {
                session_id,
                tool_call_id,
                text: concat_strs("Tool Call Error: ", error),
            },
        );
    }
    out
}

impl ChatTools {
    /// The step that a call of the tool `tool_name` (call `tool_call_id` of
    /// `session_id`) comes to: without configuration, with an invalid one, or with
    /// no such enabled tool, the error is reported for the call and nothing runs;
    /// otherwise the first enabled tool of that name runs, with the session's
    /// disabled tools as its configuration.
    pub fn call_tool_step(&self, tool_name: &String, tool_call_id: String, session_id: i64) -> (r: ToolCallStep)
        ensures
            !self.has_config(session_id) ==> (r matches ToolCallStep::Send(m) && reports_error(
                m@,
                missing_config_error(),
                Some((session_id, tool_call_id@)),
            )),
            self.has_config(session_id) ==> match first_unknown_disabled(
                self.disabled_of(session_id),
                self.tool_names(),
                0,
            ) {
                Some(k) => r matches ToolCallStep::Send(m) && reports_error(
                    m@,
                    disabled_tool_message(self.disabled_of(session_id)[k]),
                    Some((session_id, tool_call_id@)),
                ),
                None => match first_enabled_named(
                    self.tool_names(),
                    self.disabled_of(session_id),
                    tool_name@,
                    0,
                ) {
                    Some(i) => runs_tool(r, i, tool_call_id, session_id, self.disabled_of(session_id)),
                    None => r matches ToolCallStep::Send(m) && reports_error(
                        m@,
                        tool_not_found_message(tool_name@),
                        Some((session_id, tool_call_id@)),
                    ),
                },
            },
    {
        proof {
            if self.has_config(session_id) {
                lemma_first_enabled_named(self.tool_names(), self.disabled_of(session_id), tool_name@, 0);
            }
            assert(self.tool_names().len() == self.tools@.len());
        }
        match self.plan_tool_call(tool_name, session_id) {
            ToolCallPlan::SessionConfigMissing => ToolCallStep::Send(
                chat_tool_error_messages(
                    "session config not found. session_id: {} tool_call_id: {}",
                    Some((session_id, tool_call_id)),
                ),
            ),
            ToolCallPlan::Run(i) => {
                let tool_count = self.tools.len();
                assert(i < tool_count);
                let disabled = self.validate_session_tool_config(session_id);
                match disabled {
                    Ok(d) => ToolCallStep::Run {
                        tool: i,
                        tool_call_id,
                        session_id,
                        disabled_tools: copy_strings(d),
                    },
                    // The plan found the configuration valid, so this does not occur.
                    Err(_) => ToolCallStep::Send(Vec::new()),
                }
            },
            ToolCallPlan::ToolNotFound => {
                let e = tool_not_found_error(tool_name.as_str());
                ToolCallStep::Send(chat_tool_error_messages(e.as_str(), Some((session_id, tool_call_id))))
            },
            ToolCallPlan::InvalidConfig(e) => {
                let text = match e.disabled_tool_message() {
                    Some(m) => m,
                    None => String::new(),
                };
                ToolCallStep::Send(chat_tool_error_messages(text.as_str(), Some((session_id, tool_call_id))))
            },
        }
    }
}

/// The messages that the outcome of a tool's run sends: its output closes the
/// call; no output sends nothing (another part completes the call); an error is
/// reported for the call.
pub fn tool_result_messages(result: Result<Option<String>, String>, session_id: i64, tool_call_id: String) -> (r: Vec<ToolMessage>)
    ensures
        match result {
            Ok(Some(out)) => completes(r@, session_id, tool_call_id, out),
            Ok(None) => r@.len() == 0,
            Err(e) => reports_error(r@, e@, Some((session_id, tool_call_id@))),
        },
{
    match result {
        Ok(Some(output)) => {
            let mut out: Vec<ToolMessage> = Vec::new();
            out.push(ToolMessage::ToolCallComplete { session_id, tool_call_id, output });
            out
        },
        Ok(None) => Vec::new(),
        Err(e) => chat_tool_error_messages(e.as_str(), Some((session_id, tool_call_id))),
    }
}

/// The messages that close a tool call from its output: the output itself, or,
/// where an error occurred, the error that carries the output.
pub fn complete_tool_call(tool_output: String, error_occured: bool, tool_call_id: String, session_id: i64) -> (r: Vec<ToolMessage>)
    ensures
        !error_occured ==> completes(r@, session_id, tool_call_id, tool_output),
        error_occured ==> reports_error(
            r@,
            "Tool Call Error- output: "@ + tool_output@,
            Some((session_id, tool_call_id@)),
        ),
{
    if !error_occured {
        let mut out: Vec<ToolMessage> = Vec::new();
        out.push(ToolMessage::ToolCallComplete { session_id, tool_call_id, output: tool_output });
        out
    } else {
        let e = failed_tool_output_error(tool_output.as_str());
        chat_tool_error_messages(e.as_str(), Some((session_id, tool_call_id)))
    }
}

/// A tool that is found is named as asked and is not disabled.
pub proof fn law_found_tool_is_enabled(tools: Seq<Seq<char>>, disabled: Seq<Seq<char>>, name: Seq<char>, i: int)
    requires
        first_enabled_named(tools, disabled, name, 0) == Some(i),
    ensures
        0 <= i < tools.len(),
        tools[i] == name,
        !disabled.contains(name),
{
    lemma_first_enabled_named(tools, disabled, name, 0);
}

/// No tool is found exactly when no tool of that name is enabled.
pub proof fn law_tool_missing_iff_none_enabled(tools: Seq<Seq<char>>, disabled: Seq<Seq<char>>, name: Seq<char>)
    ensures
        first_enabled_named(tools, disabled, name, 0) is None <==> !(exists|i: int|
            0 <= i < tools.len() && #[trigger] tools[i] == name && !disabled.contains(name)),
{
    lemma_first_enabled_named(tools, disabled, name, 0);
}

proof fn lemma_first_enabled_named(tools: Seq<Seq<char>>, disabled: Seq<Seq<char>>, name: Seq<char>, from: int)
    requires
        0 <= from,
    ensures
        match first_enabled_named(tools, disabled, name, from) {
            Some(i) => from <= i < tools.len() && tools[i] == name && !disabled.contains(name)
                && forall|j: int| from <= j < i ==> !(#[trigger] tools[j] == name && !disabled.contains(name)),
            None => forall|j: int| from <= j < tools.len() ==> !(#[trigger] tools[j] == name && !disabled.contains(name)),
        },
    decreases tools.len() - from,
{
    if from < tools.len() {
        lemma_first_enabled_named(tools, disabled, name, from + 1);
    }
}

/// The enabled tools are listed once each, in order, and are exactly the tools
/// that are not disabled.
pub proof fn law_enabled_tools_are_those_not_disabled(tools: Seq<Seq<char>>, disabled: Seq<Seq<char>>, n: int)
    requires
        0 <= n <= tools.len(),
        n <= usize::MAX,
    ensures
        forall|k: int| 0 <= k < enabled_indices(tools, disabled, n).len() ==> {
            let i = #[trigger] enabled_indices(tools, disabled, n)[k];
            &&& i < n
            &&& !disabled.contains(tools[i as int])
        },
        forall|a: int, b: int| 0 <= a < b < enabled_indices(tools, disabled, n).len()
            ==> enabled_indices(tools, disabled, n)[a] < enabled_indices(tools, disabled, n)[b],
        forall|i: int| 0 <= i < n && !disabled.contains(#[trigger] tools[i])
            ==> enabled_indices(tools, disabled, n).contains(i as usize),
    decreases n,
{
    if n > 0 {
        law_enabled_tools_are_those_not_disabled(tools, disabled, n - 1);
        let prev = enabled_indices(tools, disabled, n - 1);
        let cur = enabled_indices(tools, disabled, n);
        if !disabled.contains(tools[n - 1]) {
            assert(cur == prev.push((n - 1) as usize));
            assert(cur[prev.len() as int] == (n - 1) as usize);
            assert forall|k: int| 0 <= k < cur.len() implies {
                let i = #[trigger] cur[k];
                &&& i < n
                &&& !disabled.contains(tools[i as int])
            } by {
                if k < prev.len() {
                    assert(cur[k] == prev[k]);
                }
            }
            assert forall|a: int, b: int| 0 <= a < b < cur.len() implies cur[a] < cur[b] by {
                if b < prev.len() {
                    assert(cur[a] == prev[a] && cur[b] == prev[b]);
                } else {
                    assert(cur[a] == prev[a]);
                    assert(prev[a] < n - 1);
                }
            }
            assert forall|i: int| 0 <= i < n && !disabled.contains(#[trigger] tools[i]) implies cur.contains(
                i as usize,
            ) by {
                if i < n - 1 {
                    let k = choose|k: int| 0 <= k < prev.len() && prev[k] == i as usize;
                    assert(cur[k] == i as usize);
                } else {
                    assert(cur[prev.len() as int] == i as usize);
                }
            }
        }
    }
}

} // verus!
