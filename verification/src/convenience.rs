//! Options and usage bookkeeping of the high-level chat and agent calls.

use vstd::prelude::*;

use crate::errors::Error;

verus! {

/// Options for a simple chat call.
#[derive(Debug, Clone)]
pub struct ChatOptions {
    /// System prompt to prepend to the conversation.
    pub system: Option<String>,
    /// Customer ID for attributed requests (if set, model can be omitted).
    pub customer_id: Option<String>,
}

impl ChatOptions {
    /// Create new ChatOptions with default values.
    pub fn new() -> (r: Self)
        ensures
            r.system is None,
            r.customer_id is None,
    {
        ChatOptions { system: None, customer_id: None }
    }

    /// Set the system prompt.
    pub fn with_system(self, system: String) -> (r: Self)
        ensures
            r.system == Some(system),
            r.customer_id == self.customer_id,
    {
        ChatOptions { system: Some(system), ..self }
    }

    /// Set the customer ID for attributed requests.
    pub fn with_customer_id(self, customer_id: String) -> (r: Self)
        ensures
            r.customer_id == Some(customer_id),
            r.system == self.system,
    {
        ChatOptions { customer_id: Some(customer_id), ..self }
    }
}

/// Default maximum turns for agent loops.
pub const DEFAULT_MAX_TURNS: usize = 100;

/// Use this for max_turns to disable the turn limit.
pub const NO_TURN_LIMIT: usize = usize::MAX;

/// Options for an agent run; `T` is the tool set the agent may call.
#[derive(Debug)]
pub struct AgentOptions<T> {
    /// Tools for the agent to use (includes both definitions and handlers).
    pub tools: T,
    /// The user's prompt.
    pub prompt: String,
    /// Optional system prompt.
    pub system: Option<String>,
    /// Maximum number of LLM calls (default 100).
    pub max_turns: Option<usize>,
}

impl<T> AgentOptions<T> {
    /// Create new AgentOptions with required fields.
    pub fn new(tools: T, prompt: String) -> (r: Self)
        ensures
            r.tools == tools,
            r.prompt == prompt,
            r.system is None,
            r.max_turns is None,
    {
        AgentOptions { tools, prompt, system: None, max_turns: None }
    }

    /// Set the system prompt.
    pub fn with_system(self, system: String) -> (r: Self)
        ensures
            r == (AgentOptions { system: Some(system), ..self }),
    {
        AgentOptions { system: Some(system), ..self }
    }

    /// Set the maximum number of LLM calls.
    pub fn with_max_turns(self, max_turns: usize) -> (r: Self)
        ensures
            r == (AgentOptions { max_turns: Some(max_turns), ..self }),
    {
        AgentOptions { max_turns: Some(max_turns), ..self }
    }

    /// The number of LLM calls the run may make.
    pub fn turn_limit(&self) -> (r: usize)
        ensures
            r == match self.max_turns {
                Some(n) => n,
                None => DEFAULT_MAX_TURNS,
            },
    {
        match self.max_turns {
            Some(n) => n,
            None => DEFAULT_MAX_TURNS,
        }
    }
}

/// Usage tracking across an agent run.
#[derive(Debug, Clone, Copy, PartialEq, Eq)]
pub struct AgentUsage {
    /// Total input tokens consumed.
    pub input_tokens: u64,
    /// Total output tokens generated.
    pub output_tokens: u64,
    /// Total tokens (input + output).
    pub total_tokens: u64,
    /// Number of LLM API calls made.
    pub llm_calls: usize,
    /// Number of tool calls executed.
    pub tool_calls: usize,
}

impl AgentUsage {
    pub fn default() -> (r: Self)
        ensures
            r == (AgentUsage {
                input_tokens: 0,
                output_tokens: 0,
                total_tokens: 0,
                llm_calls: 0,
                tool_calls: 0,
            }),
    {
        AgentUsage { input_tokens: 0, output_tokens: 0, total_tokens: 0, llm_calls: 0, tool_calls: 0 }
    }

    /// Counts one LLM call and the tokens its response reports.
    pub fn record_call(&mut self, input_tokens: u64, output_tokens: u64, total_tokens: u64)
        requires
            old(self).llm_calls < usize::MAX,
            old(self).input_tokens + input_tokens <= u64::MAX,
            old(self).output_tokens + output_tokens <= u64::MAX,
            old(self).total_tokens + total_tokens <= u64::MAX,
        ensures
            *final(self) == (AgentUsage {
                input_tokens: (old(self).input_tokens + input_tokens) as u64,
                output_tokens: (old(self).output_tokens + output_tokens) as u64,
                total_tokens: (old(self).total_tokens + total_tokens) as u64,
                llm_calls: (old(self).llm_calls + 1) as usize,
                tool_calls: old(self).tool_calls,
            }),
    {
        self.llm_calls = self.llm_calls + 1;
        self.input_tokens = self.input_tokens + input_tokens;
        self.output_tokens = self.output_tokens + output_tokens;
        self.total_tokens = self.total_tokens + total_tokens;
    }

    /// Counts the tool calls requested by one response.
    pub fn record_tool_calls(&mut self, n: usize)
        requires
            old(self).tool_calls + n <= usize::MAX,
        ensures
            *final(self) == (AgentUsage { tool_calls: (old(self).tool_calls + n) as usize, ..*old(self) }),
    {
        self.tool_calls = self.tool_calls + n;
    }
}

/// What an agent run does after a response.
#[derive(Debug, Clone, PartialEq, Eq)]
pub enum AgentDecision {
    /// No tool calls came back: the response's text is the answer.
    Done,
    /// Run the tool calls, add their results, and call the model again.
    RunTools,
    /// The turn limit is used up while tool calls remain.
    Fail(Error),
}

/// The state of an agent run: the turn limit, the LLM calls made so far
/// (never more than the limit), and the usage across them.
pub struct AgentRun {
    pub max_turns: usize,
    pub usage: AgentUsage,
}

impl AgentRun {
    /// Whether the run is well formed: the calls made are within the limit.
    pub open spec fn wf(&self) -> bool {
        self.usage.llm_calls <= self.max_turns
    }

    /// A run that has made no call yet.
    pub fn new(max_turns: usize) -> (r: Self)
        ensures
            r.wf(),
            r.max_turns == max_turns,
            r.usage == (AgentUsage {
                input_tokens: 0,
                output_tokens: 0,
                total_tokens: 0,
                llm_calls: 0,
                tool_calls: 0,
            }),
    {
        AgentRun { max_turns, usage: AgentUsage::default() }
    }

    /// Before calling the model: a run whose limit is used up fails with
    /// the max-turns error (a limit of 0 allows no call at all).
    pub fn before_call(&self) -> (r: Option<Error>)
        ensures
            self.usage.llm_calls < self.max_turns ==> r is None,
            self.usage.llm_calls >= self.max_turns ==> r == Some(
                Error::AgentMaxTurns { max_turns: self.max_turns },
            ),
    {
        if self.usage.llm_calls < self.max_turns {
            None
        } else {
            Some(Error::AgentMaxTurns { max_turns: self.max_turns })
        }
    }

    /// After a response with these token counts and `tool_calls` tool
    /// calls: the call and its tokens are counted; no tool calls means done;
    /// otherwise the tool calls are counted, and the run goes on while calls
    /// are left and fails with the max-turns error once the limit is used up.
    pub fn after_response(&mut self, input_tokens: u64, output_tokens: u64, total_tokens: u64, tool_calls: usize) -> (r: AgentDecision)
        requires
            old(self).wf(),
            old(self).usage.llm_calls < old(self).max_turns,
            old(self).usage.input_tokens + input_tokens <= u64::MAX,
            old(self).usage.output_tokens + output_tokens <= u64::MAX,
            old(self).usage.total_tokens + total_tokens <= u64::MAX,
            old(self).usage.tool_calls + tool_calls <= usize::MAX,
        ensures
            final(self).wf(),
            final(self).max_turns == old(self).max_turns,
            final(self).usage == (AgentUsage {
                input_tokens: (old(self).usage.input_tokens + input_tokens) as u64,
                output_tokens: (old(self).usage.output_tokens + output_tokens) as u64,
                total_tokens: (old(self).usage.total_tokens + total_tokens) as u64,
                llm_calls: (old(self).usage.llm_calls + 1) as usize,
                tool_calls: (old(self).usage.tool_calls + tool_calls) as usize,
            }),
            tool_calls == 0 <==> r == AgentDecision::Done,
            tool_calls > 0 && old(self).usage.llm_calls + 1 < old(self).max_turns ==> r
                == AgentDecision::RunTools,
            tool_calls > 0 && old(self).usage.llm_calls + 1 >= old(self).max_turns ==> r
                == AgentDecision::Fail(Error::AgentMaxTurns { max_turns: old(self).max_turns }),
            r == AgentDecision::RunTools ==> final(self).usage.llm_calls < final(self).max_turns,
    {
        self.usage.record_call(input_tokens, output_tokens, total_tokens);
        if tool_calls == 0 {
            return AgentDecision::Done;
        }
        self.usage.record_tool_calls(tool_calls);
        if self.usage.llm_calls < self.max_turns {
            AgentDecision::RunTools
        } else {
            AgentDecision::Fail(Error::AgentMaxTurns { max_turns: self.max_turns })
        }
    }
}

} // verus!
