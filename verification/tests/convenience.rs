use modelrelay::convenience::{AgentDecision, AgentOptions, AgentRun, AgentUsage, ChatOptions};
use modelrelay::errors::Error;

#[test]
fn test_chat_options_builder() {
    let opts = ChatOptions::new()
        .with_system("You are helpful".to_string())
        .with_customer_id("cust_123".to_string());
    assert_eq!(opts.system, Some("You are helpful".to_string()));
    assert_eq!(opts.customer_id, Some("cust_123".to_string()));
}

#[test]
fn test_agent_options_builder() {
    let tools: Vec<String> = Vec::new();
    let opts = AgentOptions::new(tools, "Hello".to_string())
        .with_system("Be helpful".to_string())
        .with_max_turns(50);
    assert_eq!(opts.prompt, "Hello");
    assert_eq!(opts.system, Some("Be helpful".to_string()));
    assert_eq!(opts.max_turns, Some(50));
    assert_eq!(opts.turn_limit(), 50);
}

#[test]
fn agent_turn_limit_defaults_to_hundred() {
    let opts = AgentOptions::new((), "x".to_string());
    assert_eq!(opts.turn_limit(), 100);
}

#[test]
fn agent_usage_accumulates() {
    let mut u = AgentUsage::default();
    u.record_call(3, 4, 7);
    u.record_call(1, 1, 2);
    u.record_tool_calls(2);
    assert_eq!(u.input_tokens, 4);
    assert_eq!(u.output_tokens, 5);
    assert_eq!(u.total_tokens, 9);
    assert_eq!(u.llm_calls, 2);
    assert_eq!(u.tool_calls, 2);
}

#[test]
fn agent_run_stops_at_turn_limit() {
    let mut run = AgentRun::new(2);
    assert!(run.before_call().is_none());
    assert_eq!(run.after_response(10, 5, 15, 1), AgentDecision::RunTools);
    assert!(run.before_call().is_none());
    assert_eq!(
        run.after_response(1, 1, 2, 2),
        AgentDecision::Fail(Error::AgentMaxTurns { max_turns: 2 })
    );
    assert_eq!(run.usage.llm_calls, 2);
    assert_eq!(run.usage.tool_calls, 3);
    assert_eq!(run.usage.total_tokens, 17);
    assert!(run.before_call().is_some());
    let mut done = AgentRun::new(5);
    assert_eq!(done.after_response(1, 2, 3, 0), AgentDecision::Done);
    assert_eq!(done.usage.tool_calls, 0);
    assert_eq!(
        AgentRun::new(0).before_call(),
        Some(Error::AgentMaxTurns { max_turns: 0 })
    );
}
