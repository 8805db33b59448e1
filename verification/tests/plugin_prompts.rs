use modelrelay::client_core::normalize_customer_id;
use modelrelay::orchestration_plan::{OrchestrationPlanAgent, OrchestrationPlanStep, OrchestrationPlanV1};
use modelrelay::plugin_prompts::{
    build_dynamic_agent_user_prompt, build_dynamic_synthesis_prompt, build_orchestration_candidates,
    build_plugin_conversion_prompt, build_plugin_orchestration_prompt, find_terminal_outputs, plugin_orchestration_system_prompt,
    plugin_to_workflow_system_prompt, raw_url, resolve_command, trim_non_empty, StepDependency,
};
use modelrelay::plugins::{
    PluginAgent, PluginAgentName, PluginCommand, PluginCommandName, PluginError, PluginManifest,
    PluginOrchestrationErrorCode, PluginUrl,
};

fn command(prompt: &str, refs: Option<Vec<&str>>) -> PluginCommand {
    PluginCommand {
        name: PluginCommandName::new("audit".to_string()).unwrap(),
        prompt: prompt.to_string(),
        agent_refs: refs.map(|v| v.into_iter().map(|n| PluginAgentName::new(n.to_string()).unwrap()).collect()),
        tools: None,
    }
}

fn agent(name: &str, desc: Option<&str>) -> PluginAgent {
    PluginAgent {
        name: PluginAgentName::new(name.to_string()).unwrap(),
        system_prompt: String::new(),
        description: desc.map(|d| d.to_string()),
        tools: None,
    }
}

#[test]
fn agent_prompt_lists_dependencies() {
    let deps = vec![StepDependency { step_id: "s1".into(), node_id: "agent_a".into() }];
    let p = build_dynamic_agent_user_prompt(&command("  Do it  ", None), " task ", &deps);
    assert_eq!(p, "Do it\nUSER_TASK:\ntask\n\nPREVIOUS_STEP_OUTPUTS:\n- s1: {{agent_a}}");
    let p = build_dynamic_agent_user_prompt(&command(" ", None), "t", &vec![]);
    assert_eq!(p, "USER_TASK:\nt");
}

#[test]
fn synthesis_prompt_lists_results() {
    let p = build_dynamic_synthesis_prompt(&command("cmd", None), "t", &vec!["x".to_string(), "y".to_string()]);
    assert_eq!(
        p,
        "Synthesize the results and complete the task.\n\nCOMMAND:\ncmd\n\nUSER_TASK:\nt\n\nRESULTS:\n- {{x}}\n- {{y}}"
    );
}

#[test]
fn candidates_follow_refs_or_agents() {
    let agents = vec![agent("a", Some(" first ")), agent("b", Some("second"))];
    let c = build_orchestration_candidates(&agents, &command("", None)).unwrap();
    assert_eq!(c.len(), 2);
    assert_eq!(c[0].description, "first");
    let c = build_orchestration_candidates(&agents, &command("", Some(vec!["b"]))).unwrap();
    assert_eq!(c.len(), 1);
    assert_eq!(c[0].name.as_str(), "b");
    match build_orchestration_candidates(&agents, &command("", Some(vec!["zz"]))) {
        Err(PluginError::Orchestration(e)) => {
            assert_eq!(e.code, PluginOrchestrationErrorCode::UnknownAgent);
            assert_eq!(e.message, "agent \"zz\" not found");
        },
        _ => panic!("expected error"),
    }
    let agents2 = vec![agent("a", None)];
    match build_orchestration_candidates(&agents2, &command("", None)) {
        Err(PluginError::Orchestration(e)) => assert_eq!(e.message, "agent \"a\" missing description"),
        _ => panic!("expected error"),
    }
    match build_orchestration_candidates(&vec![], &command("", None)) {
        Err(PluginError::Orchestration(e)) => {
            assert_eq!(e.message, "no agents available for dynamic orchestration")
        },
        _ => panic!("expected error"),
    }
}

#[test]
fn orchestration_prompt_text() {
    let manifest = PluginManifest {
        name: Some(" Kit ".into()),
        description: Some("  ".into()),
        version: None,
        commands: None,
        agents: None,
    };
    let agents = vec![agent("a", Some("does a"))];
    let c = build_orchestration_candidates(&agents, &command("", None)).unwrap();
    let p = build_plugin_orchestration_prompt(&manifest, &command("Body", None), "task", &c);
    assert_eq!(
        p,
        "PLUGIN_NAME: Kit\nCOMMAND: audit\nUSER_TASK:\ntask\n\nCOMMAND_MARKDOWN:\nBody\n\nCANDIDATE_AGENTS:\n- id: a\n  description: does a"
    );
}

#[test]
fn commands_resolve_by_trimmed_name() {
    let cmds = vec![command("p", None)];
    assert_eq!(resolve_command(&cmds, " audit ").unwrap().prompt, "p");
    match resolve_command(&cmds, "  ") {
        Err(PluginError::Loader(m)) => assert_eq!(m, "command is required"),
        _ => panic!("expected error"),
    }
    match resolve_command(&cmds, "other") {
        Err(PluginError::Loader(m)) => assert_eq!(m, "unknown command"),
        _ => panic!("expected error"),
    }
}

#[test]
fn terminal_outputs_skip_depended_steps() {
    let step = |id: &str, deps: Option<Vec<&str>>| OrchestrationPlanStep {
        id: Some(id.to_string()),
        depends_on: deps.map(|d| d.into_iter().map(|s| s.to_string()).collect()),
        agents: vec![OrchestrationPlanAgent { id: "a".into(), reason: "r".into() }],
    };
    let plan = OrchestrationPlanV1 {
        kind: "orchestration.plan.v1".into(),
        max_parallelism: None,
        steps: vec![step("a", None), step("b", Some(vec![" a "])), step("c", Some(vec!["a"]))],
    };
    let keys = vec!["a".to_string(), "b".to_string(), "c".to_string()];
    let outputs = vec![
        ("a".to_string(), "agent_a".to_string()),
        ("b".to_string(), "agent_b".to_string()),
        ("c".to_string(), "old".to_string()),
        ("c".to_string(), "agent_c".to_string()),
    ];
    assert_eq!(find_terminal_outputs(&keys, &plan, &outputs, true), vec!["agent_b", "agent_c"]);
    assert_eq!(find_terminal_outputs(&keys, &plan, &outputs, false), vec!["agent_c"]);
}

#[test]
fn small_helpers() {
    assert_eq!(trim_non_empty("  x "), Some("x".to_string()));
    assert_eq!(trim_non_empty("   "), None);
    assert_eq!(
        raw_url("https://raw.example/", "o", "r", "HEAD", "/dir/file.md"),
        "https://raw.example/o/r/HEAD/dir/file.md"
    );
    assert!(plugin_to_workflow_system_prompt()
        .contains("    - fs.read_file, fs.list_files, fs.search, fs.edit, bash, write_file, user.ask\n"));
    assert!(plugin_to_workflow_system_prompt().contains("{{placeholders}}"));
    assert!(plugin_orchestration_system_prompt().starts_with("You plan which plugin agents"));
    assert_eq!(normalize_customer_id(" c1 ").unwrap(), "c1");
    assert!(normalize_customer_id("  ").is_err());
}

#[test]
fn conversion_prompt_sorts_agents_by_name() {
    let mut b = agent("beta", None);
    b.system_prompt = "B prompt".to_string();
    let mut a = agent("alpha", None);
    a.system_prompt = "A prompt".to_string();
    let url = PluginUrl::new("github.com/o/r@main".to_string()).unwrap();
    let p = build_plugin_conversion_prompt(&url, &command("Run it", None), " task ", "{\"name\":\"x\"}", &vec![b, a]);
    assert_eq!(
        p,
        "PLUGIN_URL: github.com/o/r@main\nCOMMAND: audit\nUSER_TASK:\ntask\n\nPLUGIN_MANIFEST:\n{\"name\":\"x\"}\n\nCOMMAND_MARKDOWN (commands/audit.md):\nRun it\n\nAGENTS_MARKDOWN:\n---- agents/alpha.md ----\nA prompt\n\n---- agents/beta.md ----\nB prompt\n"
    );
    let p = build_plugin_conversion_prompt(&url, &command("x", None), "t", "{}", &vec![]);
    assert!(p.ends_with("COMMAND_MARKDOWN (commands/audit.md):\nx\n"));
}
