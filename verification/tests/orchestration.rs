use modelrelay::orchestration_plan::{
    validate_orchestration_plan, OrchestrationPlanAgent, OrchestrationPlanStep, OrchestrationPlanV1,
};
use modelrelay::plugin_manifest::{parse_manifest_frontmatter, parse_plugin_manifest, sort_texts};
use modelrelay::plugins::{PluginAgentName, PluginError, PluginOrchestrationErrorCode};

fn agent(id: &str, reason: &str) -> OrchestrationPlanAgent {
    OrchestrationPlanAgent { id: id.to_string(), reason: reason.to_string() }
}

fn known() -> Vec<PluginAgentName> {
    vec![
        PluginAgentName::new("writer".to_string()).unwrap(),
        PluginAgentName::new("tester".to_string()).unwrap(),
    ]
}

fn plan(steps: Vec<OrchestrationPlanStep>) -> OrchestrationPlanV1 {
    OrchestrationPlanV1 { kind: "orchestration.plan.v1".to_string(), max_parallelism: None, steps }
}

fn err_of(r: Result<(), PluginError>) -> (PluginOrchestrationErrorCode, String) {
    match r {
        Err(PluginError::Orchestration(e)) => (e.code, e.message),
        _ => panic!("expected orchestration error"),
    }
}

#[test]
fn valid_plan_passes() {
    let p = plan(vec![
        OrchestrationPlanStep { id: Some("a".into()), depends_on: None, agents: vec![agent("writer", "write")] },
        OrchestrationPlanStep {
            id: Some("b".into()),
            depends_on: Some(vec!["a".into()]),
            agents: vec![agent(" tester ", "test")],
        },
    ]);
    assert!(validate_orchestration_plan(&p, &known()).is_ok());
}

#[test]
fn plan_errors_in_order() {
    let mut p = plan(vec![]);
    p.kind = "x".into();
    assert_eq!(err_of(validate_orchestration_plan(&p, &known())).1, "plan kind must be orchestration.plan.v1");
    let mut p = plan(vec![]);
    p.max_parallelism = Some(0);
    assert_eq!(err_of(validate_orchestration_plan(&p, &known())).1, "max_parallelism must be >= 1");
    let p = plan(vec![
        OrchestrationPlanStep { id: Some("a".into()), depends_on: None, agents: vec![agent("writer", "w")] },
        OrchestrationPlanStep { id: Some(" a ".into()), depends_on: None, agents: vec![agent("tester", "t")] },
    ]);
    assert_eq!(err_of(validate_orchestration_plan(&p, &known())).1, "duplicate step id \"a\"");
    let p = plan(vec![
        OrchestrationPlanStep { id: None, depends_on: None, agents: vec![agent("writer", "w")] },
        OrchestrationPlanStep { id: Some("b".into()), depends_on: Some(vec!["x".into()]), agents: vec![] },
    ]);
    assert_eq!(err_of(validate_orchestration_plan(&p, &known())).1, "step id required when depends_on is used");
    let p = plan(vec![OrchestrationPlanStep { id: None, depends_on: None, agents: vec![] }]);
    assert_eq!(err_of(validate_orchestration_plan(&p, &known())).1, "step 1 must include at least one agent");
}

#[test]
fn dependency_and_agent_errors() {
    let p = plan(vec![
        OrchestrationPlanStep { id: Some("a".into()), depends_on: Some(vec!["b".into()]), agents: vec![agent("writer", "w")] },
        OrchestrationPlanStep { id: Some("b".into()), depends_on: None, agents: vec![agent("tester", "t")] },
    ]);
    let (code, msg) = err_of(validate_orchestration_plan(&p, &known()));
    assert_eq!(code, PluginOrchestrationErrorCode::InvalidDependency);
    assert_eq!(msg, "step 1 depends on future step \"b\"");
    let p = plan(vec![OrchestrationPlanStep {
        id: Some("a".into()),
        depends_on: Some(vec!["zz".into()]),
        agents: vec![agent("writer", "w")],
    }]);
    assert_eq!(err_of(validate_orchestration_plan(&p, &known())).1, "step 1 depends on unknown step \"zz\"");
    let p = plan(vec![OrchestrationPlanStep { id: None, depends_on: None, agents: vec![agent("ghost", "g")] }]);
    let (code, msg) = err_of(validate_orchestration_plan(&p, &known()));
    assert_eq!(code, PluginOrchestrationErrorCode::UnknownAgent);
    assert_eq!(msg, "unknown agent \"ghost\"");
    let p = plan(vec![OrchestrationPlanStep { id: None, depends_on: None, agents: vec![agent("writer", " ")] }]);
    assert_eq!(err_of(validate_orchestration_plan(&p, &known())).1, "agent \"writer\" must include a reason");
    let p = plan(vec![
        OrchestrationPlanStep { id: None, depends_on: None, agents: vec![agent("writer", "w")] },
        OrchestrationPlanStep { id: None, depends_on: None, agents: vec![agent("writer", "again")] },
    ]);
    assert_eq!(err_of(validate_orchestration_plan(&p, &known())).1, "agent \"writer\" referenced more than once");
    let p = plan(vec![OrchestrationPlanStep { id: None, depends_on: None, agents: vec![agent("  ", "w")] }]);
    assert_eq!(err_of(validate_orchestration_plan(&p, &known())).1, "step 1 agent id required");
}

#[test]
fn manifest_front_matter() {
    let md = "---\nname: \"Demo\"\ncommands:\n  - zeta\n  - alpha\nagents: [b, a]\n---\nbody";
    let m = parse_manifest_frontmatter(md).unwrap();
    assert_eq!(m.name.as_deref(), Some("Demo"));
    let cmds: Vec<&str> = m.commands.as_ref().unwrap().iter().map(|c| c.as_str()).collect();
    assert_eq!(cmds, vec!["alpha", "zeta"]);
    let agents: Vec<&str> = m.agents.as_ref().unwrap().iter().map(|c| c.as_str()).collect();
    assert_eq!(agents, vec!["a", "b"]);
    assert!(parse_manifest_frontmatter("---\nnot a pair\n---\n").is_none());
    assert!(parse_manifest_frontmatter("no front matter").is_none());
}

#[test]
fn manifest_from_heading() {
    let m = parse_plugin_manifest("# Tool Kit\n\nHelps with things.\n## Usage\n");
    assert_eq!(m.name.as_deref(), Some("Tool Kit"));
    assert_eq!(m.description.as_deref(), Some("Helps with things."));
    let m = parse_plugin_manifest("# Only\n## Next\ntext");
    assert!(m.description.is_none());
    let m = parse_plugin_manifest("   ");
    assert!(m.name.is_none());
}

#[test]
fn texts_sort_by_code_point() {
    let v = vec!["b".to_string(), "B".to_string(), "ab".to_string(), "a".to_string()];
    assert_eq!(sort_texts(v), vec!["B", "a", "ab", "b"]);
}
