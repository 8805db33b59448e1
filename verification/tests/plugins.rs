use modelrelay::plugin_markdown::{parse_markdown_frontmatter, split_frontmatter_list, split_lines};
use modelrelay::plugins::{
    basename, build_tool_refs, derive_plugin_id, format_agent_node_id, format_step_join_node_id,
    join_repo_path, sanitize_node_token, PluginAgent, PluginAgentName, PluginCommand,
    PluginCommandName, PluginError, PluginId, PluginToolName,
};

#[test]
fn parse_markdown_frontmatter_tools() {
    let markdown = r#"---
description: Example agent
tools:
  - fs.read_file
  - bash
---
Agent prompt
"#;
    let parsed = parse_markdown_frontmatter(markdown).expect("parsed");
    assert_eq!(parsed.description.unwrap(), "Example agent");
    let tools = parsed.tools.unwrap();
    assert_eq!(tools, vec![PluginToolName::FsReadFile, PluginToolName::Bash]);
    assert_eq!(parsed.body.trim(), "Agent prompt");
}

#[test]
fn frontmatter_inline_list_and_unknown_tool() {
    let parsed = parse_markdown_frontmatter("---\ntools: [\"fs.search\", bash]\n---\nbody").unwrap();
    assert_eq!(parsed.tools.unwrap(), vec![PluginToolName::FsSearch, PluginToolName::Bash]);
    assert_eq!(parsed.body, "body");
    match parse_markdown_frontmatter("---\ntools: nope\n---\n") {
        Err(PluginError::Orchestration(e)) => assert_eq!(e.message, "unknown tool \"nope\""),
        _ => panic!("expected unknown tool"),
    }
}

#[test]
fn frontmatter_missing_close_keeps_whole_text() {
    let md = "---\ndescription: x\nno close";
    let parsed = parse_markdown_frontmatter(md).unwrap();
    assert!(parsed.description.is_none());
    assert_eq!(parsed.body, md);
}

#[test]
fn split_lines_handles_crlf() {
    assert_eq!(split_lines("a\r\nb\nc"), vec!["a", "b", "c"]);
    assert_eq!(split_lines("a\n"), vec!["a"]);
    assert!(split_lines("").is_empty());
}

#[test]
fn frontmatter_list_items() {
    assert_eq!(split_frontmatter_list("[a, 'b', \"c\" ,, ]"), vec!["a", "b", "c"]);
    assert!(split_frontmatter_list("[]").is_empty());
}

#[test]
fn node_tokens_and_ids() {
    assert_eq!(sanitize_node_token("  Code Writer!! "), "code_writer");
    assert_eq!(sanitize_node_token("__a__b__"), "a_b");
    assert_eq!(format_agent_node_id("Writer").unwrap(), "agent_writer");
    assert!(format_agent_node_id("!!!").is_err());
    assert_eq!(format_step_join_node_id("Step 1").unwrap(), "step_1_join");
    assert_eq!(format_step_join_node_id("plan").unwrap(), "step_plan_join");
}

#[test]
fn repo_paths() {
    assert_eq!(basename("agents/writer.md"), "writer");
    assert_eq!(basename("x.md.md"), "x");
    assert_eq!(join_repo_path("/a/", "/b/"), "a/b");
    assert_eq!(join_repo_path("", "b"), "b");
    assert_eq!(derive_plugin_id(" o ", "r", "/p/"), "o/r/p");
    assert_eq!(derive_plugin_id("o", "r", "  "), "o/r");
}

#[test]
fn names_are_trimmed_and_required() {
    assert_eq!(PluginId::new("  x ".to_string()).unwrap().as_str(), "x");
    assert!(PluginCommandName::new("   ".to_string()).is_err());
    assert!(PluginToolName::from_str(" user.ask ").is_ok());
}

#[test]
fn tool_refs_fall_back_and_dedupe() {
    let agent = PluginAgent {
        name: PluginAgentName::new("a".to_string()).unwrap(),
        system_prompt: String::new(),
        description: None,
        tools: Some(vec![]),
    };
    let command = PluginCommand {
        name: PluginCommandName::new("c".to_string()).unwrap(),
        prompt: String::new(),
        agent_refs: None,
        tools: Some(vec![PluginToolName::Bash, PluginToolName::Bash, PluginToolName::FsEdit]),
    };
    assert_eq!(build_tool_refs(&agent, &command), vec![PluginToolName::Bash, PluginToolName::FsEdit]);
    let command2 = PluginCommand { tools: None, ..command };
    assert_eq!(
        build_tool_refs(&agent, &command2),
        vec![PluginToolName::FsReadFile, PluginToolName::FsListFiles, PluginToolName::FsSearch]
    );
}

#[test]
fn agent_file_becomes_agent() {
    let a = modelrelay::plugin_markdown::plugin_agent_from_file(
        "plugins/x/agents/planner.md",
        "---\ndescription: Plans work\ntools: [fs.read_file]\n---\nYou plan.",
    )
    .unwrap();
    assert_eq!(a.name.as_str(), "planner");
    assert_eq!(a.system_prompt, "You plan.");
    assert_eq!(a.description.as_deref(), Some("Plans work"));
    assert_eq!(a.tools.map(|t| t.len()), Some(1));
    match modelrelay::plugin_markdown::plugin_agent_from_file("agents/.md", "body") {
        Err(modelrelay::plugins::PluginError::Loader(m)) => {
            assert_eq!(m, "plugin agent name is required")
        }
        other => panic!("unexpected {:?}", other),
    }
}

#[test]
fn plugin_ids_convert_into_strings() {
    let id = modelrelay::plugins::PluginId::new("  acme/tools ".to_string()).ok().unwrap();
    assert_eq!(String::from(id), "acme/tools");
}
