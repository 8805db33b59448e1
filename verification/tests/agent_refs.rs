use modelrelay::agent_refs::{
    agent_refs_checked, extract_agent_refs, plugin_command_from_file,
    plugin_command_from_file_checked,
};

fn names(v: Option<Vec<modelrelay::plugins::PluginAgentName>>) -> Option<Vec<String>> {
    v.map(|v| v.into_iter().map(|n| n.as_str().to_string()).collect())
}

#[test]
fn agent_refs_read_sorted_and_once() {
    let md = "# Steps\n1. Ask **agents/Planner.md** first\r\nthen `agents/code_writer.md`\nagain agents/Planner.md\nno mention here\nagents/ without suffix";
    assert_eq!(
        names(extract_agent_refs(md)),
        Some(vec!["Planner".to_string(), "codewriter".to_string()])
    );
}

#[test]
fn agent_refs_prefix_is_case_sensitive_after_matching() {
    assert_eq!(
        names(extract_agent_refs("See AGENTS/coder.md")),
        Some(vec!["AGENTS/coder".to_string()])
    );
    assert_eq!(
        names(extract_agent_refs("agents/agents/x.md")),
        Some(vec!["x".to_string()])
    );
}

#[test]
fn agent_refs_none_without_mentions() {
    assert_eq!(names(extract_agent_refs("plain text\nagents/.md")), None);
    assert!(matches!(agent_refs_checked("nothing"), Some(None)));
}

#[test]
fn agent_refs_offsets_from_lowercased_line() {
    // 'İ' lower-cases to two characters of three bytes, moving the offset.
    assert_eq!(
        agent_refs_checked("İ agents/x.md").map(names),
        Some(Some(vec!["gents/x".to_string()]))
    );
    // The Kelvin sign lower-cases to one byte: the offset lands inside '€'.
    assert!(agent_refs_checked("\u{212A}\u{20AC}agents/x.md").is_none());
}

#[test]
fn command_file_becomes_command() {
    let c = plugin_command_from_file(
        "commands/ship.md",
        "---\ntools: [fs.search]\n---\nUse agents/planner.md then agents/coder.md",
    )
    .unwrap();
    assert_eq!(c.name.as_str(), "ship");
    assert_eq!(c.prompt, "Use agents/planner.md then agents/coder.md");
    assert_eq!(names(c.agent_refs), Some(vec!["planner".to_string()]));
    assert_eq!(c.tools.map(|t| t.len()), Some(1));
    assert!(plugin_command_from_file_checked("commands/x.md", "\u{212A}\u{20AC}agents/x.md").is_none());
    assert!(plugin_command_from_file_checked("commands/x.md", "plain").is_some());
}
