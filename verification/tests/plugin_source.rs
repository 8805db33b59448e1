use modelrelay::plugin_source::{github_ref_from_url, parse_github_plugin_ref, GitHubPluginRef, UrlParts};
use modelrelay::plugins::PluginError;

fn place(raw: &str) -> GitHubPluginRef {
    match parse_github_plugin_ref(raw) {
        Ok(r) => r,
        Err(e) => panic!("unexpected error for {raw}: {:?}", e),
    }
}

fn loader_message(raw: &str) -> String {
    match parse_github_plugin_ref(raw) {
        Err(PluginError::Loader(m)) => m,
        other => panic!("expected a loader error for {raw}, got {:?}", other.is_ok()),
    }
}

#[test]
fn tree_url_gives_ref_and_path() {
    let r = place("github.com/acme/plugins/tree/main/my-plugin");
    assert_eq!(r.owner, "acme");
    assert_eq!(r.repo, "plugins");
    assert_eq!(r.git_ref, "main");
    assert_eq!(r.repo_path, "my-plugin");
    assert_eq!(r.canonical, "github.com/acme/plugins@main/my-plugin");
}

#[test]
fn ssh_remote_defaults_to_head() {
    let r = place("  git@github.com:acme/plugins.git ");
    assert_eq!((r.owner.as_str(), r.repo.as_str(), r.git_ref.as_str()), ("acme", "plugins", "HEAD"));
    assert_eq!(r.repo_path, "");
    assert_eq!(r.canonical, "github.com/acme/plugins@HEAD");
}

#[test]
fn raw_url_drops_manifest_file() {
    let r = place("https://raw.githubusercontent.com/acme/plugins/v1/x/PLUGIN.md");
    assert_eq!(r.git_ref, "v1");
    assert_eq!(r.repo_path, "x");
    assert_eq!(r.canonical, "github.com/acme/plugins@v1/x");
}

#[test]
fn query_ref_wins_over_repo_suffix() {
    let r = place("https://www.github.com/acme/plugins@dev?ref=feature");
    assert_eq!(r.repo, "plugins");
    assert_eq!(r.git_ref, "feature");
    let r2 = place("https://github.com/acme/plugins@dev");
    assert_eq!(r2.git_ref, "dev");
}

#[test]
fn markdown_file_is_cut_before_commands_dir() {
    let r = place("https://github.com/acme/plugins/blob/main/p/commands/run.md");
    assert_eq!(r.git_ref, "main");
    assert_eq!(r.repo_path, "p");
}

#[test]
fn refused_sources() {
    assert_eq!(loader_message("   "), "source url required");
    assert_eq!(loader_message("https://gitlab.com/a/b"), "unsupported host: gitlab.com");
    assert_eq!(loader_message("github.com/acme"), "invalid github url: expected /owner/repo");
    assert_eq!(loader_message("https://raw.githubusercontent.com/acme/plugins"), "invalid raw github url");
    assert_eq!(loader_message("https://"), "invalid github url: empty host");
}

#[test]
fn parts_of_a_parsed_url() {
    let parts = UrlParts {
        href: "https://github.com//acme//tools.git.git/?x=1&ref=r1".to_string(),
        host: Some("github.com".to_string()),
        path: "//acme//tools.git.git/".to_string(),
        query: vec![("x".to_string(), "1".to_string()), ("ref".to_string(), "r1".to_string())],
    };
    let r = github_ref_from_url(&parts).unwrap();
    assert_eq!(r.repo, "tools");
    assert_eq!(r.git_ref, "r1");
    assert_eq!(r.canonical, "github.com/acme/tools@r1");
    let none = UrlParts { href: "a:/a/b".to_string(), host: None, path: "/a/b".to_string(), query: vec![] };
    match github_ref_from_url(&none) {
        Err(PluginError::Loader(m)) => assert_eq!(m, "unsupported host: "),
        _ => panic!("a URL without host is refused"),
    }
}
