use modelrelay::bash_tokenizer::tokenize_bash;

#[test]
fn tokenize_normalizes_primary_command() {
    let tokens = tokenize_bash("/usr/bin/git status");
    assert_eq!(tokens.primary_command, "git");
    assert_eq!(tokens.all_commands, vec!["git"]);
}

#[test]
fn tokenize_handles_quoted_command() {
    let tokens = tokenize_bash("g'i't status");
    assert_eq!(tokens.primary_command, "git");
    assert_eq!(tokens.primary_args, vec!["status"]);
}

#[test]
fn tokenize_detects_pipe_chain() {
    let tokens = tokenize_bash("cmd1 | cmd2; cmd3");
    assert!(tokens.has_pipe);
    assert!(tokens.has_chain);
    assert_eq!(tokens.all_commands, vec!["cmd1", "cmd2", "cmd3"]);
}

#[test]
fn tokenize_detects_subshell_and_eval() {
    let tokens = tokenize_bash("$(echo rm) file");
    assert!(tokens.has_subshell);

    let tokens = tokenize_bash("eval \"rm file\"");
    assert!(tokens.has_eval);
    assert_eq!(tokens.primary_command, "eval");
}

#[test]
fn tokenize_detects_dangerous_redirect() {
    let tokens = tokenize_bash("echo hi > /etc/passwd");
    assert!(tokens.has_redirect);
    assert!(tokens.has_dangerous_redirect);
}

#[test]
fn tokenize_detects_bash_dash_c_subshell() {
    let tokens = tokenize_bash("bash -c 'echo hi'");
    assert!(tokens.has_subshell);
}

#[test]
fn tokenize_skips_leading_env_assignments() {
    let tokens = tokenize_bash("FOO=bar npm run build");
    assert_eq!(tokens.primary_command, "npm");
    assert_eq!(tokens.primary_args, vec!["run", "build"]);
    assert_eq!(tokens.all_commands, vec!["npm"]);
}

#[test]
fn tokenize_detects_subshell_in_double_quotes() {
    let tokens = tokenize_bash("echo \"$(rm -rf /)\"");
    assert!(tokens.has_subshell);
}

#[test]
fn tokenize_comment_ends_the_command() {
    let tokens = tokenize_bash("ls -la # | rm -rf /");
    assert_eq!(tokens.all_commands, vec!["ls"]);
    assert!(!tokens.has_pipe);
    assert_eq!(tokens.primary_args, vec!["-la"]);
}

#[test]
fn tokenize_fd_redirect_and_append() {
    let tokens = tokenize_bash("make 2>> /root/log");
    assert!(tokens.has_redirect);
    assert!(tokens.has_dangerous_redirect);
    assert_eq!(tokens.primary_args, Vec::<String>::new());
    let tokens = tokenize_bash("make &> out.txt");
    assert!(tokens.has_redirect);
    assert!(!tokens.has_dangerous_redirect);
    assert!(!tokens.has_chain);
}

#[test]
fn tokenize_or_and_background_are_chains() {
    let tokens = tokenize_bash("a || b && c & d");
    assert!(tokens.has_chain);
    assert!(!tokens.has_pipe);
    assert_eq!(tokens.all_commands, vec!["a", "b", "c", "d"]);
    let tokens = tokenize_bash("a |& b");
    assert!(tokens.has_pipe);
    assert_eq!(tokens.all_commands, vec!["a", "b"]);
}

#[test]
fn tokenize_empty_and_path_edge_cases() {
    let tokens = tokenize_bash("   ");
    assert_eq!(tokens.primary_command, "");
    assert!(tokens.all_commands.is_empty());
    let tokens = tokenize_bash("./run.sh/. arg");
    assert_eq!(tokens.primary_command, "run.sh");
    let tokens = tokenize_bash("../..");
    assert_eq!(tokens.primary_command, "../..");
    let tokens = tokenize_bash("X+=1 env");
    assert_eq!(tokens.primary_command, "env");
}

#[test]
fn tokenize_backtick_is_subshell_and_newline_is_chain() {
    let tokens = tokenize_bash("echo `id`\nls");
    assert!(tokens.has_subshell);
    assert!(tokens.has_chain);
    assert_eq!(tokens.all_commands, vec!["echo", "ls"]);
    assert!(!tokens.has_eval);
    let tokens = tokenize_bash("sh x -c y");
    assert!(!tokens.has_subshell);
}
