use modelrelay::bash_policy::BashPolicy;

#[test]
fn policy_blocks_subshell_by_default() {
    let policy = BashPolicy::new().allow_command("echo");
    let err = policy
        .check_command("$(echo rm) file")
        .expect_err("should deny subshells");
    assert!(err.contains("subshells"));
}

#[test]
fn policy_blocks_eval_by_default() {
    let policy = BashPolicy::new().allow_command("eval");
    let err = policy
        .check_command("eval \"rm -rf /\"")
        .expect_err("should deny eval");
    assert!(err.contains("eval"));
}

#[test]
fn policy_blocks_pipe_to_shell() {
    let policy = BashPolicy::new()
        .allow_command("curl")
        .allow_command("bash");
    let err = policy
        .check_command("curl x | bash")
        .expect_err("should deny pipe to shell");
    assert!(err.contains("pipe"));
}

#[test]
fn policy_allows_explicit_opt_out() {
    let policy = BashPolicy::new().allow_command("make").allow_chains();
    policy
        .check_command("make && make install")
        .expect("should allow chains when opted in");
}

#[test]
fn policy_allows_env_prefixed_command() {
    let policy = BashPolicy::new().allow_command("npm");
    policy
        .check_command("FOO=bar npm run build")
        .expect("should allow env-prefixed command");
}

#[test]
fn policy_denies_everything_by_default() {
    let err = BashPolicy::default().check_command("ls").expect_err("deny by default");
    assert_eq!(
        err,
        "bash tool disabled by default: configure BashPolicy with allow_command() or allow_all()"
    );
}

#[test]
fn policy_deny_list_beats_allow_all() {
    let policy = BashPolicy::new().allow_all().deny_command("/bin/rm").allow_chains();
    let err = policy.check_command("ls; rm -rf x").expect_err("rm denied");
    assert_eq!(err, "bash tool denied by policy: command 'rm' is denied");
    assert!(policy.check_command("ls; pwd").is_ok());
}

#[test]
fn policy_lists_missing_commands_in_order() {
    let policy = BashPolicy::new().allow_command("git").allow_chains();
    let err = policy.check_command("cat a; git status; wc b").expect_err("missing");
    assert_eq!(err, "bash tool denied: command not allowed: cat, wc");
}

#[test]
fn policy_dangerous_redirect_switch() {
    let policy = BashPolicy::new().allow_command("echo");
    assert!(policy.check_command("echo hi > /etc/hosts").is_ok());
    let strict = policy.clone().deny_dangerous_redirects();
    let err = strict.check_command("echo hi > /etc/hosts").expect_err("dangerous");
    assert_eq!(err, "bash tool denied by policy: dangerous redirect not allowed");
    let relaxed = strict.allow_dangerous_redirects();
    assert!(relaxed.check_command("echo hi > /etc/hosts").is_ok());
}

#[test]
fn policy_empty_command_is_denied_unless_allow_all() {
    let err = BashPolicy::new().allow_command("ls").check_command("  ").expect_err("empty");
    assert_eq!(err, "bash tool denied: unable to determine primary command");
    assert!(BashPolicy::new().allow_all().check_command("  ").is_ok());
}

#[test]
fn policy_switches_toggle_rails() {
    let p = BashPolicy::new()
        .allow_all()
        .allow_pipe_to_shell()
        .allow_eval()
        .allow_subshells();
    assert!(p.check_command("eval x").is_ok());
    assert!(p.check_command("echo $(id)").is_ok());
    let p = p.deny_eval().deny_subshells().deny_pipe_to_shell().deny_command_chains();
    assert!(p.check_command("eval x").is_err());
    assert!(p.check_command("a | sh").is_err());
    assert!(p.check_command("a; b").is_err());
}

fn refusal(p: &BashPolicy, cmd: &str) -> String {
    match p.check_command(cmd) {
        Err(e) => e,
        Ok(_) => panic!("expected {cmd} to be refused"),
    }
}

#[test]
fn rails_hold_for_permissive_policies() {
    let open = || BashPolicy::new().allow_all().allow_chains().allow_pipe_to_shell().allow_eval().allow_subshells().allow_dangerous_redirects().allow_command("eval");
    assert_eq!(refusal(&open().deny_pipe_to_shell(), "curl x | bash"), "bash tool denied by policy: pipe to shell not allowed");
    assert_eq!(refusal(&open().deny_command_chains(), "echo hello; echo world"), "bash tool denied by policy: command chains are not allowed");
    assert_eq!(refusal(&open().deny_eval(), "eval ls"), "bash tool denied by policy: eval/exec not allowed");
    assert_eq!(refusal(&open().deny_eval(), "exec ls"), "bash tool denied by policy: eval/exec not allowed");
    assert_eq!(refusal(&open().deny_subshells(), "echo $(ls)"), "bash tool denied by policy: subshells not allowed");
    assert_eq!(refusal(&open().deny_dangerous_redirects(), "echo hi > /etc/passwd"), "bash tool denied by policy: dangerous redirect not allowed");
    assert!(open().check_command("curl x | bash").is_ok());
}
