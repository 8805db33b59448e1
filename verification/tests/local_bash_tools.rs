use modelrelay::bash_policy::BashPolicy;
use modelrelay::local_bash_tools::{
    bash_outcome, combine_errors, merge_outputs, validate_config, wait_step, with_bash_allow_env_vars,
    with_bash_env_source, with_bash_hard_max_output_bytes, with_bash_inherit_env,
    with_bash_max_output_bytes, with_bash_policy, with_bash_timeout, BashArgs, BashResult,
    DrainResult, LocalBashConfig, LocalBashToolPack, PollOutcome, WaitAction, WaitOutcome,
};
use modelrelay::local_tools_common::LocalToolError;

fn root() -> Result<String, LocalToolError> {
    Ok("/work".to_string())
}

#[test]
fn bash_default_deny() {
    let pack = LocalBashToolPack::new(root(), vec![]).unwrap();
    let err = pack.check_policy("echo hi").unwrap_err();
    assert!(err.contains("disabled by default"));
}

#[test]
fn bash_allow_command_and_deny_precedence() {
    let policy = BashPolicy::new().allow_command("echo").deny_command("echo");
    let pack = LocalBashToolPack::new(root(), vec![with_bash_policy(policy)]).unwrap();
    assert!(pack.check_policy("echo hi").is_err());
    let policy = BashPolicy::new().allow_command("echo");
    let pack = LocalBashToolPack::new(root(), vec![with_bash_policy(policy)]).unwrap();
    assert!(pack.check_policy("echo hi").is_ok());
    assert!(pack.check_policy("ls").is_err());
}

#[test]
fn bash_config_validation() {
    let err = LocalBashToolPack::new(root(), vec![with_bash_timeout(0)]).unwrap_err();
    assert_eq!(err, LocalToolError::InvalidConfig("timeout must be > 0".to_string()));
    let err = LocalBashToolPack::new(
        Err(LocalToolError::RootRequired),
        vec![with_bash_max_output_bytes(10), with_bash_hard_max_output_bytes(5)],
    )
    .unwrap_err();
    assert_eq!(
        err,
        LocalToolError::InvalidConfig("max_output_bytes exceeds hard_max_output_bytes".to_string())
    );
    let err = LocalBashToolPack::new(Err(LocalToolError::RootRequired), vec![]).unwrap_err();
    assert_eq!(err, LocalToolError::RootRequired);
    assert!(validate_config(&LocalBashConfig::default()).is_ok());
}

#[test]
fn bash_env_modes() {
    let env = vec![("PATH".to_string(), "/bin".to_string()), ("SECRET".to_string(), "x".to_string())];
    let pack = LocalBashToolPack::new(root(), vec![]).unwrap();
    assert!(pack.build_env(env.clone()).is_empty());
    let pack = LocalBashToolPack::new(root(), vec![with_bash_inherit_env()]).unwrap();
    assert_eq!(pack.build_env(env.clone()).len(), 2);
    let pack = LocalBashToolPack::new(root(), vec![with_bash_allow_env_vars(vec![" PATH ".to_string()])]).unwrap();
    assert_eq!(pack.build_env(env.clone()), vec![("PATH".to_string(), "/bin".to_string())]);
    let pack = LocalBashToolPack::new(
        root(),
        vec![with_bash_inherit_env(), with_bash_env_source(vec![("A".to_string(), "1".to_string())])],
    )
    .unwrap();
    assert_eq!(pack.build_env(env), vec![("A".to_string(), "1".to_string())]);
}

#[test]
fn bash_empty_command_rejected() {
    assert_eq!(BashArgs { command: "  ".to_string() }.validate().unwrap_err(), "command cannot be empty");
    assert!(BashArgs { command: "ls".to_string() }.validate().is_ok());
}

#[test]
fn bash_output_truncation() {
    let mut out = DrainResult::new();
    out.absorb(b"hello", 3);
    assert_eq!(out.output, b"hel".to_vec());
    assert!(out.truncated);
    out.absorb(b"more", 3);
    assert_eq!(out.output, b"hel".to_vec());
    let mut err = DrainResult::new();
    err.absorb(b"ab", 10);
    assert!(!err.truncated);
    let (merged, truncated, errors) = merge_outputs(out, err, 3);
    assert_eq!(merged, b"hel".to_vec());
    assert!(truncated);
    assert!(errors.is_empty());
}

#[test]
fn bash_merge_appends_stderr_and_errors() {
    let mut a = DrainResult::new();
    a.absorb(b"ab", 5);
    let mut b = DrainResult::new();
    b.absorb(b"cdef", 5);
    b.fail("boom");
    let (merged, truncated, errors) = merge_outputs(a, b, 5);
    assert_eq!(merged, b"abcde".to_vec());
    assert!(truncated);
    assert_eq!(errors, vec!["stderr: read error: boom".to_string()]);
    assert_eq!(
        combine_errors(Some("t".to_string()), errors),
        Some("t; stderr: read error: boom".to_string())
    );
    assert_eq!(combine_errors(None, vec![]), None);
}

#[test]
fn bash_timeout() {
    let r = BashResult::timeout("out".to_string(), false, 10_000);
    assert!(r.timed_out);
    assert_eq!(r.exit_code, -1);
    assert_eq!(r.error, Some("command timed out after 10s".to_string()));
    let r = bash_outcome(WaitOutcome::KillFailed("denied".to_string()), 0, "o".to_string(), true, None, 1500);
    assert_eq!(r.error, Some("command timed out after 1.5s, but failed to kill process: denied".to_string()));
    let r = bash_outcome(WaitOutcome::Exited, 3, "o".to_string(), false, None, 1);
    assert_eq!(r.exit_code, 3);
    assert!(r.error.is_none());
    let r = bash_outcome(WaitOutcome::WaitFailed("x".to_string()), 0, "o".to_string(), true, None, 1);
    assert_eq!(r.error, Some("failed to wait for process: x".to_string()));
    assert_eq!(r.output, "");
}

#[test]
fn bash_wait_steps() {
    assert!(matches!(wait_step(PollOutcome::Running, 5_000_000, 5), WaitAction::Sleep));
    assert!(matches!(wait_step(PollOutcome::Running, 5_000_001, 5), WaitAction::KillForTimeout));
    assert!(matches!(wait_step(PollOutcome::Exited, 0, 5), WaitAction::Finish(WaitOutcome::Exited)));
    assert!(matches!(
        wait_step(PollOutcome::Failed("e".to_string()), 0, 5),
        WaitAction::AbortWith(WaitOutcome::WaitFailed(_))
    ));
}
