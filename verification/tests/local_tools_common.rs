use modelrelay::local_tools_common::{filter_env, EnvMode, LocalToolError};

#[test]
fn test_filter_env_empty_mode() {
    let env_vars = vec![
        ("PATH".to_string(), "/usr/bin".to_string()),
        ("HOME".to_string(), "/home/user".to_string()),
    ];
    let result = filter_env(env_vars, &EnvMode::Empty, &Vec::new());
    assert!(result.is_empty());
}

#[test]
fn test_filter_env_inherit_all() {
    let env_vars = vec![
        ("PATH".to_string(), "/usr/bin".to_string()),
        ("HOME".to_string(), "/home/user".to_string()),
    ];
    let result = filter_env(env_vars, &EnvMode::InheritAll, &Vec::new());
    assert_eq!(result.len(), 2);
    assert!(result.iter().any(|(k, _)| k == "PATH"));
    assert!(result.iter().any(|(k, _)| k == "HOME"));
}

#[test]
fn test_filter_env_allowlist_filters_correctly() {
    let env_vars = vec![
        ("PATH".to_string(), "/usr/bin".to_string()),
        ("HOME".to_string(), "/home/user".to_string()),
        ("SECRET".to_string(), "do_not_leak".to_string()),
    ];
    let allowlist = vec!["PATH".to_string(), "HOME".to_string()];
    let result = filter_env(env_vars, &EnvMode::Allowlist, &allowlist);
    assert_eq!(result.len(), 2);
    assert!(result.iter().any(|(k, _)| k == "PATH"));
    assert!(result.iter().any(|(k, _)| k == "HOME"));
    assert!(!result.iter().any(|(k, _)| k == "SECRET"));
}

#[test]
fn test_filter_env_allowlist_empty_allowlist() {
    let env_vars = vec![
        ("PATH".to_string(), "/usr/bin".to_string()),
        ("HOME".to_string(), "/home/user".to_string()),
    ];
    let result = filter_env(env_vars, &EnvMode::Allowlist, &Vec::new());
    assert!(result.is_empty());
}

#[test]
fn test_filter_env_allowlist_preserves_values() {
    let env_vars = vec![("MY_VAR".to_string(), "my_value".to_string())];
    let allowlist = vec!["MY_VAR".to_string()];
    let result = filter_env(env_vars, &EnvMode::Allowlist, &allowlist);
    assert_eq!(result.len(), 1);
    assert_eq!(result[0], ("MY_VAR".to_string(), "my_value".to_string()));
}

#[test]
fn test_error_display_invalid_config() {
    let err = LocalToolError::InvalidConfig("timeout must be > 0".to_string());
    assert_eq!(err.to_string(), "invalid config: timeout must be > 0");
}

#[test]
fn test_error_display_root_required() {
    let err = LocalToolError::RootRequired;
    assert_eq!(err.to_string(), "root directory required");
}

#[test]
fn test_error_display_root_not_found() {
    let err = LocalToolError::RootNotFound {
        path: "/some/path".to_string(),
        reason: "No such file or directory".to_string(),
    };
    assert!(err.to_string().contains("/some/path"));
    assert!(err.to_string().contains("No such file or directory"));
}

#[test]
fn test_error_display_root_not_directory() {
    let err = LocalToolError::RootNotDirectory("/some/file.txt".to_string());
    assert!(err.to_string().contains("/some/file.txt"));
    assert!(err.to_string().contains("not a directory"));
}

#[test]
fn filter_env_allowlist_keeps_input_order() {
    let env_vars = vec![
        ("B".to_string(), "2".to_string()),
        ("X".to_string(), "0".to_string()),
        ("A".to_string(), "1".to_string()),
    ];
    let allowlist = vec!["A".to_string(), "B".to_string()];
    let result = filter_env(env_vars, &EnvMode::Allowlist, &allowlist);
    assert_eq!(
        result,
        vec![("B".to_string(), "2".to_string()), ("A".to_string(), "1".to_string())]
    );
}

#[test]
fn error_display_root_not_found_exact() {
    let err = LocalToolError::RootNotFound { path: "/p".to_string(), reason: "gone".to_string() };
    assert_eq!(err.to_string(), "resolve root /p: gone");
}
