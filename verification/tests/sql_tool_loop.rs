use modelrelay::convenience::AgentUsage;
use modelrelay::errors::Error;
use modelrelay::sql_tool_loop::{
    clamp_limit, normalize_sql_tool_loop_config, normalize_table_name, sample_rows_args,
    sql_loop_system_prompt, validate_sql_tool_loop_options, SqlToolLoopOptions, SqlToolLoopState,
    SqlValidation,
};

type Opts = SqlToolLoopOptions<String, u128>;

fn field_error(r: Result<(), Error>) -> (String, Option<String>) {
    match r {
        Err(Error::Validation(v)) => (v.message, v.field),
        other => panic!("expected a validation error, got {:?}", other),
    }
}

fn validation(valid: bool, read_only: bool, sql: &str, tables: &[&str]) -> SqlValidation {
    SqlValidation {
        valid,
        read_only,
        normalized_sql: sql.to_string(),
        tables: tables.iter().map(|t| t.to_string()).collect(),
    }
}

#[test]
fn test_normalize_sql_tool_loop_config_disables_sample_rows_without_handler() {
    let opts = Opts::new("model".to_string(), "prompt".to_string());
    let cfg = normalize_sql_tool_loop_config(&opts, false);
    assert!(!cfg.sample_rows_enabled);
}

#[test]
fn sql_config_defaults_and_clamps() {
    let opts = Opts::new("model".to_string(), "prompt".to_string());
    let cfg = normalize_sql_tool_loop_config(&opts, true);
    assert_eq!(cfg.max_attempts, 3);
    assert_eq!(cfg.result_limit, 100);
    assert_eq!(cfg.sample_rows_limit, 3);
    assert!(cfg.require_schema_inspection);
    assert!(cfg.sample_rows_enabled);
    assert!(!cfg.has_policy);
    assert!(!cfg.has_profile_id);

    let opts = Opts::new("model".to_string(), "prompt".to_string())
        .with_max_attempts(0)
        .with_result_limit(5000)
        .with_sample_rows_limit(0)
        .with_sample_rows(false)
        .with_require_schema_inspection(false)
        .with_profile_id(7);
    let cfg = normalize_sql_tool_loop_config(&opts, true);
    assert_eq!(cfg.max_attempts, 1);
    assert_eq!(cfg.result_limit, 1000);
    assert_eq!(cfg.sample_rows_limit, 3);
    assert!(!cfg.require_schema_inspection);
    assert!(!cfg.sample_rows_enabled);
    assert!(cfg.has_profile_id);
}

#[test]
fn sql_options_builder_sets_fields() {
    let opts = Opts::new("model".to_string(), "prompt".to_string())
        .with_profile_id(42)
        .with_max_attempts(5)
        .with_system("be brief".to_string());
    assert_eq!(opts.profile_id, Some(42));
    assert_eq!(opts.max_attempts, Some(5));
    assert_eq!(opts.system.as_deref(), Some("be brief"));
    assert!(opts.policy.is_none());
}

#[test]
fn sql_clamp_limit_cases() {
    assert_eq!(clamp_limit(None, 100, 1000), 100);
    assert_eq!(clamp_limit(Some(0), 100, 1000), 100);
    assert_eq!(clamp_limit(Some(50), 100, 1000), 50);
    assert_eq!(clamp_limit(Some(5000), 100, 1000), 1000);
}

#[test]
fn sql_options_validation_order() {
    let blank = Opts::new("model".to_string(), "   ".to_string());
    assert_eq!(
        field_error(validate_sql_tool_loop_options(&blank, false)),
        ("prompt is required".to_string(), Some("prompt".to_string()))
    );
    let no_model = Opts::new(String::new(), "prompt".to_string());
    assert_eq!(
        field_error(validate_sql_tool_loop_options(&no_model, false)),
        ("model is required".to_string(), Some("model".to_string()))
    );
    let no_target = Opts::new("model".to_string(), "prompt".to_string());
    assert_eq!(
        field_error(validate_sql_tool_loop_options(&no_target, false)),
        (
            "policy or profile_id is required".to_string(),
            Some("profile_id".to_string())
        )
    );
    let sample = Opts::new("model".to_string(), "prompt".to_string())
        .with_policy("{}".to_string())
        .with_sample_rows(true);
    assert_eq!(
        field_error(validate_sql_tool_loop_options(&sample, false)),
        (
            "sample_rows handler is required when sample_rows is enabled".to_string(),
            Some("sample_rows".to_string())
        )
    );
    assert!(validate_sql_tool_loop_options(&sample, true).is_ok());
}

#[test]
fn sql_normalize_table_name_trims_and_lowercases() {
    assert_eq!(normalize_table_name("  Users "), "users");
    assert_eq!(normalize_table_name("ÉTÉ"), "été");
}

#[test]
fn sql_system_prompt_exact_text() {
    let p = sql_loop_system_prompt(3, 100, false, true, None);
    assert_eq!(
        p,
        "You are a SQL assistant that must follow this workflow:\n\
- Use list_tables to see available tables.\n\
- Use describe_table on any table you query.\n\
- Generate a read-only SELECT query.\n\
- Call execute_sql to run it.\n\
- Maximum SQL attempts: 3.\n\
- Always keep result size <= 100 rows.\n\
- Do not execute SQL until schema inspection is complete.\n\
Return a concise summary of the results when done."
    );
    let p = sql_loop_system_prompt(2, 10, true, false, Some("  Only orders.  "));
    assert!(p.contains("- Use sample_rows for quick context if needed.\n"));
    assert!(p.contains("- Schema inspection is optional but recommended.\n"));
    assert!(p.ends_with("when done.\n\nOnly orders."));
    let p = sql_loop_system_prompt(2, 10, true, false, Some("   "));
    assert!(p.ends_with("when done."));
}

#[test]
fn sql_sample_rows_args_clamp() {
    let opts = Opts::new("m".to_string(), "p".to_string());
    let cfg = normalize_sql_tool_loop_config(&opts, true);
    assert_eq!(
        sample_rows_args(&cfg, " ".to_string(), None).unwrap_err(),
        "sample_rows requires table"
    );
    let a = sample_rows_args(&cfg, "users".to_string(), Some(50)).unwrap();
    assert_eq!(a.table, "users");
    assert_eq!(a.limit, 3);
    assert_eq!(sample_rows_args(&cfg, "users".to_string(), Some(2)).unwrap().limit, 2);
}

#[test]
fn test_execute_sql_rejects_non_read_only_validation() {
    let opts = Opts::new("model".to_string(), "prompt".to_string())
        .with_profile_id(1)
        .with_require_schema_inspection(false);
    let cfg = normalize_sql_tool_loop_config(&opts, false);
    let mut state: SqlToolLoopState<u32> = SqlToolLoopState::new();
    let limit = state.check_execute_sql(&cfg, "DELETE FROM users", None).unwrap();
    let r = state.accept_validated_query(
        &cfg,
        validation(true, false, "DELETE FROM users", &[]),
        limit,
    );
    assert_eq!(r.unwrap_err(), "sql.validate rejected query: read_only=false");
    assert_eq!(state.attempts, 0);
    assert_eq!(state.last_sql, "");
}

#[test]
fn sql_execute_requires_schema_inspection() {
    let opts = Opts::new("model".to_string(), "prompt".to_string()).with_policy("p".to_string());
    let cfg = normalize_sql_tool_loop_config(&opts, false);
    let mut state: SqlToolLoopState<u32> = SqlToolLoopState::new();
    let v = || validation(true, true, "SELECT * FROM users JOIN Orders", &["users", "Orders"]);
    assert_eq!(
        state.accept_validated_query(&cfg, v(), 100).unwrap_err(),
        "list_tables must be called before execute_sql"
    );
    state.record_list_tables();
    assert_eq!(
        state.accept_validated_query(&cfg, v(), 100).unwrap_err(),
        "describe_table required for: users, Orders"
    );
    assert_eq!(
        state.describe_table("  ".to_string()).unwrap_err(),
        "describe_table requires table"
    );
    assert_eq!(state.describe_table(" ORDERS ".to_string()).unwrap().table, " ORDERS ");
    state.describe_table("orders".to_string()).unwrap();
    assert_eq!(state.described_tables, vec!["orders".to_string()]);
    assert_eq!(
        state.accept_validated_query(&cfg, v(), 100).unwrap_err(),
        "describe_table required for: users"
    );
    state.describe_table("Users".to_string()).unwrap();
    let args = state.accept_validated_query(&cfg, v(), 100).unwrap();
    assert_eq!(args.query, "SELECT * FROM users JOIN Orders");
    assert_eq!(args.limit, 100);
    assert_eq!(state.attempts, 1);
    assert_eq!(state.last_sql, "SELECT * FROM users JOIN Orders");
}

#[test]
fn sql_execute_precheck_order_and_attempt_limit() {
    let opts = Opts::new("model".to_string(), "prompt".to_string())
        .with_max_attempts(1)
        .with_require_schema_inspection(false);
    let cfg = normalize_sql_tool_loop_config(&opts, false);
    let mut state: SqlToolLoopState<u32> = SqlToolLoopState::new();
    assert_eq!(
        state.check_execute_sql(&cfg, "  ", None).unwrap_err(),
        "execute_sql requires query"
    );
    assert_eq!(
        state.check_execute_sql(&cfg, "SELECT 1", None).unwrap_err(),
        "policy or profile_id is required"
    );
    let cfg = normalize_sql_tool_loop_config(&opts.with_profile_id(9), false);
    assert_eq!(state.check_execute_sql(&cfg, "SELECT 1", Some(5000)).unwrap(), 100);
    assert_eq!(state.check_execute_sql(&cfg, "SELECT 1", Some(7)).unwrap(), 7);
    for (valid, sql, msg) in [
        (false, "SELECT 1", "sql.validate rejected query"),
        (true, "  ", "sql.validate rejected query: missing normalized_sql"),
    ] {
        let r = state.accept_validated_query(&cfg, validation(valid, true, sql, &[]), 7);
        assert_eq!(r.unwrap_err(), msg);
    }
    state
        .accept_validated_query(&cfg, validation(true, true, "SELECT 1", &[]), 7)
        .unwrap();
    assert_eq!(
        state.check_execute_sql(&cfg, "SELECT 2", None).unwrap_err(),
        "max_attempts exceeded for execute_sql"
    );
}

#[test]
fn sql_results_and_notes() {
    let state: SqlToolLoopState<u32> = SqlToolLoopState::new();
    let r = state.to_result("done".to_string(), AgentUsage::default());
    assert_eq!(r.notes.as_deref(), Some("no SQL executed"));
    assert_eq!(r.attempts, 0);
    assert_eq!(r.summary, "done");

    let opts = Opts::new("model".to_string(), "prompt".to_string())
        .with_profile_id(1)
        .with_require_schema_inspection(false);
    let cfg = normalize_sql_tool_loop_config(&opts, false);
    let mut state: SqlToolLoopState<u32> = SqlToolLoopState::new();
    state
        .accept_validated_query(&cfg, validation(true, true, "SELECT 1", &[]), 10)
        .unwrap();
    state.record_execute_result(vec!["a".to_string()], vec![]);
    assert_eq!(state.last_notes, "query returned no rows");
    state.record_execute_result(vec!["a".to_string()], vec![1, 2]);
    assert_eq!(state.last_notes, "");
    let r = state.to_result("s".to_string(), AgentUsage::default());
    assert_eq!(r.notes, None);
    assert_eq!(r.sql, "SELECT 1");
    assert_eq!(r.rows, vec![1, 2]);
    assert_eq!(r.columns, vec!["a".to_string()]);
    assert_eq!(r.attempts, 1);
}
