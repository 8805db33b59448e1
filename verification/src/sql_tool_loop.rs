//! The rules of the SQL tool loop: its options checked and normalized, the
//! system prompt it starts with, and what each tool call may do given the
//! calls that came before it.
//!
//! The loop itself (model calls, the caller's handlers, the validation
//! service) runs outside; it hands each tool call to the state kept here and
//! does what the answer says.

use vstd::prelude::*;

use crate::bash_policy::{join, join_strings};
use crate::bash_tokenizer::strings_view;
use crate::convenience::AgentUsage;
use crate::errors::{field_validation, is_field_error, Error};
use crate::plugin_markdown::{to_lowercase, unicode_lowercase};
use crate::text::{
    chars_of, decimal, decimal_chars, extend_chars, extend_str, str_eq, string_of, trim,
    trim_chars,
};

verus! {

pub const DEFAULT_MAX_ATTEMPTS: usize = 3;

pub const DEFAULT_SAMPLE_ROWS_LIMIT: usize = 3;

pub const MAX_SAMPLE_ROWS_LIMIT: usize = 10;

pub const DEFAULT_RESULT_LIMIT: usize = 100;

pub const MAX_RESULT_LIMIT: usize = 1000;

/// A requested limit: the fallback when none or zero was asked for, else the
/// request capped at `max`.
pub open spec fn clamped(value: Option<usize>, fallback: usize, max: usize) -> usize {
    let v = match value {
        Some(v) => v,
        None => fallback,
    };
    if v == 0 {
        fallback
    } else if v <= max {
        v
    } else {
        max
    }
}

/// Applies a limit the way every limit of the loop is applied.
pub fn clamp_limit(value: Option<usize>, fallback: usize, max: usize) -> (r: usize)
    ensures
        r == clamped(value, fallback, max),
        fallback <= max ==> r <= max,
        0 < fallback && 0 < max ==> 0 < r,
{
    let v = match value {
        Some(v) => v,
        None => fallback,
    };
    if v == 0 {
        fallback
    } else if v <= max {
        v
    } else {
        max
    }
}

/// The key under which a table counts as described: its name trimmed and
/// lower-cased.
pub open spec fn table_key(name: Seq<char>) -> Seq<char> {
    unicode_lowercase(trim(name))
}

pub fn normalize_table_name(name: &str) -> (r: String)
    ensures
        r@ == table_key(name@),
{
    let c = chars_of(name);
    let t = string_of(trim_chars(c.as_slice()).as_slice());
    to_lowercase(t.as_str())
}

/// What the SQL tool loop is asked to do. `P` is the SQL policy and `I` the
/// profile id; the loop only looks at which of them were given, and the
/// caller sends them with each validation request.
#[derive(Debug)]
pub struct SqlToolLoopOptions<P, I> {
    pub model: String,
    pub prompt: String,
    pub system: Option<String>,
    pub policy: Option<P>,
    pub profile_id: Option<I>,
    pub max_attempts: Option<usize>,
    pub require_schema_inspection: Option<bool>,
    pub sample_rows: Option<bool>,
    pub sample_rows_limit: Option<usize>,
    pub result_limit: Option<usize>,
}

impl<P, I> SqlToolLoopOptions<P, I> {
    /// Options with a model and a prompt, everything else unset.
    pub fn new(model: String, prompt: String) -> (r: Self)
        ensures
            r.model == model,
            r.prompt == prompt,
            r.system is None,
            r.policy is None,
            r.profile_id is None,
            r.max_attempts is None,
            r.require_schema_inspection is None,
            r.sample_rows is None,
            r.sample_rows_limit is None,
            r.result_limit is None,
    {
        SqlToolLoopOptions {
            model,
            prompt,
            system: None,
            policy: None,
            profile_id: None,
            max_attempts: None,
            require_schema_inspection: None,
            sample_rows: None,
            sample_rows_limit: None,
            result_limit: None,
        }
    }

    pub fn with_system(self, system: String) -> (r: Self)
        ensures
            r == (Self { system: Some(system), ..self }),
    {
        Self { system: Some(system), ..self }
    }

    pub fn with_policy(self, policy: P) -> (r: Self)
        ensures
            r == (Self { policy: Some(policy), ..self }),
    {
        Self { policy: Some(policy), ..self }
    }

    pub fn with_profile_id(self, profile_id: I) -> (r: Self)
        ensures
            r == (Self { profile_id: Some(profile_id), ..self }),
    {
        Self { profile_id: Some(profile_id), ..self }
    }

    pub fn with_max_attempts(self, max_attempts: usize) -> (r: Self)
        ensures
            r == (Self { max_attempts: Some(max_attempts), ..self }),
    {
        Self { max_attempts: Some(max_attempts), ..self }
    }

    pub fn with_sample_rows(self, enabled: bool) -> (r: Self)
        ensures
            r == (Self { sample_rows: Some(enabled), ..self }),
    {
        Self { sample_rows: Some(enabled), ..self }
    }

    pub fn with_sample_rows_limit(self, limit: usize) -> (r: Self)
        ensures
            r == (Self { sample_rows_limit: Some(limit), ..self }),
    {
        Self { sample_rows_limit: Some(limit), ..self }
    }

    pub fn with_result_limit(self, limit: usize) -> (r: Self)
        ensures
            r == (Self { result_limit: Some(limit), ..self }),
    {
        Self { result_limit: Some(limit), ..self }
    }

    pub fn with_require_schema_inspection(self, enabled: bool) -> (r: Self)
        ensures
            r == (Self { require_schema_inspection: Some(enabled), ..self }),
    {
        Self { require_schema_inspection: Some(enabled), ..self }
    }
}

/// Whether the options ask for sample rows explicitly.
pub open spec fn sample_rows_requested(v: Option<bool>) -> bool {
    v == Some(true)
}

/// Options are refused, in this order, for a blank prompt, an empty model,
/// neither policy nor profile id, and sample rows asked for without a
/// handler for them.
pub fn validate_sql_tool_loop_options<P, I>(
    opts: &SqlToolLoopOptions<P, I>,
    has_sample_rows_handler: bool,
) -> (r: Result<(), Error>)
    ensures
        r is Ok <==> (trim(opts.prompt@).len() > 0 && opts.model@.len() > 0 && (opts.policy is Some
            || opts.profile_id is Some) && !(sample_rows_requested(opts.sample_rows)
            && !has_sample_rows_handler)),
        trim(opts.prompt@).len() == 0 ==> (r matches Err(e) && is_field_error(
            e,
            "prompt is required"@,
            "prompt"@,
        )),
        trim(opts.prompt@).len() > 0 && opts.model@.len() == 0 ==> (r matches Err(e)
            && is_field_error(e, "model is required"@, "model"@)),
        trim(opts.prompt@).len() > 0 && opts.model@.len() > 0 && opts.policy is None
            && opts.profile_id is None ==> (r matches Err(e) && is_field_error(
            e,
            "policy or profile_id is required"@,
            "profile_id"@,
        )),
        trim(opts.prompt@).len() > 0 && opts.model@.len() > 0 && (opts.policy is Some
            || opts.profile_id is Some) && sample_rows_requested(opts.sample_rows)
            && !has_sample_rows_handler ==> (r matches Err(e) && is_field_error(
            e,
            "sample_rows handler is required when sample_rows is enabled"@,
            "sample_rows"@,
        )),
{
    let p = chars_of(opts.prompt.as_str());
    if trim_chars(p.as_slice()).len() == 0 {
        return Err(field_validation("prompt is required", "prompt"));
    }
    if chars_of(opts.model.as_str()).len() == 0 {
        return Err(field_validation("model is required", "model"));
    }
    if opts.policy.is_none() && opts.profile_id.is_none() {
        return Err(field_validation("policy or profile_id is required", "profile_id"));
    }
    let wants_sample_rows = match opts.sample_rows {
        Some(b) => b,
        None => false,
    };
    if wants_sample_rows && !has_sample_rows_handler {
        return Err(
            field_validation(
                "sample_rows handler is required when sample_rows is enabled",
                "sample_rows",
            ),
        );
    }
    Ok(())
}

/// The settings the loop runs with once its options are normalized.
#[derive(Debug, Clone, Copy, PartialEq, Eq)]
pub struct SqlToolLoopConfig {
    pub max_attempts: usize,
    pub result_limit: usize,
    pub sample_rows_limit: usize,
    pub require_schema_inspection: bool,
    pub sample_rows_enabled: bool,
    /// Whether a SQL policy was given.
    pub has_policy: bool,
    /// Whether a profile id was given.
    pub has_profile_id: bool,
}

/// Fills in the defaults: at least one attempt (three when unset), the
/// result and sample limits clamped, schema inspection required unless
/// switched off, and sample rows on exactly when a handler for them exists,
/// unless the options say otherwise.
pub fn normalize_sql_tool_loop_config<P, I>(
    opts: &SqlToolLoopOptions<P, I>,
    has_sample_rows_handler: bool,
) -> (c: SqlToolLoopConfig)
    ensures
        c.max_attempts == (match opts.max_attempts {
            Some(n) => if n == 0 {
                1
            } else {
                n
            },
            None => DEFAULT_MAX_ATTEMPTS,
        }),
        c.result_limit == clamped(opts.result_limit, DEFAULT_RESULT_LIMIT, MAX_RESULT_LIMIT),
        c.sample_rows_limit == clamped(
            opts.sample_rows_limit,
            DEFAULT_SAMPLE_ROWS_LIMIT,
            MAX_SAMPLE_ROWS_LIMIT,
        ),
        c.require_schema_inspection == (match opts.require_schema_inspection {
            Some(b) => b,
            None => true,
        }),
        c.sample_rows_enabled == (match opts.sample_rows {
            Some(b) => b,
            None => has_sample_rows_handler,
        }),
        c.has_policy == opts.policy is Some,
        c.has_profile_id == opts.profile_id is Some,
        1 <= c.max_attempts,
        1 <= c.result_limit <= MAX_RESULT_LIMIT,
        1 <= c.sample_rows_limit <= MAX_SAMPLE_ROWS_LIMIT,
{
    let max_attempts = match opts.max_attempts {
        Some(n) => if n == 0 {
            1
        } else {
            n
        },
        None => DEFAULT_MAX_ATTEMPTS,
    };
    let require_schema_inspection = match opts.require_schema_inspection {
        Some(b) => b,
        None => true,
    };
    let sample_rows_enabled = match opts.sample_rows {
        Some(b) => b,
        None => has_sample_rows_handler,
    };
    SqlToolLoopConfig {
        max_attempts,
        result_limit: clamp_limit(opts.result_limit, DEFAULT_RESULT_LIMIT, MAX_RESULT_LIMIT),
        sample_rows_limit: clamp_limit(
            opts.sample_rows_limit,
            DEFAULT_SAMPLE_ROWS_LIMIT,
            MAX_SAMPLE_ROWS_LIMIT,
        ),
        require_schema_inspection,
        sample_rows_enabled,
        has_policy: opts.policy.is_some(),
        has_profile_id: opts.profile_id.is_some(),
    }
}

/// The system prompt the loop starts with: the workflow the model must
/// follow, the attempt and row limits, whether schema inspection is
/// required, and the caller's extra instructions when they are not blank.
pub open spec fn sql_system_prompt_text(
    max_attempts: nat,
    result_limit: nat,
    sample_rows: bool,
    require_schema_inspection: bool,
    extra: Option<Seq<char>>,
) -> Seq<char> {
    "You are a SQL assistant that must follow this workflow:\n- Use list_tables to see available tables.\n- Use describe_table on any table you query."@
        + (if sample_rows {
        "\n- Use sample_rows for quick context if needed."@
    } else {
        Seq::empty()
    })
        + "\n- Generate a read-only SELECT query.\n- Call execute_sql to run it.\n- Maximum SQL attempts: "@
        + decimal(max_attempts) + ".\n- Always keep result size <= "@ + decimal(result_limit)
        + " rows.\n"@ + (if require_schema_inspection {
        "- Do not execute SQL until schema inspection is complete."@
    } else {
        "- Schema inspection is optional but recommended."@
    }) + "\nReturn a concise summary of the results when done."@ + (match extra {
        Some(x) => if trim(x).len() > 0 {
            "\n\n"@ + trim(x)
        } else {
            Seq::empty()
        },
        None => Seq::empty(),
    })
}

pub fn sql_loop_system_prompt(
    max_attempts: usize,
    result_limit: usize,
    sample_rows: bool,
    require_schema_inspection: bool,
    extra: Option<&str>,
) -> (r: String)
    ensures
        r@ == sql_system_prompt_text(
            max_attempts as nat,
            result_limit as nat,
            sample_rows,
            require_schema_inspection,
            match extra {
                Some(x) => Some(x@),
                None => None,
            },
        ),
{
    let mut out = chars_of(
        "You are a SQL assistant that must follow this workflow:\n- Use list_tables to see available tables.\n- Use describe_table on any table you query.",
    );
    let ghost p0 = out@;
    if sample_rows {
        extend_str(&mut out, "\n- Use sample_rows for quick context if needed.");
    } else {
        assert(out@ =~= p0 + Seq::<char>::empty());
    }
    extend_str(
        &mut out,
        "\n- Generate a read-only SELECT query.\n- Call execute_sql to run it.\n- Maximum SQL attempts: ",
    );
    let n = decimal_chars(max_attempts as u64);
    extend_chars(&mut out, n.as_slice());
    extend_str(&mut out, ".\n- Always keep result size <= ");
    let m = decimal_chars(result_limit as u64);
    extend_chars(&mut out, m.as_slice());
    extend_str(&mut out, " rows.\n");
    if require_schema_inspection {
        extend_str(&mut out, "- Do not execute SQL until schema inspection is complete.");
    } else {
        extend_str(&mut out, "- Schema inspection is optional but recommended.");
    }
    extend_str(&mut out, "\nReturn a concise summary of the results when done.");
    let ghost before_extra = out@;
    match extra {
        Some(x) => {
            let c = chars_of(x);
            let t = trim_chars(c.as_slice());
            if t.len() > 0 {
                extend_str(&mut out, "\n\n");
                extend_chars(&mut out, t.as_slice());
            } else {
                assert(out@ =~= before_extra + Seq::<char>::empty());
            }
        },
        None => {
            assert(out@ =~= before_extra + Seq::<char>::empty());
        },
    }
    string_of(out.as_slice())
}

/// A table as the caller's `list_tables` handler reports it.
#[derive(Debug, Clone, PartialEq, Eq)]
pub struct SqlTableInfo {
    pub name: String,
    pub schema: Option<String>,
}

/// A column as the caller's `describe_table` handler reports it.
#[derive(Debug, Clone, PartialEq, Eq)]
pub struct SqlColumnInfo {
    pub name: String,
    /// The column's type (`type` on the wire).
    pub column_type: String,
    pub nullable: Option<bool>,
}

/// What the caller's `describe_table` handler returns.
#[derive(Debug, Clone, PartialEq, Eq)]
pub struct SqlTableDescription {
    pub table: String,
    pub columns: Vec<SqlColumnInfo>,
}

/// What the caller's `execute_sql` and `sample_rows` handlers return; `R`
/// is a result row.
#[derive(Debug, Clone)]
pub struct SqlExecuteResult<R> {
    pub columns: Vec<String>,
    pub rows: Vec<R>,
}

/// The table handed to the caller's `describe_table` handler.
#[derive(Debug, Clone)]
pub struct SqlDescribeTableArgs {
    pub table: String,
}

/// The table and row count handed to the caller's `sample_rows` handler.
#[derive(Debug, Clone)]
pub struct SqlSampleRowsArgs {
    pub table: String,
    pub limit: usize,
}

/// The validated query and row limit handed to the caller's `execute_sql`
/// handler.
#[derive(Debug, Clone)]
pub struct SqlExecuteArgs {
    pub query: String,
    pub limit: usize,
}

/// The parts of the validation service's answer that the loop reads.
#[derive(Debug, Clone)]
pub struct SqlValidation {
    pub valid: bool,
    pub read_only: bool,
    pub normalized_sql: String,
    /// The tables the query reads, as the service names them.
    pub tables: Vec<String>,
}

/// A row limit asked for by the model, widened to `usize`.
pub open spec fn requested_limit(limit: Option<u32>) -> Option<usize> {
    match limit {
        Some(v) => Some(v as usize),
        None => None,
    }
}

fn widen_limit(limit: Option<u32>) -> (r: Option<usize>)
    ensures
        r == requested_limit(limit),
{
    match limit {
        Some(v) => Some(v as usize),
        None => None,
    }
}

/// The arguments of a `sample_rows` call: refused for a blank table name;
/// otherwise the name as given and the asked-for row count, clamped to the
/// configured sample limit.
pub fn sample_rows_args(cfg: &SqlToolLoopConfig, table: String, limit: Option<u32>) -> (r: Result<
    SqlSampleRowsArgs,
    String,
>)
    ensures
        trim(table@).len() == 0 ==> (r matches Err(m) && m@ == "sample_rows requires table"@),
        trim(table@).len() > 0 ==> (r matches Ok(a) && a.table == table && a.limit == clamped(
            requested_limit(limit),
            cfg.sample_rows_limit,
            cfg.sample_rows_limit,
        )),
{
    let c = chars_of(table.as_str());
    if trim_chars(c.as_slice()).len() == 0 {
        return Err(crate::text::owned("sample_rows requires table"));
    }
    let n = clamp_limit(widen_limit(limit), cfg.sample_rows_limit, cfg.sample_rows_limit);
    Ok(SqlSampleRowsArgs { table, limit: n })
}

/// The checks an `execute_sql` call passes before its query goes to the
/// validation service, in this order, and the row limit it then runs with.
pub open spec fn execute_sql_precheck(
    attempts: usize,
    cfg: SqlToolLoopConfig,
    query: Seq<char>,
    limit: Option<u32>,
) -> Result<usize, Seq<char>> {
    if trim(query).len() == 0 {
        Err("execute_sql requires query"@)
    } else if attempts >= cfg.max_attempts {
        Err("max_attempts exceeded for execute_sql"@)
    } else if !cfg.has_policy && !cfg.has_profile_id {
        Err("policy or profile_id is required"@)
    } else {
        Ok(clamped(requested_limit(limit), cfg.result_limit, cfg.result_limit))
    }
}

/// The tables among `tables` whose key is not in `keys`, in order.
pub open spec fn undescribed(tables: Seq<Seq<char>>, keys: Set<Seq<char>>) -> Seq<Seq<char>>
    decreases tables.len(),
{
    if tables.len() == 0 {
        seq![]
    } else {
        let rest = undescribed(tables.drop_last(), keys);
        if keys.contains(table_key(tables.last())) {
            rest
        } else {
            rest.push(tables.last())
        }
    }
}

/// What the loop has seen so far. `R` is a result row.
#[derive(Debug)]
pub struct SqlToolLoopState<R> {
    /// Queries run so far.
    pub attempts: usize,
    pub list_tables_called: bool,
    /// The keys of the tables described so far, each once.
    pub described_tables: Vec<String>,
    pub last_sql: String,
    pub last_columns: Vec<String>,
    pub last_rows: Vec<R>,
    pub last_notes: String,
}

/// The outcome of a loop: the model's summary and the last query run.
#[derive(Debug)]
pub struct SqlToolLoopResult<R> {
    pub summary: String,
    pub sql: String,
    pub columns: Vec<String>,
    pub rows: Vec<R>,
    pub usage: AgentUsage,
    pub attempts: usize,
    pub notes: Option<String>,
}

impl<R> SqlToolLoopState<R> {
    /// The keys of the described tables.
    pub open spec fn described_keys(&self) -> Set<Seq<char>> {
        Set::new(|k: Seq<char>| strings_view(self.described_tables@).contains(k))
    }

    /// No table is recorded twice.
    pub open spec fn wf(&self) -> bool {
        forall|i: int, j: int|
            0 <= i < j < self.described_tables@.len() ==> self.described_tables@[i]@
                != self.described_tables@[j]@
    }

    /// What the loop does with the validation service's answer on a query,
    /// in this order: refuse an invalid, a writing, or an empty normalized
    /// query; then, when schema inspection is required, refuse unless
    /// `list_tables` was called and every table the query reads was
    /// described.
    pub open spec fn verdict(&self, cfg: SqlToolLoopConfig, v: SqlValidation) -> Result<(), Seq<char>> {
        let missing = undescribed(strings_view(v.tables@), self.described_keys());
        if !v.valid {
            Err("sql.validate rejected query"@)
        } else if !v.read_only {
            Err("sql.validate rejected query: read_only=false"@)
        } else if trim(v.normalized_sql@).len() == 0 {
            Err("sql.validate rejected query: missing normalized_sql"@)
        } else if cfg.require_schema_inspection && !self.list_tables_called {
            Err("list_tables must be called before execute_sql"@)
        } else if cfg.require_schema_inspection && missing.len() > 0 {
            Err("describe_table required for: "@ + join(missing, ", "@))
        } else {
            Ok(())
        }
    }

    /// A fresh loop: nothing called, nothing run.
    pub fn new() -> (s: Self)
        ensures
            s.attempts == 0,
            !s.list_tables_called,
            s.described_tables@.len() == 0,
            s.last_sql@.len() == 0,
            s.last_columns@.len() == 0,
            s.last_rows@.len() == 0,
            s.last_notes@.len() == 0,
            s.wf(),
    {
        SqlToolLoopState {
            attempts: 0,
            list_tables_called: false,
            described_tables: Vec::new(),
            last_sql: String::new(),
            last_columns: Vec::new(),
            last_rows: Vec::new(),
            last_notes: String::new(),
        }
    }

    /// Whether a table with key `key` was described.
    fn is_described(&self, key: &str) -> (r: bool)
        ensures
            r == self.described_keys().contains(key@),
    {
        let ghost sv = strings_view(self.described_tables@);
        let mut i: usize = 0;
        while i < self.described_tables.len()
            invariant
                i <= self.described_tables@.len(),
                sv == strings_view(self.described_tables@),
                forall|j: int| 0 <= j < i ==> sv[j] != key@,
            decreases self.described_tables@.len() - i,
        {
            if str_eq(self.described_tables[i].as_str(), key) {
                assert(sv[i as int] == key@);
                assert(sv.contains(key@));
                return true;
            }
            i += 1;
        }
        assert(!sv.contains(key@));
        false
    }

    /// Records a `list_tables` call.
    pub fn record_list_tables(&mut self)
        ensures
            *final(self) == (SqlToolLoopState { list_tables_called: true, ..*old(self) }),
    {
        self.list_tables_called = true;
    }

    /// A `describe_table` call: refused for a blank table name; otherwise
    /// the table's key is recorded as described and the handler gets the
    /// name as given.
    pub fn describe_table(&mut self, table: String) -> (r: Result<SqlDescribeTableArgs, String>)
        requires
            old(self).wf(),
        ensures
            final(self).wf(),
            trim(table@).len() == 0 ==> (r matches Err(m) && m@
                == "describe_table requires table"@ && *final(self) == *old(self)),
            trim(table@).len() > 0 ==> (r matches Ok(a) && a.table == table),
            trim(table@).len() > 0 ==> final(self).described_keys() == old(
                self,
            ).described_keys().insert(table_key(table@)),
            *final(self) == (SqlToolLoopState {
                described_tables: final(self).described_tables,
                ..*old(self)
            }),
    {
        let c = chars_of(table.as_str());
        if trim_chars(c.as_slice()).len() == 0 {
            return Err(crate::text::owned("describe_table requires table"));
        }
        let key = normalize_table_name(table.as_str());
        let ghost old_sv = strings_view(self.described_tables@);
        if !self.is_described(key.as_str()) {
            let ghost k = key@;
            self.described_tables.push(key);
            proof {
                let sv = strings_view(self.described_tables@);
                assert(sv =~= old_sv.push(k));
                assert(self.described_keys() =~= Set::new(|x: Seq<char>| old_sv.contains(x)).insert(
                    k,
                )) by {
                    assert forall|x: Seq<char>| sv.contains(x) implies old_sv.contains(x) || x
                        == k by {
                        let j = choose|j: int| 0 <= j < sv.len() && sv[j] == x;
                        if j < old_sv.len() {
                            assert(old_sv[j] == x);
                        }
                    }
                    assert forall|x: Seq<char>| old_sv.contains(x) implies sv.contains(x) by {
                        let j = choose|j: int| 0 <= j < old_sv.len() && old_sv[j] == x;
                        assert(sv[j] == x);
                    }
                    assert(sv[old_sv.len() as int] == k);
                }
                assert forall|i: int, j: int|
                    0 <= i < j < self.described_tables@.len() implies self.described_tables@[i]@
                    != self.described_tables@[j]@ by {
                    if j == old_sv.len() {
                        assert(sv[i] == old_sv[i]);
                        assert(old_sv.contains(old_sv[i]));
                    }
                }
            }
        } else {
            proof {
                assert(old(self).described_keys().insert(key@) =~= old(self).described_keys());
            }
        }
        Ok(SqlDescribeTableArgs { table })
    }

    /// The checks of an `execute_sql` call before validation, and its row
    /// limit.
    pub fn check_execute_sql(&self, cfg: &SqlToolLoopConfig, query: &str, limit: Option<u32>) -> (r:
        Result<usize, String>)
        ensures
            match r {
                Ok(n) => execute_sql_precheck(self.attempts, *cfg, query@, limit) == Ok::<
                    usize,
                    Seq<char>,
                >(n),
                Err(m) => execute_sql_precheck(self.attempts, *cfg, query@, limit) == Err::<
                    usize,
                    Seq<char>,
                >(m@),
            },
    {
        let c = chars_of(query);
        if trim_chars(c.as_slice()).len() == 0 {
            return Err(crate::text::owned("execute_sql requires query"));
        }
        if self.attempts >= cfg.max_attempts {
            return Err(crate::text::owned("max_attempts exceeded for execute_sql"));
        }
        let n = clamp_limit(widen_limit(limit), cfg.result_limit, cfg.result_limit);
        if !cfg.has_policy && !cfg.has_profile_id {
            return Err(crate::text::owned("policy or profile_id is required"));
        }
        Ok(n)
    }

    /// The tables the query reads that were not described, in order.
    fn missing_tables(&self, tables: &Vec<String>) -> (r: Vec<String>)
        ensures
            strings_view(r@) == undescribed(strings_view(tables@), self.described_keys()),
    {
        let ghost tv = strings_view(tables@);
        let ghost keys = self.described_keys();
        let mut missing: Vec<String> = Vec::new();
        let mut i: usize = 0;
        assert(tv.take(0) =~= Seq::<Seq<char>>::empty());
        assert(strings_view(missing@) =~= Seq::<Seq<char>>::empty());
        while i < tables.len()
            invariant
                i <= tables@.len(),
                tv == strings_view(tables@),
                keys == self.described_keys(),
                strings_view(missing@) == undescribed(tv.take(i as int), keys),
            decreases tables@.len() - i,
        {
            assert(tv.take(i + 1).drop_last() =~= tv.take(i as int));
            assert(tv.take(i + 1).last() == tables@[i as int]@);
            let key = normalize_table_name(tables[i].as_str());
            if !self.is_described(key.as_str()) {
                let ghost before = missing@;
                let name = crate::text::owned(tables[i].as_str());
                missing.push(name);
                assert(strings_view(missing@) =~= strings_view(before).push(tables@[i as int]@));
            }
            i += 1;
        }
        assert(tv.take(tables@.len() as int) =~= tv);
        missing
    }

    /// What the loop does with the validation service's answer: on
    /// acceptance one more query counts as run, it becomes the last query,
    /// and the handler gets the normalized query and the row limit; on
    /// refusal nothing changes.
    pub fn accept_validated_query(
        &mut self,
        cfg: &SqlToolLoopConfig,
        v: SqlValidation,
        limit: usize,
    ) -> (r: Result<SqlExecuteArgs, String>)
        requires
            old(self).attempts < usize::MAX,
        ensures
            match r {
                Ok(a) => {
                    &&& old(self).verdict(*cfg, v) is Ok
                    &&& a.query@ == v.normalized_sql@
                    &&& a.limit == limit
                    &&& final(self).last_sql@ == v.normalized_sql@
                    &&& *final(self) == (SqlToolLoopState {
                        attempts: (old(self).attempts + 1) as usize,
                        last_sql: final(self).last_sql,
                        ..*old(self)
                    })
                },
                Err(m) => old(self).verdict(*cfg, v) == Err::<(), Seq<char>>(m@) && *final(self)
                    == *old(self),
            },
    {
        if !v.valid {
            return Err(crate::text::owned("sql.validate rejected query"));
        }
        if !v.read_only {
            return Err(crate::text::owned("sql.validate rejected query: read_only=false"));
        }
        let c = chars_of(v.normalized_sql.as_str());
        if trim_chars(c.as_slice()).len() == 0 {
            return Err(crate::text::owned("sql.validate rejected query: missing normalized_sql"));
        }
        if cfg.require_schema_inspection {
            if !self.list_tables_called {
                return Err(crate::text::owned("list_tables must be called before execute_sql"));
            }
            let missing = self.missing_tables(&v.tables);
            if missing.len() > 0 {
                let mut out = chars_of("describe_table required for: ");
                let joined = join_strings(&missing, ", ");
                extend_chars(&mut out, joined.as_slice());
                return Err(string_of(out.as_slice()));
            }
        }
        self.attempts = self.attempts + 1;
        self.last_sql = crate::text::owned(v.normalized_sql.as_str());
        Ok(SqlExecuteArgs { query: v.normalized_sql, limit })
    }

    /// Records what the last query returned; an empty result is noted.
    pub fn record_execute_result(&mut self, columns: Vec<String>, rows: Vec<R>)
        ensures
            final(self).last_notes@ == (if rows@.len() == 0 {
                "query returned no rows"@
            } else {
                Seq::<char>::empty()
            }),
            *final(self) == (SqlToolLoopState {
                last_columns: columns,
                last_rows: rows,
                last_notes: final(self).last_notes,
                ..*old(self)
            }),
    {
        let empty = rows.len() == 0;
        self.last_columns = columns;
        self.last_rows = rows;
        if empty {
            self.last_notes = crate::text::owned("query returned no rows");
        } else {
            self.last_notes = String::new();
        }
    }

    /// The loop's outcome: the summary and usage given, with the last query,
    /// its columns and rows, the number of queries run, and a note: the last
    /// one recorded, else "no SQL executed" when no query ran.
    pub fn to_result(self, summary: String, usage: AgentUsage) -> (r: SqlToolLoopResult<R>)
        ensures
            r.summary == summary,
            r.sql == self.last_sql,
            r.columns == self.last_columns,
            r.rows == self.last_rows,
            r.usage == usage,
            r.attempts == self.attempts,
            self.last_notes@.len() > 0 ==> r.notes == Some(self.last_notes),
            self.last_notes@.len() == 0 && self.last_sql@.len() > 0 ==> r.notes is None,
            self.last_notes@.len() == 0 && self.last_sql@.len() == 0 ==> (r.notes matches Some(n)
                && n@ == "no SQL executed"@),
    {
        let notes = if self.last_notes.as_str().unicode_len() > 0 {
            Some(self.last_notes)
        } else if self.last_sql.as_str().unicode_len() == 0 {
            Some(crate::text::owned("no SQL executed"))
        } else {
            None
        };
        SqlToolLoopResult {
            summary,
            sql: self.last_sql,
            columns: self.last_columns,
            rows: self.last_rows,
            usage,
            attempts: self.attempts,
            notes,
        }
    }
}

/// Every table left out of `undescribed` has its key in `keys`.
proof fn lemma_undescribed_empty(tables: Seq<Seq<char>>, keys: Set<Seq<char>>)
    requires
        undescribed(tables, keys).len() == 0,
    ensures
        forall|i: int| 0 <= i < tables.len() ==> keys.contains(table_key(#[trigger] tables[i])),
    decreases tables.len(),
{
    if tables.len() > 0 {
        lemma_undescribed_empty(tables.drop_last(), keys);
        assert forall|i: int| 0 <= i < tables.len() implies keys.contains(
            table_key(#[trigger] tables[i]),
        ) by {
            if i < tables.len() - 1 {
                assert(tables[i] == tables.drop_last()[i]);
            }
        }
    }
}

/// A query runs only once the attempt check has passed, so the number of
/// queries run never exceeds `max_attempts`: from a state within the limit,
/// a query that passes the check and is accepted leaves it within the limit.
pub proof fn lemma_attempts_within_max<R>(
    s: SqlToolLoopState<R>,
    cfg: SqlToolLoopConfig,
    query: Seq<char>,
    limit: Option<u32>,
)
    requires
        s.attempts <= cfg.max_attempts,
        execute_sql_precheck(s.attempts, cfg, query, limit) is Ok,
    ensures
        s.attempts + 1 <= cfg.max_attempts,
{
}

/// With schema inspection required, a query is accepted only after
/// `list_tables` was called and every table it reads was described.
pub proof fn lemma_accepted_query_was_inspected<R>(
    s: SqlToolLoopState<R>,
    cfg: SqlToolLoopConfig,
    v: SqlValidation,
)
    requires
        cfg.require_schema_inspection,
        s.verdict(cfg, v) is Ok,
    ensures
        s.list_tables_called,
        forall|i: int|
            0 <= i < v.tables@.len() ==> s.described_keys().contains(
                table_key(#[trigger] v.tables@[i]@),
            ),
{
    let tv = strings_view(v.tables@);
    lemma_undescribed_empty(tv, s.described_keys());
    assert forall|i: int| 0 <= i < v.tables@.len() implies s.described_keys().contains(
        table_key(#[trigger] v.tables@[i]@),
    ) by {
        assert(tv[i] == v.tables@[i]@);
    }
}

} // verus!
