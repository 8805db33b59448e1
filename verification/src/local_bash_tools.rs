//! tools.v0 local bash tool pack: configuration, the policy gate, the
//! environment handed to commands, and the decisions taken while a command
//! runs (how output is kept, when to stop waiting, what is reported).
//!
//! Spawning the process, reading its pipes and waiting on it is done by the
//! caller, which feeds what it observes to the functions here.

use vstd::prelude::*;

use crate::bash_policy::{check, join, join_strings, BashPolicy};
use crate::bash_tokenizer::{strings_view, tokenize};
use crate::local_fs_tools::duration_ms_text;
use crate::local_tools_common::{
    filter_env, insert_trimmed_names, keep_allowed, nonblank_trimmed, pairs_view, EnvMode,
    LocalToolError,
};
use crate::text::{chars_of, extend_chars, extend_str, string_of, trim, trim_chars};

verus! {

pub const LOCAL_BASH_DEFAULT_TIMEOUT_MS: u64 = 10_000;
pub const LOCAL_BASH_DEFAULT_MAX_OUTPUT_BYTES: u64 = 32_000;
pub const LOCAL_BASH_HARD_MAX_OUTPUT_BYTES: u64 = 256_000;

/// Configuration for the local bash tool pack (timeout in milliseconds).
///
/// `env_source` is an environment injected in place of the process
/// environment; when `None` the caller reads the process environment.
#[derive(Debug)]
pub struct LocalBashConfig {
    pub root_abs: String,
    pub timeout_ms: u64,
    pub max_output_bytes: u64,
    pub hard_max_output_bytes: u64,
    pub policy: BashPolicy,
    pub env_mode: EnvMode,
    pub env_allow: Vec<String>,
    pub env_source: Option<Vec<(String, String)>>,
}

/// The defaults: a 10 s timeout, 32 000 / 256 000 output bytes, the default
/// policy, an empty environment (the root is not constrained).
pub open spec fn bash_defaults(c: LocalBashConfig) -> bool {
    &&& c.timeout_ms == LOCAL_BASH_DEFAULT_TIMEOUT_MS
    &&& c.max_output_bytes == LOCAL_BASH_DEFAULT_MAX_OUTPUT_BYTES
    &&& c.hard_max_output_bytes == LOCAL_BASH_HARD_MAX_OUTPUT_BYTES
    &&& c.policy@ == crate::bash_policy::default_policy()
    &&& c.env_mode == EnvMode::Empty
    &&& c.env_allow@.len() == 0
    &&& c.env_source is None
}

impl LocalBashConfig {
    pub fn default() -> (r: Self)
        ensures
            r.root_abs@.len() == 0,
            bash_defaults(r),
    {
        LocalBashConfig {
            root_abs: String::new(),
            timeout_ms: LOCAL_BASH_DEFAULT_TIMEOUT_MS,
            max_output_bytes: LOCAL_BASH_DEFAULT_MAX_OUTPUT_BYTES,
            hard_max_output_bytes: LOCAL_BASH_HARD_MAX_OUTPUT_BYTES,
            policy: BashPolicy::new(),
            env_mode: EnvMode::Empty,
            env_allow: Vec::new(),
            env_source: None,
        }
    }
}

/// A configuration option of the bash tool pack.
#[derive(Debug)]
pub enum LocalBashOption {
    Timeout(u64),
    MaxOutputBytes(u64),
    HardMaxOutputBytes(u64),
    Policy(BashPolicy),
    InheritEnv,
    AllowEnvVars(Vec<String>),
    EnvSource(Vec<(String, String)>),
}

/// Sets the timeout for command execution (milliseconds).
pub fn with_bash_timeout(ms: u64) -> (r: LocalBashOption)
    ensures
        r == LocalBashOption::Timeout(ms),
{
    LocalBashOption::Timeout(ms)
}

/// Sets the soft limit for output bytes.
/// Output beyond this limit will be truncated.
pub fn with_bash_max_output_bytes(n: u64) -> (r: LocalBashOption)
    ensures
        r == LocalBashOption::MaxOutputBytes(n),
{
    LocalBashOption::MaxOutputBytes(n)
}

/// Sets the hard cap for output bytes.
/// This is the absolute maximum regardless of requested limits.
pub fn with_bash_hard_max_output_bytes(n: u64) -> (r: LocalBashOption)
    ensures
        r == LocalBashOption::HardMaxOutputBytes(n),
{
    LocalBashOption::HardMaxOutputBytes(n)
}

/// Sets the bash policy for command execution.
pub fn with_bash_policy(policy: BashPolicy) -> (r: LocalBashOption)
    ensures
        r == LocalBashOption::Policy(policy),
{
    LocalBashOption::Policy(policy)
}

/// Inherits all environment variables from the parent process.
pub fn with_bash_inherit_env() -> (r: LocalBashOption)
    ensures
        r == LocalBashOption::InheritEnv,
{
    LocalBashOption::InheritEnv
}

/// Only passes the specified environment variables to the command.
pub fn with_bash_allow_env_vars(names: Vec<String>) -> (r: LocalBashOption)
    ensures
        r == LocalBashOption::AllowEnvVars(names),
{
    LocalBashOption::AllowEnvVars(names)
}

/// Injects a fixed environment in place of the process environment.
pub fn with_bash_env_source(vars: Vec<(String, String)>) -> (r: LocalBashOption)
    ensures
        r == LocalBashOption::EnvSource(vars),
{
    LocalBashOption::EnvSource(vars)
}

/// The configuration after applying option `o` to `c`.
pub open spec fn bash_option_applies(c: LocalBashConfig, o: LocalBashOption, r: LocalBashConfig) -> bool {
    match o {
        LocalBashOption::Timeout(n) => r == (LocalBashConfig { timeout_ms: n, ..c }),
        LocalBashOption::MaxOutputBytes(n) => r == (LocalBashConfig { max_output_bytes: n, ..c }),
        LocalBashOption::HardMaxOutputBytes(n) => r == (LocalBashConfig {
            hard_max_output_bytes: n,
            ..c
        }),
        LocalBashOption::Policy(p) => r == (LocalBashConfig { policy: p, ..c }),
        LocalBashOption::InheritEnv => r == (LocalBashConfig { env_mode: EnvMode::InheritAll, ..c }),
        LocalBashOption::AllowEnvVars(names) => r == (LocalBashConfig {
            env_mode: EnvMode::Allowlist,
            env_allow: r.env_allow,
            ..c
        }) && strings_view(r.env_allow@).to_set() == strings_view(c.env_allow@).to_set().union(
            nonblank_trimmed(strings_view(names@)),
        ),
        LocalBashOption::EnvSource(vars) => r == (LocalBashConfig { env_source: Some(vars), ..c }),
    }
}

/// The configuration obtained by applying `opts` in order to `c`.
pub open spec fn bash_options_apply(c: LocalBashConfig, opts: Seq<LocalBashOption>, r: LocalBashConfig) -> bool
    decreases opts.len(),
{
    if opts.len() == 0 {
        r == c
    } else {
        exists|mid: LocalBashConfig|
            bash_options_apply(c, opts.drop_last(), mid) && #[trigger] bash_option_applies(
                mid,
                opts.last(),
                r,
            )
    }
}

impl LocalBashOption {
    /// Applies this option to `cfg`.
    pub fn apply(self, cfg: &mut LocalBashConfig)
        ensures
            bash_option_applies(*old(cfg), self, *final(cfg)),
    {
        match self {
            LocalBashOption::Timeout(n) => cfg.timeout_ms = n,
            LocalBashOption::MaxOutputBytes(n) => cfg.max_output_bytes = n,
            LocalBashOption::HardMaxOutputBytes(n) => cfg.hard_max_output_bytes = n,
            LocalBashOption::Policy(p) => cfg.policy = p,
            LocalBashOption::InheritEnv => cfg.env_mode = EnvMode::InheritAll,
            LocalBashOption::AllowEnvVars(names) => {
                cfg.env_mode = EnvMode::Allowlist;
                insert_trimmed_names(&mut cfg.env_allow, &names);
            },
            LocalBashOption::EnvSource(vars) => cfg.env_source = Some(vars),
        }
    }
}

/// The first configuration rule that `c` breaks, if any.
pub open spec fn bash_config_error(c: LocalBashConfig) -> Option<Seq<char>> {
    if c.timeout_ms == 0 {
        Some("timeout must be > 0"@)
    } else if c.max_output_bytes == 0 {
        Some("max_output_bytes must be > 0"@)
    } else if c.hard_max_output_bytes == 0 {
        Some("hard_max_output_bytes must be > 0"@)
    } else if c.max_output_bytes > c.hard_max_output_bytes {
        Some("max_output_bytes exceeds hard_max_output_bytes"@)
    } else {
        None
    }
}

fn invalid_config(msg: &str) -> (r: Result<(), LocalToolError>)
    ensures
        r matches Err(LocalToolError::InvalidConfig(m)) && m@ == msg@,
{
    Err(LocalToolError::InvalidConfig(crate::text::owned(msg)))
}

/// Validates configuration values.
pub fn validate_config(cfg: &LocalBashConfig) -> (r: Result<(), LocalToolError>)
    ensures
        match bash_config_error(*cfg) {
            None => r is Ok,
            Some(msg) => r matches Err(LocalToolError::InvalidConfig(m)) && m@ == msg,
        },
{
    if cfg.timeout_ms == 0 {
        return invalid_config("timeout must be > 0");
    }
    if cfg.max_output_bytes == 0 {
        return invalid_config("max_output_bytes must be > 0");
    }
    if cfg.hard_max_output_bytes == 0 {
        return invalid_config("hard_max_output_bytes must be > 0");
    }
    if cfg.max_output_bytes > cfg.hard_max_output_bytes {
        return invalid_config("max_output_bytes exceeds hard_max_output_bytes");
    }
    Ok(())
}

/// LocalBashToolPack provides safe-by-default bash command execution.
///
/// The tool is deny-by-default: no commands are allowed unless explicitly
/// enabled via `with_bash_policy()` with explicit allow commands or allow-all.
/// Policy deny rules are evaluated before allow rules.
#[derive(Debug)]
pub struct LocalBashToolPack {
    pub cfg: LocalBashConfig,
}

impl LocalBashToolPack {
    /// Creates a pack for `root`, the outcome of resolving the root
    /// directory, with the defaults changed by `opts` in order. An invalid
    /// configuration is reported first, then a root that could not be
    /// resolved.
    pub fn new(root: Result<String, LocalToolError>, opts: Vec<LocalBashOption>) -> (r: Result<
        Self,
        LocalToolError,
    >)
        ensures
            exists|c0: LocalBashConfig, c: LocalBashConfig|
                bash_defaults(c0) && c0.root_abs@.len() == 0 && #[trigger] bash_options_apply(
                    c0,
                    opts@,
                    c,
                ) && match bash_config_error(c) {
                    Some(msg) => r matches Err(LocalToolError::InvalidConfig(m)) && m@ == msg,
                    None => match root {
                        Err(e) => r == Err::<Self, LocalToolError>(e),
                        Ok(root_abs) => r matches Ok(pack) && pack.cfg == (LocalBashConfig {
                            root_abs,
                            ..c
                        }),
                    },
                },
    {
        let mut cfg = LocalBashConfig::default();
        let ghost c0 = cfg;
        let ghost all = opts@;
        let n = opts.len();
        let mut rest = opts;
        let mut k: usize = 0;
        assert(all.take(0) =~= Seq::<LocalBashOption>::empty());
        assert(rest@ =~= all.skip(0));
        while rest.len() > 0
            invariant
                k <= all.len(),
                all.len() == n,
                rest@ == all.skip(k as int),
                bash_options_apply(c0, all.take(k as int), cfg),
            decreases rest@.len(),
        {
            let ghost mid = cfg;
            let o = rest.remove(0);
            assert(o == all[k as int]);
            o.apply(&mut cfg);
            assert(all.take(k + 1).drop_last() =~= all.take(k as int));
            assert(bash_option_applies(mid, all.take(k + 1).last(), cfg));
            assert(rest@ =~= all.skip(k + 1));
            k += 1;
        }
        assert(all.take(all.len() as int) =~= all);
        assert(bash_options_apply(c0, all, cfg));
        let ghost c = cfg;
        match validate_config(&cfg) {
            Err(e) => Err(e),
            Ok(()) => match root {
                Err(e) => Err(e),
                Ok(root_abs) => {
                    cfg.root_abs = root_abs;
                    Ok(LocalBashToolPack { cfg })
                },
            },
        }
    }

    /// Checks a command against the pack's policy.
    pub fn check_policy(&self, command: &str) -> (r: Result<(), String>)
        ensures
            crate::bash_policy::result_view(r) == check(self.cfg.policy@, tokenize(command@)),
    {
        match self.cfg.policy.check_command(command) {
            Ok(_) => Ok(()),
            Err(e) => Err(e),
        }
    }

    /// The environment handed to a command: the injected environment, or
    /// `process_env` when none was injected, filtered by the pack's mode.
    pub fn build_env(&self, process_env: Vec<(String, String)>) -> (r: Vec<(String, String)>)
        ensures
            ({
                let src = match self.cfg.env_source {
                    Some(v) => pairs_view(v@),
                    None => pairs_view(process_env@),
                };
                &&& self.cfg.env_mode == EnvMode::Empty ==> r@.len() == 0
                &&& self.cfg.env_mode == EnvMode::InheritAll ==> pairs_view(r@) == src
                &&& self.cfg.env_mode == EnvMode::Allowlist ==> pairs_view(r@) == keep_allowed(
                    src,
                    strings_view(self.cfg.env_allow@).to_set(),
                )
            }),
    {
        let vars = match &self.cfg.env_source {
            Some(v) => copy_pairs(v),
            None => process_env,
        };
        filter_env(vars, &self.cfg.env_mode, &self.cfg.env_allow)
    }
}

fn copy_pairs(v: &Vec<(String, String)>) -> (r: Vec<(String, String)>)
    ensures
        pairs_view(r@) == pairs_view(v@),
{
    let mut r: Vec<(String, String)> = Vec::new();
    let mut i: usize = 0;
    while i < v.len()
        invariant
            i <= v@.len(),
            pairs_view(r@) == pairs_view(v@.take(i as int)),
        decreases v@.len() - i,
    {
        let k = v[i].0.clone();
        let val = v[i].1.clone();
        let ghost r0 = r@;
        r.push((k, val));
        assert(pairs_view(r@) =~= pairs_view(r0).push((k@, val@)));
        assert(pairs_view(v@.take(i + 1)) =~= pairs_view(v@.take(i as int)).push(
            (v@[i as int].0@, v@[i as int].1@),
        ));
        i += 1;
    }
    assert(v@.take(v@.len() as int) =~= v@);
    r
}

/// Arguments of the bash tool.
#[derive(Debug, Clone)]
pub struct BashArgs {
    pub command: String,
}

impl BashArgs {
    /// Refuses a blank command.
    pub fn validate(&self) -> (r: Result<(), String>)
        ensures
            crate::bash_policy::result_view(r) == (if trim(self.command@).len() == 0 {
                Err("command cannot be empty"@)
            } else {
                Ok::<(), Seq<char>>(())
            }),
    {
        let c = chars_of(self.command.as_str());
        let t = trim_chars(c.as_slice());
        if t.len() == 0 {
            return Err(crate::text::owned("command cannot be empty"));
        }
        Ok(())
    }
}

/// What was collected from one output pipe of a command.
#[derive(Debug)]
pub struct DrainResult {
    /// Collected output bytes.
    pub output: Vec<u8>,
    /// True if output was truncated due to size limits.
    pub truncated: bool,
    /// Error message if reading failed (other than end of file).
    pub read_error: Option<String>,
}

/// `a - b`, or 0 when `b > a`.
pub open spec fn sat_sub(a: int, b: int) -> int {
    if a > b {
        a - b
    } else {
        0
    }
}

/// The smaller of `a` and `b`.
pub open spec fn min_int(a: int, b: int) -> int {
    if a < b {
        a
    } else {
        b
    }
}

impl DrainResult {
    /// Nothing collected yet.
    pub fn new() -> (r: Self)
        ensures
            r.output@.len() == 0,
            !r.truncated,
            r.read_error is None,
    {
        DrainResult { output: Vec::new(), truncated: false, read_error: None }
    }

    /// Takes one non-empty chunk read from the pipe: keeps what still fits
    /// under `max_bytes` and notes when anything was dropped. Reading goes on
    /// after the limit so that the command is never blocked on a full pipe.
    pub fn absorb(&mut self, chunk: &[u8], max_bytes: usize)
        requires
            chunk@.len() > 0,
        ensures
            ({
                let remaining = sat_sub(max_bytes as int, old(self).output@.len() as int);
                let take = min_int(chunk@.len() as int, remaining);
                &&& remaining == 0 ==> final(self).output@ == old(self).output@ && final(self).truncated
                &&& remaining > 0 ==> final(self).output@ == old(self).output@ + chunk@.take(take)
                    && final(self).truncated == (old(self).truncated || take < chunk@.len())
                &&& final(self).read_error == old(self).read_error
            }),
            old(self).output@.len() <= max_bytes ==> final(self).output@.len() <= max_bytes,
    {
        let len = self.output.len();
        let remaining = if max_bytes > len {
            max_bytes - len
        } else {
            0
        };
        if remaining == 0 {
            self.truncated = true;
            return;
        }
        let n = chunk.len();
        let take = if n < remaining {
            n
        } else {
            remaining
        };
        let ghost o = self.output@;
        let mut i: usize = 0;
        while i < take
            invariant
                take <= chunk@.len(),
                i <= take,
                self.output@ == o + chunk@.take(i as int),
                self.truncated == old(self).truncated,
                self.read_error == old(self).read_error,
            decreases take - i,
        {
            self.output.push(chunk[i]);
            assert(o + chunk@.take(i + 1) =~= (o + chunk@.take(i as int)).push(chunk@[i as int]));
            i += 1;
        }
        if take < n {
            self.truncated = true;
        }
    }

    /// Records a read failure; what was collected is kept.
    pub fn fail(&mut self, err: &str)
        ensures
            final(self).output@ == old(self).output@,
            final(self).truncated == old(self).truncated,
            final(self).read_error matches Some(e) && e@ == "read error: "@ + err@,
    {
        let mut m = chars_of("read error: ");
        let e = chars_of(err);
        extend_chars(&mut m, e.as_slice());
        self.read_error = Some(string_of(m.as_slice()));
    }
}

/// The merged output of a command: stdout, then as much of stderr as fits
/// under `max_bytes`.
pub open spec fn merged_output(stdout: Seq<u8>, stderr: Seq<u8>, max_bytes: int) -> Seq<u8> {
    let remaining = sat_sub(max_bytes, stdout.len() as int);
    if remaining > 0 && stderr.len() > 0 {
        stdout + stderr.take(min_int(stderr.len() as int, remaining))
    } else {
        stdout
    }
}

/// The merged output never exceeds the output limit when stdout alone
/// does not (as the draining of each pipe guarantees).
pub proof fn lemma_merged_output_within_limit(stdout: Seq<u8>, stderr: Seq<u8>, max_bytes: int)
    requires
        stdout.len() <= max_bytes,
    ensures
        merged_output(stdout, stderr, max_bytes).len() <= max_bytes,
{
}

/// Whether the merged output lost anything.
pub open spec fn merged_truncated(
    stdout: Seq<u8>,
    stdout_truncated: bool,
    stderr: Seq<u8>,
    stderr_truncated: bool,
    max_bytes: int,
) -> bool {
    let remaining = sat_sub(max_bytes, stdout.len() as int);
    if remaining > 0 && stderr.len() > 0 {
        stdout_truncated || min_int(stderr.len() as int, remaining) < stderr.len()
            || stderr_truncated
    } else {
        stdout_truncated || stderr.len() > 0 || stderr_truncated
    }
}

/// The read errors of the two pipes, each prefixed by its pipe's name.
pub open spec fn read_errors(stdout_error: Option<String>, stderr_error: Option<String>) -> Seq<
    Seq<char>,
> {
    let a: Seq<Seq<char>> = match stdout_error {
        Some(e) => seq!["stdout: "@ + e@],
        None => seq![],
    };
    let b: Seq<Seq<char>> = match stderr_error {
        Some(e) => seq!["stderr: "@ + e@],
        None => seq![],
    };
    a + b
}

fn prefixed(prefix: &str, e: &String) -> (r: String)
    ensures
        r@ == prefix@ + e@,
{
    let mut m = chars_of(prefix);
    let c = chars_of(e.as_str());
    extend_chars(&mut m, c.as_slice());
    string_of(m.as_slice())
}

/// Merges stdout and stderr outputs, respecting `max_bytes`.
/// Returns (combined output bytes, whether anything was dropped, read errors).
pub fn merge_outputs(stdout: DrainResult, stderr: DrainResult, max_bytes: usize) -> (r: (
    Vec<u8>,
    bool,
    Vec<String>,
))
    ensures
        r.0@ == merged_output(stdout.output@, stderr.output@, max_bytes as int),
        r.1 == merged_truncated(
            stdout.output@,
            stdout.truncated,
            stderr.output@,
            stderr.truncated,
            max_bytes as int,
        ),
        strings_view(r.2@) == read_errors(stdout.read_error, stderr.read_error),
{
    let ghost out0 = stdout.output@;
    let mut output = stdout.output;
    let mut truncated = stdout.truncated;
    let mut errors: Vec<String> = Vec::new();
    if let Some(e) = &stdout.read_error {
        errors.push(prefixed("stdout: ", e));
    }
    if let Some(e) = &stderr.read_error {
        let ghost e0 = errors@;
        errors.push(prefixed("stderr: ", e));
        assert(strings_view(errors@) =~= strings_view(e0).push(errors@.last()@));
    }
    assert(strings_view(errors@) =~= read_errors(stdout.read_error, stderr.read_error));
    let len = output.len();
    let remaining = if max_bytes > len {
        max_bytes - len
    } else {
        0
    };
    let n = stderr.output.len();
    if remaining > 0 && n > 0 {
        let take = if n < remaining {
            n
        } else {
            remaining
        };
        let mut i: usize = 0;
        while i < take
            invariant
                take <= stderr.output@.len(),
                i <= take,
                output@ == out0 + stderr.output@.take(i as int),
            decreases take - i,
        {
            output.push(stderr.output[i]);
            assert(out0 + stderr.output@.take(i + 1) =~= (out0 + stderr.output@.take(
                i as int,
            )).push(stderr.output@[i as int]));
            i += 1;
        }
        if take < n || stderr.truncated {
            truncated = true;
        }
    } else if n > 0 || stderr.truncated {
        truncated = true;
    }
    (output, truncated, errors)
}

/// The thread error, if any, followed by the read errors.
pub open spec fn error_parts(thread_error: Option<String>, io_errors: Seq<Seq<char>>) -> Seq<Seq<char>> {
    match thread_error {
        Some(e) => seq![e@] + io_errors,
        None => io_errors,
    }
}

/// Combines thread and I/O errors into one message joined by `"; "`, if any.
pub fn combine_errors(thread_error: Option<String>, io_errors: Vec<String>) -> (r: Option<String>)
    ensures
        ({
            let parts = error_parts(thread_error, strings_view(io_errors@));
            match r {
                None => parts.len() == 0,
                Some(m) => parts.len() > 0 && m@ == join(parts, "; "@),
            }
        }),
{
    let mut parts: Vec<String> = Vec::new();
    if let Some(e) = thread_error {
        parts.push(e);
    }
    let ghost p0 = strings_view(parts@);
    let mut i: usize = 0;
    while i < io_errors.len()
        invariant
            i <= io_errors@.len(),
            strings_view(parts@) == p0 + strings_view(io_errors@).take(i as int),
        decreases io_errors@.len() - i,
    {
        let ghost before = parts@;
        parts.push(io_errors[i].clone());
        assert(strings_view(parts@) =~= strings_view(before).push(io_errors@[i as int]@));
        assert(p0 + strings_view(io_errors@).take(i + 1) =~= (p0 + strings_view(io_errors@).take(
            i as int,
        )).push(io_errors@[i as int]@));
        i += 1;
    }
    assert(strings_view(io_errors@).take(io_errors@.len() as int) =~= strings_view(io_errors@));
    assert(strings_view(parts@) =~= error_parts(thread_error, strings_view(io_errors@)));
    if parts.len() == 0 {
        None
    } else {
        let j = join_strings(&parts, "; ");
        Some(string_of(j.as_slice()))
    }
}

/// Result of a bash command execution.
#[derive(Debug, Clone)]
pub struct BashResult {
    /// Combined stdout and stderr output.
    pub output: String,
    /// Command exit code (-1 if process failed to run).
    pub exit_code: i32,
    /// True if the command timed out.
    pub timed_out: bool,
    /// True if output was truncated due to size limits.
    pub output_truncated: bool,
    /// Error message if command failed to execute.
    pub error: Option<String>,
}

/// The message of a command stopped at its timeout.
pub open spec fn timeout_text(timeout_ms: u64) -> Seq<char> {
    "command timed out after "@ + duration_ms_text(timeout_ms as nat)
}

fn timeout_message(timeout_ms: u64) -> (r: Vec<char>)
    ensures
        r@ == timeout_text(timeout_ms),
{
    let d = crate::local_fs_tools::search_timeout_message(timeout_ms);
    let dc = chars_of(d.as_str());
    let prefix_len: usize = 27;
    proof {
        reveal_strlit("fs.search: timed out after ");
    }
    let tail = crate::text::slice_chars(dc.as_slice(), prefix_len, dc.len());
    let mut m = chars_of("command timed out after ");
    extend_chars(&mut m, tail.as_slice());
    proof {
        assert(tail@ =~= duration_ms_text(timeout_ms as nat));
    }
    m
}

impl BashResult {
    /// A command that could not be run: no output, exit code -1.
    pub fn error(msg: String) -> (r: Self)
        ensures
            r.output@.len() == 0,
            r.exit_code == -1,
            !r.timed_out,
            !r.output_truncated,
            r.error == Some(msg),
    {
        BashResult {
            output: String::new(),
            exit_code: -1,
            timed_out: false,
            output_truncated: false,
            error: Some(msg),
        }
    }

    /// A command stopped at its timeout, with what it wrote.
    pub fn timeout(output: String, output_truncated: bool, timeout_ms: u64) -> (r: Self)
        ensures
            r.output == output,
            r.exit_code == -1,
            r.timed_out,
            r.output_truncated == output_truncated,
            r.error matches Some(e) && e@ == timeout_text(timeout_ms),
    {
        let m = timeout_message(timeout_ms);
        BashResult {
            output,
            exit_code: -1,
            timed_out: true,
            output_truncated,
            error: Some(string_of(m.as_slice())),
        }
    }

    /// A command that ran to its end.
    pub fn success(output: String, exit_code: i32, output_truncated: bool) -> (r: Self)
        ensures
            r.output == output,
            r.exit_code == exit_code,
            !r.timed_out,
            r.output_truncated == output_truncated,
            r.error is None,
    {
        BashResult { output, exit_code, timed_out: false, output_truncated, error: None }
    }
}

/// How waiting for a command ended.
#[derive(Debug, Clone)]
pub enum WaitOutcome {
    /// Process exited normally.
    Exited,
    /// Process was killed due to timeout.
    TimedOut,
    /// Waiting on the process failed.
    WaitFailed(String),
    /// Timeout occurred but the process could not be killed.
    KillFailed(String),
}

/// The result reported for a command, given how waiting ended, its exit
/// code, its merged output and the combined pipe errors.
pub open spec fn bash_outcome_spec(
    wait: WaitOutcome,
    exit_code: i32,
    output: String,
    output_truncated: bool,
    combined_error: Option<String>,
    timeout_ms: u64,
    r: BashResult,
) -> bool {
    match wait {
        WaitOutcome::Exited => r == (BashResult {
            output,
            exit_code,
            timed_out: false,
            output_truncated,
            error: combined_error,
        }),
        WaitOutcome::TimedOut => r.output == output && r.exit_code == -1 && r.timed_out
            && r.output_truncated == output_truncated && (r.error matches Some(e) && e@
            == timeout_text(timeout_ms)),
        WaitOutcome::WaitFailed(err) => r.output@.len() == 0 && r.exit_code == -1 && !r.timed_out
            && !r.output_truncated && (r.error matches Some(e) && e@
            == "failed to wait for process: "@ + err@),
        WaitOutcome::KillFailed(err) => r.output == output && r.exit_code == -1 && r.timed_out
            && r.output_truncated == output_truncated && (r.error matches Some(e) && e@
            == timeout_text(timeout_ms) + ", but failed to kill process: "@ + err@),
    }
}

/// Builds the result of a command once waiting has ended.
pub fn bash_outcome(
    wait: WaitOutcome,
    exit_code: i32,
    output: String,
    output_truncated: bool,
    combined_error: Option<String>,
    timeout_ms: u64,
) -> (r: BashResult)
    ensures
        bash_outcome_spec(wait, exit_code, output, output_truncated, combined_error, timeout_ms, r),
{
    match wait {
        WaitOutcome::Exited => {
            match combined_error {
                Some(err) => BashResult {
                    output,
                    exit_code,
                    timed_out: false,
                    output_truncated,
                    error: Some(err),
                },
                None => BashResult::success(output, exit_code, output_truncated),
            }
        },
        WaitOutcome::TimedOut => BashResult::timeout(output, output_truncated, timeout_ms),
        WaitOutcome::WaitFailed(err) => BashResult::error(prefixed("failed to wait for process: ", &err)),
        WaitOutcome::KillFailed(err) => {
            let mut m = timeout_message(timeout_ms);
            extend_str(&mut m, ", but failed to kill process: ");
            let e = chars_of(err.as_str());
            extend_chars(&mut m, e.as_slice());
            BashResult {
                output,
                exit_code: -1,
                timed_out: true,
                output_truncated,
                error: Some(string_of(m.as_slice())),
            }
        },
    }
}

/// What polling a running command found.
#[derive(Debug, Clone)]
pub enum PollOutcome {
    /// The process has exited.
    Exited,
    /// The process is still running.
    Running,
    /// Polling failed with this message.
    Failed(String),
}

/// What to do next while waiting for a command.
#[derive(Debug, Clone)]
pub enum WaitAction {
    /// Sleep briefly, then poll again.
    Sleep,
    /// Kill the process: its timeout has passed.
    KillForTimeout,
    /// Kill the process (ignoring the outcome), then report this.
    AbortWith(WaitOutcome),
    /// Stop waiting and report this.
    Finish(WaitOutcome),
}

/// One step of waiting for a command with a timeout: `elapsed_ns` is the
/// time since the command started.
pub fn wait_step(poll: PollOutcome, elapsed_ns: u128, timeout_ms: u64) -> (r: WaitAction)
    ensures
        match poll {
            PollOutcome::Exited => r matches WaitAction::Finish(WaitOutcome::Exited),
            PollOutcome::Running => if elapsed_ns > timeout_ms as int * 1_000_000 {
                r matches WaitAction::KillForTimeout
            } else {
                r matches WaitAction::Sleep
            },
            PollOutcome::Failed(err) => r matches WaitAction::AbortWith(WaitOutcome::WaitFailed(e))
                && e == err,
        },
{
    match poll {
        PollOutcome::Exited => WaitAction::Finish(WaitOutcome::Exited),
        PollOutcome::Running => {
            let limit: u128 = (timeout_ms as u128) * 1_000_000;
            if elapsed_ns > limit {
                WaitAction::KillForTimeout
            } else {
                WaitAction::Sleep
            }
        },
        PollOutcome::Failed(err) => WaitAction::AbortWith(WaitOutcome::WaitFailed(err)),
    }
}

} // verus!
