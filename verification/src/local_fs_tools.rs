//! tools.v0 local filesystem tool pack: configuration, argument checks,
//! request plans and the text processing of `fs.edit`.
//!
//! Reading the disk is done by the caller with the plans computed here.

use vstd::prelude::*;

use crate::bash_tokenizer::strings_view;
use crate::local_tools_common::{insert_trimmed_names, nonblank_trimmed, LocalToolError};
use crate::text::{chars_of, decimal, decimal_chars, extend_chars, extend_str, string_of, trim, trim_chars};

verus! {

pub const LOCAL_FS_DEFAULT_MAX_READ_BYTES: u64 = 64_000;
pub const LOCAL_FS_HARD_MAX_READ_BYTES: u64 = 1_000_000;
pub const LOCAL_FS_DEFAULT_MAX_LIST_ENTRIES: u64 = 2_000;
pub const LOCAL_FS_HARD_MAX_LIST_ENTRIES: u64 = 20_000;
pub const LOCAL_FS_DEFAULT_MAX_SEARCH_MATCHES: u64 = 100;
pub const LOCAL_FS_HARD_MAX_SEARCH_MATCHES: u64 = 2_000;
pub const LOCAL_FS_DEFAULT_SEARCH_TIMEOUT_MS: u64 = 5_000;
pub const LOCAL_FS_DEFAULT_MAX_SEARCH_BYTES: u64 = 1_000_000;

/// Configuration of the filesystem tool pack (timeouts in milliseconds).
#[derive(Debug, Clone)]
pub struct LocalFSConfig {
    pub root_abs: String,
    pub ignore_dir_names: Vec<String>,
    pub max_read_bytes: u64,
    pub hard_max_read_bytes: u64,
    pub max_list_entries: u64,
    pub hard_max_list_entries: u64,
    pub max_search_matches: u64,
    pub hard_max_search_matches: u64,
    pub search_timeout_ms: u64,
    pub max_search_bytes: u64,
}

/// Directory names skipped by default by listing and search.
pub open spec fn default_ignored() -> Set<Seq<char>> {
    set![
        ".git"@,
        "node_modules"@,
        "vendor"@,
        "dist"@,
        "build"@,
        ".next"@,
        "target"@,
        ".idea"@,
        ".vscode"@,
    ]
}

fn default_ignored_dir_names() -> (r: Vec<String>)
    ensures
        strings_view(r@).to_set() == default_ignored(),
{
    let mut r: Vec<String> = Vec::new();
    r.push(crate::text::owned(".git"));
    r.push(crate::text::owned("node_modules"));
    r.push(crate::text::owned("vendor"));
    r.push(crate::text::owned("dist"));
    r.push(crate::text::owned("build"));
    r.push(crate::text::owned(".next"));
    r.push(crate::text::owned("target"));
    r.push(crate::text::owned(".idea"));
    r.push(crate::text::owned(".vscode"));
    proof {
        let v = strings_view(r@);
        assert(v =~= seq![
            ".git"@,
            "node_modules"@,
            "vendor"@,
            "dist"@,
            "build"@,
            ".next"@,
            "target"@,
            ".idea"@,
            ".vscode"@,
        ]);
        assert forall|x: Seq<char>| v.to_set().contains(x) == default_ignored().contains(x) by {
            if default_ignored().contains(x) {
                if x == ".git"@ { assert(v[0] == x); }
                else if x == "node_modules"@ { assert(v[1] == x); }
                else if x == "vendor"@ { assert(v[2] == x); }
                else if x == "dist"@ { assert(v[3] == x); }
                else if x == "build"@ { assert(v[4] == x); }
                else if x == ".next"@ { assert(v[5] == x); }
                else if x == "target"@ { assert(v[6] == x); }
                else if x == ".idea"@ { assert(v[7] == x); }
                else { assert(v[8] == x); }
            }
        }
        assert(v.to_set() =~= default_ignored());
    }
    r
}

/// The default limits and ignore list (the root is not constrained).
pub open spec fn fs_defaults(r: LocalFSConfig) -> bool {
    &&& strings_view(r.ignore_dir_names@).to_set() == default_ignored()
    &&& r.max_read_bytes == LOCAL_FS_DEFAULT_MAX_READ_BYTES
    &&& r.hard_max_read_bytes == LOCAL_FS_HARD_MAX_READ_BYTES
    &&& r.max_list_entries == LOCAL_FS_DEFAULT_MAX_LIST_ENTRIES
    &&& r.hard_max_list_entries == LOCAL_FS_HARD_MAX_LIST_ENTRIES
    &&& r.max_search_matches == LOCAL_FS_DEFAULT_MAX_SEARCH_MATCHES
    &&& r.hard_max_search_matches == LOCAL_FS_HARD_MAX_SEARCH_MATCHES
    &&& r.search_timeout_ms == LOCAL_FS_DEFAULT_SEARCH_TIMEOUT_MS
    &&& r.max_search_bytes == LOCAL_FS_DEFAULT_MAX_SEARCH_BYTES
}

impl LocalFSConfig {
    pub fn default() -> (r: Self)
        ensures
            r.root_abs@.len() == 0,
            fs_defaults(r),
    {
        Self {
            root_abs: String::new(),
            ignore_dir_names: default_ignored_dir_names(),
            max_read_bytes: LOCAL_FS_DEFAULT_MAX_READ_BYTES,
            hard_max_read_bytes: LOCAL_FS_HARD_MAX_READ_BYTES,
            max_list_entries: LOCAL_FS_DEFAULT_MAX_LIST_ENTRIES,
            hard_max_list_entries: LOCAL_FS_HARD_MAX_LIST_ENTRIES,
            max_search_matches: LOCAL_FS_DEFAULT_MAX_SEARCH_MATCHES,
            hard_max_search_matches: LOCAL_FS_HARD_MAX_SEARCH_MATCHES,
            search_timeout_ms: LOCAL_FS_DEFAULT_SEARCH_TIMEOUT_MS,
            max_search_bytes: LOCAL_FS_DEFAULT_MAX_SEARCH_BYTES,
        }
    }

    /// Whether `name` is one of the ignored directory names.
    pub fn is_ignored_dir(&self, name: &String) -> (r: bool)
        ensures
            r == strings_view(self.ignore_dir_names@).to_set().contains(name@),
    {
        let v = &self.ignore_dir_names;
        let mut i: usize = 0;
        while i < v.len()
            invariant
                v@ == self.ignore_dir_names@,
                i <= v@.len(),
                forall|j: int| 0 <= j < i ==> strings_view(v@)[j] != name@,
            decreases v@.len() - i,
        {
            assert(strings_view(v@)[i as int] == v@[i as int]@);
            if v[i] == *name {
                return true;
            }
            i += 1;
        }
        false
    }
}

/// A configuration option of the filesystem tool pack.
#[derive(Debug, Clone)]
pub enum LocalFSOption {
    IgnoreDirs(Vec<String>),
    MaxReadBytes(u64),
    HardMaxReadBytes(u64),
    MaxListEntries(u64),
    HardMaxListEntries(u64),
    MaxSearchMatches(u64),
    HardMaxSearchMatches(u64),
    SearchTimeoutMs(u64),
    MaxSearchBytes(u64),
}

/// The configuration after applying option `o` to `c`.
pub open spec fn option_applies(c: LocalFSConfig, o: LocalFSOption, r: LocalFSConfig) -> bool {
    match o {
        LocalFSOption::IgnoreDirs(names) => r == (LocalFSConfig { ignore_dir_names: r.ignore_dir_names, ..c })
            && strings_view(r.ignore_dir_names@).to_set() == strings_view(c.ignore_dir_names@).to_set().union(
            nonblank_trimmed(strings_view(names@)),
        ),
        LocalFSOption::MaxReadBytes(n) => r == (LocalFSConfig { max_read_bytes: n, ..c }),
        LocalFSOption::HardMaxReadBytes(n) => r == (LocalFSConfig { hard_max_read_bytes: n, ..c }),
        LocalFSOption::MaxListEntries(n) => r == (LocalFSConfig { max_list_entries: n, ..c }),
        LocalFSOption::HardMaxListEntries(n) => r == (LocalFSConfig { hard_max_list_entries: n, ..c }),
        LocalFSOption::MaxSearchMatches(n) => r == (LocalFSConfig { max_search_matches: n, ..c }),
        LocalFSOption::HardMaxSearchMatches(n) => r == (LocalFSConfig { hard_max_search_matches: n, ..c }),
        LocalFSOption::SearchTimeoutMs(n) => r == (LocalFSConfig { search_timeout_ms: n, ..c }),
        LocalFSOption::MaxSearchBytes(n) => r == (LocalFSConfig { max_search_bytes: n, ..c }),
    }
}

/// Configures directory names to skip during fs.list_files and fs.search.
/// Names are matched by path segment (e.g. ".git" skips any ".git" directory anywhere under root).
pub fn with_local_fs_ignore_dirs(names: Vec<String>) -> (r: LocalFSOption)
    ensures
        r == LocalFSOption::IgnoreDirs(names),
{
    LocalFSOption::IgnoreDirs(names)
}

/// Changes the default max_bytes when the tool call does not specify max_bytes.
pub fn with_local_fs_max_read_bytes(n: u64) -> (r: LocalFSOption)
    ensures
        r == LocalFSOption::MaxReadBytes(n),
{
    LocalFSOption::MaxReadBytes(n)
}

/// Changes the hard cap for fs.read_file max_bytes.
pub fn with_local_fs_hard_max_read_bytes(n: u64) -> (r: LocalFSOption)
    ensures
        r == LocalFSOption::HardMaxReadBytes(n),
{
    LocalFSOption::HardMaxReadBytes(n)
}

/// Changes the default max_entries when the tool call does not specify max_entries.
pub fn with_local_fs_max_list_entries(n: u64) -> (r: LocalFSOption)
    ensures
        r == LocalFSOption::MaxListEntries(n),
{
    LocalFSOption::MaxListEntries(n)
}

/// Changes the hard cap for fs.list_files max_entries.
pub fn with_local_fs_hard_max_list_entries(n: u64) -> (r: LocalFSOption)
    ensures
        r == LocalFSOption::HardMaxListEntries(n),
{
    LocalFSOption::HardMaxListEntries(n)
}

/// Changes the default max_matches when the tool call does not specify max_matches.
pub fn with_local_fs_max_search_matches(n: u64) -> (r: LocalFSOption)
    ensures
        r == LocalFSOption::MaxSearchMatches(n),
{
    LocalFSOption::MaxSearchMatches(n)
}

/// Changes the hard cap for fs.search max_matches.
pub fn with_local_fs_hard_max_search_matches(n: u64) -> (r: LocalFSOption)
    ensures
        r == LocalFSOption::HardMaxSearchMatches(n),
{
    LocalFSOption::HardMaxSearchMatches(n)
}

/// Configures the timeout for fs.search (milliseconds).
pub fn with_local_fs_search_timeout(ms: u64) -> (r: LocalFSOption)
    ensures
        r == LocalFSOption::SearchTimeoutMs(ms),
{
    LocalFSOption::SearchTimeoutMs(ms)
}

/// Sets a per-file byte limit for the fs.search implementation.
pub fn with_local_fs_max_search_bytes(n: u64) -> (r: LocalFSOption)
    ensures
        r == LocalFSOption::MaxSearchBytes(n),
{
    LocalFSOption::MaxSearchBytes(n)
}

impl LocalFSOption {
    /// Applies this option to `cfg`.
    pub fn apply(&self, cfg: &mut LocalFSConfig)
        ensures
            option_applies(*old(cfg), *self, *final(cfg)),
    {
        match self {
            LocalFSOption::IgnoreDirs(names) => insert_trimmed_names(&mut cfg.ignore_dir_names, names),
            LocalFSOption::MaxReadBytes(n) => cfg.max_read_bytes = *n,
            LocalFSOption::HardMaxReadBytes(n) => cfg.hard_max_read_bytes = *n,
            LocalFSOption::MaxListEntries(n) => cfg.max_list_entries = *n,
            LocalFSOption::HardMaxListEntries(n) => cfg.hard_max_list_entries = *n,
            LocalFSOption::MaxSearchMatches(n) => cfg.max_search_matches = *n,
            LocalFSOption::HardMaxSearchMatches(n) => cfg.hard_max_search_matches = *n,
            LocalFSOption::SearchTimeoutMs(n) => cfg.search_timeout_ms = *n,
            LocalFSOption::MaxSearchBytes(n) => cfg.max_search_bytes = *n,
        }
    }
}

/// The configuration obtained by applying `opts` in order to `c`.
pub open spec fn options_apply(c: LocalFSConfig, opts: Seq<LocalFSOption>, r: LocalFSConfig) -> bool
    decreases opts.len(),
{
    if opts.len() == 0 {
        r == c
    } else {
        exists|mid: LocalFSConfig|
            options_apply(c, opts.drop_last(), mid) && #[trigger] option_applies(mid, opts.last(), r)
    }
}

/// LocalFSToolPack provides safe-by-default implementations of tools.v0 filesystem tools:
/// fs.read_file, fs.list_files, fs.search and fs.edit.
///
/// The pack confines paths to its root, refuses path traversal, skips ignored directories, and caps sizes and times.
#[derive(Clone, Debug)]
pub struct LocalFSToolPack {
    pub cfg: LocalFSConfig,
}

impl LocalFSToolPack {
    /// Creates a pack for `root`, the outcome of resolving the root
    /// directory, with the defaults changed by `opts` in order. A root that
    /// could not be resolved is reported as it came.
    pub fn new(root: Result<String, LocalToolError>, opts: Vec<LocalFSOption>) -> (r: Result<
        Self,
        LocalToolError,
    >)
        ensures
            match root {
                Err(e) => r == Err::<Self, LocalToolError>(e),
                Ok(root_abs) => r matches Ok(pack) && pack.cfg.root_abs == root_abs && exists|
                    c0: LocalFSConfig,
                |
                    fs_defaults(c0) && c0.root_abs == root_abs && #[trigger] options_apply(
                        c0,
                        opts@,
                        pack.cfg,
                    ),
            },
    {
        match root {
            Err(e) => Err(e),
            Ok(root_abs) => {
                let mut cfg = LocalFSConfig::default();
                cfg.root_abs = root_abs;
                let ghost c0 = cfg;
                let mut i: usize = 0;
                assert(opts@.take(0) =~= Seq::<LocalFSOption>::empty());
                while i < opts.len()
                    invariant
                        i <= opts@.len(),
                        cfg.root_abs == c0.root_abs,
                        options_apply(c0, opts@.take(i as int), cfg),
                    decreases opts@.len() - i,
                {
                    let ghost mid = cfg;
                    opts[i].apply(&mut cfg);
                    assert(opts@.take(i + 1).drop_last() =~= opts@.take(i as int));
                    assert(option_applies(mid, opts@.take(i + 1).last(), cfg));
                    i += 1;
                }
                assert(opts@.take(opts@.len() as int) =~= opts@);
                let pack = Self { cfg };
                assert(options_apply(c0, opts@, pack.cfg));
                Ok(pack)
            },
        }
    }
}

/// An argument error: `"invalid arguments: "` followed by `msg`.
pub open spec fn invalid_args_text(msg: Seq<char>) -> Seq<char> {
    "invalid arguments: "@ + msg
}

fn invalid_args(msg: &[char]) -> (r: String)
    ensures
        r@ == invalid_args_text(msg@),
{
    let mut v: Vec<char> = Vec::new();
    extend_str(&mut v, "invalid arguments: ");
    extend_chars(&mut v, msg);
    string_of(v.as_slice())
}

fn invalid_args_str(msg: &str) -> (r: String)
    ensures
        r@ == invalid_args_text(msg@),
{
    let m = chars_of(msg);
    invalid_args(m.as_slice())
}

/// `p` with every backslash turned into a forward slash.
pub open spec fn slash_normalized(p: Seq<char>) -> Seq<char> {
    Seq::new(p.len(), |i: int| if p[i] == '\\' { '/' } else { p[i] })
}

/// Whether one of the `/`-separated segments of `p` is `..`.
pub open spec fn has_parent_segment(p: Seq<char>) -> bool {
    exists|i: int|
        0 <= i && i + 2 <= p.len() && #[trigger] p[i] == '.' && p[i + 1] == '.' && (i == 0 || p[i
            - 1] == '/') && (i + 2 == p.len() || p[i + 2] == '/')
}

/// The outcome of parsing a workspace-relative path: the trimmed path with
/// backslashes normalised to `/`, refused when empty, absolute, or when one
/// of its segments is `..`.
pub open spec fn rel_path_result(raw: Seq<char>) -> Result<Seq<char>, Seq<char>> {
    let t = trim(raw);
    if t.len() == 0 {
        Err(invalid_args_text("path is required"@))
    } else {
        let p = slash_normalized(t);
        if p[0] == '/' {
            Err(invalid_args_text("path must be workspace-relative (not absolute)"@))
        } else if has_parent_segment(p) {
            Err(invalid_args_text("path must not escape the workspace root"@))
        } else {
            Ok(p)
        }
    }
}

/// A `Result` of strings, by the views of its strings.
pub open spec fn string_result(r: Result<String, String>) -> Result<Seq<char>, Seq<char>> {
    match r {
        Ok(s) => Ok(s@),
        Err(e) => Err(e@),
    }
}

fn slash_normalize(t: &[char]) -> (p: Vec<char>)
    ensures
        p@ == slash_normalized(t@),
{
    let mut p: Vec<char> = Vec::new();
    let mut i: usize = 0;
    while i < t.len()
        invariant
            i <= t@.len(),
            p@ =~= slash_normalized(t@.take(i as int)),
        decreases t@.len() - i,
    {
        let c = t[i];
        if c == '\\' {
            p.push('/');
        } else {
            p.push(c);
        }
        i += 1;
    }
    assert(t@.take(t@.len() as int) =~= t@);
    p
}

fn find_parent_segment(p: &[char]) -> (r: bool)
    ensures
        r == has_parent_segment(p@),
{
    let n = p.len();
    let mut i: usize = 0;
    while n > 0 && i < n - 1
        invariant
            n == p@.len(),
            i <= n,
            forall|j: int|
                0 <= j < i && j + 2 <= p@.len() ==> !(#[trigger] p@[j] == '.' && p@[j + 1] == '.'
                    && (j == 0 || p@[j - 1] == '/') && (j + 2 == p@.len() || p@[j + 2] == '/')),
        decreases n - i,
    {
        if p[i] == '.' && p[i + 1] == '.' && (i == 0 || p[i - 1] == '/') && (i + 2 == n || p[i
            + 2] == '/') {
            return true;
        }
        i += 1;
    }
    false
}

/// Parses a workspace-relative path (`parse_rel_path`).
pub fn parse_rel_path(raw: &str) -> (r: Result<String, String>)
    ensures
        string_result(r) == rel_path_result(raw@),
{
    let c = chars_of(raw);
    let t = trim_chars(c.as_slice());
    if t.len() == 0 {
        return Err(invalid_args_str("path is required"));
    }
    let p = slash_normalize(t.as_slice());
    if p[0] == '/' {
        return Err(invalid_args_str("path must be workspace-relative (not absolute)"));
    }
    if find_parent_segment(p.as_slice()) {
        return Err(invalid_args_str("path must not escape the workspace root"));
    }
    Ok(string_of(p.as_slice()))
}

/// The path that an optional path argument stands for: its trimmed text,
/// or `.` when it is missing or blank.
pub open spec fn optional_path_start(raw: Option<Seq<char>>) -> Seq<char> {
    match raw {
        Some(p) => if trim(p).len() > 0 {
            trim(p)
        } else {
            "."@
        },
        None => "."@,
    }
}

/// Parses an optional workspace-relative path; a missing or blank one is `.`.
pub fn parse_optional_rel_path(raw: &Option<String>) -> (r: Result<String, String>)
    ensures
        string_result(r) == rel_path_result(
            optional_path_start(
                match raw {
                    Some(s) => Some(s@),
                    None => None,
                },
            ),
        ),
{
    match raw {
        Some(s) => {
            let c = chars_of(s.as_str());
            let t = trim_chars(c.as_slice());
            if t.len() > 0 {
                let ts = string_of(t.as_slice());
                parse_rel_path(ts.as_str())
            } else {
                parse_rel_path(".")
            }
        },
        None => parse_rel_path("."),
    }
}

/// Every path that parsing accepts is relative, names no parent directory
/// and holds no backslash.
pub proof fn lemma_parsed_path_stays_inside(raw: Seq<char>)
    requires
        rel_path_result(raw) is Ok,
    ensures
        ({
            let p = rel_path_result(raw)->Ok_0;
            &&& p.len() > 0
            &&& p[0] != '/'
            &&& !has_parent_segment(p)
            &&& forall|i: int| 0 <= i < p.len() ==> p[i] != '\\'
        }),
{
}

/// The value of an optional numeric argument: the request (refused above the
/// hard cap) or the default, with 0 raised to 1.
pub open spec fn cap_result(requested: Option<u64>, default: u64, hard: u64, name: Seq<char>) -> Result<
    u64,
    Seq<char>,
> {
    match requested {
        Some(q) => if q > hard {
            Err(invalid_args_text(name + " exceeds hard cap ("@ + decimal(hard as nat) + ")"@))
        } else if q == 0 {
            Ok(1)
        } else {
            Ok(q)
        },
        None => if default == 0 {
            Ok(1)
        } else {
            Ok(default)
        },
    }
}

/// Applies the default and the hard cap to an optional numeric argument.
pub fn resolve_cap(requested: Option<u64>, default: u64, hard: u64, name: &str) -> (r: Result<u64, String>)
    ensures
        match r {
            Ok(v) => cap_result(requested, default, hard, name@) == Ok::<u64, Seq<char>>(v),
            Err(e) => cap_result(requested, default, hard, name@) == Err::<u64, Seq<char>>(e@),
        },
{
    let mut value = default;
    if let Some(q) = requested {
        if q > hard {
            let mut m = chars_of(name);
            extend_str(&mut m, " exceeds hard cap (");
            let d = decimal_chars(hard);
            extend_chars(&mut m, d.as_slice());
            extend_str(&mut m, ")");
            return Err(invalid_args(m.as_slice()));
        }
        value = q;
    }
    if value == 0 {
        value = 1;
    }
    Ok(value)
}

/// Arguments of `fs.read_file`.
#[derive(Debug, Clone)]
pub struct FsReadFileArgs {
    pub path: String,
    pub max_bytes: Option<u64>,
}

/// Arguments of `fs.list_files`.
#[derive(Debug, Clone)]
pub struct FsListFilesArgs {
    pub path: Option<String>,
    pub max_entries: Option<u64>,
}

/// Arguments of `fs.search`.
#[derive(Debug, Clone)]
pub struct FsSearchArgs {
    pub query: String,
    pub path: Option<String>,
    pub max_matches: Option<u64>,
}

/// Arguments of `fs.edit`.
#[derive(Debug, Clone)]
pub struct FsEditArgs {
    pub path: String,
    pub old_string: Option<String>,
    pub new_string: Option<String>,
    pub replace_all: Option<bool>,
}

/// The outcome of checking arguments: `Ok` or the first failed rule's message.
pub open spec fn unit_result(r: Result<(), String>) -> Result<(), Seq<char>> {
    match r {
        Ok(_) => Ok(()),
        Err(e) => Err(e@),
    }
}

fn is_blank(s: &String) -> (r: bool)
    ensures
        r == (trim(s@).len() == 0),
{
    let c = chars_of(s.as_str());
    let t = trim_chars(c.as_slice());
    t.len() == 0
}

fn err_text(msg: &str) -> (r: Result<(), String>)
    ensures
        unit_result(r) == Err::<(), Seq<char>>(msg@),
{
    Err(crate::text::owned(msg))
}

impl FsReadFileArgs {
    /// Checks the arguments before any planning.
    pub fn validate(&self) -> (r: Result<(), String>)
        ensures
            unit_result(r) == (if trim(self.path@).len() == 0 {
                Err("path is required"@)
            } else if self.max_bytes == Some(0u64) {
                Err("max_bytes must be > 0"@)
            } else {
                Ok::<(), Seq<char>>(())
            }),
    {
        if is_blank(&self.path) {
            return err_text("path is required");
        }
        if let Some(n) = self.max_bytes {
            if n == 0 {
                return err_text("max_bytes must be > 0");
            }
        }
        Ok(())
    }
}

impl FsListFilesArgs {
    /// Checks the arguments before any planning.
    pub fn validate(&self) -> (r: Result<(), String>)
        ensures
            unit_result(r) == (if self.max_entries == Some(0u64) {
                Err("max_entries must be > 0"@)
            } else {
                Ok::<(), Seq<char>>(())
            }),
    {
        if let Some(n) = self.max_entries {
            if n == 0 {
                return err_text("max_entries must be > 0");
            }
        }
        Ok(())
    }
}

impl FsSearchArgs {
    /// Checks the arguments before any planning.
    pub fn validate(&self) -> (r: Result<(), String>)
        ensures
            unit_result(r) == (if trim(self.query@).len() == 0 {
                Err("query is required"@)
            } else if self.max_matches == Some(0u64) {
                Err("max_matches must be > 0"@)
            } else {
                Ok::<(), Seq<char>>(())
            }),
    {
        if is_blank(&self.query) {
            return err_text("query is required");
        }
        if let Some(n) = self.max_matches {
            if n == 0 {
                return err_text("max_matches must be > 0");
            }
        }
        Ok(())
    }
}

impl FsEditArgs {
    /// Checks the arguments before any planning.
    pub fn validate(&self) -> (r: Result<(), String>)
        ensures
            unit_result(r) == (if trim(self.path@).len() == 0 {
                Err("path is required"@)
            } else if !(self.old_string matches Some(o) && trim(o@).len() > 0) {
                Err("old_string is required"@)
            } else if self.new_string is None {
                Err("new_string is required"@)
            } else {
                Ok::<(), Seq<char>>(())
            }),
    {
        if is_blank(&self.path) {
            return err_text("path is required");
        }
        match &self.old_string {
            Some(o) => {
                if is_blank(o) {
                    return err_text("old_string is required");
                }
            },
            None => {
                return err_text("old_string is required");
            },
        }
        if self.new_string.is_none() {
            return err_text("new_string is required");
        }
        Ok(())
    }
}

/// What `fs.read_file` reads: a parsed relative path and a byte limit.
#[derive(Debug, Clone)]
pub struct ReadPlan {
    pub rel_path: String,
    pub max_bytes: u64,
}

/// What `fs.list_files` walks: a parsed relative path and an entry limit.
#[derive(Debug, Clone)]
pub struct ListPlan {
    pub rel_path: String,
    pub max_entries: u64,
}

impl LocalFSToolPack {
    /// Plans `fs.read_file`: the parsed path and the effective byte limit.
    pub fn plan_read(&self, args: &FsReadFileArgs) -> (r: Result<ReadPlan, String>)
        ensures
            match r {
                Ok(plan) => rel_path_result(args.path@) == Ok::<Seq<char>, Seq<char>>(
                    plan.rel_path@,
                ) && cap_result(
                    args.max_bytes,
                    self.cfg.max_read_bytes,
                    self.cfg.hard_max_read_bytes,
                    "max_bytes"@,
                ) == Ok::<u64, Seq<char>>(plan.max_bytes),
                Err(e) => rel_path_result(args.path@) == Err::<Seq<char>, Seq<char>>(e@) || (
                rel_path_result(args.path@) is Ok && cap_result(
                    args.max_bytes,
                    self.cfg.max_read_bytes,
                    self.cfg.hard_max_read_bytes,
                    "max_bytes"@,
                ) == Err::<u64, Seq<char>>(e@)),
            },
    {
        let rel_path = parse_rel_path(args.path.as_str())?;
        let max_bytes = resolve_cap(
            args.max_bytes,
            self.cfg.max_read_bytes,
            self.cfg.hard_max_read_bytes,
            "max_bytes",
        )?;
        Ok(ReadPlan { rel_path, max_bytes })
    }
}

/// The argument of a hit or an entry: `path` with backslashes turned into `/`.
pub fn normalize_rel_path(path: &str) -> (r: String)
    ensures
        r@ == slash_normalized(path@),
{
    let c = chars_of(path);
    let p = slash_normalize(c.as_slice());
    string_of(p.as_slice())
}

/// The relative path of a walked entry, as listed: refused when empty
/// (the entry is the root itself), else normalised.
pub fn entry_rel_path(tool: &str, rel: &str) -> (r: Result<String, String>)
    ensures
        string_result(r) == (if rel@.len() == 0 {
            Err(tool@ + ": internal error: escaped root"@)
        } else {
            Ok::<Seq<char>, Seq<char>>(slash_normalized(rel@))
        }),
{
    if rel.is_empty() {
        let mut m = chars_of(tool);
        extend_str(&mut m, ": internal error: escaped root");
        return Err(string_of(m.as_slice()));
    }
    Ok(normalize_rel_path(rel))
}

impl ListPlan {
    /// Records one listed file; reports whether the listing is complete.
    pub fn record_entry(&self, rel: String, out: &mut Vec<String>) -> (done: bool)
        ensures
            final(out)@ == old(out)@.push(rel),
            done == (final(out)@.len() >= self.max_entries),
    {
        out.push(rel);
        out.len() as u64 >= self.max_entries
    }
}

impl LocalFSToolPack {
    /// Plans `fs.list_files`: the parsed path (`.` when missing) and the
    /// effective entry limit.
    pub fn plan_list(&self, args: &FsListFilesArgs) -> (r: Result<ListPlan, String>)
        ensures
            ({
                let path = rel_path_result(
                    optional_path_start(
                        match args.path {
                            Some(s) => Some(s@),
                            None => None,
                        },
                    ),
                );
                let cap = cap_result(
                    args.max_entries,
                    self.cfg.max_list_entries,
                    self.cfg.hard_max_list_entries,
                    "max_entries"@,
                );
                match r {
                    Ok(plan) => path == Ok::<Seq<char>, Seq<char>>(plan.rel_path@) && cap == Ok::<
                        u64,
                        Seq<char>,
                    >(plan.max_entries),
                    Err(e) => path == Err::<Seq<char>, Seq<char>>(e@) || (path is Ok && cap
                        == Err::<u64, Seq<char>>(e@)),
                }
            }),
    {
        let rel_path = parse_optional_rel_path(&args.path)?;
        let max_entries = resolve_cap(
            args.max_entries,
            self.cfg.max_list_entries,
            self.cfg.hard_max_list_entries,
            "max_entries",
        )?;
        Ok(ListPlan { rel_path, max_entries })
    }
}

#[verifier::external_type_specification]
#[verifier::external_body]
pub struct ExRegex(regex::Regex);

/// What `regex::Regex::new` makes of `pattern`: `None` when it compiles,
/// else the display text of the error it returns.
pub uninterp spec fn regex_compile_error(pattern: Seq<char>) -> Option<Seq<char>>;

/// Whether the regex compiled from `pattern` matches somewhere in `haystack`
/// (`regex::Regex::is_match`).
pub uninterp spec fn regex_is_match(pattern: Seq<char>, haystack: Seq<char>) -> bool;

/// Calls `regex::Regex::new(pattern)`. Whether it fails, and the display
/// text of its error, are a function of the pattern alone, named
/// `regex_compile_error`; nothing more is claimed of them.
#[verifier::external_body]
fn compile_regex(pattern: &str) -> (r: Result<regex::Regex, String>)
    ensures
        match r {
            Ok(_) => regex_compile_error(pattern@) is None,
            Err(e) => regex_compile_error(pattern@) == Some(e@),
        },
{
    match regex::Regex::new(pattern) {
        Ok(re) => Ok(re),
        Err(err) => Err(err.to_string()),
    }
}

/// A search query compiled as a regex, with the text it was compiled from.
#[derive(Debug)]
pub struct SearchQuery {
    pattern: String,
    regex: regex::Regex,
}

impl SearchQuery {
    /// The text the regex was compiled from.
    pub closed spec fn pattern(&self) -> Seq<char> {
        self.pattern@
    }

    /// Compiles `pattern`; on failure returns the regex error's text.
    pub fn compile(pattern: &str) -> (r: Result<SearchQuery, String>)
        ensures
            match r {
                Ok(q) => regex_compile_error(pattern@) is None && q.pattern() == pattern@,
                Err(e) => regex_compile_error(pattern@) == Some(e@),
            },
    {
        match compile_regex(pattern) {
            Ok(regex) => Ok(SearchQuery { pattern: crate::text::owned(pattern), regex }),
            Err(e) => Err(e),
        }
    }
}

/// Calls `regex::Regex::is_match` on the query's regex. A `SearchQuery` is
/// only built by `SearchQuery::compile`, which compiles its regex from its
/// pattern, so the result is named by the pattern and the haystack; nothing
/// more is claimed.
#[verifier::external_body]
fn query_matches(q: &SearchQuery, haystack: &str) -> (r: bool)
    ensures
        r == regex_is_match(q.pattern(), haystack@),
{
    q.regex.is_match(haystack)
}

/// What `fs.search` scans: a parsed relative path, limits, and the compiled query.
#[derive(Debug)]
pub struct SearchPlan {
    pub rel_path: String,
    pub max_matches: u64,
    pub timeout_ms: u64,
    pub max_search_bytes: u64,
    pub query: SearchQuery,
}

/// `s` without its trailing `\r` and `\n` characters.
pub open spec fn trim_line_end(s: Seq<char>) -> Seq<char>
    decreases s.len(),
{
    if s.len() > 0 && (s.last() == '\r' || s.last() == '\n') {
        trim_line_end(s.drop_last())
    } else {
        s
    }
}

/// One search hit: `path:line:text`.
pub open spec fn hit_text(rel: Seq<char>, line_no: nat, line: Seq<char>) -> Seq<char> {
    rel + ":"@ + decimal(line_no) + ":"@ + trim_line_end(line)
}

/// How scanning a file goes on after one line.
#[derive(Debug, Clone, Copy, PartialEq, Eq, Structural)]
pub enum ScanStep {
    NextLine,
    SkipRestOfFile,
    Finished,
}

/// The progress through one file: lines counted and bytes read so far.
#[derive(Debug, Clone, Copy)]
pub struct FileScan {
    pub line_no: u64,
    pub bytes_read: u64,
}

impl FileScan {
    pub fn new() -> (r: Self)
        ensures
            r.line_no == 0,
            r.bytes_read == 0,
    {
        FileScan { line_no: 0, bytes_read: 0 }
    }
}

/// `a + b`, saturating at `u64::MAX`.
pub open spec fn sat_add(a: u64, b: int) -> u64 {
    if a + b > u64::MAX {
        u64::MAX
    } else {
        (a + b) as u64
    }
}

fn trim_line_end_chars(v: &[char]) -> (r: Vec<char>)
    ensures
        r@ == trim_line_end(v@),
{
    let mut n = v.len();
    assert(v@.take(n as int) =~= v@);
    while n > 0 && (v[n - 1] == '\r' || v[n - 1] == '\n')
        invariant
            n <= v@.len(),
            trim_line_end(v@) == trim_line_end(v@.take(n as int)),
        decreases n,
    {
        assert(v@.take(n as int).drop_last() =~= v@.take(n - 1));
        n -= 1;
    }
    assert(trim_line_end(v@.take(n as int)) == v@.take(n as int));
    crate::text::slice_chars(v, 0, n)
}

impl SearchPlan {
    /// Scans one line read from a file (with its line ending, as
    /// `BufRead::read_line` hands it out): counts its bytes, stops the file
    /// past the byte limit, else records a hit when the regex matches the
    /// line without its trailing `\r`/`\n`, and reports when enough hits
    /// were found.
    pub fn scan_line(&self, rel: &str, line: &str, scan: &mut FileScan, out: &mut Vec<String>) -> (r:
        ScanStep)
        requires
            old(scan).line_no < u64::MAX,
        ensures
            final(scan).bytes_read == sat_add(old(scan).bytes_read, line.len() as int),
            final(scan).bytes_read > self.max_search_bytes ==> r == ScanStep::SkipRestOfFile
                && final(scan).line_no == old(scan).line_no && final(out)@ == old(out)@,
            final(scan).bytes_read <= self.max_search_bytes ==> {
                &&& final(scan).line_no == old(scan).line_no + 1
                &&& if regex_is_match(self.query.pattern(), trim_line_end(line@)) {
                    &&& final(out)@.len() == old(out)@.len() + 1
                    &&& final(out)@.take(old(out)@.len() as int) == old(out)@
                    &&& final(out)@.last()@ == hit_text(rel@, final(scan).line_no as nat, line@)
                    &&& (r == ScanStep::Finished) == (final(out)@.len() >= self.max_matches)
                    &&& r != ScanStep::SkipRestOfFile
                } else {
                    final(out)@ == old(out)@ && r == ScanStep::NextLine
                }
            },
    {
        let read = line.len() as u64;
        scan.bytes_read = scan.bytes_read.saturating_add(read);
        if scan.bytes_read > self.max_search_bytes {
            return ScanStep::SkipRestOfFile;
        }
        scan.line_no = scan.line_no + 1;
        let c = chars_of(line);
        let t = trim_line_end_chars(c.as_slice());
        let trimmed = string_of(t.as_slice());
        if query_matches(&self.query, trimmed.as_str()) {
            let mut h = chars_of(rel);
            extend_str(&mut h, ":");
            let d = decimal_chars(scan.line_no);
            extend_chars(&mut h, d.as_slice());
            extend_str(&mut h, ":");
            extend_chars(&mut h, t.as_slice());
            let ghost o = out@;
            out.push(string_of(h.as_slice()));
            assert(out@.take(o.len() as int) =~= o);
            if out.len() as u64 >= self.max_matches {
                return ScanStep::Finished;
            }
        }
        ScanStep::NextLine
    }
}

/// The search timeout actually used: the configured one, or the default when 0.
pub open spec fn effective_timeout_ms(configured: u64) -> u64 {
    if configured == 0 {
        LOCAL_FS_DEFAULT_SEARCH_TIMEOUT_MS
    } else {
        configured
    }
}

/// The per-file byte limit actually used: the configured one, or the default when 0.
pub open spec fn effective_search_bytes(configured: u64) -> u64 {
    if configured == 0 {
        LOCAL_FS_DEFAULT_MAX_SEARCH_BYTES
    } else {
        configured
    }
}

impl LocalFSToolPack {
    /// Plans `fs.search`: the parsed path (`.` when missing), the effective
    /// limits and the compiled query.
    pub fn plan_search(&self, args: &FsSearchArgs) -> (r: Result<SearchPlan, String>)
        ensures
            ({
                let path = rel_path_result(
                    optional_path_start(
                        match args.path {
                            Some(s) => Some(s@),
                            None => None,
                        },
                    ),
                );
                let cap = cap_result(
                    args.max_matches,
                    self.cfg.max_search_matches,
                    self.cfg.hard_max_search_matches,
                    "max_matches"@,
                );
                let compiled = regex_compile_error(args.query@);
                match r {
                    Ok(plan) => {
                        &&& path == Ok::<Seq<char>, Seq<char>>(plan.rel_path@)
                        &&& cap == Ok::<u64, Seq<char>>(plan.max_matches)
                        &&& plan.timeout_ms == effective_timeout_ms(self.cfg.search_timeout_ms)
                        &&& plan.max_search_bytes == effective_search_bytes(
                            self.cfg.max_search_bytes,
                        )
                        &&& compiled is None
                        &&& plan.query.pattern() == args.query@
                    },
                    Err(e) => {
                        ||| path == Err::<Seq<char>, Seq<char>>(e@)
                        ||| (path is Ok && cap == Err::<u64, Seq<char>>(e@))
                        ||| (path is Ok && cap is Ok && (compiled matches Some(t) && e@
                            == invalid_args_text("invalid query regex: "@ + t)))
                    },
                }
            }),
    {
        let rel_path = parse_optional_rel_path(&args.path)?;
        let max_matches = resolve_cap(
            args.max_matches,
            self.cfg.max_search_matches,
            self.cfg.hard_max_search_matches,
            "max_matches",
        )?;
        let timeout_ms = if self.cfg.search_timeout_ms == 0 {
            LOCAL_FS_DEFAULT_SEARCH_TIMEOUT_MS
        } else {
            self.cfg.search_timeout_ms
        };
        let max_search_bytes = if self.cfg.max_search_bytes == 0 {
            LOCAL_FS_DEFAULT_MAX_SEARCH_BYTES
        } else {
            self.cfg.max_search_bytes
        };
        match SearchQuery::compile(args.query.as_str()) {
            Ok(query) => Ok(SearchPlan { rel_path, max_matches, timeout_ms, max_search_bytes, query }),
            Err(t) => {
                let mut m: Vec<char> = Vec::new();
                extend_str(&mut m, "invalid query regex: ");
                let tc = chars_of(t.as_str());
                extend_chars(&mut m, tc.as_slice());
                Err(invalid_args(m.as_slice()))
            },
        }
    }
}

/// The path shown in messages for an optional path argument: its trimmed
/// text, or `.` when it is missing or blank.
pub fn start_display(raw: &Option<String>) -> (r: String)
    ensures
        r@ == optional_path_start(
            match raw {
                Some(s) => Some(s@),
                None => None,
            },
        ),
{
    match raw {
        Some(s) => {
            let c = chars_of(s.as_str());
            let t = trim_chars(c.as_slice());
            if t.len() > 0 {
                string_of(t.as_slice())
            } else {
                crate::text::owned(".")
            }
        },
        None => crate::text::owned("."),
    }
}

impl ReadPlan {
    /// Refuses a file that has more bytes than the plan allows.
    pub fn check_size(&self, read: u64) -> (r: Result<(), String>)
        ensures
            unit_result(r) == (if read > self.max_bytes {
                Err("fs.read_file: file exceeds max_bytes ("@ + decimal(self.max_bytes as nat) + ")"@)
            } else {
                Ok::<(), Seq<char>>(())
            }),
    {
        if read > self.max_bytes {
            let mut m: Vec<char> = Vec::new();
            extend_str(&mut m, "fs.read_file: file exceeds max_bytes (");
            let d = decimal_chars(self.max_bytes);
            extend_chars(&mut m, d.as_slice());
            extend_str(&mut m, ")");
            return Err(string_of(m.as_slice()));
        }
        Ok(())
    }
}

/// The fractional part of a number of seconds given in milliseconds, as
/// `Duration`'s `Debug` prints it: empty when whole, else a dot and the
/// digits without trailing zeros.
pub open spec fn millis_fraction_text(f: nat) -> Seq<char> {
    if f == 0 {
        seq![]
    } else if f % 100 == 0 {
        seq!['.', crate::text::digit_char(f / 100)]
    } else if f % 10 == 0 {
        seq!['.', crate::text::digit_char(f / 100), crate::text::digit_char((f / 10) % 10)]
    } else {
        seq![
            '.',
            crate::text::digit_char(f / 100),
            crate::text::digit_char((f / 10) % 10),
            crate::text::digit_char(f % 10),
        ]
    }
}

/// A whole number of milliseconds as `Duration`'s `Debug` prints it
/// (`0ns`, `250ms`, `5s`, `1.5s`).
pub open spec fn duration_ms_text(ms: nat) -> Seq<char> {
    if ms >= 1000 {
        decimal(ms / 1000) + millis_fraction_text(ms % 1000) + "s"@
    } else if ms > 0 {
        decimal(ms) + "ms"@
    } else {
        "0ns"@
    }
}

fn digit(d: u64) -> (c: char)
    requires
        d < 10,
    ensures
        c == crate::text::digit_char(d as nat),
{
    let v = decimal_chars(d);
    v[0]
}

/// The error of a search that ran past its timeout.
pub fn search_timeout_message(timeout_ms: u64) -> (r: String)
    ensures
        r@ == "fs.search: timed out after "@ + duration_ms_text(timeout_ms as nat),
{
    let mut m: Vec<char> = Vec::new();
    extend_str(&mut m, "fs.search: timed out after ");
    if timeout_ms >= 1000 {
        let secs = decimal_chars(timeout_ms / 1000);
        extend_chars(&mut m, secs.as_slice());
        let f = timeout_ms % 1000;
        let ghost before = m@;
        if f != 0 {
            m.push('.');
            m.push(digit(f / 100));
            if f % 100 != 0 {
                m.push(digit((f / 10) % 10));
                if f % 10 != 0 {
                    m.push(digit(f % 10));
                }
            }
        }
        assert(m@ =~= before + millis_fraction_text(f as nat));
        extend_str(&mut m, "s");
    } else if timeout_ms > 0 {
        let d = decimal_chars(timeout_ms);
        extend_chars(&mut m, d.as_slice());
        extend_str(&mut m, "ms");
    } else {
        extend_str(&mut m, "0ns");
    }
    string_of(m.as_slice())
}

} // verus!
