//! Plugin data and the pure parts of plugin handling: identifiers, tool
//! names, markdown front matter, manifests, node identifiers and the
//! validation of orchestration plans.
//!
//! Loading plugins from GitHub and running them is done by the caller.

use vstd::prelude::*;

use crate::errors::Error as SdkError;
use crate::text::{
    ascii_lower, chars_of, extend_chars, extend_str, is_ascii_alnum, slice_chars, str_eq,
    string_of, trim, trim_chars,
};

verus! {

/// `s` without its leading characters that satisfy `p`.
pub open spec fn trim_start_by(s: Seq<char>, p: spec_fn(char) -> bool) -> Seq<char>
    decreases s.len(),
{
    if s.len() > 0 && p(s[0]) {
        trim_start_by(s.drop_first(), p)
    } else {
        s
    }
}

/// `s` without its trailing characters that satisfy `p`.
pub open spec fn trim_end_by(s: Seq<char>, p: spec_fn(char) -> bool) -> Seq<char>
    decreases s.len(),
{
    if s.len() > 0 && p(s.last()) {
        trim_end_by(s.drop_last(), p)
    } else {
        s
    }
}

/// `s` without the leading and trailing characters that satisfy `p`.
pub open spec fn trim_by(s: Seq<char>, p: spec_fn(char) -> bool) -> Seq<char> {
    trim_end_by(trim_start_by(s, p), p)
}

/// The characters `a` and `b`.
pub open spec fn either(a: char, b: char) -> spec_fn(char) -> bool {
    |c: char| c == a || c == b
}

/// Removes the leading characters equal to `a` or `b`.
pub fn strip_start_chars(v: &[char], a: char, b: char) -> (r: Vec<char>)
    ensures
        r@ == trim_start_by(v@, either(a, b)),
{
    let mut i: usize = 0;
    assert(v@.skip(0) =~= v@);
    while i < v.len() && (v[i] == a || v[i] == b)
        invariant
            i <= v@.len(),
            trim_start_by(v@, either(a, b)) == trim_start_by(v@.skip(i as int), either(a, b)),
        decreases v@.len() - i,
    {
        assert(v@.skip(i as int).drop_first() =~= v@.skip(i + 1));
        i += 1;
    }
    assert(v@.skip(i as int) =~= v@.subrange(i as int, v@.len() as int));
    slice_chars(v, i, v.len())
}

/// Removes the trailing characters equal to `a` or `b`.
pub fn strip_end_chars(v: &[char], a: char, b: char) -> (r: Vec<char>)
    ensures
        r@ == trim_end_by(v@, either(a, b)),
{
    let mut j: usize = v.len();
    assert(v@.take(j as int) =~= v@);
    while j > 0 && (v[j - 1] == a || v[j - 1] == b)
        invariant
            j <= v@.len(),
            trim_end_by(v@, either(a, b)) == trim_end_by(v@.take(j as int), either(a, b)),
        decreases j,
    {
        assert(v@.take(j as int).drop_last() =~= v@.take(j - 1));
        j -= 1;
    }
    assert(v@.take(j as int) =~= v@.subrange(0, j as int));
    slice_chars(v, 0, j)
}

/// Removes the leading and trailing characters equal to `a` or `b`.
pub fn strip_chars(v: &[char], a: char, b: char) -> (r: Vec<char>)
    ensures
        r@ == trim_by(v@, either(a, b)),
{
    let s = strip_start_chars(v, a, b);
    strip_end_chars(s.as_slice(), a, b)
}

/// The error of a failed plugin operation.
#[derive(Debug, Clone)]
pub enum PluginError {
    Orchestration(PluginOrchestrationError),
    Loader(String),
    Sdk(SdkError),
    Conversion(String),
}

/// The codes of orchestration errors.
#[derive(Debug, Clone, Copy, PartialEq, Eq, Structural)]
pub enum PluginOrchestrationErrorCode {
    InvalidPlan,
    UnknownAgent,
    MissingDescription,
    UnknownTool,
    InvalidDependency,
    InvalidToolConfig,
}

/// The display text of a code.
pub open spec fn orchestration_code_text(c: PluginOrchestrationErrorCode) -> Seq<char> {
    match c {
        PluginOrchestrationErrorCode::InvalidPlan => "INVALID_PLAN"@,
        PluginOrchestrationErrorCode::UnknownAgent => "UNKNOWN_AGENT"@,
        PluginOrchestrationErrorCode::MissingDescription => "MISSING_DESCRIPTION"@,
        PluginOrchestrationErrorCode::UnknownTool => "UNKNOWN_TOOL"@,
        PluginOrchestrationErrorCode::InvalidDependency => "INVALID_DEPENDENCY"@,
        PluginOrchestrationErrorCode::InvalidToolConfig => "INVALID_TOOL_CONFIG"@,
    }
}

impl PluginOrchestrationErrorCode {
    /// The display text of the code.
    pub fn to_string(&self) -> (r: String)
        ensures
            r@ == orchestration_code_text(*self),
    {
        let s = match self {
            PluginOrchestrationErrorCode::InvalidPlan => "INVALID_PLAN",
            PluginOrchestrationErrorCode::UnknownAgent => "UNKNOWN_AGENT",
            PluginOrchestrationErrorCode::MissingDescription => "MISSING_DESCRIPTION",
            PluginOrchestrationErrorCode::UnknownTool => "UNKNOWN_TOOL",
            PluginOrchestrationErrorCode::InvalidDependency => "INVALID_DEPENDENCY",
            PluginOrchestrationErrorCode::InvalidToolConfig => "INVALID_TOOL_CONFIG",
        };
        crate::text::owned(s)
    }
}

/// An error in an orchestration plan or its agents.
#[derive(Debug, Clone)]
pub struct PluginOrchestrationError {
    pub code: PluginOrchestrationErrorCode,
    pub message: String,
}

impl PluginOrchestrationError {
    pub fn new(code: PluginOrchestrationErrorCode, message: String) -> (r: Self)
        ensures
            r.code == code,
            r.message == message,
    {
        PluginOrchestrationError { code, message }
    }

    /// The display text: `plugin orchestration: ` and the message.
    pub fn to_string(&self) -> (r: String)
        ensures
            r@ == "plugin orchestration: "@ + self.message@,
    {
        let mut m = chars_of("plugin orchestration: ");
        let c = chars_of(self.message.as_str());
        extend_chars(&mut m, c.as_slice());
        string_of(m.as_slice())
    }
}

/// An orchestration error with code `code` and message `msg`.
pub open spec fn is_orchestration_error(e: PluginError, code: PluginOrchestrationErrorCode, msg: Seq<char>) -> bool {
    e matches PluginError::Orchestration(o) && o.code == code && o.message@ == msg
}

/// A loader error with message `msg`.
pub open spec fn is_loader_error(e: PluginError, msg: Seq<char>) -> bool {
    e matches PluginError::Loader(m) && m@ == msg
}

fn orchestration_error(code: PluginOrchestrationErrorCode, msg: Vec<char>) -> (r: PluginError)
    ensures
        is_orchestration_error(r, code, msg@),
{
    PluginError::Orchestration(PluginOrchestrationError::new(code, string_of(msg.as_slice())))
}

fn loader_error(msg: &str) -> (r: PluginError)
    ensures
        is_loader_error(r, msg@),
{
    PluginError::Loader(crate::text::owned(msg))
}

/// The trimmed text of `value`, refused with `msg` when it is empty.
fn trimmed_name(value: String, msg: &str) -> (r: Result<String, PluginError>)
    ensures
        match r {
            Ok(s) => trim(value@).len() > 0 && s@ == trim(value@),
            Err(e) => trim(value@).len() == 0 && is_loader_error(e, msg@),
        },
{
    let c = chars_of(value.as_str());
    let t = trim_chars(c.as_slice());
    if t.len() == 0 {
        return Err(loader_error(msg));
    }
    Ok(string_of(t.as_slice()))
}

/// The identifier of a plugin.
#[derive(Debug, PartialEq, Eq)]
pub struct PluginId(String);

impl Clone for PluginId {
    fn clone(&self) -> (r: Self)
        ensures
            r.text() == self.text(),
    {
        PluginId(self.0.clone())
    }
}

impl From<PluginId> for String {
    fn from(value: PluginId) -> (r: Self)
        ensures
            r@ == value.text(),
    {
        value.0
    }
}

impl vstd::std_specs::convert::FromSpecImpl<PluginId> for String {
    closed spec fn obeys_from_spec() -> bool {
        true
    }

    closed spec fn from_spec(v: PluginId) -> String {
        v.0
    }
}

impl PluginId {
    /// The identifier's text.
    pub closed spec fn text(&self) -> Seq<char> {
        self.0@
    }

    /// The trimmed text of `value`; refused when it is blank.
    pub fn new(value: String) -> (r: Result<Self, PluginError>)
        ensures
            match r {
                Ok(id) => trim(value@).len() > 0 && id.text() == trim(value@),
                Err(e) => trim(value@).len() == 0 && is_loader_error(e, "plugin id is required"@),
            },
    {
        let s = trimmed_name(value, "plugin id is required")?;
        Ok(PluginId(s))
    }

    pub fn as_str(&self) -> (r: &str)
        ensures
            r@ == self.text(),
    {
        self.0.as_str()
    }
}

/// The URL a plugin was loaded from.
#[derive(Debug, PartialEq, Eq)]
pub struct PluginUrl(String);

impl Clone for PluginUrl {
    fn clone(&self) -> (r: Self)
        ensures
            r.text() == self.text(),
    {
        PluginUrl(self.0.clone())
    }
}

impl From<PluginUrl> for String {
    fn from(value: PluginUrl) -> (r: Self)
        ensures
            r@ == value.text(),
    {
        value.0
    }
}

impl vstd::std_specs::convert::FromSpecImpl<PluginUrl> for String {
    closed spec fn obeys_from_spec() -> bool {
        true
    }

    closed spec fn from_spec(v: PluginUrl) -> String {
        v.0
    }
}

impl PluginUrl {
    /// The URL's text.
    pub closed spec fn text(&self) -> Seq<char> {
        self.0@
    }

    /// The trimmed text of `value`; refused when it is blank.
    pub fn new(value: String) -> (r: Result<Self, PluginError>)
        ensures
            match r {
                Ok(u) => trim(value@).len() > 0 && u.text() == trim(value@),
                Err(e) => trim(value@).len() == 0 && is_loader_error(e, "plugin url is required"@),
            },
    {
        let s = trimmed_name(value, "plugin url is required")?;
        Ok(PluginUrl(s))
    }

    pub fn as_str(&self) -> (r: &str)
        ensures
            r@ == self.text(),
    {
        self.0.as_str()
    }
}

/// The name of a plugin command.
#[derive(Debug, PartialEq, Eq)]
pub struct PluginCommandName(String);

impl Clone for PluginCommandName {
    fn clone(&self) -> (r: Self)
        ensures
            r.text() == self.text(),
    {
        PluginCommandName(self.0.clone())
    }
}

impl From<PluginCommandName> for String {
    fn from(value: PluginCommandName) -> (r: Self)
        ensures
            r@ == value.text(),
    {
        value.0
    }
}

impl vstd::std_specs::convert::FromSpecImpl<PluginCommandName> for String {
    closed spec fn obeys_from_spec() -> bool {
        true
    }

    closed spec fn from_spec(v: PluginCommandName) -> String {
        v.0
    }
}

impl PluginCommandName {
    /// The name's text.
    pub closed spec fn text(&self) -> Seq<char> {
        self.0@
    }

    /// The trimmed text of `value`; refused when it is blank.
    pub fn new(value: String) -> (r: Result<Self, PluginError>)
        ensures
            match r {
                Ok(n) => trim(value@).len() > 0 && n.text() == trim(value@),
                Err(e) => trim(value@).len() == 0 && is_loader_error(
                    e,
                    "plugin command name is required"@,
                ),
            },
    {
        let s = trimmed_name(value, "plugin command name is required")?;
        Ok(PluginCommandName(s))
    }

    /// A name holding exactly `s`.
    pub(crate) fn from_text(s: String) -> (r: Self)
        ensures
            r.text() == s@,
    {
        PluginCommandName(s)
    }

    pub fn as_str(&self) -> (r: &str)
        ensures
            r@ == self.text(),
    {
        self.0.as_str()
    }
}

/// The name of a plugin agent.
#[derive(Debug, PartialEq, Eq)]
pub struct PluginAgentName(String);

impl Clone for PluginAgentName {
    fn clone(&self) -> (r: Self)
        ensures
            r.text() == self.text(),
    {
        PluginAgentName(self.0.clone())
    }
}

impl From<PluginAgentName> for String {
    fn from(value: PluginAgentName) -> (r: Self)
        ensures
            r@ == value.text(),
    {
        value.0
    }
}

impl vstd::std_specs::convert::FromSpecImpl<PluginAgentName> for String {
    closed spec fn obeys_from_spec() -> bool {
        true
    }

    closed spec fn from_spec(v: PluginAgentName) -> String {
        v.0
    }
}

impl PluginAgentName {
    /// The name's text.
    pub closed spec fn text(&self) -> Seq<char> {
        self.0@
    }

    /// The trimmed text of `value`; refused when it is blank.
    pub fn new(value: String) -> (r: Result<Self, PluginError>)
        ensures
            match r {
                Ok(n) => trim(value@).len() > 0 && n.text() == trim(value@),
                Err(e) => trim(value@).len() == 0 && is_loader_error(
                    e,
                    "plugin agent name is required"@,
                ),
            },
    {
        let s = trimmed_name(value, "plugin agent name is required")?;
        Ok(PluginAgentName(s))
    }

    /// A name holding exactly `s`.
    pub(crate) fn from_text(s: String) -> (r: Self)
        ensures
            r.text() == s@,
    {
        PluginAgentName(s)
    }

    pub fn as_str(&self) -> (r: &str)
        ensures
            r@ == self.text(),
    {
        self.0.as_str()
    }
}

/// The tools a plugin agent may use.
#[derive(Debug, Clone, Copy, PartialEq, Eq, Structural)]
pub enum PluginToolName {
    FsReadFile,
    FsListFiles,
    FsSearch,
    FsEdit,
    Bash,
    WriteFile,
    UserAsk,
}

/// The wire name of a tool.
pub open spec fn tool_name_text(t: PluginToolName) -> Seq<char> {
    match t {
        PluginToolName::FsReadFile => "fs.read_file"@,
        PluginToolName::FsListFiles => "fs.list_files"@,
        PluginToolName::FsSearch => "fs.search"@,
        PluginToolName::FsEdit => "fs.edit"@,
        PluginToolName::Bash => "bash"@,
        PluginToolName::WriteFile => "write_file"@,
        PluginToolName::UserAsk => "user.ask"@,
    }
}

/// The tool named `s` after trimming, if any.
pub open spec fn tool_named(s: Seq<char>) -> Option<PluginToolName> {
    let t = trim(s);
    if t == "fs.read_file"@ {
        Some(PluginToolName::FsReadFile)
    } else if t == "fs.list_files"@ {
        Some(PluginToolName::FsListFiles)
    } else if t == "fs.search"@ {
        Some(PluginToolName::FsSearch)
    } else if t == "fs.edit"@ {
        Some(PluginToolName::FsEdit)
    } else if t == "bash"@ {
        Some(PluginToolName::Bash)
    } else if t == "write_file"@ {
        Some(PluginToolName::WriteFile)
    } else if t == "user.ask"@ {
        Some(PluginToolName::UserAsk)
    } else {
        None
    }
}

impl PluginToolName {
    /// The wire name of the tool.
    pub fn as_str(&self) -> (r: &'static str)
        ensures
            r@ == tool_name_text(*self),
    {
        match self {
            PluginToolName::FsReadFile => "fs.read_file",
            PluginToolName::FsListFiles => "fs.list_files",
            PluginToolName::FsSearch => "fs.search",
            PluginToolName::FsEdit => "fs.edit",
            PluginToolName::Bash => "bash",
            PluginToolName::WriteFile => "write_file",
            PluginToolName::UserAsk => "user.ask",
        }
    }

    /// The display text of the tool: its wire name.
    pub fn to_string(&self) -> (r: String)
        ensures
            r@ == tool_name_text(*self),
    {
        crate::text::owned(self.as_str())
    }

    /// Reads a tool from its wire name (surrounding whitespace ignored).
    pub fn from_str(value: &str) -> (r: Result<Self, PluginOrchestrationError>)
        ensures
            match tool_named(value@) {
                Some(t) => r == Ok::<Self, PluginOrchestrationError>(t),
                None => r matches Err(e) && e.code == PluginOrchestrationErrorCode::UnknownTool
                    && e.message@ == "unknown tool \""@ + trim(value@) + "\""@,
            },
    {
        let c = chars_of(value);
        let t = trim_chars(c.as_slice());
        let s = string_of(t.as_slice());
        let v = s.as_str();
        if str_eq(v, "fs.read_file") {
            Ok(PluginToolName::FsReadFile)
        } else if str_eq(v, "fs.list_files") {
            Ok(PluginToolName::FsListFiles)
        } else if str_eq(v, "fs.search") {
            Ok(PluginToolName::FsSearch)
        } else if str_eq(v, "fs.edit") {
            Ok(PluginToolName::FsEdit)
        } else if str_eq(v, "bash") {
            Ok(PluginToolName::Bash)
        } else if str_eq(v, "write_file") {
            Ok(PluginToolName::WriteFile)
        } else if str_eq(v, "user.ask") {
            Ok(PluginToolName::UserAsk)
        } else {
            let mut m = chars_of("unknown tool \"");
            extend_chars(&mut m, t.as_slice());
            extend_str(&mut m, "\"");
            Err(
                PluginOrchestrationError::new(
                    PluginOrchestrationErrorCode::UnknownTool,
                    string_of(m.as_slice()),
                ),
            )
        }
    }
}

/// How a plugin command is run.
#[derive(Debug, Clone, Copy, PartialEq, Eq, Structural)]
pub enum OrchestrationMode {
    Dag,
    Dynamic,
}

impl OrchestrationMode {
    pub fn default() -> (r: Self)
        ensures
            r == OrchestrationMode::Dag,
    {
        OrchestrationMode::Dag
    }
}

/// The mode asked for, or the default (`Dag`).
pub fn normalize_orchestration_mode(mode: Option<OrchestrationMode>) -> (r: OrchestrationMode)
    ensures
        r == match mode {
            Some(m) => m,
            None => OrchestrationMode::Dag,
        },
{
    match mode {
        Some(m) => m,
        None => OrchestrationMode::default(),
    }
}

/// What a plugin's manifest declares.
#[derive(Debug, Clone)]
pub struct PluginManifest {
    pub name: Option<String>,
    pub description: Option<String>,
    pub version: Option<String>,
    pub commands: Option<Vec<PluginCommandName>>,
    pub agents: Option<Vec<PluginAgentName>>,
}

impl PluginManifest {
    pub fn default() -> (r: Self)
        ensures
            r.name is None && r.description is None && r.version is None && r.commands is None
                && r.agents is None,
    {
        PluginManifest { name: None, description: None, version: None, commands: None, agents: None }
    }
}

/// A command of a plugin.
#[derive(Debug, Clone)]
pub struct PluginCommand {
    pub name: PluginCommandName,
    pub prompt: String,
    pub agent_refs: Option<Vec<PluginAgentName>>,
    pub tools: Option<Vec<PluginToolName>>,
}

/// An agent of a plugin.
#[derive(Debug, Clone)]
pub struct PluginAgent {
    pub name: PluginAgentName,
    pub system_prompt: String,
    pub description: Option<String>,
    pub tools: Option<Vec<PluginToolName>>,
}

/// Where on GitHub a plugin lives.
#[derive(Debug, Clone)]
pub struct PluginGitHubRef {
    pub owner: String,
    pub repo: String,
    pub git_ref: String,
    pub path: Option<String>,
}

/// Options of the plugin converter.
#[derive(Debug, Clone)]
pub struct PluginConverterOptions {
    pub converter_model: Option<String>,
}

/// The text after the last `/` of `path`, without trailing `.md` suffixes.
pub open spec fn basename_text(path: Seq<char>) -> Seq<char> {
    strip_md_suffixes(path.subrange(crate::text::last_index_of(path, '/') + 1, path.len() as int))
}

/// `s` without its trailing `.md` suffixes.
pub open spec fn strip_md_suffixes(s: Seq<char>) -> Seq<char>
    decreases s.len(),
{
    if s.len() >= 3 && s.subrange(s.len() - 3, s.len() as int) == ".md"@ {
        strip_md_suffixes(s.subrange(0, s.len() - 3))
    } else {
        s
    }
}

/// The file name of a repository path, without its `.md` extension.
pub fn basename(path: &str) -> (r: String)
    ensures
        r@ == basename_text(path@),
{
    let v = chars_of(path);
    let start = match crate::text::last_index_in(v.as_slice(), v.len(), '/') {
        Some(k) => k + 1,
        None => 0,
    };
    assert(v@.subrange(0, v@.len() as int) =~= v@);
    let mut end = v.len();
    proof {
        reveal_strlit(".md");
    }
    assert(basename_text(path@) == strip_md_suffixes(v@.subrange(start as int, end as int)));
    while end - start >= 3 && v[end - 3] == '.' && v[end - 2] == 'm' && v[end - 1] == 'd'
        invariant
            start <= end <= v@.len(),
            v@ == path@,
            basename_text(path@) == strip_md_suffixes(v@.subrange(start as int, end as int)),
        decreases end,
    {
        let ghost s = v@.subrange(start as int, end as int);
        proof {
            reveal_strlit(".md");
        }
        assert(s.subrange(s.len() - 3, s.len() as int) =~= ".md"@);
        assert(s.subrange(0, s.len() - 3) =~= v@.subrange(start as int, end - 3));
        end -= 3;
    }
    proof {
        reveal_strlit(".md");
        let s = v@.subrange(start as int, end as int);
        if s.len() >= 3 {
            assert(s.subrange(s.len() - 3, s.len() as int) != ".md"@) by {
                if s.subrange(s.len() - 3, s.len() as int) == ".md"@ {
                    assert(s.subrange(s.len() - 3, s.len() as int)[0] == v@[end - 3]);
                    assert(s.subrange(s.len() - 3, s.len() as int)[1] == v@[end - 2]);
                    assert(s.subrange(s.len() - 3, s.len() as int)[2] == v@[end - 1]);
                }
            }
        }
    }
    let r = slice_chars(v.as_slice(), start, end);
    string_of(r.as_slice())
}

/// Repository paths joined by `/`, each without surrounding slashes; an
/// empty part is left out.
pub open spec fn join_repo_path_text(base: Seq<char>, elem: Seq<char>) -> Seq<char> {
    let b = trim_by(base, either('/', '/'));
    let e = trim_by(elem, either('/', '/'));
    if b.len() == 0 {
        e
    } else if e.len() == 0 {
        b
    } else {
        b + "/"@ + e
    }
}

/// Joins two repository paths.
pub fn join_repo_path(base: &str, elem: &str) -> (r: String)
    ensures
        r@ == join_repo_path_text(base@, elem@),
{
    let bc = chars_of(base);
    let ec = chars_of(elem);
    let b = strip_chars(bc.as_slice(), '/', '/');
    let e = strip_chars(ec.as_slice(), '/', '/');
    if b.len() == 0 {
        return string_of(e.as_slice());
    }
    if e.len() == 0 {
        return string_of(b.as_slice());
    }
    let mut out = b;
    extend_str(&mut out, "/");
    extend_chars(&mut out, e.as_slice());
    string_of(out.as_slice())
}

/// `owner/repo`, followed by `/` and the path without surrounding slashes
/// when the path is not blank.
pub open spec fn plugin_id_text(owner: Seq<char>, repo: Seq<char>, repo_path: Seq<char>) -> Seq<char> {
    let base = trim(owner) + "/"@ + trim(repo);
    if trim(repo_path).len() == 0 {
        base
    } else {
        base + "/"@ + trim_by(repo_path, either('/', '/'))
    }
}

/// The identifier of a plugin loaded from `owner/repo` at `repo_path`.
pub fn derive_plugin_id(owner: &str, repo: &str, repo_path: &str) -> (r: String)
    ensures
        r@ == plugin_id_text(owner@, repo@, repo_path@),
{
    let oc = chars_of(owner);
    let mut out = trim_chars(oc.as_slice());
    extend_str(&mut out, "/");
    let rc = chars_of(repo);
    let rt = trim_chars(rc.as_slice());
    extend_chars(&mut out, rt.as_slice());
    let pc = chars_of(repo_path);
    let pt = trim_chars(pc.as_slice());
    if pt.len() > 0 {
        extend_str(&mut out, "/");
        let p = strip_chars(pc.as_slice(), '/', '/');
        extend_chars(&mut out, p.as_slice());
    }
    string_of(out.as_slice())
}

/// A character of a node token: ASCII letters and digits lower-cased,
/// anything else `_`.
pub open spec fn token_char(c: char) -> char {
    if is_ascii_alnum(c) {
        ascii_lower(c)
    } else {
        '_'
    }
}

/// `s` with each run of `_` reduced to one `_`.
pub open spec fn collapse_underscores(s: Seq<char>) -> Seq<char>
    decreases s.len(),
{
    if s.len() == 0 {
        s
    } else {
        let c = collapse_underscores(s.drop_last());
        if s.last() == '_' && s.len() >= 2 && s[s.len() - 2] == '_' {
            c
        } else {
            c.push(s.last())
        }
    }
}

/// A node token: the trimmed text with characters mapped by `token_char`,
/// runs of `_` reduced to one, and no `_` at either end.
pub open spec fn node_token(raw: Seq<char>) -> Seq<char> {
    let t = trim(raw);
    trim_by(collapse_underscores(t.map_values(|c: char| token_char(c))), either('_', '_'))
}

/// Sanitizes text into a node identifier token.
pub fn sanitize_node_token(raw: &str) -> (r: String)
    ensures
        r@ == node_token(raw@),
{
    let c = chars_of(raw);
    let t = trim_chars(c.as_slice());
    let ghost mapped = t@.map_values(|ch: char| token_char(ch));
    let mut out: Vec<char> = Vec::new();
    let mut i: usize = 0;
    while i < t.len()
        invariant
            i <= t@.len(),
            mapped == t@.map_values(|ch: char| token_char(ch)),
            out@ == collapse_underscores(mapped.take(i as int)),
            i > 0 ==> out@.len() > 0 && out@.last() == mapped[i - 1],
        decreases t@.len() - i,
    {
        let ch = t[i];
        let m = if crate::text::is_ascii_alphanumeric(ch) {
            crate::text::to_ascii_lower(ch)
        } else {
            '_'
        };
        assert(m == mapped[i as int]);
        assert(mapped.take(i + 1).drop_last() =~= mapped.take(i as int));
        if !(m == '_' && i > 0 && out[out.len() - 1] == '_') {
            out.push(m);
        }
        proof {
            let s = mapped.take(i + 1);
            if i > 0 {
                assert(s[s.len() - 2] == mapped[i - 1]);
            }
        }
        i += 1;
    }
    assert(mapped.take(t@.len() as int) =~= mapped);
    let r = strip_chars(out.as_slice(), '_', '_');
    string_of(r.as_slice())
}

/// The node identifier of an agent: `agent_` and its token.
pub fn format_agent_node_id(raw: &str) -> (r: Result<String, PluginError>)
    ensures
        match r {
            Ok(s) => node_token(raw@).len() > 0 && s@ == "agent_"@ + node_token(raw@),
            Err(e) => node_token(raw@).len() == 0 && is_orchestration_error(
                e,
                PluginOrchestrationErrorCode::InvalidPlan,
                "agent id must contain alphanumeric characters"@,
            ),
        },
{
    let token = sanitize_node_token(raw);
    let tc = chars_of(token.as_str());
    if tc.len() == 0 {
        return Err(
            orchestration_error(
                PluginOrchestrationErrorCode::InvalidPlan,
                chars_of("agent id must contain alphanumeric characters"),
            ),
        );
    }
    let mut out = chars_of("agent_");
    extend_chars(&mut out, tc.as_slice());
    Ok(string_of(out.as_slice()))
}

/// The join node of a step: its token with `_join` appended, and `step_`
/// prepended unless the token already starts with it.
pub open spec fn step_join_text(token: Seq<char>) -> Seq<char> {
    if "step_"@.is_prefix_of(token) {
        token + "_join"@
    } else {
        "step_"@ + token + "_join"@
    }
}

/// The node identifier joining the agents of a step.
pub fn format_step_join_node_id(step_key: &str) -> (r: Result<String, PluginError>)
    ensures
        match r {
            Ok(s) => node_token(step_key@).len() > 0 && s@ == step_join_text(node_token(step_key@)),
            Err(e) => node_token(step_key@).len() == 0 && is_orchestration_error(
                e,
                PluginOrchestrationErrorCode::InvalidPlan,
                "step id must contain alphanumeric characters"@,
            ),
        },
{
    let token = sanitize_node_token(step_key);
    let tc = chars_of(token.as_str());
    if tc.len() == 0 {
        return Err(
            orchestration_error(
                PluginOrchestrationErrorCode::InvalidPlan,
                chars_of("step id must contain alphanumeric characters"),
            ),
        );
    }
    if crate::text::starts_with_str(tc.as_slice(), "step_") {
        let mut out = tc;
        extend_str(&mut out, "_join");
        Ok(string_of(out.as_slice()))
    } else {
        let mut out = chars_of("step_");
        extend_chars(&mut out, tc.as_slice());
        extend_str(&mut out, "_join");
        Ok(string_of(out.as_slice()))
    }
}

/// The tools of the dynamic orchestration when neither agent nor command
/// names any.
pub open spec fn default_dynamic_tools() -> Seq<PluginToolName> {
    seq![PluginToolName::FsReadFile, PluginToolName::FsListFiles, PluginToolName::FsSearch]
}

/// `s` without the repetitions of an element, first occurrences kept in order.
pub open spec fn dedup<T>(s: Seq<T>) -> Seq<T>
    decreases s.len(),
{
    if s.len() == 0 {
        s
    } else {
        let d = dedup(s.drop_last());
        if d.contains(s.last()) {
            d
        } else {
            d.push(s.last())
        }
    }
}

/// `dedup` keeps each element once: nothing occurs twice in the result,
/// and an element occurs in it exactly when it occurs in `s`.
pub proof fn lemma_dedup_distinct_same_elements<T>(s: Seq<T>)
    ensures
        dedup(s).no_duplicates(),
        forall|x: T| dedup(s).contains(x) <==> s.contains(x),
    decreases s.len(),
{
    if s.len() > 0 {
        let rest = s.drop_last();
        lemma_dedup_distinct_same_elements(rest);
        let d = dedup(rest);
        assert forall|x: T| s.contains(x) <==> (rest.contains(x) || x == s.last()) by {
            if s.contains(x) {
                let i = choose|i: int| 0 <= i < s.len() && s[i] == x;
                if i < s.len() - 1 {
                    assert(rest[i] == x);
                }
            }
            if rest.contains(x) {
                let i = choose|i: int| 0 <= i < rest.len() && rest[i] == x;
                assert(s[i] == x);
            }
            if x == s.last() {
                assert(s[s.len() - 1] == x);
            }
        }
        if !d.contains(s.last()) {
            let e = d.push(s.last());
            assert forall|x: T| e.contains(x) <==> (d.contains(x) || x == s.last()) by {
                if e.contains(x) {
                    let i = choose|i: int| 0 <= i < e.len() && e[i] == x;
                    if i < d.len() {
                        assert(d[i] == x);
                    }
                }
                if d.contains(x) {
                    let i = choose|i: int| 0 <= i < d.len() && d[i] == x;
                    assert(e[i] == x);
                }
                if x == s.last() {
                    assert(e[d.len() as int] == x);
                }
            }
            assert forall|i: int, j: int| 0 <= i < e.len() && 0 <= j < e.len() && i != j implies e[i]
                != e[j] by {
                if i == d.len() {
                    assert(e[j] == d[j]);
                    assert(d.contains(d[j]));
                } else if j == d.len() {
                    assert(e[i] == d[i]);
                    assert(d.contains(d[i]));
                }
            }
        }
    }
}

/// The tools an agent gets: its own when it names some, else the command's,
/// else the defaults; each tool once, in order.
pub open spec fn tool_refs(agent_tools: Option<Vec<PluginToolName>>, command_tools: Option<Vec<PluginToolName>>) -> Seq<PluginToolName> {
    dedup(
        if agent_tools matches Some(t) && t@.len() > 0 {
            agent_tools->Some_0@
        } else if command_tools matches Some(t) && t@.len() > 0 {
            command_tools->Some_0@
        } else {
            default_dynamic_tools()
        },
    )
}

fn contains_tool(v: &Vec<PluginToolName>, t: PluginToolName) -> (r: bool)
    ensures
        r == v@.contains(t),
{
    let mut i: usize = 0;
    while i < v.len()
        invariant
            i <= v@.len(),
            forall|j: int| 0 <= j < i ==> v@[j] != t,
        decreases v@.len() - i,
    {
        if v[i] == t {
            return true;
        }
        i += 1;
    }
    false
}

/// The tools an agent of a dynamic orchestration may call.
pub fn build_tool_refs(agent: &PluginAgent, command: &PluginCommand) -> (r: Vec<PluginToolName>)
    ensures
        r@ == tool_refs(agent.tools, command.tools),
{
    let mut names: Vec<PluginToolName> = Vec::new();
    match &agent.tools {
        Some(t) if t.len() > 0 => {
            names = t.clone();
        },
        _ => match &command.tools {
            Some(t) if t.len() > 0 => {
                names = t.clone();
            },
            _ => {
                names.push(PluginToolName::FsReadFile);
                names.push(PluginToolName::FsListFiles);
                names.push(PluginToolName::FsSearch);
                assert(names@ =~= default_dynamic_tools());
            },
        },
    }
    let ghost src = names@;
    let mut out: Vec<PluginToolName> = Vec::new();
    let mut i: usize = 0;
    while i < names.len()
        invariant
            i <= names@.len(),
            src == names@,
            out@ == dedup(src.take(i as int)),
        decreases names@.len() - i,
    {
        let t = names[i];
        assert(src.take(i + 1).drop_last() =~= src.take(i as int));
        if !contains_tool(&out, t) {
            out.push(t);
        }
        i += 1;
    }
    assert(src.take(src.len() as int) =~= src);
    out
}

} // verus!
