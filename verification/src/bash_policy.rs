//! Semantic bash policy based on lightweight tokenization.

use vstd::prelude::*;

use crate::bash_tokenizer::{
    flush, lemma_lex_dollar_paren, lemma_lex_end, lemma_lex_gt, lemma_lex_pipe, lemma_lex_plain_run,
    lemma_lex_semicolon, lemma_lex_space, lex_init, normalize_command, plain, push_op, set_chain,
    set_pipe, set_subshell, strings_view, tokenize, tokenize_bash, BashTokens, BashTokensView, LexSt,
    Operator, TokenV,
};
use crate::text::{chars_of, extend_chars, extend_str, file_name_bounds, slice_chars, string_of};

verus! {

/// Semantic bash policy with safety rails.
#[derive(Clone, Debug)]
pub struct BashPolicy {
    allow_all: bool,
    allow_commands: Vec<String>,
    deny_commands: Vec<String>,
    deny_pipe_to_shell: bool,
    deny_command_chains: bool,
    deny_eval: bool,
    deny_subshells: bool,
    deny_dangerous_redirects: bool,
}

/// Model of a [`BashPolicy`]: two sets of command names and the rail switches.
pub struct BashPolicyView {
    pub allow_all: bool,
    pub allow: Set<Seq<char>>,
    pub deny: Set<Seq<char>>,
    pub deny_pipe_to_shell: bool,
    pub deny_command_chains: bool,
    pub deny_eval: bool,
    pub deny_subshells: bool,
    pub deny_dangerous_redirects: bool,
}

impl View for BashPolicy {
    type V = BashPolicyView;

    closed spec fn view(&self) -> BashPolicyView {
        BashPolicyView {
            allow_all: self.allow_all,
            allow: strings_view(self.allow_commands@).to_set(),
            deny: strings_view(self.deny_commands@).to_set(),
            deny_pipe_to_shell: self.deny_pipe_to_shell,
            deny_command_chains: self.deny_command_chains,
            deny_eval: self.deny_eval,
            deny_subshells: self.deny_subshells,
            deny_dangerous_redirects: self.deny_dangerous_redirects,
        }
    }
}

/// The policy [`BashPolicy::new`] returns: nothing allowed, chains, pipes to a
/// shell, eval/exec and subshells denied, dangerous redirects not checked.
pub open spec fn default_policy() -> BashPolicyView {
    BashPolicyView {
        allow_all: false,
        allow: Set::empty(),
        deny: Set::empty(),
        deny_pipe_to_shell: true,
        deny_command_chains: true,
        deny_eval: true,
        deny_subshells: true,
        deny_dangerous_redirects: false,
    }
}

/// A command name as the policy stores it: trimmed, and reduced to the final
/// path component.
pub open spec fn normalize_command_name(command: Seq<char>) -> Seq<char> {
    normalize_command(command)
}

/// Some command of a piped command line is a shell.
pub open spec fn pipe_to_shell(t: BashTokensView) -> bool {
    t.has_pipe && exists|i: int|
        0 <= i < t.all_commands.len() && crate::bash_tokenizer::is_shell(
            #[trigger] t.all_commands[i],
        )
}

/// The first of `cmds` that belongs to `set`.
pub open spec fn first_in(cmds: Seq<Seq<char>>, set: Set<Seq<char>>) -> Option<Seq<char>>
    decreases cmds.len(),
{
    if cmds.len() == 0 {
        None
    } else if set.contains(cmds[0]) {
        Some(cmds[0])
    } else {
        first_in(cmds.drop_first(), set)
    }
}

/// `list` joined with `sep` between consecutive elements.
pub open spec fn join(list: Seq<Seq<char>>, sep: Seq<char>) -> Seq<char>
    decreases list.len(),
{
    if list.len() == 0 {
        Seq::empty()
    } else if list.len() == 1 {
        list[0]
    } else {
        join(list.drop_last(), sep) + sep + list.last()
    }
}

/// The commands of `cmds` that are not in `allow`, in order.
pub open spec fn missing(cmds: Seq<Seq<char>>, allow: Set<Seq<char>>) -> Seq<Seq<char>>
    decreases cmds.len(),
{
    if cmds.len() == 0 {
        Seq::empty()
    } else if allow.contains(cmds.last()) {
        missing(cmds.drop_last(), allow)
    } else {
        missing(cmds.drop_last(), allow).push(cmds.last())
    }
}

/// The verdict of `p` on tokenized command `t`: the checks run in a fixed
/// order and the first one that fails gives the error message.
pub open spec fn check(p: BashPolicyView, t: BashTokensView) -> Result<(), Seq<char>> {
    if t.primary_command.len() == 0 && !p.allow_all {
        Err("bash tool denied: unable to determine primary command"@)
    } else if t.has_chain && p.deny_command_chains {
        Err("bash tool denied by policy: command chains are not allowed"@)
    } else if t.has_pipe && p.deny_pipe_to_shell && pipe_to_shell(t) {
        Err("bash tool denied by policy: pipe to shell not allowed"@)
    } else if t.has_eval && p.deny_eval {
        Err("bash tool denied by policy: eval/exec not allowed"@)
    } else if t.has_subshell && p.deny_subshells {
        Err("bash tool denied by policy: subshells not allowed"@)
    } else if t.has_dangerous_redirect && p.deny_dangerous_redirects {
        Err("bash tool denied by policy: dangerous redirect not allowed"@)
    } else if first_in(t.all_commands, p.deny) is Some {
        Err(
            "bash tool denied by policy: command '"@ + first_in(t.all_commands, p.deny)->0
                + "' is denied"@,
        )
    } else if p.allow_all {
        Ok(())
    } else if p.allow == Set::<Seq<char>>::empty() {
        Err(
            "bash tool disabled by default: configure BashPolicy with allow_command() or allow_all()"@,
        )
    } else if missing(t.all_commands, p.allow).len() > 0 {
        Err("bash tool denied: command not allowed: "@ + join(missing(t.all_commands, p.allow), ", "@))
    } else {
        Ok(())
    }
}

/// `first_in` finds a command whenever one of them is in the set.
proof fn lemma_first_in_finds(cmds: Seq<Seq<char>>, set: Set<Seq<char>>, i: int)
    requires
        0 <= i < cmds.len(),
        set.contains(cmds[i]),
    ensures
        first_in(cmds, set) is Some,
    decreases cmds.len(),
{
    if !set.contains(cmds[0]) {
        assert(cmds.drop_first()[i - 1] == cmds[i]);
        lemma_first_in_finds(cmds.drop_first(), set, i - 1);
    }
}

/// Deny rules come before allow rules: a command line naming a denied
/// command is refused, even by a policy that allows every command or
/// allows that command too.
pub proof fn lemma_deny_wins_over_allow(p: BashPolicyView, t: BashTokensView, i: int)
    requires
        0 <= i < t.all_commands.len(),
        p.deny.contains(t.all_commands[i]),
    ensures
        check(p, t) is Err,
{
    lemma_first_in_finds(t.all_commands, p.deny, i);
}

/// A policy as created refuses every command line: nothing is allowed
/// until commands are allowed explicitly.
pub proof fn lemma_default_policy_refuses_all(t: BashTokensView)
    ensures
        check(default_policy(), t) is Err,
{
}

/// The rails are reached: the primary command is known, or every command
/// is allowed.
pub open spec fn reaches_rails(p: BashPolicyView, t: BashTokensView) -> bool {
    t.primary_command.len() > 0 || p.allow_all
}

/// Command chains are refused by a policy that denies them (as every new
/// policy does), whatever else it allows: a chained command line is
/// refused, with the chain message once its primary command is known.
pub proof fn lemma_chains_refused(p: BashPolicyView, t: BashTokensView)
    requires
        p.deny_command_chains,
        t.has_chain,
    ensures
        check(p, t) is Err,
        reaches_rails(p, t) ==> check(p, t) == Err::<(), Seq<char>>(
            "bash tool denied by policy: command chains are not allowed"@,
        ),
{
}

/// Piping into a shell is refused by a policy that denies it, whatever else
/// it allows (even every command); the pipe message comes unless a chain is
/// refused first.
pub proof fn lemma_pipe_to_shell_refused(p: BashPolicyView, t: BashTokensView)
    requires
        p.deny_pipe_to_shell,
        pipe_to_shell(t),
    ensures
        check(p, t) is Err,
        reaches_rails(p, t) && !(t.has_chain && p.deny_command_chains) ==> check(p, t) == Err::<
            (),
            Seq<char>,
        >("bash tool denied by policy: pipe to shell not allowed"@),
{
}

/// The shells a pipe may not feed: a piped command line counts as piping to
/// a shell exactly when one of its commands is `sh`, `bash`, `zsh`, `dash`
/// or `ksh`. A policy that denies piping to a shell refuses every such
/// command line (whatever else it allows, even every command), with the
/// pipe message unless a chain is refused first.
pub proof fn lemma_pipe_into_any_shell_refused(p: BashPolicyView, t: BashTokensView)
    ensures
        pipe_to_shell(t) <==> t.has_pipe && exists|i: int|
            0 <= i < t.all_commands.len() && (#[trigger] t.all_commands[i] == "sh"@
                || t.all_commands[i] == "bash"@ || t.all_commands[i] == "zsh"@
                || t.all_commands[i] == "dash"@ || t.all_commands[i] == "ksh"@),
        p.deny_pipe_to_shell && t.has_pipe && (exists|i: int|
            0 <= i < t.all_commands.len() && (#[trigger] t.all_commands[i] == "sh"@
                || t.all_commands[i] == "bash"@ || t.all_commands[i] == "zsh"@
                || t.all_commands[i] == "dash"@ || t.all_commands[i] == "ksh"@)) ==> {
            &&& check(p, t) is Err
            &&& reaches_rails(p, t) && !(t.has_chain && p.deny_command_chains) ==> check(p, t)
                == Err::<(), Seq<char>>("bash tool denied by policy: pipe to shell not allowed"@)
        },
{
}

/// `eval` and `exec` are refused by a policy that denies them, whatever
/// else it allows (even `eval` itself, or every command); the eval message
/// comes unless an earlier rail fires.
pub proof fn lemma_eval_refused(p: BashPolicyView, t: BashTokensView)
    requires
        p.deny_eval,
        t.has_eval,
    ensures
        check(p, t) is Err,
        reaches_rails(p, t) && !(t.has_chain && p.deny_command_chains) && !(p.deny_pipe_to_shell
            && pipe_to_shell(t)) ==> check(p, t) == Err::<(), Seq<char>>(
            "bash tool denied by policy: eval/exec not allowed"@,
        ),
{
}

/// Subshells are refused by a policy that denies them, whatever else it
/// allows; the subshell message comes unless an earlier rail fires.
pub proof fn lemma_subshells_refused(p: BashPolicyView, t: BashTokensView)
    requires
        p.deny_subshells,
        t.has_subshell,
    ensures
        check(p, t) is Err,
        reaches_rails(p, t) && !(t.has_chain && p.deny_command_chains) && !(p.deny_pipe_to_shell
            && pipe_to_shell(t)) && !(t.has_eval && p.deny_eval) ==> check(p, t) == Err::<
            (),
            Seq<char>,
        >("bash tool denied by policy: subshells not allowed"@),
{
}

/// Redirects into sensitive system paths are refused by a policy that
/// denies them, whatever else it allows; the redirect message comes unless
/// an earlier rail fires.
pub proof fn lemma_dangerous_redirects_refused(p: BashPolicyView, t: BashTokensView)
    requires
        p.deny_dangerous_redirects,
        t.has_dangerous_redirect,
    ensures
        check(p, t) is Err,
        reaches_rails(p, t) && !(t.has_chain && p.deny_command_chains) && !(p.deny_pipe_to_shell
            && pipe_to_shell(t)) && !(t.has_eval && p.deny_eval) && !(t.has_subshell
            && p.deny_subshells) ==> check(p, t) == Err::<(), Seq<char>>(
            "bash tool denied by policy: dangerous redirect not allowed"@,
        ),
{
}

pub open spec fn result_view(r: Result<(), String>) -> Result<(), Seq<char>> {
    match r {
        Ok(()) => Ok(()),
        Err(e) => Err(e@),
    }
}

pub open spec fn check_result_view(r: Result<BashTokens, String>) -> Result<
    BashTokensView,
    Seq<char>,
> {
    match r {
        Ok(t) => Ok(t@),
        Err(e) => Err(e@),
    }
}

fn normalize_name(command: &str) -> (r: String)
    ensures
        r@ == normalize_command_name(command@),
{
    let v = chars_of(command);
    let t = crate::text::trim_chars(v.as_slice());
    if t.len() == 0 {
        return String::new();
    }
    match file_name_bounds(t.as_slice()) {
        Some((a, b)) => {
            let n = slice_chars(t.as_slice(), a, b);
            string_of(n.as_slice())
        },
        None => string_of(t.as_slice()),
    }
}

fn contains_string(v: &Vec<String>, s: &String) -> (r: bool)
    ensures
        r == strings_view(v@).contains(s@),
{
    let mut i: usize = 0;
    while i < v.len()
        invariant
            i <= v@.len(),
            forall|j: int| 0 <= j < i ==> strings_view(v@)[j] != s@,
        decreases v@.len() - i,
    {
        assert(strings_view(v@)[i as int] == v@[i as int]@);
        if v[i] == *s {
            return true;
        }
        i += 1;
    }
    false
}

/// Adds `name` to a set kept as a vector without repeated elements.
fn insert_string(v: &mut Vec<String>, name: String)
    ensures
        strings_view(final(v)@).to_set() == strings_view(old(v)@).to_set().insert(name@),
{
    if !contains_string(v, &name) {
        let ghost nv = name@;
        let ghost v0 = v@;
        v.push(name);
        assert(strings_view(v@) =~= strings_view(v0).push(nv));
        assert(strings_view(v0).push(nv) =~= strings_view(v0) + seq![nv]);
        proof {
            Seq::lemma_to_set_insert_commutes(strings_view(v0), nv);
        }
    } else {
        assert(strings_view(v@).to_set() =~= strings_view(v@).to_set().insert(name@));
    }
}

impl Default for BashPolicy {
    fn default() -> (r: Self)
        ensures
            r@ == default_policy(),
    {
        Self::new()
    }
}

impl BashPolicy {
    /// Create a new policy with safety rails enabled by default.
    pub fn new() -> (r: Self)
        ensures
            r@ == default_policy(),
    {
        let r = Self {
            allow_all: false,
            allow_commands: Vec::new(),
            deny_commands: Vec::new(),
            deny_pipe_to_shell: true,
            deny_command_chains: true,
            deny_eval: true,
            deny_subshells: true,
            deny_dangerous_redirects: false,
        };
        assert(strings_view(r.allow_commands@).to_set() =~= Set::empty());
        assert(strings_view(r.deny_commands@).to_set() =~= Set::empty());
        r
    }

    /// Allow a specific command by name (normalized).
    pub fn allow_command(self, command: &str) -> (r: Self)
        ensures
            r@ == (BashPolicyView {
                allow: self@.allow.insert(normalize_command_name(command@)),
                ..self@
            }),
    {
        let mut s = self;
        let name = normalize_name(command);
        insert_string(&mut s.allow_commands, name);
        s
    }

    /// Deny a specific command by name (normalized).
    pub fn deny_command(self, command: &str) -> (r: Self)
        ensures
            r@ == (BashPolicyView {
                deny: self@.deny.insert(normalize_command_name(command@)),
                ..self@
            }),
    {
        let mut s = self;
        let name = normalize_name(command);
        insert_string(&mut s.deny_commands, name);
        s
    }

    /// Allow all commands (subject to deny rules and safety rails).
    pub fn allow_all(self) -> (r: Self)
        ensures
            r@ == (BashPolicyView { allow_all: true, ..self@ }),
    {
        let mut s = self;
        s.allow_all = true;
        s
    }

    /// Deny pipes to shells (| bash, | sh, | zsh).
    pub fn deny_pipe_to_shell(self) -> (r: Self)
        ensures
            r@ == (BashPolicyView { deny_pipe_to_shell: true, ..self@ }),
    {
        let mut s = self;
        s.deny_pipe_to_shell = true;
        s
    }

    /// Allow pipes to shells.
    pub fn allow_pipe_to_shell(self) -> (r: Self)
        ensures
            r@ == (BashPolicyView { deny_pipe_to_shell: false, ..self@ }),
    {
        let mut s = self;
        s.deny_pipe_to_shell = false;
        s
    }

    /// Deny command chains (;, &&, ||).
    pub fn deny_command_chains(self) -> (r: Self)
        ensures
            r@ == (BashPolicyView { deny_command_chains: true, ..self@ }),
    {
        let mut s = self;
        s.deny_command_chains = true;
        s
    }

    /// Allow command chains (;, &&, ||).
    pub fn allow_chains(self) -> (r: Self)
        ensures
            r@ == (BashPolicyView { deny_command_chains: false, ..self@ }),
    {
        let mut s = self;
        s.deny_command_chains = false;
        s
    }

    /// Deny eval/exec usage.
    pub fn deny_eval(self) -> (r: Self)
        ensures
            r@ == (BashPolicyView { deny_eval: true, ..self@ }),
    {
        let mut s = self;
        s.deny_eval = true;
        s
    }

    /// Allow eval/exec usage.
    pub fn allow_eval(self) -> (r: Self)
        ensures
            r@ == (BashPolicyView { deny_eval: false, ..self@ }),
    {
        let mut s = self;
        s.deny_eval = false;
        s
    }

    /// Deny subshell usage ($(), backticks, bash -c).
    pub fn deny_subshells(self) -> (r: Self)
        ensures
            r@ == (BashPolicyView { deny_subshells: true, ..self@ }),
    {
        let mut s = self;
        s.deny_subshells = true;
        s
    }

    /// Allow subshell usage ($(), backticks, bash -c).
    pub fn allow_subshells(self) -> (r: Self)
        ensures
            r@ == (BashPolicyView { deny_subshells: false, ..self@ }),
    {
        let mut s = self;
        s.deny_subshells = false;
        s
    }

    /// Deny redirects to sensitive paths (e.g. /etc/*).
    pub fn deny_dangerous_redirects(self) -> (r: Self)
        ensures
            r@ == (BashPolicyView { deny_dangerous_redirects: true, ..self@ }),
    {
        let mut s = self;
        s.deny_dangerous_redirects = true;
        s
    }

    /// Allow redirects to sensitive paths.
    pub fn allow_dangerous_redirects(self) -> (r: Self)
        ensures
            r@ == (BashPolicyView { deny_dangerous_redirects: false, ..self@ }),
    {
        let mut s = self;
        s.deny_dangerous_redirects = false;
        s
    }

    /// Check a raw command string against the policy.
    pub fn check_command(&self, command: &str) -> (r: Result<BashTokens, String>)
        ensures
            check_result_view(r) == match check(self@, tokenize(command@)) {
                Ok(()) => Ok(tokenize(command@)),
                Err(e) => Err(e),
            },
    {
        let tokens = tokenize_bash(command);
        match self.check_tokens(&tokens) {
            Ok(()) => Ok(tokens),
            Err(e) => Err(e),
        }
    }

    /// Check tokenized command data against the policy.
    #[verifier::loop_isolation(false)]
    pub fn check_tokens(&self, tokens: &BashTokens) -> (r: Result<(), String>)
        ensures
            result_view(r) == check(self@, tokens@),
    {
        if tokens.primary_command.as_str().is_empty() && !self.allow_all {
            return Err(crate::text::owned("bash tool denied: unable to determine primary command"));
        }
        if tokens.has_chain && self.deny_command_chains {
            return Err(
                crate::text::owned("bash tool denied by policy: command chains are not allowed"),
            );
        }
        if tokens.has_pipe && self.deny_pipe_to_shell && has_pipe_to_shell(tokens) {
            return Err(crate::text::owned("bash tool denied by policy: pipe to shell not allowed"));
        }
        if tokens.has_eval && self.deny_eval {
            return Err(crate::text::owned("bash tool denied by policy: eval/exec not allowed"));
        }
        if tokens.has_subshell && self.deny_subshells {
            return Err(crate::text::owned("bash tool denied by policy: subshells not allowed"));
        }
        if tokens.has_dangerous_redirect && self.deny_dangerous_redirects {
            return Err(
                crate::text::owned("bash tool denied by policy: dangerous redirect not allowed"),
            );
        }
        let ghost cmds = strings_view(tokens.all_commands@);
        let ghost deny = self@.deny;
        let mut i: usize = 0;
        assert(cmds.skip(0) =~= cmds);
        while i < tokens.all_commands.len()
            invariant
                cmds == strings_view(tokens.all_commands@),
                deny == strings_view(self.deny_commands@).to_set(),
                i <= cmds.len(),
                first_in(cmds, deny) == first_in(cmds.skip(i as int), deny),
            decreases cmds.len() - i,
        {
            assert(cmds.skip(i as int)[0] == tokens.all_commands@[i as int]@);
            assert(cmds.skip(i as int).len() > 0);
            if contains_string(&self.deny_commands, &tokens.all_commands[i]) {
                assert(deny.contains(cmds[i as int]));
                assert(first_in(cmds, deny) == Some(cmds[i as int]));
                let mut msg = chars_of("bash tool denied by policy: command '");
                let cmd = chars_of(tokens.all_commands[i].as_str());
                extend_chars(&mut msg, cmd.as_slice());
                extend_str(&mut msg, "' is denied");
                assert(msg@ == "bash tool denied by policy: command '"@ + first_in(cmds, deny)->0
                    + "' is denied"@);
                let e = string_of(msg.as_slice());
                assert(result_view(Err(e)) == Err::<(), Seq<char>>(msg@));
                return Err(e);
            }
            assert(cmds.skip(i as int).drop_first() =~= cmds.skip(i + 1));
            i += 1;
        }
        if self.allow_all {
            return Ok(());
        }
        if self.allow_commands.len() == 0 {
            assert(self@.allow =~= Set::<Seq<char>>::empty());
            return Err(
                crate::text::owned(
                    "bash tool disabled by default: configure BashPolicy with allow_command() or allow_all()",
                ),
            );
        }
        proof {
            let v = strings_view(self.allow_commands@);
            assert(v.to_set().contains(v[0]));
            assert(self@.allow != Set::<Seq<char>>::empty());
        }
        let ghost allow = self@.allow;
        let mut missing_cmds: Vec<String> = Vec::new();
        let mut j: usize = 0;
        assert(cmds.take(0) =~= Seq::<Seq<char>>::empty());
        assert(strings_view(missing_cmds@) =~= Seq::<Seq<char>>::empty());
        while j < tokens.all_commands.len()
            invariant
                cmds == strings_view(tokens.all_commands@),
                allow == strings_view(self.allow_commands@).to_set(),
                j <= cmds.len(),
                strings_view(missing_cmds@) == missing(cmds.take(j as int), allow),
            decreases cmds.len() - j,
        {
            assert(cmds.take(j + 1).drop_last() =~= cmds.take(j as int));
            assert(cmds.take(j + 1).last() == tokens.all_commands@[j as int]@);
            if !contains_string(&self.allow_commands, &tokens.all_commands[j]) {
                let c = tokens.all_commands[j].clone();
                let ghost m0 = missing_cmds@;
                missing_cmds.push(c);
                assert(strings_view(missing_cmds@) =~= strings_view(m0).push(c@));
            }
            j += 1;
        }
        assert(cmds.take(cmds.len() as int) =~= cmds);
        if missing_cmds.len() > 0 {
            let mut msg = chars_of("bash tool denied: command not allowed: ");
            let joined = join_strings(&missing_cmds, ", ");
            extend_chars(&mut msg, joined.as_slice());
            return Err(string_of(msg.as_slice()));
        }
        Ok(())
    }
}

/// `has_pipe` together with a shell among the commands.
#[verifier::loop_isolation(false)]
fn has_pipe_to_shell(tokens: &BashTokens) -> (r: bool)
    ensures
        r == pipe_to_shell(tokens@),
{
    if !tokens.has_pipe {
        return false;
    }
    let ghost cmds = strings_view(tokens.all_commands@);
    let mut i: usize = 0;
    while i < tokens.all_commands.len()
        invariant
            cmds == strings_view(tokens.all_commands@),
            i <= cmds.len(),
            forall|k: int| 0 <= k < i ==> !crate::bash_tokenizer::is_shell(#[trigger] cmds[k]),
        decreases cmds.len() - i,
    {
        assert(cmds[i as int] == tokens.all_commands@[i as int]@);
        let c = chars_of(tokens.all_commands[i].as_str());
        assert(c@ == cmds[i as int]);
        if crate::text::eq_str(c.as_slice(), "sh") || crate::text::eq_str(c.as_slice(), "bash")
            || crate::text::eq_str(c.as_slice(), "zsh") || crate::text::eq_str(c.as_slice(), "dash")
            || crate::text::eq_str(c.as_slice(), "ksh") {
            assert(crate::bash_tokenizer::is_shell(cmds[i as int]));
            assert(tokens@.all_commands[i as int] == cmds[i as int]);
            assert(tokens@.has_pipe);
            return true;
        }
        i += 1;
    }
    false
}

/// The characters of `join(list, sep)`.
pub(crate) fn join_strings(list: &Vec<String>, sep: &str) -> (r: Vec<char>)
    ensures
        r@ == join(strings_view(list@), sep@),
{
    let ghost l = strings_view(list@);
    let mut out: Vec<char> = Vec::new();
    let mut i: usize = 0;
    assert(l.take(0) =~= Seq::<Seq<char>>::empty());
    while i < list.len()
        invariant
            l == strings_view(list@),
            i <= l.len(),
            out@ == join(l.take(i as int), sep@),
        decreases l.len() - i,
    {
        assert(l.take(i + 1).drop_last() =~= l.take(i as int));
        assert(l.take(i + 1).last() == list@[i as int]@);
        if i > 0 {
            extend_str(&mut out, sep);
        } else {
            assert(l.take(1).len() == 1);
            assert(out@ =~= Seq::<char>::empty());
        }
        let item = chars_of(list[i].as_str());
        extend_chars(&mut out, item.as_slice());
        proof {
            if i == 0 {
                assert(out@ =~= l.take(1)[0]);
            }
        }
        i += 1;
    }
    assert(l.take(l.len() as int) =~= l);
    out
}

} // verus!

verus! {

/// A visible ASCII character.
pub open spec fn visible(c: char) -> bool {
    33 <= c as u32 <= 126
}

/// A word of visible ASCII characters is its own trimmed text.
proof fn lemma_visible_trim(w: Seq<char>)
    requires
        w.len() > 0,
        forall|i: int| 0 <= i < w.len() ==> visible(#[trigger] w[i]),
    ensures
        crate::text::trim(w) == w,
{
    assert(visible(w[0]));
    assert(visible(w.last()));
    assert(!crate::text::is_ws(w[0]));
    assert(!crate::text::is_ws(w.last()));
    assert(crate::text::trim_start(w) == w);
    assert(crate::text::trim_end(w) == w);
}

/// A command word (visible ASCII, no `=`, no `/`, not starting with `.`) is
/// no assignment and names itself.
proof fn lemma_command_word(w: Seq<char>)
    requires
        w.len() > 0,
        forall|i: int| 0 <= i < w.len() ==> visible(#[trigger] w[i]) && w[i] != '=' && w[i] != '/',
        w[0] != '.',
    ensures
        crate::text::trim(w) == w,
        !crate::bash_tokenizer::env_assignment(w),
        normalize_command(w) == w,
{
    lemma_visible_trim(w);
    crate::text::lemma_last_index_of_bounds(w, '/');
    assert(crate::text::last_index_of(w, '/') == -1);
    assert(w.subrange(0, w.len() as int) =~= w);
    if w == seq!['.'] {
        assert(w[0] == '.');
    }
    assert(crate::text::last_component(w) == Some(w));
    if w == seq!['.', '.'] {
        assert(w[0] == '.');
    }
}

/// `curl x | bash` is the command `curl` piped into `bash`, with no chain.
proof fn lemma_tokens_curl_pipe_bash()
    ensures
        ({
            let t = tokenize("curl x | bash"@);
            &&& t.primary_command == "curl"@
            &&& t.all_commands == seq!["curl"@, "bash"@]
            &&& t.has_pipe
            &&& !t.has_chain
        }),
{
    reveal_strlit("curl x | bash");
    reveal_strlit("curl");
    reveal_strlit("bash");
    let s = "curl x | bash"@;
    let st0 = lex_init();
    assert forall|k: int| 0 <= k < 4 implies plain(#[trigger] s[k]) by {}
    lemma_lex_plain_run(s, 0, 4, st0);
    let st1 = LexSt { buf: st0.buf + s.subrange(0, 4), ..st0 };
    lemma_lex_space(s, 4, st1);
    let st2 = flush(st1);
    assert forall|k: int| 5 <= k < 6 implies plain(#[trigger] s[k]) by {}
    lemma_lex_plain_run(s, 5, 6, st2);
    let st3 = LexSt { buf: st2.buf + s.subrange(5, 6), ..st2 };
    lemma_lex_space(s, 6, st3);
    let st4 = flush(st3);
    lemma_lex_pipe(s, 7, st4);
    let st5 = push_op(set_pipe(flush(st4)), Operator::Pipe);
    lemma_lex_space(s, 8, st5);
    let st6 = flush(st5);
    assert forall|k: int| 9 <= k < 13 implies plain(#[trigger] s[k]) by {}
    lemma_lex_plain_run(s, 9, 13, st6);
    let st7 = LexSt { buf: st6.buf + s.subrange(9, 13), ..st6 };
    lemma_lex_end(s, st7);
    let lx = crate::bash_tokenizer::lex(s);
    assert(lx == flush(st7));
    let curl = s.subrange(0, 4);
    let bash = s.subrange(9, 13);
    assert(curl =~= "curl"@);
    assert(bash =~= "bash"@);
    assert(st0.buf + s.subrange(0, 4) =~= curl);
    assert(st2.buf + s.subrange(5, 6) =~= s.subrange(5, 6));
    assert(st6.buf + s.subrange(9, 13) =~= bash);
    assert(lx.tokens =~= seq![TokenV::Word(curl), TokenV::Word(s.subrange(5, 6)), TokenV::Operator(Operator::Pipe), TokenV::Word(bash)]);
    lemma_command_word(curl);
    lemma_command_word(bash);
    lemma_visible_trim(s.subrange(5, 6));
    reveal_with_fuel(crate::bash_tokenizer::asm_fold, 5);
    let ts = lx.tokens;
    assert(ts.drop_last().drop_last().drop_last().drop_last() =~= Seq::<TokenV>::empty());
    assert(ts.drop_last().drop_last().drop_last() =~= seq![TokenV::Word(curl)]);
    assert(ts.drop_last().drop_last() =~= seq![TokenV::Word(curl), TokenV::Word(s.subrange(5, 6))]);
    assert(ts.drop_last() =~= seq![TokenV::Word(curl), TokenV::Word(s.subrange(5, 6)), TokenV::Operator(Operator::Pipe)]);
    let a = crate::bash_tokenizer::commands_of(s);
    assert(a.primary == curl);
    assert(a.all =~= seq![curl, bash]);
}

/// A policy that denies piping into a shell refuses `curl x | bash` with
/// the pipe message, whatever else it allows.
pub proof fn lemma_curl_pipe_bash_refused(p: BashPolicyView)
    requires
        p.deny_pipe_to_shell,
    ensures
        check(p, tokenize("curl x | bash"@)) == Err::<(), Seq<char>>(
            "bash tool denied by policy: pipe to shell not allowed"@,
        ),
{
    lemma_tokens_curl_pipe_bash();
    let t = tokenize("curl x | bash"@);
    reveal_strlit("bash");
    reveal_strlit("curl");
    assert(t.all_commands[1] == "bash"@);
    assert(crate::bash_tokenizer::is_shell(t.all_commands[1]));
}

} // verus!

verus! {

/// Whether `c` occurs in `w`.
pub open spec fn has_char(w: Seq<char>, c: char) -> bool {
    exists|i: int| 0 <= i < w.len() && w[i] == c
}

/// The last component of a path is made of characters of the path.
proof fn lemma_last_component_chars(s: Seq<char>, c: char)
    ensures
        crate::text::last_component(s) matches Some(x) && has_char(x, c) ==> has_char(s, c),
    decreases s.len(),
{
    if s.len() > 0 {
        let k = crate::text::last_index_of(s, '/');
        crate::text::lemma_last_index_of_bounds(s, '/');
        let seg = s.subrange(k + 1, s.len() as int);
        if crate::text::last_component(s) is Some && has_char(crate::text::last_component(s)->Some_0, c) {
            let x = crate::text::last_component(s)->Some_0;
            if seg.len() > 0 && seg != seq!['.'] {
                let i = choose|i: int| 0 <= i < x.len() && x[i] == c;
                assert(s[k + 1 + i] == c);
            } else if !(k < 0 || k >= s.len()) {
                lemma_last_component_chars(s.subrange(0, k), c);
                let i = choose|i: int| 0 <= i < s.subrange(0, k).len() && s.subrange(0, k)[i] == c;
                assert(s[i] == c);
            }
        }
    }
}

/// Every shell name holds an `s` and an `h`.
proof fn lemma_shell_names(n: Seq<char>)
    requires
        crate::bash_tokenizer::is_shell(n),
    ensures
        has_char(n, 's'),
        has_char(n, 'h'),
{
    reveal_strlit("sh");
    reveal_strlit("bash");
    reveal_strlit("zsh");
    reveal_strlit("dash");
    reveal_strlit("ksh");
    if n == "sh"@ {
        assert(n[0] == 's' && n[1] == 'h');
    } else if n == "bash"@ {
        assert(n[2] == 's' && n[3] == 'h');
    } else if n == "zsh"@ {
        assert(n[1] == 's' && n[2] == 'h');
    } else if n == "dash"@ {
        assert(n[2] == 's' && n[3] == 'h');
    } else {
        assert(n[1] == 's' && n[2] == 'h');
    }
}

/// A visible word without an `s` or without an `h` names no shell.
proof fn lemma_no_shell(w: Seq<char>)
    requires
        w.len() > 0,
        forall|i: int| 0 <= i < w.len() ==> visible(#[trigger] w[i]),
        !has_char(w, 's') || !has_char(w, 'h'),
    ensures
        !crate::bash_tokenizer::is_shell(normalize_command(w)),
{
    lemma_visible_trim(w);
    lemma_last_component_chars(w, 's');
    lemma_last_component_chars(w, 'h');
    if crate::bash_tokenizer::is_shell(normalize_command(w)) {
        lemma_shell_names(normalize_command(w));
    }
}

/// Without a word naming a shell, no shell is run with `-c`.
proof fn lemma_no_shell_dash_c(words: Seq<Seq<char>>, i: int)
    requires
        forall|k: int| 0 <= k < words.len() ==> !crate::bash_tokenizer::is_shell(normalize_command(#[trigger] words[k])),
    ensures
        !crate::bash_tokenizer::shell_dash_c(words, i),
    decreases words.len() - i,
{
    if 0 <= i < words.len() {
        assert(!crate::bash_tokenizer::is_shell(normalize_command(words[i])));
        lemma_no_shell_dash_c(words, i + 1);
    }
}

} // verus!

verus! {

/// `echo hello` runs `echo` alone: no chain, pipe, eval or subshell.
proof fn lemma_tokens_echo_hello()
    ensures
        ({
            let t = tokenize("echo hello"@);
            &&& t.primary_command == "echo"@
            &&& t.all_commands == seq!["echo"@]
            &&& !t.has_pipe
            &&& !t.has_chain
            &&& !t.has_eval
            &&& !t.has_subshell
            &&& !t.has_dangerous_redirect
        }),
{
    reveal_strlit("echo hello");
    reveal_strlit("echo");
    reveal_strlit("eval");
    reveal_strlit("exec");
    let s = "echo hello"@;
    let st0 = lex_init();
    assert forall|k: int| 0 <= k < 4 implies plain(#[trigger] s[k]) by {}
    lemma_lex_plain_run(s, 0, 4, st0);
    let st1 = LexSt { buf: st0.buf + s.subrange(0, 4), ..st0 };
    lemma_lex_space(s, 4, st1);
    let st2 = flush(st1);
    assert forall|k: int| 5 <= k < 10 implies plain(#[trigger] s[k]) by {}
    lemma_lex_plain_run(s, 5, 10, st2);
    let st3 = LexSt { buf: st2.buf + s.subrange(5, 10), ..st2 };
    lemma_lex_end(s, st3);
    let lx = crate::bash_tokenizer::lex(s);
    let echo = s.subrange(0, 4);
    let hello = s.subrange(5, 10);
    assert(st0.buf + s.subrange(0, 4) =~= echo);
    assert(st2.buf + s.subrange(5, 10) =~= hello);
    assert(echo =~= "echo"@);
    assert(lx.tokens =~= seq![TokenV::Word(echo), TokenV::Word(hello)]);
    lemma_command_word(echo);
    lemma_visible_trim(hello);
    reveal_with_fuel(crate::bash_tokenizer::asm_fold, 3);
    assert(lx.tokens.drop_last().drop_last() =~= Seq::<TokenV>::empty());
    assert(lx.tokens.drop_last() =~= seq![TokenV::Word(echo)]);
    let a = crate::bash_tokenizer::commands_of(s);
    assert(a.all =~= seq![echo]);
    assert(!crate::bash_tokenizer::is_eval(echo));
    // the word splitter sees `echo` and `hello`
    assert forall|k: int| 0 <= k < 4 implies crate::bash_tokenizer::simple_plain(#[trigger] s[k]) by {}
    assert(s.take(0) =~= Seq::<char>::empty());
    crate::bash_tokenizer::lemma_simple_run(s, 0, 4);
    crate::bash_tokenizer::lemma_simple_space(s, 4);
    assert forall|k: int| 5 <= k < 10 implies crate::bash_tokenizer::simple_plain(#[trigger] s[k]) by {}
    crate::bash_tokenizer::lemma_simple_run(s, 5, 10);
    assert(s.take(10) =~= s);
    let words = crate::bash_tokenizer::simple_words(s);
    assert(Seq::<char>::empty() + s.subrange(0, 4) =~= echo);
    assert(Seq::<char>::empty() + s.subrange(5, 10) =~= hello);
    assert(words =~= seq![echo, hello]);
    assert(!has_char(echo, 's'));
    assert(!has_char(hello, 's'));
    lemma_no_shell(echo);
    lemma_no_shell(hello);
    lemma_no_shell_dash_c(words, 0);
}

/// A new policy refuses `echo hello`: nothing is allowed yet.
pub proof fn lemma_new_policy_refuses_echo_hello()
    ensures
        check(default_policy(), tokenize("echo hello"@)) == Err::<(), Seq<char>>(
            "bash tool disabled by default: configure BashPolicy with allow_command() or allow_all()"@,
        ),
{
    lemma_tokens_echo_hello();
    reveal_strlit("echo");
    let t = tokenize("echo hello"@);
    reveal_with_fuel(first_in, 2);
    assert(t.all_commands.drop_first() =~= Seq::<Seq<char>>::empty());
    assert(first_in(t.all_commands, Set::<Seq<char>>::empty()) is None);
    assert(t.primary_command.len() > 0);
}

} // verus!

verus! {

/// `rm -rf /` runs `rm` alone: no chain, pipe, eval, subshell or redirect.
proof fn lemma_tokens_rm_rf()
    ensures
        ({
            let t = tokenize("rm -rf /"@);
            &&& t.primary_command == "rm"@
            &&& t.all_commands == seq!["rm"@]
            &&& !t.has_pipe
            &&& !t.has_chain
            &&& !t.has_eval
            &&& !t.has_subshell
            &&& !t.has_dangerous_redirect
        }),
{
    reveal_strlit("rm -rf /");
    reveal_strlit("rm");
    reveal_strlit("eval");
    reveal_strlit("exec");
    let s = "rm -rf /"@;
    let st0 = lex_init();
    assert forall|k: int| 0 <= k < 2 implies plain(#[trigger] s[k]) by {}
    lemma_lex_plain_run(s, 0, 2, st0);
    let st1 = LexSt { buf: st0.buf + s.subrange(0, 2), ..st0 };
    lemma_lex_space(s, 2, st1);
    let st2 = flush(st1);
    assert forall|k: int| 3 <= k < 6 implies plain(#[trigger] s[k]) by {}
    lemma_lex_plain_run(s, 3, 6, st2);
    let st3 = LexSt { buf: st2.buf + s.subrange(3, 6), ..st2 };
    lemma_lex_space(s, 6, st3);
    let st4 = flush(st3);
    assert forall|k: int| 7 <= k < 8 implies plain(#[trigger] s[k]) by {}
    lemma_lex_plain_run(s, 7, 8, st4);
    let st5 = LexSt { buf: st4.buf + s.subrange(7, 8), ..st4 };
    lemma_lex_end(s, st5);
    let lx = crate::bash_tokenizer::lex(s);
    let rm = s.subrange(0, 2);
    let rf = s.subrange(3, 6);
    let root = s.subrange(7, 8);
    assert(st0.buf + s.subrange(0, 2) =~= rm);
    assert(st2.buf + s.subrange(3, 6) =~= rf);
    assert(st4.buf + s.subrange(7, 8) =~= root);
    assert(rm =~= "rm"@);
    assert(lx.tokens =~= seq![TokenV::Word(rm), TokenV::Word(rf), TokenV::Word(root)]);
    lemma_command_word(rm);
    lemma_visible_trim(rf);
    lemma_visible_trim(root);
    reveal_with_fuel(crate::bash_tokenizer::asm_fold, 4);
    assert(lx.tokens.drop_last().drop_last().drop_last() =~= Seq::<TokenV>::empty());
    assert(lx.tokens.drop_last().drop_last() =~= seq![TokenV::Word(rm)]);
    assert(lx.tokens.drop_last() =~= seq![TokenV::Word(rm), TokenV::Word(rf)]);
    let a = crate::bash_tokenizer::commands_of(s);
    assert(a.all =~= seq![rm]);
    assert(!crate::bash_tokenizer::is_eval(rm));
    assert(s.take(0) =~= Seq::<char>::empty());
    assert forall|k: int| 0 <= k < 2 implies crate::bash_tokenizer::simple_plain(#[trigger] s[k]) by {}
    crate::bash_tokenizer::lemma_simple_run(s, 0, 2);
    crate::bash_tokenizer::lemma_simple_space(s, 2);
    assert forall|k: int| 3 <= k < 6 implies crate::bash_tokenizer::simple_plain(#[trigger] s[k]) by {}
    crate::bash_tokenizer::lemma_simple_run(s, 3, 6);
    crate::bash_tokenizer::lemma_simple_space(s, 6);
    assert forall|k: int| 7 <= k < 8 implies crate::bash_tokenizer::simple_plain(#[trigger] s[k]) by {}
    crate::bash_tokenizer::lemma_simple_run(s, 7, 8);
    assert(s.take(8) =~= s);
    let words = crate::bash_tokenizer::simple_words(s);
    assert(Seq::<char>::empty() + s.subrange(0, 2) =~= rm);
    assert(Seq::<char>::empty() + s.subrange(3, 6) =~= rf);
    assert(Seq::<char>::empty() + s.subrange(7, 8) =~= root);
    assert(words =~= seq![rm, rf, root]);
    assert(!has_char(rm, 's'));
    assert(!has_char(rf, 's'));
    assert(!has_char(root, 's'));
    lemma_no_shell(rm);
    lemma_no_shell(rf);
    lemma_no_shell(root);
    lemma_no_shell_dash_c(words, 0);
}

/// Deny rules win over allow rules: a policy that denies `rm` refuses
/// `rm -rf /`, naming `rm`, even when it allows every command or `rm`.
pub proof fn lemma_denied_rm_refused(p: BashPolicyView)
    requires
        p.deny.contains("rm"@),
    ensures
        check(p, tokenize("rm -rf /"@)) == Err::<(), Seq<char>>(
            "bash tool denied by policy: command 'rm' is denied"@,
        ),
{
    lemma_tokens_rm_rf();
    reveal_strlit("rm");
    let t = tokenize("rm -rf /"@);
    assert(t.all_commands[0] == "rm"@);
    assert(first_in(t.all_commands, p.deny) == Some("rm"@));
    assert(t.primary_command.len() > 0);
    reveal_strlit("bash tool denied by policy: command '");
    reveal_strlit("' is denied");
    reveal_strlit("bash tool denied by policy: command 'rm' is denied");
    assert("bash tool denied by policy: command '"@ + "rm"@ + "' is denied"@
        =~= "bash tool denied by policy: command 'rm' is denied"@);
}

} // verus!

verus! {

/// `echo hello; echo world` is a chain whose primary command is `echo`.
proof fn lemma_tokens_echo_chain()
    ensures
        ({
            let t = tokenize("echo hello; echo world"@);
            &&& t.primary_command == "echo"@
            &&& t.has_chain
        }),
{
    reveal_strlit("echo hello; echo world");
    reveal_strlit("echo");
    let s = "echo hello; echo world"@;
    let st0 = lex_init();
    assert forall|k: int| 0 <= k < 4 implies plain(#[trigger] s[k]) by {}
    lemma_lex_plain_run(s, 0, 4, st0);
    let st1 = LexSt { buf: st0.buf + s.subrange(0, 4), ..st0 };
    lemma_lex_space(s, 4, st1);
    let st2 = flush(st1);
    assert forall|k: int| 5 <= k < 10 implies plain(#[trigger] s[k]) by {}
    lemma_lex_plain_run(s, 5, 10, st2);
    let st3 = LexSt { buf: st2.buf + s.subrange(5, 10), ..st2 };
    lemma_lex_semicolon(s, 10, st3);
    let st4 = push_op(set_chain(flush(st3)), Operator::Chain);
    lemma_lex_space(s, 11, st4);
    let st5 = flush(st4);
    assert forall|k: int| 12 <= k < 16 implies plain(#[trigger] s[k]) by {}
    lemma_lex_plain_run(s, 12, 16, st5);
    let st6 = LexSt { buf: st5.buf + s.subrange(12, 16), ..st5 };
    lemma_lex_space(s, 16, st6);
    let st7 = flush(st6);
    assert forall|k: int| 17 <= k < 22 implies plain(#[trigger] s[k]) by {}
    lemma_lex_plain_run(s, 17, 22, st7);
    let st8 = LexSt { buf: st7.buf + s.subrange(17, 22), ..st7 };
    lemma_lex_end(s, st8);
    let lx = crate::bash_tokenizer::lex(s);
    let echo = s.subrange(0, 4);
    let hello = s.subrange(5, 10);
    let echo2 = s.subrange(12, 16);
    let world = s.subrange(17, 22);
    assert(st0.buf + s.subrange(0, 4) =~= echo);
    assert(st2.buf + s.subrange(5, 10) =~= hello);
    assert(st5.buf + s.subrange(12, 16) =~= echo2);
    assert(st7.buf + s.subrange(17, 22) =~= world);
    assert(echo =~= "echo"@);
    let ts = seq![
        TokenV::Word(echo),
        TokenV::Word(hello),
        TokenV::Operator(Operator::Chain),
        TokenV::Word(echo2),
        TokenV::Word(world),
    ];
    assert(lx.tokens =~= ts);
    lemma_command_word(echo);
    lemma_visible_trim(hello);
    reveal_with_fuel(crate::bash_tokenizer::asm_fold, 6);
    assert(ts.drop_last().drop_last().drop_last().drop_last().drop_last() =~= Seq::<TokenV>::empty());
    assert(ts.drop_last().drop_last().drop_last().drop_last() =~= seq![TokenV::Word(echo)]);
    assert(ts.drop_last().drop_last().drop_last() =~= seq![TokenV::Word(echo), TokenV::Word(hello)]);
    assert(ts.drop_last().drop_last() =~= seq![TokenV::Word(echo), TokenV::Word(hello), TokenV::Operator(Operator::Chain)]);
    let a3 = crate::bash_tokenizer::asm_fold(ts.drop_last().drop_last());
    assert(a3.primary == echo);
    lemma_primary_kept(ts, 3);
}

/// Once the primary command is set, later tokens keep it.
proof fn lemma_primary_kept(ts: Seq<TokenV>, n: int)
    requires
        0 <= n <= ts.len(),
        crate::bash_tokenizer::asm_fold(ts.subrange(0, n)).primary.len() > 0,
    ensures
        crate::bash_tokenizer::end_command(crate::bash_tokenizer::asm_fold(ts)).primary
            == crate::bash_tokenizer::asm_fold(ts.subrange(0, n)).primary,
    decreases ts.len() - n,
{
    if n == ts.len() {
        assert(ts.subrange(0, n) =~= ts);
    } else {
        assert(ts.subrange(0, n + 1).drop_last() =~= ts.subrange(0, n));
        lemma_primary_kept(ts, n + 1);
    }
}

/// A policy that denies command chains refuses `echo hello; echo world`
/// with the chain message, whatever else it allows.
pub proof fn lemma_echo_chain_refused(p: BashPolicyView)
    requires
        p.deny_command_chains,
    ensures
        check(p, tokenize("echo hello; echo world"@)) == Err::<(), Seq<char>>(
            "bash tool denied by policy: command chains are not allowed"@,
        ),
{
    lemma_tokens_echo_chain();
    reveal_strlit("echo");
}

} // verus!

verus! {

/// A four-letter command followed by ` ls`: the command runs alone, with no
/// chain or pipe.
proof fn lemma_tokens_word_ls(s: Seq<char>)
    requires
        s.len() == 7,
        forall|k: int| 0 <= k < 4 ==> 'a' <= #[trigger] s[k] <= 'z',
        s[4] == ' ',
        s[5] == 'l',
        s[6] == 's',
    ensures
        ({
            let t = tokenize(s);
            &&& t.primary_command == s.subrange(0, 4)
            &&& t.all_commands == seq![s.subrange(0, 4)]
            &&& !t.has_pipe
            &&& !t.has_chain
        }),
{
    let st0 = lex_init();
    assert forall|k: int| 0 <= k < 4 implies plain(#[trigger] s[k]) by {}
    lemma_lex_plain_run(s, 0, 4, st0);
    let st1 = LexSt { buf: st0.buf + s.subrange(0, 4), ..st0 };
    lemma_lex_space(s, 4, st1);
    let st2 = flush(st1);
    assert forall|k: int| 5 <= k < 7 implies plain(#[trigger] s[k]) by {}
    lemma_lex_plain_run(s, 5, 7, st2);
    let st3 = LexSt { buf: st2.buf + s.subrange(5, 7), ..st2 };
    lemma_lex_end(s, st3);
    let lx = crate::bash_tokenizer::lex(s);
    let cmd = s.subrange(0, 4);
    let ls = s.subrange(5, 7);
    assert(st0.buf + s.subrange(0, 4) =~= cmd);
    assert(st2.buf + s.subrange(5, 7) =~= ls);
    assert(lx.tokens =~= seq![TokenV::Word(cmd), TokenV::Word(ls)]);
    lemma_command_word(cmd);
    lemma_visible_trim(ls);
    reveal_with_fuel(crate::bash_tokenizer::asm_fold, 3);
    assert(lx.tokens.drop_last().drop_last() =~= Seq::<TokenV>::empty());
    assert(lx.tokens.drop_last() =~= seq![TokenV::Word(cmd)]);
    let a = crate::bash_tokenizer::commands_of(s);
    assert(a.all =~= seq![cmd]);
}

/// A policy that denies eval refuses `eval ls` and `exec ls` with the eval
/// message, whatever else it allows (even `eval` itself or every command).
pub proof fn lemma_eval_and_exec_refused(p: BashPolicyView)
    requires
        p.deny_eval,
    ensures
        check(p, tokenize("eval ls"@)) == Err::<(), Seq<char>>(
            "bash tool denied by policy: eval/exec not allowed"@,
        ),
        check(p, tokenize("exec ls"@)) == Err::<(), Seq<char>>(
            "bash tool denied by policy: eval/exec not allowed"@,
        ),
{
    reveal_strlit("eval ls");
    reveal_strlit("exec ls");
    reveal_strlit("eval");
    reveal_strlit("exec");
    let s1 = "eval ls"@;
    let s2 = "exec ls"@;
    lemma_tokens_word_ls(s1);
    lemma_tokens_word_ls(s2);
    assert(s1.subrange(0, 4) =~= "eval"@);
    assert(s2.subrange(0, 4) =~= "exec"@);
    let t1 = tokenize(s1);
    let t2 = tokenize(s2);
    assert(crate::bash_tokenizer::is_eval(t1.all_commands[0]));
    assert(crate::bash_tokenizer::is_eval(t2.all_commands[0]));
    assert(t1.has_eval);
    assert(t2.has_eval);
}

} // verus!

verus! {

/// `echo $(ls)` runs `echo` with a command substitution.
proof fn lemma_tokens_echo_subshell()
    ensures
        ({
            let t = tokenize("echo $(ls)"@);
            &&& t.primary_command == "echo"@
            &&& t.all_commands == seq!["echo"@]
            &&& !t.has_pipe
            &&& !t.has_chain
            &&& !t.has_eval
            &&& t.has_subshell
        }),
{
    reveal_strlit("echo $(ls)");
    reveal_strlit("echo");
    reveal_strlit("eval");
    reveal_strlit("exec");
    let s = "echo $(ls)"@;
    let st0 = lex_init();
    assert forall|k: int| 0 <= k < 4 implies plain(#[trigger] s[k]) by {}
    lemma_lex_plain_run(s, 0, 4, st0);
    let st1 = LexSt { buf: st0.buf + s.subrange(0, 4), ..st0 };
    lemma_lex_space(s, 4, st1);
    let st2 = flush(st1);
    lemma_lex_dollar_paren(s, 5, st2);
    let st3 = flush(set_subshell(st2));
    assert forall|k: int| 7 <= k < 10 implies plain(#[trigger] s[k]) by {}
    lemma_lex_plain_run(s, 7, 10, st3);
    let st4 = LexSt { buf: st3.buf + s.subrange(7, 10), ..st3 };
    lemma_lex_end(s, st4);
    let lx = crate::bash_tokenizer::lex(s);
    let echo = s.subrange(0, 4);
    let arg = s.subrange(7, 10);
    assert(st0.buf + s.subrange(0, 4) =~= echo);
    assert(st3.buf + s.subrange(7, 10) =~= arg);
    assert(echo =~= "echo"@);
    assert(lx.tokens =~= seq![TokenV::Word(echo), TokenV::Word(arg)]);
    assert(lx.flags.has_subshell);
    lemma_command_word(echo);
    lemma_visible_trim(arg);
    reveal_with_fuel(crate::bash_tokenizer::asm_fold, 3);
    assert(lx.tokens.drop_last().drop_last() =~= Seq::<TokenV>::empty());
    assert(lx.tokens.drop_last() =~= seq![TokenV::Word(echo)]);
    let a = crate::bash_tokenizer::commands_of(s);
    assert(a.all =~= seq![echo]);
    assert(!crate::bash_tokenizer::is_eval(echo));
}

/// A policy that denies subshells refuses `echo $(ls)` with the subshell
/// message, whatever else it allows.
pub proof fn lemma_echo_subshell_refused(p: BashPolicyView)
    requires
        p.deny_subshells,
    ensures
        check(p, tokenize("echo $(ls)"@)) == Err::<(), Seq<char>>(
            "bash tool denied by policy: subshells not allowed"@,
        ),
{
    lemma_tokens_echo_subshell();
    reveal_strlit("echo");
}

/// `echo hi > /etc/passwd` runs `echo` with its output sent into
/// `/etc/passwd`.
proof fn lemma_tokens_echo_redirect()
    ensures
        ({
            let t = tokenize("echo hi > /etc/passwd"@);
            &&& t.primary_command == "echo"@
            &&& t.all_commands == seq!["echo"@]
            &&& !t.has_pipe
            &&& !t.has_chain
            &&& !t.has_eval
            &&& !t.has_subshell
            &&& t.has_dangerous_redirect
        }),
{
    reveal_strlit("echo hi > /etc/passwd");
    reveal_strlit("echo");
    reveal_strlit("eval");
    reveal_strlit("exec");
    reveal_strlit("/etc/");
    let s = "echo hi > /etc/passwd"@;
    let st0 = lex_init();
    assert forall|k: int| 0 <= k < 4 implies plain(#[trigger] s[k]) by {}
    lemma_lex_plain_run(s, 0, 4, st0);
    let st1 = LexSt { buf: st0.buf + s.subrange(0, 4), ..st0 };
    lemma_lex_space(s, 4, st1);
    let st2 = flush(st1);
    assert forall|k: int| 5 <= k < 7 implies plain(#[trigger] s[k]) by {}
    lemma_lex_plain_run(s, 5, 7, st2);
    let st3 = LexSt { buf: st2.buf + s.subrange(5, 7), ..st2 };
    lemma_lex_space(s, 7, st3);
    let st4 = flush(st3);
    crate::bash_tokenizer::lemma_lex_gt(s, 8, st4);
    let st5 = crate::bash_tokenizer::redirect(st4);
    lemma_lex_space(s, 9, st5);
    let st6 = flush(st5);
    assert forall|k: int| 10 <= k < 21 implies plain(#[trigger] s[k]) by {}
    lemma_lex_plain_run(s, 10, 21, st6);
    let st7 = LexSt { buf: st6.buf + s.subrange(10, 21), ..st6 };
    lemma_lex_end(s, st7);
    let lx = crate::bash_tokenizer::lex(s);
    let echo = s.subrange(0, 4);
    let hi = s.subrange(5, 7);
    let target = s.subrange(10, 21);
    assert(st0.buf + s.subrange(0, 4) =~= echo);
    assert(st2.buf + s.subrange(5, 7) =~= hi);
    assert(st6.buf + s.subrange(10, 21) =~= target);
    assert(echo =~= "echo"@);
    lemma_visible_trim(target);
    assert("/etc/"@.is_prefix_of(target));
    assert(crate::bash_tokenizer::dangerous_target(target));
    assert(lx.tokens =~= seq![
        TokenV::Word(echo),
        TokenV::Word(hi),
        TokenV::Operator(Operator::Redirect),
        TokenV::RedirectTarget(target),
    ]);
    assert(lx.flags.has_dangerous_redirect);
    assert(!lx.flags.has_subshell);
    lemma_command_word(echo);
    lemma_visible_trim(hi);
    reveal_with_fuel(crate::bash_tokenizer::asm_fold, 5);
    let ts = lx.tokens;
    assert(ts.drop_last().drop_last().drop_last().drop_last() =~= Seq::<TokenV>::empty());
    assert(ts.drop_last().drop_last().drop_last() =~= seq![TokenV::Word(echo)]);
    assert(ts.drop_last().drop_last() =~= seq![TokenV::Word(echo), TokenV::Word(hi)]);
    assert(ts.drop_last() =~= seq![TokenV::Word(echo), TokenV::Word(hi), TokenV::Operator(Operator::Redirect)]);
    let a = crate::bash_tokenizer::commands_of(s);
    assert(a.all =~= seq![echo]);
    assert(!crate::bash_tokenizer::is_eval(echo));
    assert(s.take(0) =~= Seq::<char>::empty());
    assert forall|k: int| 0 <= k < 4 implies crate::bash_tokenizer::simple_plain(#[trigger] s[k]) by {}
    crate::bash_tokenizer::lemma_simple_run(s, 0, 4);
    crate::bash_tokenizer::lemma_simple_space(s, 4);
    assert forall|k: int| 5 <= k < 7 implies crate::bash_tokenizer::simple_plain(#[trigger] s[k]) by {}
    crate::bash_tokenizer::lemma_simple_run(s, 5, 7);
    crate::bash_tokenizer::lemma_simple_space(s, 7);
    assert forall|k: int| 8 <= k < 9 implies crate::bash_tokenizer::simple_plain(#[trigger] s[k]) by {}
    crate::bash_tokenizer::lemma_simple_run(s, 8, 9);
    crate::bash_tokenizer::lemma_simple_space(s, 9);
    assert forall|k: int| 10 <= k < 21 implies crate::bash_tokenizer::simple_plain(#[trigger] s[k]) by {}
    crate::bash_tokenizer::lemma_simple_run(s, 10, 21);
    assert(s.take(21) =~= s);
    let words = crate::bash_tokenizer::simple_words(s);
    let gt = s.subrange(8, 9);
    assert(Seq::<char>::empty() + s.subrange(0, 4) =~= echo);
    assert(Seq::<char>::empty() + s.subrange(5, 7) =~= hi);
    assert(Seq::<char>::empty() + s.subrange(8, 9) =~= gt);
    assert(Seq::<char>::empty() + s.subrange(10, 21) =~= target);
    assert(words =~= seq![echo, hi, gt, target]);
    assert(!has_char(echo, 's'));
    assert(!has_char(hi, 's'));
    assert(!has_char(gt, 's'));
    assert(!has_char(target, 'h'));
    lemma_no_shell(echo);
    lemma_no_shell(hi);
    lemma_no_shell(gt);
    lemma_no_shell(target);
    lemma_no_shell_dash_c(words, 0);
}

/// A policy that denies dangerous redirects refuses
/// `echo hi > /etc/passwd` with the redirect message, whatever else it
/// allows.
pub proof fn lemma_echo_redirect_refused(p: BashPolicyView)
    requires
        p.deny_dangerous_redirects,
    ensures
        check(p, tokenize("echo hi > /etc/passwd"@)) == Err::<(), Seq<char>>(
            "bash tool denied by policy: dangerous redirect not allowed"@,
        ),
{
    lemma_tokens_echo_redirect();
    reveal_strlit("echo");
}

} // verus!
