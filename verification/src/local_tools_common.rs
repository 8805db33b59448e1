//! Shared pieces of the local tool packs: their error type and the
//! environment filter for spawned commands.

use vstd::prelude::*;

use crate::bash_tokenizer::strings_view;
use crate::text::{chars_of, extend_chars, extend_str, string_of, trim, trim_chars};

verus! {

/// Error type for local tool pack operations. Paths are kept as text.
#[derive(Debug, Clone, PartialEq, Eq)]
pub enum LocalToolError {
    /// Configuration validation failed.
    InvalidConfig(String),
    /// Root directory path is empty.
    RootRequired,
    /// Root path could not be resolved (doesn't exist or permission denied).
    RootNotFound { path: String, reason: String },
    /// Root path exists but is not a directory.
    RootNotDirectory(String),
}

pub open spec fn local_tool_error_text(e: LocalToolError) -> Seq<char> {
    match e {
        LocalToolError::InvalidConfig(msg) => "invalid config: "@ + msg@,
        LocalToolError::RootRequired => "root directory required"@,
        LocalToolError::RootNotFound { path, reason } => "resolve root "@ + path@ + ": "@ + reason@,
        LocalToolError::RootNotDirectory(path) => "root is not a directory: "@ + path@,
    }
}

impl LocalToolError {
    /// The `Display` text of the error.
    pub fn to_string(&self) -> (r: String)
        ensures
            r@ == local_tool_error_text(*self),
    {
        match self {
            LocalToolError::InvalidConfig(msg) => {
                let mut out = chars_of("invalid config: ");
                let m = chars_of(msg.as_str());
                extend_chars(&mut out, m.as_slice());
                string_of(out.as_slice())
            },
            LocalToolError::RootRequired => crate::text::owned("root directory required"),
            LocalToolError::RootNotFound { path, reason } => {
                let mut out = chars_of("resolve root ");
                let p = chars_of(path.as_str());
                extend_chars(&mut out, p.as_slice());
                extend_str(&mut out, ": ");
                let r = chars_of(reason.as_str());
                extend_chars(&mut out, r.as_slice());
                string_of(out.as_slice())
            },
            LocalToolError::RootNotDirectory(path) => {
                let mut out = chars_of("root is not a directory: ");
                let p = chars_of(path.as_str());
                extend_chars(&mut out, p.as_slice());
                string_of(out.as_slice())
            },
        }
    }
}

/// Environment mode for command execution.
#[derive(Debug, Clone, Copy, PartialEq, Eq)]
pub enum EnvMode {
    /// No environment variables passed (default, most secure).
    Empty,
    /// Inherit all environment variables from parent process.
    InheritAll,
    /// Only pass specified environment variables.
    Allowlist,
}

impl EnvMode {
    pub fn default() -> (r: Self)
        ensures
            r == EnvMode::Empty,
    {
        EnvMode::Empty
    }
}

pub open spec fn pairs_view(v: Seq<(String, String)>) -> Seq<(Seq<char>, Seq<char>)> {
    v.map_values(|p: (String, String)| (p.0@, p.1@))
}

/// The variables whose name is in `allow`, in the order they came in.
pub open spec fn keep_allowed(
    vars: Seq<(Seq<char>, Seq<char>)>,
    allow: Set<Seq<char>>,
) -> Seq<(Seq<char>, Seq<char>)>
    decreases vars.len(),
{
    if vars.len() == 0 {
        Seq::empty()
    } else if allow.contains(vars.last().0) {
        keep_allowed(vars.drop_last(), allow).push(vars.last())
    } else {
        keep_allowed(vars.drop_last(), allow)
    }
}

/// The allowlist mode passes exactly the allowed variables: every variable
/// it keeps has an allowed name and was in the environment, and every
/// variable of the environment with an allowed name is kept.
pub proof fn lemma_keep_allowed_exact(vars: Seq<(Seq<char>, Seq<char>)>, allow: Set<Seq<char>>)
    ensures
        forall|k: int|
            0 <= k < keep_allowed(vars, allow).len() ==> allow.contains(
                (#[trigger] keep_allowed(vars, allow)[k]).0,
            ) && vars.contains(keep_allowed(vars, allow)[k]),
        forall|i: int|
            0 <= i < vars.len() && allow.contains((#[trigger] vars[i]).0) ==> keep_allowed(
                vars,
                allow,
            ).contains(vars[i]),
    decreases vars.len(),
{
    if vars.len() > 0 {
        let rest = vars.drop_last();
        lemma_keep_allowed_exact(rest, allow);
        let kr = keep_allowed(rest, allow);
        let kv = keep_allowed(vars, allow);
        assert forall|k: int| 0 <= k < kv.len() implies allow.contains((#[trigger] kv[k]).0)
            && vars.contains(kv[k]) by {
            if k < kr.len() {
                assert(kv[k] == kr[k]);
                let j = choose|j: int| 0 <= j < rest.len() && rest[j] == kr[k];
                assert(vars[j] == rest[j]);
            } else {
                assert(kv[k] == vars.last());
                assert(vars[vars.len() - 1] == vars.last());
            }
        }
        assert forall|i: int| 0 <= i < vars.len() && allow.contains((#[trigger] vars[i]).0)
            implies kv.contains(vars[i]) by {
            if i < vars.len() - 1 {
                assert(rest[i] == vars[i]);
                let j = choose|j: int| 0 <= j < kr.len() && kr[j] == rest[i];
                if allow.contains(vars.last().0) {
                    assert(kv[j] == kr[j]);
                } else {
                    assert(kv[j] == kr[j]);
                }
            } else {
                assert(kv[kv.len() - 1] == vars.last());
            }
        }
    }
}

/// Filters environment variables based on mode (pure function).
pub fn filter_env(env_vars: Vec<(String, String)>, mode: &EnvMode, allowlist: &Vec<String>) -> (r: Vec<
    (String, String),
>)
    ensures
        *mode == EnvMode::Empty ==> r@.len() == 0,
        *mode == EnvMode::InheritAll ==> pairs_view(r@) == pairs_view(env_vars@),
        *mode == EnvMode::Allowlist ==> pairs_view(r@) == keep_allowed(
            pairs_view(env_vars@),
            strings_view(allowlist@).to_set(),
        ),
{
    match mode {
        EnvMode::Empty => Vec::new(),
        EnvMode::InheritAll => env_vars,
        EnvMode::Allowlist => {
            let ghost vars = pairs_view(env_vars@);
            let ghost allow = strings_view(allowlist@).to_set();
            let mut out: Vec<(String, String)> = Vec::new();
            let mut i: usize = 0;
            assert(vars.take(0) =~= Seq::<(Seq<char>, Seq<char>)>::empty());
            assert(pairs_view(out@) =~= Seq::<(Seq<char>, Seq<char>)>::empty());
            while i < env_vars.len()
                invariant
                    vars == pairs_view(env_vars@),
                    allow == strings_view(allowlist@).to_set(),
                    i <= vars.len(),
                    pairs_view(out@) == keep_allowed(vars.take(i as int), allow),
                decreases vars.len() - i,
            {
                assert(vars.take(i + 1).drop_last() =~= vars.take(i as int));
                assert(vars.take(i + 1).last() == (env_vars@[i as int].0@, env_vars@[i as int].1@));
                if contains_name(allowlist, &env_vars[i].0) {
                    let k = env_vars[i].0.clone();
                    let v = env_vars[i].1.clone();
                    let ghost o0 = out@;
                    out.push((k, v));
                    assert(pairs_view(out@) =~= pairs_view(o0).push((k@, v@)));
                }
                i += 1;
            }
            assert(vars.take(vars.len() as int) =~= vars);
            out
        },
    }
}

fn contains_name(v: &Vec<String>, s: &String) -> (r: bool)
    ensures
        r == strings_view(v@).to_set().contains(s@),
{
    let mut i: usize = 0;
    while i < v.len()
        invariant
            i <= v@.len(),
            forall|j: int| 0 <= j < i ==> strings_view(v@)[j] != s@,
        decreases v@.len() - i,
    {
        assert(strings_view(v@)[i as int] == v@[i as int]@);
        if v[i] == *s {
            return true;
        }
        i += 1;
    }
    false
}

/// The trimmed non-empty names of `names`, as a set.
pub open spec fn nonblank_trimmed(names: Seq<Seq<char>>) -> Set<Seq<char>> {
    Set::new(|x: Seq<char>| x.len() > 0 && exists|i: int| 0 <= i < names.len() && trim(#[trigger] names[i]) == x)
}

/// Adds the trimmed non-empty names of `names` to the set kept in `v`.
pub fn insert_trimmed_names(v: &mut Vec<String>, names: &Vec<String>)
    ensures
        strings_view(final(v)@).to_set() == strings_view(old(v)@).to_set().union(
            nonblank_trimmed(strings_view(names@)),
        ),
{
    let ghost base = strings_view(v@).to_set();
    let ghost nv = strings_view(names@);
    let mut i: usize = 0;
    while i < names.len()
        invariant
            i <= names@.len(),
            nv == strings_view(names@),
            strings_view(v@).to_set() == base.union(nonblank_trimmed(nv.take(i as int))),
        decreases names@.len() - i,
    {
        let c = chars_of(names[i].as_str());
        let t = trim_chars(c.as_slice());
        if t.len() > 0 {
            let name = string_of(t.as_slice());
            if !contains_name(v, &name) {
                let ghost v0 = v@;
                v.push(name);
                proof {
                    assert(strings_view(v@) =~= strings_view(v0) + seq![t@]);
                    Seq::lemma_to_set_insert_commutes(strings_view(v0), t@);
                }
            }
        }
        proof {
            assert(nv.take(i + 1) =~= nv.take(i as int).push(nv[i as int]));
            assert(nv[i as int] == names@[i as int]@);
            assert forall|x: Seq<char>|
                strings_view(v@).to_set().contains(x) == base.union(
                    nonblank_trimmed(nv.take(i + 1)),
                ).contains(x) by {
                let old_part = nonblank_trimmed(nv.take(i as int));
                let new_part = nonblank_trimmed(nv.take(i + 1));
                if x.len() > 0 && trim(nv[i as int]) == x {
                    assert(nv.take(i + 1)[i as int] == nv[i as int]);
                }
                if new_part.contains(x) && !(trim(nv[i as int]) == x) {
                    let k = choose|k: int| 0 <= k < nv.take(i + 1).len() && trim(#[trigger] nv.take(i + 1)[k]) == x;
                    assert(k < i);
                    assert(nv.take(i as int)[k] == nv.take(i + 1)[k]);
                }
                if old_part.contains(x) {
                    let k = choose|k: int| 0 <= k < nv.take(i as int).len() && trim(#[trigger] nv.take(i as int)[k]) == x;
                    assert(nv.take(i + 1)[k] == nv.take(i as int)[k]);
                }
            }
            assert(strings_view(v@).to_set() =~= base.union(nonblank_trimmed(nv.take(i + 1))));
        }
        i += 1;
    }
    assert(nv.take(nv.len() as int) =~= nv);
}

} // verus!
