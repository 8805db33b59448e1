//! Orchestration plans proposed for a plugin command, and their validation
//! against the agents the plugin offers.

use vstd::prelude::*;

use crate::bash_tokenizer::strings_view;
use crate::plugins::{PluginAgentName, PluginError, PluginOrchestrationError, PluginOrchestrationErrorCode};
use crate::text::{chars_of, decimal, decimal_chars, extend_chars, extend_str, str_eq, string_of, trim, trim_chars};

verus! {

/// One agent chosen for a step, with the reason for choosing it.
#[derive(Debug, Clone)]
pub struct OrchestrationPlanAgent {
    pub id: String,
    pub reason: String,
}

/// One step of a plan: the agents that run in it and the steps it waits for.
#[derive(Debug, Clone)]
pub struct OrchestrationPlanStep {
    pub id: Option<String>,
    pub depends_on: Option<Vec<String>>,
    pub agents: Vec<OrchestrationPlanAgent>,
}

/// A plan of kind `orchestration.plan.v1`.
#[derive(Debug, Clone)]
pub struct OrchestrationPlanV1 {
    pub kind: String,
    pub max_parallelism: Option<u32>,
    pub steps: Vec<OrchestrationPlanStep>,
}

/// The identifier of a step: its trimmed id, when that is not empty.
pub open spec fn step_id_of(s: OrchestrationPlanStep) -> Option<Seq<char>> {
    match s.id {
        Some(x) => if trim(x@).len() > 0 {
            Some(trim(x@))
        } else {
            None
        },
        None => None,
    }
}

/// Whether a step names the steps it depends on.
pub open spec fn has_deps(s: OrchestrationPlanStep) -> bool {
    s.depends_on matches Some(d) && d@.len() > 0
}

/// The dependencies a step names (none when it names none).
pub open spec fn deps_of(s: OrchestrationPlanStep) -> Seq<Seq<char>> {
    match s.depends_on {
        Some(d) => strings_view(d@),
        None => seq![],
    }
}

/// The identified steps, in order, with their positions.
pub open spec fn ids_list(steps: Seq<OrchestrationPlanStep>) -> Seq<(Seq<char>, int)>
    decreases steps.len(),
{
    if steps.len() == 0 {
        seq![]
    } else {
        let rest = ids_list(steps.drop_last());
        match step_id_of(steps.last()) {
            Some(x) => rest.push((x, steps.len() - 1)),
            None => rest,
        }
    }
}

/// The position recorded for `x` by its first entry in `list`, or -1.
pub open spec fn lookup_index(list: Seq<(Seq<char>, int)>, x: Seq<char>) -> int
    decreases list.len(),
{
    if list.len() == 0 {
        -1
    } else if list[0].0 == x {
        list[0].1
    } else {
        lookup_index(list.drop_first(), x)
    }
}

/// Whether `x` is the id of an entry of `list`.
pub open spec fn listed(list: Seq<(Seq<char>, int)>, x: Seq<char>) -> bool {
    exists|k: int| 0 <= k < list.len() && #[trigger] list[k].0 == x
}

/// The first step id (in step order) that an earlier step already uses.
pub open spec fn first_duplicate(steps: Seq<OrchestrationPlanStep>) -> Option<Seq<char>>
    decreases steps.len(),
{
    if steps.len() == 0 {
        None
    } else {
        match first_duplicate(steps.drop_last()) {
            Some(d) => Some(d),
            None => match step_id_of(steps.last()) {
                Some(x) => if listed(ids_list(steps.drop_last()), x) {
                    Some(x)
                } else {
                    None
                },
                None => None,
            },
        }
    }
}

/// An orchestration error, as a code and a message.
pub type PlanError = (PluginOrchestrationErrorCode, Seq<char>);

/// `"x"`: `x` between double quotes.
pub open spec fn quoted(x: Seq<char>) -> Seq<char> {
    "\""@ + x + "\""@
}

/// The problem with one dependency of step `i`, if any.
pub open spec fn dep_error(ids: Seq<(Seq<char>, int)>, i: int, dep: Seq<char>) -> Option<PlanError> {
    let d = trim(dep);
    let n = decimal((i + 1) as nat);
    if d.len() == 0 {
        Some((PluginOrchestrationErrorCode::InvalidDependency, "step "@ + n + " has empty depends_on"@))
    } else if lookup_index(ids, d) < 0 {
        Some(
            (
                PluginOrchestrationErrorCode::InvalidDependency,
                "step "@ + n + " depends on unknown step "@ + quoted(d),
            ),
        )
    } else if lookup_index(ids, d) >= i {
        Some(
            (
                PluginOrchestrationErrorCode::InvalidDependency,
                "step "@ + n + " depends on future step "@ + quoted(d),
            ),
        )
    } else {
        None
    }
}

/// The first problem among the first `k` dependencies of step `i`.
pub open spec fn deps_error(ids: Seq<(Seq<char>, int)>, i: int, deps: Seq<Seq<char>>, k: int) -> Option<PlanError>
    decreases k,
{
    if k <= 0 {
        None
    } else {
        match deps_error(ids, i, deps, k - 1) {
            Some(e) => Some(e),
            None => dep_error(ids, i, deps[k - 1]),
        }
    }
}

/// Checks one agent of the step numbered `n` against the known agents and
/// the agents already used; on success the agent is used too.
pub open spec fn agent_check(
    a: OrchestrationPlanAgent,
    known: Set<Seq<char>>,
    n: Seq<char>,
    seen: Set<Seq<char>>,
) -> Result<Set<Seq<char>>, PlanError> {
    let id = trim(a.id@);
    if id.len() == 0 {
        Err((PluginOrchestrationErrorCode::InvalidPlan, "step "@ + n + " agent id required"@))
    } else if !known.contains(id) {
        Err((PluginOrchestrationErrorCode::UnknownAgent, "unknown agent "@ + quoted(id)))
    } else if trim(a.reason@).len() == 0 {
        Err((PluginOrchestrationErrorCode::InvalidPlan, "agent "@ + quoted(id) + " must include a reason"@))
    } else if seen.contains(id) {
        Err(
            (
                PluginOrchestrationErrorCode::InvalidPlan,
                "agent "@ + quoted(id) + " referenced more than once"@,
            ),
        )
    } else {
        Ok(seen.insert(id))
    }
}

/// Checks the first `k` agents of a step in order.
pub open spec fn agents_check(
    agents: Seq<OrchestrationPlanAgent>,
    known: Set<Seq<char>>,
    n: Seq<char>,
    seen: Set<Seq<char>>,
    k: int,
) -> Result<Set<Seq<char>>, PlanError>
    decreases k,
{
    if k <= 0 {
        Ok(seen)
    } else {
        match agents_check(agents, known, n, seen, k - 1) {
            Err(e) => Err(e),
            Ok(s) => agent_check(agents[k - 1], known, n, s),
        }
    }
}

/// Checks step `i`: it has agents, its dependencies are earlier steps, and
/// its agents are known, explained and not used before.
pub open spec fn step_check(
    steps: Seq<OrchestrationPlanStep>,
    known: Set<Seq<char>>,
    i: int,
    seen: Set<Seq<char>>,
) -> Result<Set<Seq<char>>, PlanError> {
    let s = steps[i];
    let n = decimal((i + 1) as nat);
    if s.agents@.len() == 0 {
        Err((PluginOrchestrationErrorCode::InvalidPlan, "step "@ + n + " must include at least one agent"@))
    } else {
        match deps_error(ids_list(steps), i, deps_of(s), deps_of(s).len() as int) {
            Some(e) => Err(e),
            None => agents_check(s.agents@, known, n, seen, s.agents@.len() as int),
        }
    }
}

/// Checks the first `k` steps in order.
pub open spec fn steps_check(steps: Seq<OrchestrationPlanStep>, known: Set<Seq<char>>, k: int) -> Result<
    Set<Seq<char>>,
    PlanError,
>
    decreases k,
{
    if k <= 0 {
        Ok(Set::empty())
    } else {
        match steps_check(steps, known, k - 1) {
            Err(e) => Err(e),
            Ok(seen) => step_check(steps, known, k - 1, seen),
        }
    }
}

/// The first problem of a plan, the checks running in a fixed order: the
/// kind, the parallelism, duplicate step ids, ids missing while
/// dependencies are used, then each step in turn.
pub open spec fn plan_error(plan: OrchestrationPlanV1, known: Set<Seq<char>>) -> Option<PlanError> {
    let steps = plan.steps@;
    if plan.kind@ != "orchestration.plan.v1"@ {
        Some((PluginOrchestrationErrorCode::InvalidPlan, "plan kind must be orchestration.plan.v1"@))
    } else if plan.max_parallelism == Some(0u32) {
        Some((PluginOrchestrationErrorCode::InvalidPlan, "max_parallelism must be >= 1"@))
    } else {
        match first_duplicate(steps) {
            Some(x) => Some((PluginOrchestrationErrorCode::InvalidPlan, "duplicate step id "@ + quoted(x))),
            None => if (exists|i: int| 0 <= i < steps.len() && has_deps(#[trigger] steps[i])) && (exists|
                i: int,
            | 0 <= i < steps.len() && (#[trigger] step_id_of(steps[i])) is None) {
                Some((PluginOrchestrationErrorCode::InvalidPlan, "step id required when depends_on is used"@))
            } else {
                match steps_check(steps, known, steps.len() as int) {
                    Err(e) => Some(e),
                    Ok(_) => None,
                }
            },
        }
    }
}

/// The names of the known agents.
pub open spec fn names_set(known: Seq<PluginAgentName>) -> Set<Seq<char>> {
    Set::new(|x: Seq<char>| exists|i: int| 0 <= i < known.len() && #[trigger] known[i].text() == x)
}

fn plan_err(code: PluginOrchestrationErrorCode, msg: Vec<char>) -> (r: Result<(), PluginError>)
    ensures
        r matches Err(e) && crate::plugins::is_orchestration_error(e, code, msg@),
{
    Err(PluginError::Orchestration(PluginOrchestrationError::new(code, string_of(msg.as_slice()))))
}

fn step_label(i: usize) -> (r: Vec<char>)
    requires
        i < usize::MAX,
    ensures
        r@ == "step "@ + decimal((i + 1) as nat),
{
    let mut m = chars_of("step ");
    let d = decimal_chars((i + 1) as u64);
    extend_chars(&mut m, d.as_slice());
    m
}

fn quoted_chars(prefix: &str, x: &[char], suffix: &str) -> (r: Vec<char>)
    ensures
        r@ == prefix@ + quoted(x@) + suffix@,
{
    let mut m = chars_of(prefix);
    extend_str(&mut m, "\"");
    extend_chars(&mut m, x);
    extend_str(&mut m, "\"");
    extend_str(&mut m, suffix);
    m
}

fn quoted_after(prefix: &str, x: &[char]) -> (r: Vec<char>)
    ensures
        r@ == prefix@ + quoted(x@),
{
    let mut m = chars_of(prefix);
    let ghost p = m@;
    extend_str(&mut m, "\"");
    extend_chars(&mut m, x);
    extend_str(&mut m, "\"");
    assert(m@ =~= p + quoted(x@));
    m
}

fn step_id_exec(s: &OrchestrationPlanStep) -> (r: Option<Vec<char>>)
    ensures
        match r {
            Some(v) => step_id_of(*s) == Some(v@),
            None => step_id_of(*s) is None,
        },
{
    match &s.id {
        Some(x) => {
            let c = chars_of(x.as_str());
            let t = trim_chars(c.as_slice());
            if t.len() > 0 {
                Some(t)
            } else {
                None
            }
        },
        None => None,
    }
}

/// The ids recorded so far, as plain values.
pub open spec fn ids_view(v: Seq<(Vec<char>, usize)>) -> Seq<(Seq<char>, int)> {
    v.map_values(|p: (Vec<char>, usize)| (p.0@, p.1 as int))
}

fn find_id(ids: &Vec<(Vec<char>, usize)>, x: &[char]) -> (r: Option<usize>)
    ensures
        match r {
            Some(p) => lookup_index(ids_view(ids@), x@) == p as int && listed(ids_view(ids@), x@),
            None => lookup_index(ids_view(ids@), x@) == -1 && !listed(ids_view(ids@), x@),
        },
{
    let ghost l = ids_view(ids@);
    let mut k: usize = 0;
    assert(l.skip(0) =~= l);
    while k < ids.len()
        invariant
            k <= ids@.len(),
            l == ids_view(ids@),
            lookup_index(l, x@) == lookup_index(l.skip(k as int), x@),
            forall|j: int| 0 <= j < k ==> l[j].0 != x@,
        decreases ids@.len() - k,
    {
        assert(l.skip(k as int)[0] == l[k as int]);
        if crate::text::chars_eq(ids[k].0.as_slice(), x) {
            assert(l[k as int].0 == x@);
            return Some(ids[k].1);
        }
        assert(l.skip(k as int).drop_first() =~= l.skip(k + 1));
        k += 1;
    }
    assert(l.skip(k as int).len() == 0);
    None
}

fn contains_name(known: &Vec<PluginAgentName>, x: &String) -> (r: bool)
    ensures
        r == names_set(known@).contains(x@),
{
    let mut i: usize = 0;
    while i < known.len()
        invariant
            i <= known@.len(),
            forall|j: int| 0 <= j < i ==> known@[j].text() != x@,
        decreases known@.len() - i,
    {
        if str_eq(known[i].as_str(), x.as_str()) {
            assert(known@[i as int].text() == x@);
            return true;
        }
        i += 1;
    }
    false
}

fn contains_string(v: &Vec<String>, x: &String) -> (r: bool)
    ensures
        r == strings_view(v@).to_set().contains(x@),
{
    let mut i: usize = 0;
    while i < v.len()
        invariant
            i <= v@.len(),
            forall|j: int| 0 <= j < i ==> strings_view(v@)[j] != x@,
        decreases v@.len() - i,
    {
        assert(strings_view(v@)[i as int] == v@[i as int]@);
        if str_eq(v[i].as_str(), x.as_str()) {
            return true;
        }
        i += 1;
    }
    false
}

proof fn lemma_first_duplicate_prefix(steps: Seq<OrchestrationPlanStep>, n: int)
    requires
        0 <= n <= steps.len(),
        first_duplicate(steps.take(n)) is Some,
    ensures
        first_duplicate(steps) == first_duplicate(steps.take(n)),
    decreases steps.len() - n,
{
    if n < steps.len() {
        assert(steps.take(n + 1).drop_last() =~= steps.take(n));
        lemma_first_duplicate_prefix(steps, n + 1);
    } else {
        assert(steps.take(n) =~= steps);
    }
}

proof fn lemma_steps_check_prefix(steps: Seq<OrchestrationPlanStep>, known: Set<Seq<char>>, k: int, m: int)
    requires
        0 <= k <= m,
        steps_check(steps, known, k) is Err,
    ensures
        steps_check(steps, known, m) == steps_check(steps, known, k),
    decreases m - k,
{
    if k < m {
        lemma_steps_check_prefix(steps, known, k, m - 1);
    }
}

proof fn lemma_deps_error_prefix(ids: Seq<(Seq<char>, int)>, i: int, deps: Seq<Seq<char>>, k: int, m: int)
    requires
        0 <= k <= m,
        deps_error(ids, i, deps, k) is Some,
    ensures
        deps_error(ids, i, deps, m) == deps_error(ids, i, deps, k),
    decreases m - k,
{
    if k < m {
        lemma_deps_error_prefix(ids, i, deps, k, m - 1);
    }
}

proof fn lemma_agents_check_prefix(
    agents: Seq<OrchestrationPlanAgent>,
    known: Set<Seq<char>>,
    n: Seq<char>,
    seen: Set<Seq<char>>,
    k: int,
    m: int,
)
    requires
        0 <= k <= m,
        agents_check(agents, known, n, seen, k) is Err,
    ensures
        agents_check(agents, known, n, seen, m) == agents_check(agents, known, n, seen, k),
    decreases m - k,
{
    if k < m {
        lemma_agents_check_prefix(agents, known, n, seen, k, m - 1);
    }
}

/// The step ids in order with their positions, whether any step names
/// dependencies; or the first step id used twice.
fn collect_step_ids(steps: &Vec<OrchestrationPlanStep>) -> (r: Result<(Vec<(Vec<char>, usize)>, bool), Vec<char>>)
    ensures
        match r {
            Ok((ids, flag)) => first_duplicate(steps@) is None && ids_view(ids@) == ids_list(steps@)
                && flag == (exists|i: int| 0 <= i < steps@.len() && has_deps(#[trigger] steps@[i])),
            Err(x) => first_duplicate(steps@) == Some(x@),
        },
{
    let mut ids: Vec<(Vec<char>, usize)> = Vec::new();
    let mut flag = false;
    let mut i: usize = 0;
    assert(steps@.take(0) =~= Seq::<OrchestrationPlanStep>::empty());
    assert(ids_view(ids@) =~= Seq::<(Seq<char>, int)>::empty());
    while i < steps.len()
        invariant
            i <= steps@.len(),
            ids_view(ids@) == ids_list(steps@.take(i as int)),
            first_duplicate(steps@.take(i as int)) is None,
            flag == (exists|j: int| 0 <= j < i && has_deps(#[trigger] steps@[j])),
        decreases steps@.len() - i,
    {
        let ghost pre = steps@.take(i as int);
        let ghost cur = steps@.take(i + 1);
        assert(cur.drop_last() =~= pre);
        assert(cur.last() == steps@[i as int]);
        let step = &steps[i];
        let d = match &step.depends_on {
            Some(v) => v.len() > 0,
            None => false,
        };
        if d {
            flag = true;
        }
        match step_id_exec(step) {
            Some(x) => {
                match find_id(&ids, x.as_slice()) {
                    Some(_) => {
                        proof {
                            assert(first_duplicate(cur) == Some(x@));
                            lemma_first_duplicate_prefix(steps@, i + 1);
                        }
                        return Err(x);
                    },
                    None => {
                        let ghost v0 = ids@;
                        ids.push((x, i));
                        assert(ids_view(ids@) =~= ids_view(v0).push((x@, i as int)));
                    },
                }
            },
            None => {},
        }
        i += 1;
    }
    assert(steps@.take(steps@.len() as int) =~= steps@);
    Ok((ids, flag))
}

/// Whether some step has no id.
fn some_step_lacks_id(steps: &Vec<OrchestrationPlanStep>) -> (r: bool)
    ensures
        r == (exists|i: int| 0 <= i < steps@.len() && (#[trigger] step_id_of(steps@[i])) is None),
{
    let mut i: usize = 0;
    while i < steps.len()
        invariant
            i <= steps@.len(),
            forall|j: int| 0 <= j < i ==> (#[trigger] step_id_of(steps@[j])) is Some,
        decreases steps@.len() - i,
    {
        if step_id_exec(&steps[i]).is_none() {
            return true;
        }
        i += 1;
    }
    false
}

/// Checks the dependencies of step `i`.
fn check_deps(ids: &Vec<(Vec<char>, usize)>, i: usize, deps: &Vec<String>) -> (r: Result<(), PluginError>)
    requires
        i < usize::MAX,
    ensures
        match deps_error(ids_view(ids@), i as int, strings_view(deps@), deps@.len() as int) {
            None => r is Ok,
            Some((code, msg)) => r matches Err(e) && crate::plugins::is_orchestration_error(e, code, msg),
        },
{
    let ghost dv = strings_view(deps@);
    let mut j: usize = 0;
    while j < deps.len()
        invariant
            i < usize::MAX,
            j <= deps@.len(),
            dv == strings_view(deps@),
            deps_error(ids_view(ids@), i as int, dv, j as int) is None,
        decreases deps@.len() - j,
    {
        assert(dv[j as int] == deps@[j as int]@);
        let c = chars_of(deps[j].as_str());
        let d = trim_chars(c.as_slice());
        let label = step_label(i);
        if d.len() == 0 {
            let mut m = label;
            extend_str(&mut m, " has empty depends_on");
            proof {
                lemma_deps_error_prefix(ids_view(ids@), i as int, dv, j + 1, dv.len() as int);
            }
            return plan_err(PluginOrchestrationErrorCode::InvalidDependency, m);
        }
        match find_id(ids, d.as_slice()) {
            None => {
                let mut m = label;
                let q = quoted_after(" depends on unknown step ", d.as_slice());
                extend_chars(&mut m, q.as_slice());
                assert(m@ =~= "step "@ + decimal((i + 1) as nat) + " depends on unknown step "@ + quoted(d@));
                proof {
                    lemma_deps_error_prefix(ids_view(ids@), i as int, dv, j + 1, dv.len() as int);
                }
                return plan_err(PluginOrchestrationErrorCode::InvalidDependency, m);
            },
            Some(p) => {
                if p >= i {
                    let mut m = label;
                    let q = quoted_after(" depends on future step ", d.as_slice());
                    extend_chars(&mut m, q.as_slice());
                    assert(m@ =~= "step "@ + decimal((i + 1) as nat) + " depends on future step "@ + quoted(d@));
                    proof {
                        lemma_deps_error_prefix(ids_view(ids@), i as int, dv, j + 1, dv.len() as int);
                    }
                    return plan_err(PluginOrchestrationErrorCode::InvalidDependency, m);
                }
            },
        }
        j += 1;
    }
    Ok(())
}

/// Checks the agents of step `i`, adding them to `seen`.
fn check_agents(
    agents: &Vec<OrchestrationPlanAgent>,
    known: &Vec<PluginAgentName>,
    i: usize,
    seen: &mut Vec<String>,
) -> (r: Result<(), PluginError>)
    requires
        i < usize::MAX,
    ensures
        match agents_check(
            agents@,
            names_set(known@),
            decimal((i + 1) as nat),
            strings_view(old(seen)@).to_set(),
            agents@.len() as int,
        ) {
            Ok(s) => r is Ok && strings_view(final(seen)@).to_set() == s,
            Err((code, msg)) => r matches Err(e) && crate::plugins::is_orchestration_error(e, code, msg),
        },
{
    let ghost n = decimal((i + 1) as nat);
    let ghost kn = names_set(known@);
    let ghost s0 = strings_view(seen@).to_set();
    let mut j: usize = 0;
    while j < agents.len()
        invariant
            i < usize::MAX,
            j <= agents@.len(),
            n == decimal((i + 1) as nat),
            kn == names_set(known@),
            s0 == strings_view(old(seen)@).to_set(),
            agents_check(agents@, kn, n, s0, j as int) == Ok::<Set<Seq<char>>, PlanError>(
                strings_view(seen@).to_set(),
            ),
        decreases agents@.len() - j,
    {
        let a = &agents[j];
        let c = chars_of(a.id.as_str());
        let idc = trim_chars(c.as_slice());
        let id = string_of(idc.as_slice());
        if idc.len() == 0 {
            let mut m = step_label(i);
            extend_str(&mut m, " agent id required");
            proof {
                lemma_agents_check_prefix(agents@, kn, n, s0, j + 1, agents@.len() as int);
            }
            return plan_err(PluginOrchestrationErrorCode::InvalidPlan, m);
        }
        if !contains_name(known, &id) {
            let m = quoted_after("unknown agent ", idc.as_slice());
            proof {
                lemma_agents_check_prefix(agents@, kn, n, s0, j + 1, agents@.len() as int);
            }
            return plan_err(PluginOrchestrationErrorCode::UnknownAgent, m);
        }
        let rc = chars_of(a.reason.as_str());
        let rt = trim_chars(rc.as_slice());
        if rt.len() == 0 {
            let m = quoted_chars("agent ", idc.as_slice(), " must include a reason");
            proof {
                lemma_agents_check_prefix(agents@, kn, n, s0, j + 1, agents@.len() as int);
            }
            return plan_err(PluginOrchestrationErrorCode::InvalidPlan, m);
        }
        if contains_string(seen, &id) {
            let m = quoted_chars("agent ", idc.as_slice(), " referenced more than once");
            proof {
                lemma_agents_check_prefix(agents@, kn, n, s0, j + 1, agents@.len() as int);
            }
            return plan_err(PluginOrchestrationErrorCode::InvalidPlan, m);
        }
        let ghost before = seen@;
        seen.push(id);
        proof {
            assert(strings_view(seen@) =~= strings_view(before).push(idc@));
            Seq::lemma_to_set_insert_commutes(strings_view(before), idc@);
            assert(strings_view(before).push(idc@) =~= strings_view(before) + seq![idc@]);
        }
        j += 1;
    }
    Ok(())
}

/// Validates a plan against the agents the plugin offers.
#[verifier::loop_isolation(false)]
pub fn validate_orchestration_plan(plan: &OrchestrationPlanV1, known: &Vec<PluginAgentName>) -> (r: Result<
    (),
    PluginError,
>)
    ensures
        match plan_error(*plan, names_set(known@)) {
            None => r is Ok,
            Some((code, msg)) => r matches Err(e) && crate::plugins::is_orchestration_error(e, code, msg),
        },
{
    if !str_eq(plan.kind.as_str(), "orchestration.plan.v1") {
        return plan_err(
            PluginOrchestrationErrorCode::InvalidPlan,
            chars_of("plan kind must be orchestration.plan.v1"),
        );
    }
    if let Some(max) = plan.max_parallelism {
        if max < 1 {
            return plan_err(PluginOrchestrationErrorCode::InvalidPlan, chars_of("max_parallelism must be >= 1"));
        }
    }
    let steps = &plan.steps;
    let (ids, has_explicit_deps) = match collect_step_ids(steps) {
        Ok(p) => p,
        Err(x) => {
            let m = quoted_after("duplicate step id ", x.as_slice());
            return plan_err(PluginOrchestrationErrorCode::InvalidPlan, m);
        },
    };
    if has_explicit_deps && some_step_lacks_id(steps) {
        return plan_err(
            PluginOrchestrationErrorCode::InvalidPlan,
            chars_of("step id required when depends_on is used"),
        );
    }
    let ghost kn = names_set(known@);
    let mut seen: Vec<String> = Vec::new();
    let mut i: usize = 0;
    assert(strings_view(seen@).to_set() =~= Set::<Seq<char>>::empty());
    while i < steps.len()
        invariant
            i <= steps@.len(),
            steps@ == plan.steps@,
            kn == names_set(known@),
            ids_view(ids@) == ids_list(steps@),
            steps_check(steps@, kn, i as int) == Ok::<Set<Seq<char>>, PlanError>(
                strings_view(seen@).to_set(),
            ),
        decreases steps@.len() - i,
    {
        let step = &steps[i];
        if step.agents.len() == 0 {
            let mut m = step_label(i);
            extend_str(&mut m, " must include at least one agent");
            proof {
                lemma_steps_check_prefix(steps@, kn, i + 1, steps@.len() as int);
            }
            return plan_err(PluginOrchestrationErrorCode::InvalidPlan, m);
        }
        let no_deps: Vec<String> = Vec::new();
        let deps = match &step.depends_on {
            Some(d) => d,
            None => &no_deps,
        };
        assert(strings_view(deps@) == deps_of(*step)) by {
            if step.depends_on is None {
                assert(strings_view(deps@) =~= Seq::<Seq<char>>::empty());
            }
        }
        match check_deps(&ids, i, deps) {
            Err(e) => {
                proof {
                    lemma_steps_check_prefix(steps@, kn, i + 1, steps@.len() as int);
                }
                return Err(e);
            },
            Ok(()) => {},
        }
        match check_agents(&step.agents, known, i, &mut seen) {
            Err(e) => {
                proof {
                    lemma_steps_check_prefix(steps@, kn, i + 1, steps@.len() as int);
                }
                return Err(e);
            },
            Ok(()) => {},
        }
        i += 1;
    }
    Ok(())
}


/// Every entry of `ids_list(steps)` is the id of the step at its position.
proof fn lemma_ids_list_entries(steps: Seq<OrchestrationPlanStep>)
    ensures
        forall|k: int|
            0 <= k < ids_list(steps).len() ==> 0 <= (#[trigger] ids_list(steps)[k]).1 < steps.len()
                && step_id_of(steps[ids_list(steps)[k].1]) == Some(ids_list(steps)[k].0),
    decreases steps.len(),
{
    if steps.len() > 0 {
        let rest = steps.drop_last();
        lemma_ids_list_entries(rest);
        assert forall|k: int| 0 <= k < ids_list(steps).len() implies 0 <= (
        #[trigger] ids_list(steps)[k]).1 < steps.len() && step_id_of(steps[ids_list(steps)[k].1])
            == Some(ids_list(steps)[k].0) by {
            if k < ids_list(rest).len() {
                assert(ids_list(steps)[k] == ids_list(rest)[k]);
                assert(rest[ids_list(rest)[k].1] == steps[ids_list(rest)[k].1]);
            }
        }
    }
}

/// A position found by `lookup_index` belongs to an entry for `x`.
proof fn lemma_lookup_index_entry(list: Seq<(Seq<char>, int)>, x: Seq<char>)
    requires
        forall|k: int| 0 <= k < list.len() ==> (#[trigger] list[k]).1 >= 0,
        lookup_index(list, x) >= 0,
    ensures
        exists|k: int|
            0 <= k < list.len() && (#[trigger] list[k]).0 == x && list[k].1 == lookup_index(list, x),
    decreases list.len(),
{
    if list[0].0 == x {
        assert(list[0].0 == x);
    } else {
        let rest = list.drop_first();
        assert forall|k: int| 0 <= k < rest.len() implies (#[trigger] rest[k]).1 >= 0 by {
            assert(rest[k] == list[k + 1]);
        }
        lemma_lookup_index_entry(rest, x);
        let k = choose|k: int|
            0 <= k < rest.len() && (#[trigger] rest[k]).0 == x && rest[k].1 == lookup_index(rest, x);
        assert(list[k + 1] == rest[k]);
    }
}

/// Dependencies without a problem among the first `k`: each of them is fine.
proof fn lemma_deps_ok(ids: Seq<(Seq<char>, int)>, i: int, deps: Seq<Seq<char>>, k: int)
    requires
        0 <= k <= deps.len(),
        deps_error(ids, i, deps, k) is None,
    ensures
        forall|j: int| 0 <= j < k ==> dep_error(ids, i, #[trigger] deps[j]) is None,
    decreases k,
{
    if k > 0 {
        lemma_deps_ok(ids, i, deps, k - 1);
    }
}

/// Agents accepted among the first `k`: each is known and has a reason.
proof fn lemma_agents_ok(
    agents: Seq<OrchestrationPlanAgent>,
    known: Set<Seq<char>>,
    n: Seq<char>,
    seen: Set<Seq<char>>,
    k: int,
)
    requires
        0 <= k <= agents.len(),
        agents_check(agents, known, n, seen, k) is Ok,
    ensures
        forall|j: int|
            0 <= j < k ==> known.contains(trim((#[trigger] agents[j]).id@)) && trim(
                agents[j].reason@,
            ).len() > 0,
    decreases k,
{
    if k > 0 {
        lemma_agents_ok(agents, known, n, seen, k - 1);
    }
}

/// Steps accepted among the first `k`: each has agents, all known and
/// explained, and dependencies without a problem.
proof fn lemma_steps_ok(steps: Seq<OrchestrationPlanStep>, known: Set<Seq<char>>, k: int)
    requires
        0 <= k <= steps.len(),
        steps_check(steps, known, k) is Ok,
    ensures
        forall|i: int|
            0 <= i < k ==> (#[trigger] steps[i]).agents@.len() > 0 && deps_error(
                ids_list(steps),
                i,
                deps_of(steps[i]),
                deps_of(steps[i]).len() as int,
            ) is None,
        forall|i: int, j: int|
            0 <= i < k && 0 <= j < steps[i].agents@.len() ==> known.contains(
                trim((#[trigger] steps[i].agents@[j]).id@),
            ) && trim(steps[i].agents@[j].reason@).len() > 0,
    decreases k,
{
    if k > 0 {
        lemma_steps_ok(steps, known, k - 1);
        let seen = steps_check(steps, known, k - 1)->Ok_0;
        let s = steps[k - 1];
        lemma_agents_ok(
            s.agents@,
            known,
            decimal(k as nat),
            seen,
            s.agents@.len() as int,
        );
    }
}

/// What an accepted plan is: of the right kind, every step with at least
/// one agent, every agent a known one given with a reason, and every
/// dependency naming, by its id, a step that comes earlier.
pub proof fn lemma_accepted_plan_is_well_formed(plan: OrchestrationPlanV1, known: Set<Seq<char>>)
    requires
        plan_error(plan, known) is None,
    ensures
        plan.kind@ == "orchestration.plan.v1"@,
        forall|i: int| 0 <= i < plan.steps@.len() ==> (#[trigger] plan.steps@[i]).agents@.len() > 0,
        forall|i: int, j: int|
            0 <= i < plan.steps@.len() && 0 <= j < plan.steps@[i].agents@.len() ==> known.contains(
                trim((#[trigger] plan.steps@[i].agents@[j]).id@),
            ) && trim(plan.steps@[i].agents@[j].reason@).len() > 0,
        forall|i: int, j: int|
            0 <= i < plan.steps@.len() && 0 <= j < deps_of(plan.steps@[i]).len() ==> exists|m: int|
                0 <= m < i && step_id_of(#[trigger] plan.steps@[m]) == Some(
                    trim(#[trigger] deps_of(plan.steps@[i])[j]),
                ),
{
    let steps = plan.steps@;
    lemma_steps_ok(steps, known, steps.len() as int);
    lemma_ids_list_entries(steps);
    let ids = ids_list(steps);
    assert forall|i: int, j: int|
        0 <= i < steps.len() && 0 <= j < deps_of(steps[i]).len() implies exists|m: int|
        0 <= m < i && step_id_of(#[trigger] steps[m]) == Some(
            trim(#[trigger] deps_of(steps[i])[j]),
        ) by {
        let deps = deps_of(steps[i]);
        lemma_deps_ok(ids, i, deps, deps.len() as int);
        assert(dep_error(ids, i, deps[j]) is None);
        let d = trim(deps[j]);
        assert forall|k: int| 0 <= k < ids.len() implies (#[trigger] ids[k]).1 >= 0 by {
        }
        lemma_lookup_index_entry(ids, d);
        let k = choose|k: int|
            0 <= k < ids.len() && (#[trigger] ids[k]).0 == d && ids[k].1 == lookup_index(ids, d);
        let m = ids[k].1;
        assert(step_id_of(steps[m]) == Some(d));
    }
}

/// The trimmed id of agent `j` of step `i`.
pub open spec fn agent_key(steps: Seq<OrchestrationPlanStep>, i: int, j: int) -> Seq<char> {
    trim(steps[i].agents@[j].id@)
}

/// The agent ids used by the steps before step `i` and by the agents of
/// step `i` before its agent `j`.
pub open spec fn used_before(steps: Seq<OrchestrationPlanStep>, i: int, j: int) -> Set<Seq<char>> {
    Set::new(
        |x: Seq<char>|
            exists|a: int, b: int|
                ((0 <= a < i && 0 <= b < steps[a].agents@.len()) || (a == i && 0 <= b < j)) && #[trigger] agent_key(
                    steps,
                    a,
                    b,
                ) == x,
    )
}

/// Step ids are distinct: no two steps carry the same id.
pub open spec fn distinct_step_ids(steps: Seq<OrchestrationPlanStep>) -> bool {
    forall|a: int, b: int|
        0 <= a < b < steps.len() && (#[trigger] step_id_of(steps[a])) is Some ==> step_id_of(steps[a])
            != #[trigger] step_id_of(steps[b])
}

/// Without two steps sharing an id, no duplicate is found.
proof fn lemma_no_duplicate(steps: Seq<OrchestrationPlanStep>)
    requires
        distinct_step_ids(steps),
    ensures
        first_duplicate(steps) is None,
    decreases steps.len(),
{
    if steps.len() > 0 {
        let pre = steps.drop_last();
        assert forall|a: int, b: int|
            0 <= a < b < pre.len() && (#[trigger] step_id_of(pre[a])) is Some implies step_id_of(pre[a])
            != #[trigger] step_id_of(pre[b]) by {
            assert(pre[a] == steps[a] && pre[b] == steps[b]);
        }
        lemma_no_duplicate(pre);
        if let Some(x) = step_id_of(steps.last()) {
            if listed(ids_list(pre), x) {
                let k = choose|k: int| 0 <= k < ids_list(pre).len() && #[trigger] ids_list(pre)[k].0 == x;
                lemma_ids_list_entries(pre);
                let m = ids_list(pre)[k].1;
                assert(step_id_of(pre[m]) == Some(x));
                assert(pre[m] == steps[m]);
                assert(step_id_of(steps[m]) != step_id_of(steps[steps.len() - 1]));
            }
        }
    }
}

/// A step with an id has an entry in `ids_list`.
proof fn lemma_ids_list_has(steps: Seq<OrchestrationPlanStep>, m: int)
    requires
        0 <= m < steps.len(),
        step_id_of(steps[m]) is Some,
    ensures
        exists|k: int|
            0 <= k < ids_list(steps).len() && #[trigger] ids_list(steps)[k] == (
                step_id_of(steps[m])->Some_0,
                m,
            ),
    decreases steps.len(),
{
    let pre = steps.drop_last();
    if m == steps.len() - 1 {
        let k = ids_list(pre).len() as int;
        assert(ids_list(steps)[k] == (step_id_of(steps[m])->Some_0, m));
    } else {
        assert(pre[m] == steps[m]);
        lemma_ids_list_has(pre, m);
        let k = choose|k: int|
            0 <= k < ids_list(pre).len() && #[trigger] ids_list(pre)[k] == (step_id_of(pre[m])->Some_0, m);
        assert(ids_list(steps)[k] == ids_list(pre)[k]);
    }
}

/// An id that has an entry is found by `lookup_index`.
proof fn lemma_lookup_index_found(list: Seq<(Seq<char>, int)>, x: Seq<char>, k: int)
    requires
        0 <= k < list.len(),
        list[k].0 == x,
        forall|j: int| 0 <= j < list.len() ==> (#[trigger] list[j]).1 >= 0,
    ensures
        lookup_index(list, x) >= 0,
    decreases list.len(),
{
    if list[0].0 != x {
        let rest = list.drop_first();
        assert(rest[k - 1] == list[k]);
        assert forall|j: int| 0 <= j < rest.len() implies (#[trigger] rest[j]).1 >= 0 by {
            assert(rest[j] == list[j + 1]);
        }
        lemma_lookup_index_found(rest, x, k - 1);
    }
}

/// With distinct step ids, looking an id up gives the position of its step.
proof fn lemma_lookup_step(steps: Seq<OrchestrationPlanStep>, m: int, x: Seq<char>)
    requires
        distinct_step_ids(steps),
        0 <= m < steps.len(),
        step_id_of(steps[m]) == Some(x),
    ensures
        lookup_index(ids_list(steps), x) == m,
{
    let ids = ids_list(steps);
    lemma_ids_list_entries(steps);
    lemma_ids_list_has(steps, m);
    let k = choose|k: int| 0 <= k < ids.len() && #[trigger] ids[k] == (step_id_of(steps[m])->Some_0, m);
    assert forall|j: int| 0 <= j < ids.len() implies (#[trigger] ids[j]).1 >= 0 by {}
    lemma_lookup_index_found(ids, x, k);
    lemma_lookup_index_entry(ids, x);
    let k2 = choose|k2: int| 0 <= k2 < ids.len() && (#[trigger] ids[k2]).0 == x && ids[k2].1 == lookup_index(ids, x);
    let m2 = ids[k2].1;
    assert(step_id_of(steps[m2]) == Some(x));
    if m2 < m {
        assert(step_id_of(steps[m2]) != step_id_of(steps[m]));
    } else if m < m2 {
        assert(step_id_of(steps[m]) != step_id_of(steps[m2]));
    }
}

/// Dependencies that are each fine give no problem.
proof fn lemma_deps_all_ok(ids: Seq<(Seq<char>, int)>, i: int, deps: Seq<Seq<char>>, k: int)
    requires
        0 <= k <= deps.len(),
        forall|j: int| 0 <= j < k ==> dep_error(ids, i, #[trigger] deps[j]) is None,
    ensures
        deps_error(ids, i, deps, k) is None,
    decreases k,
{
    if k > 0 {
        lemma_deps_all_ok(ids, i, deps, k - 1);
    }
}

/// Agents that are all known, explained and used once are accepted, and
/// the agents used grow by theirs.
proof fn lemma_agents_accepted(steps: Seq<OrchestrationPlanStep>, known: Set<Seq<char>>, i: int, n: Seq<char>, k: int)
    requires
        0 <= i < steps.len(),
        0 <= k <= steps[i].agents@.len(),
        forall|j: int|
            0 <= j < steps[i].agents@.len() ==> trim((#[trigger] steps[i].agents@[j]).id@).len() > 0
                && known.contains(trim(steps[i].agents@[j].id@)) && trim(steps[i].agents@[j].reason@).len() > 0,
        forall|a: int, b: int, a2: int, b2: int|
            0 <= a < steps.len() && 0 <= b < steps[a].agents@.len() && 0 <= a2 < steps.len() && 0 <= b2
                < steps[a2].agents@.len() && (a < a2 || (a == a2 && b < b2)) ==> #[trigger] agent_key(steps, a, b)
                != #[trigger] agent_key(steps, a2, b2),
    ensures
        agents_check(steps[i].agents@, known, n, used_before(steps, i, 0), k) == Ok::<
            Set<Seq<char>>,
            PlanError,
        >(used_before(steps, i, k)),
    decreases k,
{
    if k > 0 {
        lemma_agents_accepted(steps, known, i, n, k - 1);
        let seen = used_before(steps, i, k - 1);
        let ag = steps[i].agents@[k - 1];
        let id = trim(ag.id@);
        assert(id == agent_key(steps, i, k - 1));
        if seen.contains(id) {
            let (a, b) = choose|a: int, b: int|
                ((0 <= a < i && 0 <= b < steps[a].agents@.len()) || (a == i && 0 <= b < k - 1)) && #[trigger] agent_key(
                    steps,
                    a,
                    b,
                ) == id;
            assert(agent_key(steps, a, b) != agent_key(steps, i, k - 1));
        }
        assert(agent_check(ag, known, n, seen) == Ok::<Set<Seq<char>>, PlanError>(seen.insert(id)));
        assert forall|x: Seq<char>| #[trigger] used_before(steps, i, k).contains(x) <==> seen.insert(id).contains(x) by {
            if used_before(steps, i, k).contains(x) {
                let (a, b) = choose|a: int, b: int|
                    ((0 <= a < i && 0 <= b < steps[a].agents@.len()) || (a == i && 0 <= b < k)) && #[trigger] agent_key(
                        steps,
                        a,
                        b,
                    ) == x;
                if !(a == i && b == k - 1) {
                    assert(seen.contains(x));
                }
            }
            if seen.contains(x) {
                let (a, b) = choose|a: int, b: int|
                    ((0 <= a < i && 0 <= b < steps[a].agents@.len()) || (a == i && 0 <= b < k - 1)) && #[trigger] agent_key(
                        steps,
                        a,
                        b,
                    ) == x;
                assert(used_before(steps, i, k).contains(x));
            }
            if x == id {
                assert(agent_key(steps, i, k - 1) == x);
                assert(used_before(steps, i, k).contains(x));
            }
        }
        assert(used_before(steps, i, k) =~= seen.insert(id));
    }
}

/// The requirements on a plan's steps that the completeness law names.
pub open spec fn steps_well_formed(steps: Seq<OrchestrationPlanStep>, known: Set<Seq<char>>) -> bool {
    &&& distinct_step_ids(steps)
    &&& forall|i: int| 0 <= i < steps.len() ==> (#[trigger] steps[i]).agents@.len() > 0
    &&& forall|i: int, j: int|
        0 <= i < steps.len() && 0 <= j < steps[i].agents@.len() ==> trim((#[trigger] steps[i].agents@[j]).id@).len()
            > 0 && known.contains(trim(steps[i].agents@[j].id@)) && trim(steps[i].agents@[j].reason@).len() > 0
    &&& forall|a: int, b: int, a2: int, b2: int|
        0 <= a < steps.len() && 0 <= b < steps[a].agents@.len() && 0 <= a2 < steps.len() && 0 <= b2
            < steps[a2].agents@.len() && (a < a2 || (a == a2 && b < b2)) ==> #[trigger] agent_key(steps, a, b)
            != #[trigger] agent_key(steps, a2, b2)
    &&& forall|i: int, j: int|
        0 <= i < steps.len() && 0 <= j < deps_of(steps[i]).len() ==> exists|m: int|
            0 <= m < i && step_id_of(#[trigger] steps[m]) == Some(trim(#[trigger] deps_of(steps[i])[j]))
}

/// Well-formed steps pass the step checks one after another.
proof fn lemma_steps_accepted(steps: Seq<OrchestrationPlanStep>, known: Set<Seq<char>>, k: int)
    requires
        0 <= k <= steps.len(),
        steps_well_formed(steps, known),
    ensures
        steps_check(steps, known, k) == Ok::<Set<Seq<char>>, PlanError>(used_before(steps, k, 0)),
    decreases k,
{
    if k == 0 {
        assert(used_before(steps, 0, 0) =~= Set::<Seq<char>>::empty());
    } else {
        let i = k - 1;
        lemma_steps_accepted(steps, known, i);
        let s = steps[i];
        let ids = ids_list(steps);
        let deps = deps_of(s);
        assert forall|j: int| 0 <= j < deps.len() implies dep_error(ids, i, #[trigger] deps[j]) is None by {
            let d = trim(deps[j]);
            let m = choose|m: int| 0 <= m < i && step_id_of(#[trigger] steps[m]) == Some(trim(deps_of(steps[i])[j]));
            assert(d.len() > 0);
            lemma_lookup_step(steps, m, d);
        }
        lemma_deps_all_ok(ids, i, deps, deps.len() as int);
        let n = decimal((i + 1) as nat);
        assert forall|j: int|
            0 <= j < steps[i].agents@.len() implies trim((#[trigger] steps[i].agents@[j]).id@).len() > 0
                && known.contains(trim(steps[i].agents@[j].id@)) && trim(steps[i].agents@[j].reason@).len() > 0 by {}
        lemma_agents_accepted(steps, known, i, n, s.agents@.len() as int);
        assert(used_before(steps, i, s.agents@.len() as int) =~= used_before(steps, k, 0)) by {
            assert forall|x: Seq<char>| #[trigger] used_before(steps, k, 0).contains(x) implies used_before(
                steps,
                i,
                s.agents@.len() as int,
            ).contains(x) by {
                let (a, b) = choose|a: int, b: int|
                    ((0 <= a < k && 0 <= b < steps[a].agents@.len()) || (a == k && 0 <= b < 0)) && #[trigger] agent_key(
                        steps,
                        a,
                        b,
                    ) == x;
                assert(agent_key(steps, a, b) == x);
            }
            assert forall|x: Seq<char>| #[trigger] used_before(steps, i, s.agents@.len() as int).contains(x) implies used_before(
                steps,
                k,
                0,
            ).contains(x) by {
                let (a, b) = choose|a: int, b: int|
                    ((0 <= a < i && 0 <= b < steps[a].agents@.len()) || (a == i && 0 <= b < s.agents@.len()))
                        && #[trigger] agent_key(steps, a, b) == x;
                assert(agent_key(steps, a, b) == x);
            }
        }
    }
}

/// Validation accepts every well-formed plan: one of kind
/// `orchestration.plan.v1` with a parallelism of at least 1 when given,
/// whose step ids are distinct (and given for every step once any step
/// names dependencies), whose every step has agents, each a known agent
/// given with a reason and used only once in the whole plan, and whose
/// every dependency names, by its id, a step that comes earlier.
pub proof fn lemma_well_formed_plan_is_accepted(plan: OrchestrationPlanV1, known: Set<Seq<char>>)
    requires
        plan.kind@ == "orchestration.plan.v1"@,
        plan.max_parallelism != Some(0u32),
        steps_well_formed(plan.steps@, known),
        (exists|i: int| 0 <= i < plan.steps@.len() && has_deps(#[trigger] plan.steps@[i])) ==> forall|i: int|
            0 <= i < plan.steps@.len() ==> (#[trigger] step_id_of(plan.steps@[i])) is Some,
    ensures
        plan_error(plan, known) is None,
{
    let steps = plan.steps@;
    lemma_no_duplicate(steps);
    lemma_steps_accepted(steps, known, steps.len() as int);
}

} // verus!
