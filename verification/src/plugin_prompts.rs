//! The pure pieces of running a plugin: finding its command, choosing
//! candidate agents, the prompts sent to the model, and the outputs a
//! dynamic workflow ends with.

use vstd::prelude::*;

use crate::bash_policy::{join, join_strings};
use crate::bash_tokenizer::strings_view;
use crate::orchestration_plan::{deps_of, OrchestrationPlanV1};
use crate::plugins::{
    either, is_loader_error, is_orchestration_error, strip_end_chars, strip_start_chars,
    trim_end_by, trim_start_by, PluginAgent, PluginAgentName, PluginCommand, PluginError,
    PluginManifest, PluginOrchestrationError, PluginOrchestrationErrorCode, PluginToolName,
    PluginUrl,
};
use crate::text::{chars_of, extend_chars, extend_str, str_eq, string_of, trim, trim_chars};

verus! {

/// The trimmed text, or `None` when it is blank.
pub fn trim_non_empty(value: &str) -> (r: Option<String>)
    ensures
        match r {
            Some(s) => trim(value@).len() > 0 && s@ == trim(value@),
            None => trim(value@).len() == 0,
        },
{
    let c = chars_of(value);
    let t = trim_chars(c.as_slice());
    if t.len() == 0 {
        None
    } else {
        Some(string_of(t.as_slice()))
    }
}

/// The position of the first command named `name`, or -1.
pub open spec fn command_index(commands: Seq<PluginCommand>, name: Seq<char>) -> int
    decreases commands.len(),
{
    if commands.len() == 0 {
        -1
    } else if commands[0].name.text() == name {
        0
    } else {
        let r = command_index(commands.drop_first(), name);
        if r < 0 {
            -1
        } else {
            r + 1
        }
    }
}

/// The command named `name` (trimmed) among a plugin's commands.
pub fn resolve_command<'a>(commands: &'a Vec<PluginCommand>, name: &str) -> (r: Result<&'a PluginCommand, PluginError>)
    ensures
        trim(name@).len() == 0 ==> (r matches Err(e) && is_loader_error(e, "command is required"@)),
        trim(name@).len() > 0 ==> match r {
            Ok(c) => {
                let k = command_index(commands@, trim(name@));
                0 <= k < commands@.len() && *c == commands@[k]
            },
            Err(e) => command_index(commands@, trim(name@)) < 0 && is_loader_error(
                e,
                "unknown command"@,
            ),
        },
{
    let c = chars_of(name);
    let t = trim_chars(c.as_slice());
    if t.len() == 0 {
        return Err(PluginError::Loader(crate::text::owned("command is required")));
    }
    let key = string_of(t.as_slice());
    let ghost cv = commands@;
    let mut i: usize = 0;
    assert(cv.skip(0) =~= cv);
    while i < commands.len()
        invariant
            i <= commands@.len(),
            cv == commands@,
            key@ == trim(name@),
            trim(name@).len() > 0,
            command_index(cv, key@) == (if command_index(cv.skip(i as int), key@) < 0 {
                -1
            } else {
                command_index(cv.skip(i as int), key@) + i
            }),
        decreases commands@.len() - i,
    {
        assert(cv.skip(i as int)[0] == cv[i as int]);
        assert(cv.skip(i as int).drop_first() =~= cv.skip(i + 1));
        if str_eq(commands[i].name.as_str(), key.as_str()) {
            return Ok(&commands[i]);
        }
        i += 1;
    }
    Err(PluginError::Loader(crate::text::owned("unknown command")))
}

/// An agent offered to the orchestration planner, with its description.
#[derive(Debug, Clone)]
pub struct OrchestrationCandidate {
    pub name: PluginAgentName,
    pub description: String,
}

/// The position of the first agent named `name`, or -1.
pub open spec fn agent_index(agents: Seq<PluginAgent>, name: Seq<char>) -> int
    decreases agents.len(),
{
    if agents.len() == 0 {
        -1
    } else if agents[0].name.text() == name {
        0
    } else {
        let r = agent_index(agents.drop_first(), name);
        if r < 0 {
            -1
        } else {
            r + 1
        }
    }
}

/// The trimmed description of an agent (empty when it has none).
pub open spec fn agent_description(a: PluginAgent) -> Seq<char> {
    match a.description {
        Some(d) => trim(d@),
        None => seq![],
    }
}

/// The texts of agent names.
pub open spec fn name_texts(v: Seq<PluginAgentName>) -> Seq<Seq<char>> {
    v.map_values(|n: PluginAgentName| n.text())
}

/// The names of agents, as texts.
pub open spec fn agent_name_texts(v: Seq<PluginAgent>) -> Seq<Seq<char>> {
    v.map_values(|a: PluginAgent| a.name.text())
}

/// The agents a command offers the planner: the agents it refers to, or
/// all agents of the plugin when it refers to none.
pub open spec fn candidate_names(agents: Seq<PluginAgent>, command: PluginCommand) -> Seq<Seq<char>> {
    match command.agent_refs {
        Some(refs) => if refs@.len() > 0 {
            name_texts(refs@)
        } else {
            agent_name_texts(agents)
        },
        None => agent_name_texts(agents),
    }
}

/// The candidate names and descriptions, or the first problem: a name
/// with no agent, or an agent without a description.
pub open spec fn candidates_result(agents: Seq<PluginAgent>, names: Seq<Seq<char>>) -> Result<
    Seq<(Seq<char>, Seq<char>)>,
    (PluginOrchestrationErrorCode, Seq<char>),
>
    decreases names.len(),
{
    if names.len() == 0 {
        Ok(seq![])
    } else {
        match candidates_result(agents, names.drop_last()) {
            Err(e) => Err(e),
            Ok(done) => {
                let name = names.last();
                let k = agent_index(agents, name);
                if k < 0 {
                    Err(
                        (
                            PluginOrchestrationErrorCode::UnknownAgent,
                            "agent \""@ + name + "\" not found"@,
                        ),
                    )
                } else if agent_description(agents[k]).len() == 0 {
                    Err(
                        (
                            PluginOrchestrationErrorCode::MissingDescription,
                            "agent \""@ + name + "\" missing description"@,
                        ),
                    )
                } else {
                    Ok(done.push((name, agent_description(agents[k]))))
                }
            },
        }
    }
}

/// The candidates as plain values.
pub open spec fn candidates_view(v: Seq<OrchestrationCandidate>) -> Seq<(Seq<char>, Seq<char>)> {
    v.map_values(|c: OrchestrationCandidate| (c.name.text(), c.description@))
}

fn find_agent(agents: &Vec<PluginAgent>, name: &str) -> (r: Option<usize>)
    ensures
        match r {
            Some(k) => k < agents@.len() && agent_index(agents@, name@) == k,
            None => agent_index(agents@, name@) < 0,
        },
{
    let ghost av = agents@;
    let mut i: usize = 0;
    assert(av.skip(0) =~= av);
    while i < agents.len()
        invariant
            i <= agents@.len(),
            av == agents@,
            agent_index(av, name@) == (if agent_index(av.skip(i as int), name@) < 0 {
                -1
            } else {
                agent_index(av.skip(i as int), name@) + i
            }),
        decreases agents@.len() - i,
    {
        assert(av.skip(i as int)[0] == av[i as int]);
        assert(av.skip(i as int).drop_first() =~= av.skip(i + 1));
        if str_eq(agents[i].name.as_str(), name) {
            return Some(i);
        }
        i += 1;
    }
    None
}

proof fn lemma_candidates_prefix(agents: Seq<PluginAgent>, names: Seq<Seq<char>>, n: int)
    requires
        0 <= n <= names.len(),
        candidates_result(agents, names.take(n)) is Err,
    ensures
        candidates_result(agents, names) == candidates_result(agents, names.take(n)),
    decreases names.len() - n,
{
    if n < names.len() {
        assert(names.take(n + 1).drop_last() =~= names.take(n));
        lemma_candidates_prefix(agents, names, n + 1);
    } else {
        assert(names.take(n) =~= names);
    }
}

/// The agents a dynamic orchestration may choose from, with their
/// descriptions.
#[verifier::loop_isolation(false)]
pub fn build_orchestration_candidates(agents: &Vec<PluginAgent>, command: &PluginCommand) -> (r: Result<
    Vec<OrchestrationCandidate>,
    PluginError,
>)
    ensures
        ({
            let names = candidate_names(agents@, *command);
            if names.len() == 0 {
                r matches Err(e) && is_orchestration_error(
                    e,
                    PluginOrchestrationErrorCode::InvalidPlan,
                    "no agents available for dynamic orchestration"@,
                )
            } else {
                match candidates_result(agents@, names) {
                    Ok(cs) => r matches Ok(v) && candidates_view(v@) == cs,
                    Err((code, msg)) => r matches Err(e) && is_orchestration_error(e, code, msg),
                }
            }
        }),
{
    let mut names: Vec<PluginAgentName> = Vec::new();
    let use_refs = match &command.agent_refs {
        Some(refs) => refs.len() > 0,
        None => false,
    };
    if use_refs {
        let refs = command.agent_refs.as_ref().unwrap();
        let mut i: usize = 0;
        while i < refs.len()
            invariant
                i <= refs@.len(),
                name_texts(names@) == name_texts(refs@.take(i as int)),
            decreases refs@.len() - i,
        {
            let ghost n0 = names@;
            let x = refs[i].clone();
            names.push(x);
            assert(names@ == n0.push(x));
            assert(x.text() == refs@[i as int].text());
            assert(refs@.take(i + 1) =~= refs@.take(i as int).push(refs@[i as int]));
            assert(name_texts(n0.push(x)) =~= name_texts(n0).push(x.text()));
            assert(name_texts(refs@.take(i + 1)) =~= name_texts(refs@.take(i as int)).push(
                refs@[i as int].text(),
            ));
            i += 1;
        }
        assert(refs@.take(refs@.len() as int) =~= refs@);
    } else {
        let mut i: usize = 0;
        while i < agents.len()
            invariant
                i <= agents@.len(),
                name_texts(names@) == agent_name_texts(agents@.take(i as int)),
            decreases agents@.len() - i,
        {
            let ghost n0 = names@;
            let x = agents[i].name.clone();
            names.push(x);
            assert(names@ == n0.push(x));
            assert(agents@.take(i + 1) =~= agents@.take(i as int).push(agents@[i as int]));
            assert(name_texts(n0.push(x)) =~= name_texts(n0).push(x.text()));
            assert(agent_name_texts(agents@.take(i + 1)) =~= agent_name_texts(agents@.take(i as int)).push(
                agents@[i as int].name.text(),
            ));
            i += 1;
        }
        assert(agents@.take(agents@.len() as int) =~= agents@);
    }
    let ghost nv = name_texts(names@);
    assert(nv == candidate_names(agents@, *command));
    if names.len() == 0 {
        return Err(
            PluginError::Orchestration(
                PluginOrchestrationError::new(
                    PluginOrchestrationErrorCode::InvalidPlan,
                    crate::text::owned("no agents available for dynamic orchestration"),
                ),
            ),
        );
    }
    let mut out: Vec<OrchestrationCandidate> = Vec::new();
    let mut i: usize = 0;
    assert(nv.take(0) =~= Seq::<Seq<char>>::empty());
    assert(candidates_view(out@) =~= Seq::<(Seq<char>, Seq<char>)>::empty());
    while i < names.len()
        invariant
            i <= names@.len(),
            nv == name_texts(names@),
            candidates_result(agents@, nv.take(i as int)) == Ok::<
                Seq<(Seq<char>, Seq<char>)>,
                (PluginOrchestrationErrorCode, Seq<char>),
            >(candidates_view(out@)),
        decreases names@.len() - i,
    {
        assert(nv.take(i + 1).drop_last() =~= nv.take(i as int));
        assert(nv.take(i + 1).last() == names@[i as int].text());
        let name = &names[i];
        let k = match find_agent(agents, name.as_str()) {
            Some(k) => k,
            None => {
                let mut m = chars_of("agent \"");
                let nc = chars_of(name.as_str());
                extend_chars(&mut m, nc.as_slice());
                extend_str(&mut m, "\" not found");
                proof {
                    lemma_candidates_prefix(agents@, nv, i + 1);
                }
                return Err(
                    PluginError::Orchestration(
                        PluginOrchestrationError::new(
                            PluginOrchestrationErrorCode::UnknownAgent,
                            string_of(m.as_slice()),
                        ),
                    ),
                );
            },
        };
        let desc = match &agents[k].description {
            Some(d) => {
                let dc = chars_of(d.as_str());
                trim_chars(dc.as_slice())
            },
            None => Vec::new(),
        };
        assert(desc@ == agent_description(agents@[k as int]));
        if desc.len() == 0 {
            let mut m = chars_of("agent \"");
            let nc = chars_of(name.as_str());
            extend_chars(&mut m, nc.as_slice());
            extend_str(&mut m, "\" missing description");
            proof {
                lemma_candidates_prefix(agents@, nv, i + 1);
            }
            return Err(
                PluginError::Orchestration(
                    PluginOrchestrationError::new(
                        PluginOrchestrationErrorCode::MissingDescription,
                        string_of(m.as_slice()),
                    ),
                ),
            );
        }
        let ghost o = out@;
        out.push(OrchestrationCandidate { name: name.clone(), description: string_of(desc.as_slice()) });
        assert(candidates_view(out@) =~= candidates_view(o).push((nv[i as int], desc@)));
        i += 1;
    }
    assert(nv.take(nv.len() as int) =~= nv);
    Ok(out)
}

/// A step whose output a later agent reads: the step's key and the node
/// that produced its output.
#[derive(Debug, Clone)]
pub struct StepDependency {
    pub step_id: String,
    pub node_id: String,
}

/// `- step: {{node}}`.
pub open spec fn dependency_line(d: StepDependency) -> Seq<char> {
    "- "@ + d.step_id@ + ": {{"@ + d.node_id@ + "}}"@
}

/// The lines of an agent's prompt in a dynamic orchestration: the
/// command's text (when not blank), the task, and the outputs of the steps
/// it depends on.
pub open spec fn agent_prompt_lines(command_prompt: Seq<char>, task: Seq<char>, deps: Seq<StepDependency>) -> Seq<Seq<char>> {
    let head: Seq<Seq<char>> = if trim(command_prompt).len() > 0 {
        seq![trim(command_prompt)]
    } else {
        seq![]
    };
    let tail: Seq<Seq<char>> = if deps.len() > 0 {
        seq![seq![], "PREVIOUS_STEP_OUTPUTS:"@] + deps.map_values(|d: StepDependency| dependency_line(d))
    } else {
        seq![]
    };
    head + seq!["USER_TASK:"@, trim(task)] + tail
}

fn push_line(lines: &mut Vec<String>, line: Vec<char>)
    ensures
        strings_view(final(lines)@) == strings_view(old(lines)@).push(line@),
{
    let ghost l0 = lines@;
    lines.push(string_of(line.as_slice()));
    assert(strings_view(lines@) =~= strings_view(l0).push(line@));
}

/// The prompt of an agent node in a dynamic orchestration.
pub fn build_dynamic_agent_user_prompt(command: &PluginCommand, task: &str, deps: &Vec<StepDependency>) -> (r: String)
    ensures
        r@ == join(agent_prompt_lines(command.prompt@, task@, deps@), "\n"@),
{
    let mut parts: Vec<String> = Vec::new();
    let pc = chars_of(command.prompt.as_str());
    let pt = trim_chars(pc.as_slice());
    if pt.len() > 0 {
        push_line(&mut parts, pt);
    }
    push_line(&mut parts, chars_of("USER_TASK:"));
    let tc = chars_of(task);
    push_line(&mut parts, trim_chars(tc.as_slice()));
    let ghost mid = strings_view(parts@);
    if deps.len() > 0 {
        push_line(&mut parts, Vec::new());
        push_line(&mut parts, chars_of("PREVIOUS_STEP_OUTPUTS:"));
        let ghost base = strings_view(parts@);
        let mut i: usize = 0;
        while i < deps.len()
            invariant
                i <= deps@.len(),
                strings_view(parts@) == base + deps@.take(i as int).map_values(
                    |d: StepDependency| dependency_line(d),
                ),
            decreases deps@.len() - i,
        {
            let d = &deps[i];
            let mut m = chars_of("- ");
            let sc = chars_of(d.step_id.as_str());
            extend_chars(&mut m, sc.as_slice());
            extend_str(&mut m, ": {{");
            let nc = chars_of(d.node_id.as_str());
            extend_chars(&mut m, nc.as_slice());
            extend_str(&mut m, "}}");
            push_line(&mut parts, m);
            assert(deps@.take(i + 1).map_values(|d: StepDependency| dependency_line(d)) =~= deps@.take(
                i as int,
            ).map_values(|d: StepDependency| dependency_line(d)).push(dependency_line(deps@[i as int])));
            i += 1;
        }
        assert(deps@.take(deps@.len() as int) =~= deps@);
    }
    assert(strings_view(parts@) =~= agent_prompt_lines(command.prompt@, task@, deps@));
    let j = join_strings(&parts, "\n");
    string_of(j.as_slice())
}

/// `- {{id}}`.
pub open spec fn result_line(id: Seq<char>) -> Seq<char> {
    "- {{"@ + id + "}}"@
}

/// The lines of the final synthesis prompt: the instruction, the command's
/// text (when not blank), the task, and the outputs to combine.
pub open spec fn synthesis_lines(command_prompt: Seq<char>, task: Seq<char>, outputs: Seq<Seq<char>>) -> Seq<Seq<char>> {
    let head: Seq<Seq<char>> = seq!["Synthesize the results and complete the task."@];
    let cmd: Seq<Seq<char>> = if trim(command_prompt).len() > 0 {
        seq![seq![], "COMMAND:"@, trim(command_prompt)]
    } else {
        seq![]
    };
    let tail: Seq<Seq<char>> = if outputs.len() > 0 {
        seq![seq![], "RESULTS:"@] + outputs.map_values(|id: Seq<char>| result_line(id))
    } else {
        seq![]
    };
    head + cmd + seq![seq![], "USER_TASK:"@, trim(task)] + tail
}

/// The prompt of the node that combines the results of a dynamic orchestration.
pub fn build_dynamic_synthesis_prompt(command: &PluginCommand, task: &str, outputs: &Vec<String>) -> (r: String)
    ensures
        r@ == join(synthesis_lines(command.prompt@, task@, strings_view(outputs@)), "\n"@),
{
    let mut parts: Vec<String> = Vec::new();
    push_line(&mut parts, chars_of("Synthesize the results and complete the task."));
    let pc = chars_of(command.prompt.as_str());
    let pt = trim_chars(pc.as_slice());
    if pt.len() > 0 {
        push_line(&mut parts, Vec::new());
        push_line(&mut parts, chars_of("COMMAND:"));
        push_line(&mut parts, pt);
    }
    push_line(&mut parts, Vec::new());
    push_line(&mut parts, chars_of("USER_TASK:"));
    let tc = chars_of(task);
    push_line(&mut parts, trim_chars(tc.as_slice()));
    let ghost ov = strings_view(outputs@);
    if outputs.len() > 0 {
        push_line(&mut parts, Vec::new());
        push_line(&mut parts, chars_of("RESULTS:"));
        let ghost base = strings_view(parts@);
        let mut i: usize = 0;
        while i < outputs.len()
            invariant
                i <= outputs@.len(),
                ov == strings_view(outputs@),
                strings_view(parts@) == base + ov.take(i as int).map_values(|id: Seq<char>| result_line(id)),
            decreases outputs@.len() - i,
        {
            let mut m = chars_of("- {{");
            let ic = chars_of(outputs[i].as_str());
            extend_chars(&mut m, ic.as_slice());
            extend_str(&mut m, "}}");
            push_line(&mut parts, m);
            assert(ov.take(i + 1).map_values(|id: Seq<char>| result_line(id)) =~= ov.take(
                i as int,
            ).map_values(|id: Seq<char>| result_line(id)).push(result_line(ov[i as int])));
            i += 1;
        }
        assert(ov.take(ov.len() as int) =~= ov);
    }
    assert(strings_view(parts@) =~= synthesis_lines(command.prompt@, task@, ov));
    let j = join_strings(&parts, "\n");
    string_of(j.as_slice())
}

/// The lines of the planner's prompt: the plugin's name and description
/// (when not blank), the command, the task, the command's text (when not
/// blank) and the candidate agents.
pub open spec fn orchestration_prompt_lines(
    name: Option<Seq<char>>,
    description: Option<Seq<char>>,
    command_name: Seq<char>,
    command_prompt: Seq<char>,
    task: Seq<char>,
    candidates: Seq<(Seq<char>, Seq<char>)>,
) -> Seq<Seq<char>> {
    let n: Seq<Seq<char>> = match name {
        Some(x) => if trim(x).len() > 0 {
            seq!["PLUGIN_NAME: "@ + trim(x)]
        } else {
            seq![]
        },
        None => seq![],
    };
    let d: Seq<Seq<char>> = match description {
        Some(x) => if trim(x).len() > 0 {
            seq!["PLUGIN_DESCRIPTION: "@ + trim(x)]
        } else {
            seq![]
        },
        None => seq![],
    };
    let cmd: Seq<Seq<char>> = if trim(command_prompt).len() > 0 {
        seq!["COMMAND_MARKDOWN:"@, trim(command_prompt), seq![]]
    } else {
        seq![]
    };
    n + d + seq!["COMMAND: "@ + command_name, "USER_TASK:"@, trim(task), seq![]] + cmd + seq![
        "CANDIDATE_AGENTS:"@,
    ] + candidate_lines(candidates)
}

/// Two lines per candidate: its id and its description.
pub open spec fn candidate_lines(c: Seq<(Seq<char>, Seq<char>)>) -> Seq<Seq<char>>
    decreases c.len(),
{
    if c.len() == 0 {
        seq![]
    } else {
        candidate_lines(c.drop_last()) + seq!["- id: "@ + c.last().0, "  description: "@ + c.last().1]
    }
}

fn opt_labelled(parts: &mut Vec<String>, label: &str, value: &Option<String>)
    ensures
        strings_view(final(parts)@) == strings_view(old(parts)@) + match value {
            Some(x) => if trim(x@).len() > 0 {
                seq![label@ + trim(x@)]
            } else {
                Seq::<Seq<char>>::empty()
            },
            None => Seq::<Seq<char>>::empty(),
        },
{
    let ghost p0 = strings_view(parts@);
    match value {
        Some(x) => {
            let c = chars_of(x.as_str());
            let t = trim_chars(c.as_slice());
            if t.len() > 0 {
                let mut m = chars_of(label);
                extend_chars(&mut m, t.as_slice());
                push_line(parts, m);
                assert(strings_view(parts@) =~= p0 + seq![label@ + trim(x@)]);
            } else {
                assert(strings_view(parts@) =~= p0 + Seq::<Seq<char>>::empty());
            }
        },
        None => {
            assert(strings_view(parts@) =~= p0 + Seq::<Seq<char>>::empty());
        },
    }
}

/// The prompt asking the model to plan an orchestration.
pub fn build_plugin_orchestration_prompt(
    manifest: &PluginManifest,
    command: &PluginCommand,
    user_task: &str,
    candidates: &Vec<OrchestrationCandidate>,
) -> (r: String)
    ensures
        r@ == join(
            orchestration_prompt_lines(
                crate::plugin_manifest::opt_text(manifest.name),
                crate::plugin_manifest::opt_text(manifest.description),
                command.name.text(),
                command.prompt@,
                user_task@,
                candidates_view(candidates@),
            ),
            "\n"@,
        ),
{
    let mut parts: Vec<String> = Vec::new();
    opt_labelled(&mut parts, "PLUGIN_NAME: ", &manifest.name);
    opt_labelled(&mut parts, "PLUGIN_DESCRIPTION: ", &manifest.description);
    let mut m = chars_of("COMMAND: ");
    let nc = chars_of(command.name.as_str());
    extend_chars(&mut m, nc.as_slice());
    push_line(&mut parts, m);
    push_line(&mut parts, chars_of("USER_TASK:"));
    let tc = chars_of(user_task);
    push_line(&mut parts, trim_chars(tc.as_slice()));
    push_line(&mut parts, Vec::new());
    let pc = chars_of(command.prompt.as_str());
    let pt = trim_chars(pc.as_slice());
    if pt.len() > 0 {
        push_line(&mut parts, chars_of("COMMAND_MARKDOWN:"));
        push_line(&mut parts, pt);
        push_line(&mut parts, Vec::new());
    }
    push_line(&mut parts, chars_of("CANDIDATE_AGENTS:"));
    let ghost base = strings_view(parts@);
    let ghost cv = candidates_view(candidates@);
    let mut i: usize = 0;
    assert(cv.take(0) =~= Seq::<(Seq<char>, Seq<char>)>::empty());
    while i < candidates.len()
        invariant
            i <= candidates@.len(),
            cv == candidates_view(candidates@),
            strings_view(parts@) == base + candidate_lines(cv.take(i as int)),
        decreases candidates@.len() - i,
    {
        let c = &candidates[i];
        assert(cv.take(i + 1).drop_last() =~= cv.take(i as int));
        assert(cv.take(i + 1).last() == (c.name.text(), c.description@));
        let mut a = chars_of("- id: ");
        let n = chars_of(c.name.as_str());
        extend_chars(&mut a, n.as_slice());
        push_line(&mut parts, a);
        let mut b = chars_of("  description: ");
        let d = chars_of(c.description.as_str());
        extend_chars(&mut b, d.as_slice());
        push_line(&mut parts, b);
        assert(strings_view(parts@) =~= base + candidate_lines(cv.take(i + 1)));
        i += 1;
    }
    assert(cv.take(cv.len() as int) =~= cv);
    assert(strings_view(parts@) =~= orchestration_prompt_lines(
        crate::plugin_manifest::opt_text(manifest.name),
        crate::plugin_manifest::opt_text(manifest.description),
        command.name.text(),
        command.prompt@,
        user_task@,
        cv,
    ));
    let j = join_strings(&parts, "\n");
    string_of(j.as_slice())
}

/// The URL of a file of a repository at a revision, on the raw content host.
pub open spec fn raw_url_text(base: Seq<char>, owner: Seq<char>, repo: Seq<char>, git_ref: Seq<char>, path: Seq<char>) -> Seq<char> {
    trim_end_by(base, either('/', '/')) + "/"@ + owner + "/"@ + repo + "/"@ + git_ref + "/"@
        + trim_start_by(path, either('/', '/'))
}

/// The raw content URL of `repo_path` in `owner/repo` at `git_ref`.
pub fn raw_url(raw_base_url: &str, owner: &str, repo: &str, git_ref: &str, repo_path: &str) -> (r: String)
    ensures
        r@ == raw_url_text(raw_base_url@, owner@, repo@, git_ref@, repo_path@),
{
    let bc = chars_of(raw_base_url);
    let mut out = strip_end_chars(bc.as_slice(), '/', '/');
    extend_str(&mut out, "/");
    extend_str(&mut out, owner);
    extend_str(&mut out, "/");
    extend_str(&mut out, repo);
    extend_str(&mut out, "/");
    extend_str(&mut out, git_ref);
    extend_str(&mut out, "/");
    let pc = chars_of(repo_path);
    let p = strip_start_chars(pc.as_slice(), '/', '/');
    extend_chars(&mut out, p.as_slice());
    string_of(out.as_slice())
}

/// The GitHub API URL that lists the directory `repo_dir` of `owner/repo`
/// at `git_ref` (the revision URL-encoded).
pub open spec fn contents_url_text(
    api_base: Seq<char>,
    owner: Seq<char>,
    repo: Seq<char>,
    repo_dir: Seq<char>,
    git_ref: Seq<char>,
) -> Seq<char> {
    trim_end_by(api_base, either('/', '/')) + "/repos/"@ + owner + "/"@ + repo + "/contents/"@
        + trim_start_by(repo_dir, either('/', '/')) + "?ref="@ + crate::text::url_encoded(git_ref)
}

pub fn contents_url(
    api_base_url: &str,
    owner: &str,
    repo: &str,
    repo_dir: &str,
    git_ref: &str,
) -> (r: String)
    ensures
        r@ == contents_url_text(api_base_url@, owner@, repo@, repo_dir@, git_ref@),
{
    let bc = chars_of(api_base_url);
    let mut out = strip_end_chars(bc.as_slice(), '/', '/');
    extend_str(&mut out, "/repos/");
    extend_str(&mut out, owner);
    extend_str(&mut out, "/");
    extend_str(&mut out, repo);
    extend_str(&mut out, "/contents/");
    let dc = chars_of(repo_dir);
    let d = strip_start_chars(dc.as_slice(), '/', '/');
    extend_chars(&mut out, d.as_slice());
    extend_str(&mut out, "?ref=");
    let enc = crate::text::url_encode(git_ref);
    extend_str(&mut out, enc.as_str());
    string_of(out.as_slice())
}

/// An entry of a GitHub directory listing.
#[derive(Debug, Clone)]
pub struct GitHubContentEntry {
    pub name: String,
    pub path: String,
    /// The entry's `type`: `file`, `dir`, ...
    pub kind: String,
}

/// The paths of the Markdown files of a listing, in order.
pub open spec fn markdown_paths(entries: Seq<GitHubContentEntry>) -> Seq<Seq<char>>
    decreases entries.len(),
{
    if entries.len() == 0 {
        seq![]
    } else {
        let rest = markdown_paths(entries.drop_last());
        let e = entries.last();
        if e.kind@ == "file"@ && ".md"@.is_suffix_of(e.name@) {
            rest.push(e.path@)
        } else {
            rest
        }
    }
}

/// The paths of the listed files whose name ends in `.md`.
pub fn markdown_entry_paths(entries: &Vec<GitHubContentEntry>) -> (r: Vec<String>)
    ensures
        strings_view(r@) == markdown_paths(entries@),
{
    let ghost l = entries@;
    let mut out: Vec<String> = Vec::new();
    let mut i: usize = 0;
    assert(l.take(0) =~= Seq::<GitHubContentEntry>::empty());
    assert(strings_view(out@) =~= Seq::<Seq<char>>::empty());
    while i < entries.len()
        invariant
            i <= l.len(),
            l == entries@,
            strings_view(out@) == markdown_paths(l.take(i as int)),
        decreases l.len() - i,
    {
        assert(l.take(i + 1).drop_last() =~= l.take(i as int));
        assert(l.take(i + 1).last() == l[i as int]);
        let e = &entries[i];
        let name = chars_of(e.name.as_str());
        if str_eq(e.kind.as_str(), "file") && crate::text::ends_with_str(name.as_slice(), ".md") {
            let ghost before = out@;
            out.push(e.path.clone());
            assert(strings_view(out@) =~= strings_view(before).push(e.path@));
        }
        i += 1;
    }
    assert(l.take(l.len() as int) =~= l);
    out
}

/// What the status of a directory listing means before its body is read:
/// a missing directory lists nothing (`Ok(false)`), a success has a body to
/// read (`Ok(true)`), anything else is a loader error naming the directory
/// and the status (`status_text`, as the HTTP client prints it).
pub fn contents_listing_status(repo_dir: &str, status: u16, status_text: &str) -> (r: Result<
    bool,
    PluginError,
>)
    ensures
        status == 404 ==> r == Ok::<bool, PluginError>(false),
        200 <= status <= 299 ==> r == Ok::<bool, PluginError>(true),
        status != 404 && !(200 <= status <= 299) ==> (r matches Err(e) && is_loader_error(
            e,
            "fetch "@ + repo_dir@ + ": "@ + status_text@,
        )),
{
    if status == 404 {
        return Ok(false);
    }
    if 200 <= status && status <= 299 {
        return Ok(true);
    }
    let mut out = chars_of("fetch ");
    extend_str(&mut out, repo_dir);
    extend_str(&mut out, ": ");
    extend_str(&mut out, status_text);
    Err(PluginError::Loader(string_of(out.as_slice())))
}

/// The value of the last entry keyed `key` (later entries replace earlier ones).
pub open spec fn lookup_last(entries: Seq<(String, String)>, key: Seq<char>) -> Option<Seq<char>>
    decreases entries.len(),
{
    if entries.len() == 0 {
        None
    } else if entries.last().0@ == key {
        Some(entries.last().1@)
    } else {
        lookup_last(entries.drop_last(), key)
    }
}

/// The trimmed step keys that some step depends on.
pub open spec fn depended_keys(plan: OrchestrationPlanV1) -> Set<Seq<char>> {
    Set::new(
        |x: Seq<char>|
            exists|i: int, j: int|
                0 <= i < plan.steps@.len() && 0 <= j < deps_of(plan.steps@[i]).len() && #[trigger] trim(
                    deps_of(plan.steps@[i])[j],
                ) == x,
    )
}

/// The outputs of the steps no other step depends on, in step order.
pub open spec fn terminal_of(keys: Seq<Seq<char>>, depended: Set<Seq<char>>, outputs: Seq<(String, String)>) -> Seq<Seq<char>>
    decreases keys.len(),
{
    if keys.len() == 0 {
        seq![]
    } else {
        let rest = terminal_of(keys.drop_last(), depended, outputs);
        let k = keys.last();
        if !depended.contains(k) && lookup_last(outputs, k) is Some {
            rest.push(lookup_last(outputs, k)->Some_0)
        } else {
            rest
        }
    }
}

/// The outputs a dynamic workflow ends with: with explicit dependencies,
/// those of the steps nothing depends on; else that of the last step.
pub open spec fn terminal_outputs(
    step_keys: Seq<Seq<char>>,
    plan: OrchestrationPlanV1,
    outputs: Seq<(String, String)>,
    explicit: bool,
) -> Seq<Seq<char>> {
    if !explicit {
        if step_keys.len() > 0 && lookup_last(outputs, step_keys.last()) is Some {
            seq![lookup_last(outputs, step_keys.last())->Some_0]
        } else {
            seq![]
        }
    } else {
        terminal_of(step_keys, depended_keys(plan), outputs)
    }
}

fn lookup_output(outputs: &Vec<(String, String)>, key: &String) -> (r: Option<String>)
    ensures
        crate::http_errors::opt_view(r) == lookup_last(outputs@, key@),
{
    let ghost ov = outputs@;
    let mut i = outputs.len();
    assert(ov.take(i as int) =~= ov);
    while i > 0
        invariant
            i <= ov.len(),
            ov == outputs@,
            lookup_last(ov, key@) == lookup_last(ov.take(i as int), key@),
        decreases i,
    {
        assert(ov.take(i as int).last() == ov[i - 1]);
        if str_eq(outputs[i - 1].0.as_str(), key.as_str()) {
            return Some(outputs[i - 1].1.clone());
        }
        assert(ov.take(i as int).drop_last() =~= ov.take(i - 1));
        i -= 1;
    }
    None
}

fn is_depended(plan: &OrchestrationPlanV1, key: &String) -> (r: bool)
    ensures
        r == depended_keys(*plan).contains(key@),
{
    let steps = &plan.steps;
    let mut i: usize = 0;
    while i < steps.len()
        invariant
            i <= steps@.len(),
            steps@ == plan.steps@,
            forall|a: int, b: int|
                0 <= a < i && 0 <= b < deps_of(steps@[a]).len() ==> trim(deps_of(steps@[a])[b]) != key@,
        decreases steps@.len() - i,
    {
        if let Some(deps) = &steps[i].depends_on {
            let mut j: usize = 0;
            while j < deps.len()
                invariant
                    j <= deps@.len(),
                    i < steps@.len(),
                    steps@ == plan.steps@,
                    steps@[i as int].depends_on == Some(*deps),
                    forall|a: int, b: int|
                        0 <= a < i && 0 <= b < deps_of(steps@[a]).len() ==> trim(deps_of(steps@[a])[b]) != key@,
                    forall|b: int| 0 <= b < j ==> trim(deps_of(steps@[i as int])[b]) != key@,
                decreases deps@.len() - j,
            {
                let c = chars_of(deps[j].as_str());
                let t = trim_chars(c.as_slice());
                assert(deps_of(steps@[i as int])[j as int] == deps@[j as int]@);
                if crate::text::chars_eq(t.as_slice(), chars_of(key.as_str()).as_slice()) {
                    assert(depended_keys(*plan).contains(key@)) by {
                        assert(trim(deps_of(plan.steps@[i as int])[j as int]) == key@);
                    }
                    return true;
                }
                j += 1;
            }
        }
        i += 1;
    }
    assert(!depended_keys(*plan).contains(key@));
    false
}

/// The outputs a dynamic workflow ends with.
pub fn find_terminal_outputs(
    step_keys: &Vec<String>,
    plan: &OrchestrationPlanV1,
    outputs: &Vec<(String, String)>,
    explicit: bool,
) -> (r: Vec<String>)
    ensures
        strings_view(r@) == terminal_outputs(strings_view(step_keys@), *plan, outputs@, explicit),
{
    let ghost kv = strings_view(step_keys@);
    let mut out: Vec<String> = Vec::new();
    if !explicit {
        if step_keys.len() > 0 {
            assert(kv.last() == step_keys@[step_keys@.len() - 1]@);
            if let Some(id) = lookup_output(outputs, &step_keys[step_keys.len() - 1]) {
                out.push(id);
                assert(strings_view(out@) =~= seq![out@[0]@]);
                return out;
            }
        }
        assert(strings_view(out@) =~= Seq::<Seq<char>>::empty());
        return out;
    }
    let mut i: usize = 0;
    assert(kv.take(0) =~= Seq::<Seq<char>>::empty());
    assert(strings_view(out@) =~= Seq::<Seq<char>>::empty());
    while i < step_keys.len()
        invariant
            i <= step_keys@.len(),
            kv == strings_view(step_keys@),
            strings_view(out@) == terminal_of(kv.take(i as int), depended_keys(*plan), outputs@),
        decreases step_keys@.len() - i,
    {
        assert(kv.take(i + 1).drop_last() =~= kv.take(i as int));
        assert(kv.take(i + 1).last() == step_keys@[i as int]@);
        let key = &step_keys[i];
        if !is_depended(plan, key) {
            if let Some(id) = lookup_output(outputs, key) {
                let ghost o = out@;
                out.push(id);
                assert(strings_view(out@) =~= strings_view(o).push(out@.last()@));
            }
        }
        i += 1;
    }
    assert(kv.take(kv.len() as int) =~= kv);
    out
}

/// The names of every tool, joined by `, `.
pub open spec fn all_tool_names() -> Seq<char> {
    "fs.read_file, fs.list_files, fs.search, fs.edit, bash, write_file, user.ask"@
}

/// The instructions for converting a plugin into a workflow.
pub fn plugin_to_workflow_system_prompt() -> (r: String)
    ensures
        r@ == "You convert a ModelRelay plugin (markdown files) into a single workflow JSON spec.\n\nRules:\n- Output MUST be a single JSON object and MUST validate as workflow.\n- Do NOT output markdown, commentary, or code fences.\n- Use a DAG with parallelism when multiple agents are independent.\n- Use join.all to aggregate parallel branches and then a final synthesizer node.\n- Use depends_on for edges between nodes.\n- Bind node outputs using {{placeholders}} when passing data forward.\n- Tool contract:\n  - Target tools.v0 client tools (see docs/reference/tools.md).\n  - Workspace access MUST use these exact function tool names:\n    - "@
            + all_tool_names()
            + "\n  - Prefer fs.* tools for reading/listing/searching the workspace (use bash only when necessary).\n  - Do NOT invent ad-hoc tool names (no repo.*, github.*, filesystem.*, etc.).\n  - All client tools MUST be represented as type=\"function\" tools.\n  - Any node that includes tools MUST set tool_execution.mode=\"client\".\n- Prefer minimal nodes needed to satisfy the task.\n"@,
{
    let mut m = chars_of(
        "You convert a ModelRelay plugin (markdown files) into a single workflow JSON spec.\n\nRules:\n- Output MUST be a single JSON object and MUST validate as workflow.\n- Do NOT output markdown, commentary, or code fences.\n- Use a DAG with parallelism when multiple agents are independent.\n- Use join.all to aggregate parallel branches and then a final synthesizer node.\n- Use depends_on for edges between nodes.\n- Bind node outputs using {{placeholders}} when passing data forward.\n- Tool contract:\n  - Target tools.v0 client tools (see docs/reference/tools.md).\n  - Workspace access MUST use these exact function tool names:\n    - ",
    );
    let tools = [
        PluginToolName::FsReadFile,
        PluginToolName::FsListFiles,
        PluginToolName::FsSearch,
        PluginToolName::FsEdit,
        PluginToolName::Bash,
        PluginToolName::WriteFile,
        PluginToolName::UserAsk,
    ];
    let mut names: Vec<String> = Vec::new();
    let mut i: usize = 0;
    while i < 7
        invariant
            i <= 7,
            tools@ == seq![
                PluginToolName::FsReadFile,
                PluginToolName::FsListFiles,
                PluginToolName::FsSearch,
                PluginToolName::FsEdit,
                PluginToolName::Bash,
                PluginToolName::WriteFile,
                PluginToolName::UserAsk,
            ],
            strings_view(names@) == tools@.take(i as int).map_values(|t: PluginToolName| crate::plugins::tool_name_text(t)),
        decreases 7 - i,
    {
        let ghost n0 = names@;
        names.push(tools[i].to_string());
        assert(strings_view(names@) =~= strings_view(n0).push(crate::plugins::tool_name_text(tools@[i as int])));
        assert(tools@.take(i + 1).map_values(|t: PluginToolName| crate::plugins::tool_name_text(t)) =~= tools@.take(i as int).map_values(|t: PluginToolName| crate::plugins::tool_name_text(t)).push(crate::plugins::tool_name_text(tools@[i as int])));
        i += 1;
    }
    let joined = join_strings(&names, ", ");
    proof {
        let tv = strings_view(names@);
        reveal_strlit("fs.read_file");
        reveal_strlit("fs.list_files");
        reveal_strlit("fs.search");
        reveal_strlit("fs.edit");
        reveal_strlit("bash");
        reveal_strlit("write_file");
        reveal_strlit("user.ask");
        reveal_strlit(", ");
        reveal_strlit("fs.read_file, fs.list_files, fs.search, fs.edit, bash, write_file, user.ask");
        assert(tools@.take(7) =~= tools@);
        assert(tv =~= seq![
            "fs.read_file"@,
            "fs.list_files"@,
            "fs.search"@,
            "fs.edit"@,
            "bash"@,
            "write_file"@,
            "user.ask"@,
        ]);
        reveal_with_fuel(join, 8);
        assert(join(tv, ", "@) =~= all_tool_names());
    }
    extend_chars(&mut m, joined.as_slice());
    extend_str(
        &mut m,
        "\n  - Prefer fs.* tools for reading/listing/searching the workspace (use bash only when necessary).\n  - Do NOT invent ad-hoc tool names (no repo.*, github.*, filesystem.*, etc.).\n  - All client tools MUST be represented as type=\"function\" tools.\n  - Any node that includes tools MUST set tool_execution.mode=\"client\".\n- Prefer minimal nodes needed to satisfy the task.\n",
    );
    string_of(m.as_slice())
}

/// The instructions for planning an orchestration.
pub fn plugin_orchestration_system_prompt() -> (r: String)
    ensures
        r@ == "You plan which plugin agents to run based only on their descriptions.\n\nRules:\n- Output MUST be a single JSON object that matches orchestration.plan.v1.\n- Do NOT output markdown, commentary, or code fences.\n- Select only from the provided agent IDs.\n- Prefer minimal agents needed to satisfy the user task.\n- Use multiple steps only when later agents must build on earlier results.\n- Each step can run agents in parallel.\n- Use \"id\" + \"depends_on\" if you need non-sequential step ordering.\n"@,
{
    crate::text::owned(
        "You plan which plugin agents to run based only on their descriptions.\n\nRules:\n- Output MUST be a single JSON object that matches orchestration.plan.v1.\n- Do NOT output markdown, commentary, or code fences.\n- Select only from the provided agent IDs.\n- Prefer minimal agents needed to satisfy the user task.\n- Use multiple steps only when later agents must build on earlier results.\n- Each step can run agents in parallel.\n- Use \"id\" + \"depends_on\" if you need non-sequential step ordering.\n",
    )
}


/// The names of the agents, in order.
pub open spec fn agent_names(agents: Seq<PluginAgent>) -> Seq<Seq<char>> {
    agents.map_values(|a: PluginAgent| a.name.text())
}

/// The system prompt of the first agent named `name` (empty when none is).
pub open spec fn agent_prompt_of(agents: Seq<PluginAgent>, name: Seq<char>) -> Seq<char> {
    let k = agent_index(agents, name);
    if 0 <= k < agents.len() {
        agents[k].system_prompt@
    } else {
        seq![]
    }
}

/// The section of each named agent, in order: its file, its system prompt
/// and a blank line.
pub open spec fn agent_sections(agents: Seq<PluginAgent>, names: Seq<Seq<char>>) -> Seq<Seq<char>>
    decreases names.len(),
{
    if names.len() == 0 {
        seq![]
    } else {
        agent_sections(agents, names.drop_last()) + seq![
            "---- agents/"@ + names.last() + ".md ----"@,
            agent_prompt_of(agents, names.last()),
            seq![],
        ]
    }
}

/// The lines of the prompt asking the model to turn a plugin command into
/// a workflow: the plugin, the command and the task, the manifest (as
/// JSON), the command's markdown, then each agent's markdown in the order
/// of `names`.
pub open spec fn conversion_prompt_lines(
    url: Seq<char>,
    command_name: Seq<char>,
    command_prompt: Seq<char>,
    task: Seq<char>,
    manifest_json: Seq<char>,
    agents: Seq<PluginAgent>,
    names: Seq<Seq<char>>,
) -> Seq<Seq<char>> {
    seq![
        "PLUGIN_URL: "@ + url,
        "COMMAND: "@ + command_name,
        "USER_TASK:"@,
        trim(task),
        seq![],
        "PLUGIN_MANIFEST:"@,
        manifest_json,
        seq![],
        "COMMAND_MARKDOWN (commands/"@ + command_name + ".md):"@,
        command_prompt,
        seq![],
    ] + if names.len() > 0 {
        seq!["AGENTS_MARKDOWN:"@] + agent_sections(agents, names)
    } else {
        seq![]
    }
}

/// The prompt asking the model to turn `command` of the plugin at
/// `plugin_url` into a workflow for `user_task`. `manifest_json` is the
/// plugin manifest serialized as JSON; `agents` are the plugin's agents, one
/// per name, whose sections follow in increasing order of name.
pub fn build_plugin_conversion_prompt(
    plugin_url: &PluginUrl,
    command: &PluginCommand,
    user_task: &str,
    manifest_json: &str,
    agents: &Vec<PluginAgent>,
) -> (r: String)
    ensures
        exists|names: Seq<Seq<char>>|
            crate::plugin_manifest::texts_sorted(names) && names.to_multiset() == agent_names(
                agents@,
            ).to_multiset() && r@ == join(
                conversion_prompt_lines(
                    plugin_url.text(),
                    command.name.text(),
                    command.prompt@,
                    user_task@,
                    manifest_json@,
                    agents@,
                    names,
                ),
                "\n"@,
            ),
{
    let mut raw_names: Vec<String> = Vec::new();
    let mut i: usize = 0;
    assert(agent_names(agents@).take(0) =~= Seq::<Seq<char>>::empty());
    assert(strings_view(raw_names@) =~= Seq::<Seq<char>>::empty());
    while i < agents.len()
        invariant
            i <= agents@.len(),
            strings_view(raw_names@) == agent_names(agents@).take(i as int),
        decreases agents@.len() - i,
    {
        let ghost before = raw_names@;
        raw_names.push(crate::text::owned(agents[i].name.as_str()));
        assert(strings_view(raw_names@) =~= strings_view(before).push(agents@[i as int].name.text()));
        assert(agent_names(agents@).take(i + 1) =~= agent_names(agents@).take(i as int).push(
            agents@[i as int].name.text(),
        ));
        i += 1;
    }
    assert(agent_names(agents@).take(agents@.len() as int) =~= agent_names(agents@));
    let names = crate::plugin_manifest::sort_texts(raw_names);
    let ghost nv = strings_view(names@);
    let mut parts: Vec<String> = Vec::new();
    let mut m = chars_of("PLUGIN_URL: ");
    extend_str(&mut m, plugin_url.as_str());
    push_line(&mut parts, m);
    let mut m = chars_of("COMMAND: ");
    extend_str(&mut m, command.name.as_str());
    push_line(&mut parts, m);
    push_line(&mut parts, chars_of("USER_TASK:"));
    let tc = chars_of(user_task);
    push_line(&mut parts, trim_chars(tc.as_slice()));
    push_line(&mut parts, Vec::new());
    push_line(&mut parts, chars_of("PLUGIN_MANIFEST:"));
    push_line(&mut parts, chars_of(manifest_json));
    push_line(&mut parts, Vec::new());
    let mut m = chars_of("COMMAND_MARKDOWN (commands/");
    extend_str(&mut m, command.name.as_str());
    extend_str(&mut m, ".md):");
    push_line(&mut parts, m);
    push_line(&mut parts, chars_of(command.prompt.as_str()));
    push_line(&mut parts, Vec::new());
    let ghost head = strings_view(parts@);
    if names.len() > 0 {
        push_line(&mut parts, chars_of("AGENTS_MARKDOWN:"));
        let ghost base = strings_view(parts@);
        let mut k: usize = 0;
        assert(nv.take(0) =~= Seq::<Seq<char>>::empty());
        assert(base + agent_sections(agents@, nv.take(0)) =~= base);
        while k < names.len()
            invariant
                k <= names@.len(),
                nv == strings_view(names@),
                strings_view(parts@) == base + agent_sections(agents@, nv.take(k as int)),
            decreases names@.len() - k,
        {
            let ghost before = strings_view(parts@);
            let name = names[k].as_str();
            let mut m = chars_of("---- agents/");
            extend_str(&mut m, name);
            extend_str(&mut m, ".md ----");
            push_line(&mut parts, m);
            match find_agent(agents, name) {
                Some(j) => {
                    push_line(&mut parts, chars_of(agents[j].system_prompt.as_str()));
                },
                None => {
                    push_line(&mut parts, Vec::new());
                },
            }
            push_line(&mut parts, Vec::new());
            assert(nv[k as int] == names@[k as int]@);
            assert(nv.take(k + 1).drop_last() =~= nv.take(k as int));
            assert(nv.take(k + 1).last() == nv[k as int]);
            assert(strings_view(parts@) =~= base + agent_sections(agents@, nv.take(k + 1)));
            k += 1;
        }
        assert(nv.take(names@.len() as int) =~= nv);
    }
    let ghost lines = conversion_prompt_lines(
        plugin_url.text(),
        command.name.text(),
        command.prompt@,
        user_task@,
        manifest_json@,
        agents@,
        nv,
    );
    assert(strings_view(parts@) =~= lines);
    let j = join_strings(&parts, "\n");
    string_of(j.as_slice())
}

} // verus!
