//! The message queue of a shell run: taking the next message, finding the
//! agent and handler it goes to, binding the handler's parameters, and
//! writing the agent's state back after the handler ran. Between these two
//! steps the handler's body runs (see `shell_exec::run_handler`).
use vstd::prelude::*;
use vstd::pervasive::VecAdditionalExecFns;
use crate::assoc::{assoc_map, find_last, lemma_assoc_update, lemma_assoc_last, lemma_assoc_absent};
use crate::ast::{Shell, MessageHandler, copy_strings};
use crate::shell_runtime::{ShellValue, last_handler};
use crate::shell_values::{ValueView, copy_value, copy_fields, fields_view};
use crate::text::str_eq;

verus! {

/// A message on its way: the agent it goes to, the message, its arguments.
#[derive(Debug)]
pub struct Event {
    pub target: String,
    pub message: String,
    pub args: Vec<(String, ShellValue)>,
}

/// An agent of a running shell: its name, the index of its declaration in
/// the shell, its state variables and their names.
#[derive(Debug)]
pub struct AgentRuntime {
    pub name: String,
    pub decl: usize,
    pub state: Vec<(String, ShellValue)>,
    pub state_keys: Vec<String>,
}

/// A running shell: its agents, the queue of messages (the next one
/// first), the steps taken and allowed, and whether it was told to stop.
#[derive(Debug)]
pub struct ShellVm {
    pub agents: Vec<AgentRuntime>,
    pub queue: std::collections::VecDeque<Event>,
    pub steps: usize,
    pub max_steps: usize,
    pub terminated: bool,
}

/// Why a step fails.
#[derive(Debug, Clone, PartialEq, Eq)]
pub enum StepError {
    /// More steps than allowed.
    StepLimit,
    /// The message goes to no agent of the shell.
    UnknownAgent(String),
    /// The handler has a parameter that the message has no argument for.
    MissingArgument(String),
}

/// What a step does with the next message.
#[derive(Debug)]
pub enum StepStart {
    /// Nothing to do: the run was told to stop or the queue is empty.
    Idle,
    /// The message was taken and needs nothing more: it went to `System`,
    /// or its agent has no handler for it.
    Handled,
    /// The handler `handler` of the agent `agent` runs in `env`.
    Run { agent: usize, handler: usize, env: Vec<(String, ShellValue)> },
}

/// A list of named values read as a map (the last entry of a name counts).
pub open spec fn env_map(s: Seq<(String, ShellValue)>) -> Map<Seq<char>, ValueView> {
    assoc_map(s, |v: ShellValue| v@)
}

/// The index of the last agent runtime with this name.
pub open spec fn runtime_named(agents: Seq<AgentRuntime>, name: Seq<char>) -> Option<int>
    decreases agents.len(),
{
    if agents.len() == 0 {
        None
    } else if agents.last().name@ == name {
        Some(agents.len() - 1)
    } else {
        runtime_named(agents.drop_last(), name)
    }
}

proof fn lemma_runtime_named(agents: Seq<AgentRuntime>, name: Seq<char>, i: int)
    requires
        -1 <= i < agents.len(),
        i >= 0 ==> agents[i].name@ == name,
        forall|j: int| i < j < agents.len() ==> (#[trigger] agents[j]).name@ != name,
    ensures
        runtime_named(agents, name) == (if i >= 0 { Some(i) } else { None::<int> }),
    decreases agents.len(),
{
    if agents.len() > 0 && i < agents.len() - 1 {
        lemma_runtime_named(agents.drop_last(), name, i);
    }
}

/// The environment a handler runs in: the agent's state, then each
/// parameter bound to the message's argument of that name (the last one);
/// `None` names the first parameter without an argument.
pub open spec fn bind_params(
    env: Map<Seq<char>, ValueView>,
    params: Seq<crate::ast::Param>,
    args: Map<Seq<char>, ValueView>,
    i: int,
) -> Result<Map<Seq<char>, ValueView>, Seq<char>>
    decreases params.len() - i,
{
    if i < 0 || i >= params.len() {
        Ok(env)
    } else if !args.contains_key(params[i].name@) {
        Err(params[i].name@)
    } else {
        bind_params(env.insert(params[i].name@, args[params[i].name@]), params, args, i + 1)
    }
}

/// Sets a name in an environment: replaces its last entry, or adds one.
pub fn env_insert(env: &mut Vec<(String, ShellValue)>, name: String, v: ShellValue)
    ensures
        env_map(final(env)@) == env_map(old(env)@).insert(name@, v@),
{
    match find_last(env, name.as_str()) {
        Some(i) => {
            proof {
                lemma_assoc_update(old(env)@, |x: ShellValue| x@, name@, i as int, (name, v));
            }
            env.set(i, (name, v));
        },
        None => {
            let ghost before = env@;
            env.push((name, v));
            proof {
                assert(env@.drop_last() =~= before);
            }
        },
    }
}

/// Removes a name from an environment: every entry of it.
pub fn env_remove(env: &mut Vec<(String, ShellValue)>, name: &str)
    ensures
        env_map(final(env)@) == env_map(old(env)@).remove(name@),
{
    let ghost s = env@;
    let mut out: Vec<(String, ShellValue)> = Vec::new();
    let n = env.len();
    for i in 0..n
        invariant
            n == s.len(),
            env@ == s,
            env_map(out@) == env_map(s.take(i as int)).remove(name@),
    {
        assert(s.take(i + 1).drop_last() =~= s.take(i as int));
        assert(s.take(i + 1).last() == s[i as int]);
        if !str_eq(env[i].0.as_str(), name) {
            let ghost before = out@;
            let e = (env[i].0.clone(), copy_value(&env[i].1));
            out.push(e);
            proof {
                assert(out@.drop_last() =~= before);
                assert(env_map(out@) =~= env_map(s.take(i + 1)).remove(name@));
            }
        } else {
            assert(env_map(out@) =~= env_map(s.take(i + 1)).remove(name@));
        }
    }
    assert(s.take(n as int) =~= s);
    *env = out;
}

/// A copy of an environment.
pub fn env_copy(env: &Vec<(String, ShellValue)>) -> (r: Vec<(String, ShellValue)>)
    ensures
        env_map(r@) == env_map(env@),
{
    let r = copy_fields(env);
    proof {
        lemma_fields_view_env(r@, env@);
    }
    r
}

/// Looks a name up in an environment: a copy of its value.
pub fn env_get(env: &Vec<(String, ShellValue)>, name: &str) -> (r: Option<ShellValue>)
    ensures
        match r {
            Some(x) => env_map(env@).contains_key(name@) && env_map(env@)[name@] == x@,
            None => !env_map(env@).contains_key(name@),
        },
{
    match find_last(env, name) {
        Some(i) => {
            proof {
                lemma_assoc_last(env@, |x: ShellValue| x@, name@, i as int);
            }
            Some(copy_value(&env[i].1))
        },
        None => {
            proof {
                lemma_assoc_absent(env@, |x: ShellValue| x@, name@);
            }
            None
        },
    }
}

fn find_runtime(agents: &Vec<AgentRuntime>, name: &str) -> (r: Option<usize>)
    ensures
        match r {
            Some(j) => runtime_named(agents@, name@) == Some(j as int) && j < agents@.len(),
            None => runtime_named(agents@, name@) is None,
        },
{
    let mut i = agents.len();
    while i > 0
        invariant
            i <= agents@.len(),
            forall|j: int| i <= j < agents@.len() ==> (#[trigger] agents@[j]).name@ != name@,
        decreases i,
    {
        if str_eq(agents[i - 1].name.as_str(), name) {
            proof {
                lemma_runtime_named(agents@, name@, i - 1);
            }
            return Some(i - 1);
        }
        i = i - 1;
    }
    proof {
        lemma_runtime_named(agents@, name@, -1);
    }
    None
}

fn find_handler(hs: &Vec<MessageHandler>, message: &str) -> (r: Option<usize>)
    ensures
        match r {
            Some(j) => last_handler(hs@, message@) == Some(j as int) && j < hs@.len(),
            None => last_handler(hs@, message@) is None,
        },
{
    let mut i = hs.len();
    while i > 0
        invariant
            i <= hs@.len(),
            forall|j: int| i <= j < hs@.len() ==> (#[trigger] hs@[j]).message@ != message@,
        decreases i,
    {
        if str_eq(hs[i - 1].message.as_str(), message) {
            proof {
                lemma_last_handler_at(hs@, message@, i - 1);
            }
            return Some(i - 1);
        }
        i = i - 1;
    }
    proof {
        lemma_last_handler_at(hs@, message@, -1);
    }
    None
}

proof fn lemma_last_handler_at(hs: Seq<MessageHandler>, message: Seq<char>, i: int)
    requires
        -1 <= i < hs.len(),
        i >= 0 ==> hs[i].message@ == message,
        forall|j: int| i < j < hs.len() ==> (#[trigger] hs[j]).message@ != message,
    ensures
        last_handler(hs, message) == (if i >= 0 { Some(i) } else { None::<int> }),
    decreases hs.len(),
{
    if hs.len() > 0 && i < hs.len() - 1 {
        lemma_last_handler_at(hs.drop_last(), message, i);
    }
}

/// The agent runtimes refer to agents of the shell.
pub open spec fn vm_wf(vm: ShellVm, shell: Shell) -> bool {
    forall|a: int| 0 <= a < vm.agents@.len() ==> (#[trigger] vm.agents@[a]).decl < shell.agents@.len()
}

/// Takes the next message of a run and decides what it needs:
/// - a run that was told to stop, or has no message, is idle;
/// - otherwise the message is taken and counted, and more steps than
///   allowed fail;
/// - a message to `System` is handled, and `done` tells the run to stop;
/// - a message to no agent fails; one its agent (the last of that name)
///   has no handler for is handled;
/// - otherwise the handler (the last one of that message) runs in the
///   agent's state with each parameter bound to the argument of its name,
///   and a parameter without an argument fails.
pub fn step_begin(vm: &mut ShellVm, shell: &Shell) -> (r: Result<StepStart, StepError>)
    requires
        vm_wf(*old(vm), *shell),
        !old(vm).terminated && old(vm).queue@.len() > 0 ==> old(vm).steps < usize::MAX,
    ensures
        vm_wf(*final(vm), *shell),
        final(vm).agents == old(vm).agents,
        final(vm).max_steps == old(vm).max_steps,
        old(vm).terminated || old(vm).queue@.len() == 0 ==> (r matches Ok(StepStart::Idle)
            && final(vm).queue@ == old(vm).queue@ && final(vm).steps == old(vm).steps
            && final(vm).terminated == old(vm).terminated),
        !old(vm).terminated && old(vm).queue@.len() > 0 ==> ({
            let ev = old(vm).queue@[0];
            &&& final(vm).queue@ == old(vm).queue@.subrange(1, old(vm).queue@.len() as int)
            &&& final(vm).steps == old(vm).steps + 1
            &&& if old(vm).steps + 1 > old(vm).max_steps {
                r == Err::<StepStart, StepError>(StepError::StepLimit) && !final(vm).terminated
            } else if ev.target@ == "System"@ {
                r matches Ok(StepStart::Handled) && final(vm).terminated == (ev.message@ == "done"@)
            } else {
                &&& !final(vm).terminated
                &&& match runtime_named(old(vm).agents@, ev.target@) {
                    None => r == Err::<StepStart, StepError>(StepError::UnknownAgent(ev.target)),
                    Some(a) => {
                        let rt = old(vm).agents@[a];
                        let decl = shell.agents@[rt.decl as int];
                        match last_handler(decl.handlers@, ev.message@) {
                            None => r matches Ok(StepStart::Handled),
                            Some(h) => match bind_params(
                                env_map(rt.state@),
                                decl.handlers@[h].params@,
                                env_map(ev.args@),
                                0,
                            ) {
                                Err(p) => r matches Err(StepError::MissingArgument(n)) && n@ == p,
                                Ok(env) => r matches Ok(StepStart::Run { agent, handler, env: e })
                                    && agent == a && handler == h && env_map(e@) == env,
                            },
                        }
                    },
                }
            }
        }),
{
    if vm.terminated || vm.queue.len() == 0 {
        return Ok(StepStart::Idle);
    }
    let event = match vm.queue.pop_front() {
        Some(e) => e,
        None => {
            return Ok(StepStart::Idle);
        },
    };
    vm.steps = vm.steps + 1;
    if vm.steps > vm.max_steps {
        return Err(StepError::StepLimit);
    }
    if str_eq(event.target.as_str(), "System") {
        if str_eq(event.message.as_str(), "done") {
            vm.terminated = true;
        }
        return Ok(StepStart::Handled);
    }
    let a = match find_runtime(&vm.agents, event.target.as_str()) {
        None => {
            return Err(StepError::UnknownAgent(event.target));
        },
        Some(a) => a,
    };
    let decl = &shell.agents[vm.agents[a].decl];
    let h = match find_handler(&decl.handlers, event.message.as_str()) {
        None => {
            return Ok(StepStart::Handled);
        },
        Some(h) => h,
    };
    let params = &decl.handlers[h].params;
    let mut env = copy_fields(&vm.agents[a].state);
    let ghost args = env_map(event.args@);
    let ghost start = env_map(vm.agents@[a as int].state@);
    assert(env_map(env@) == start) by {
        lemma_fields_view_env(env@, vm.agents@[a as int].state@);
    }
    let ghost snap = *vm;
    for i in 0..params.len()
        invariant
            *vm == snap,
            snap.agents == old(vm).agents,
            snap.max_steps == old(vm).max_steps,
            !snap.terminated,
            snap.queue@ == old(vm).queue@.subrange(1, old(vm).queue@.len() as int),
            snap.steps == old(vm).steps + 1,
            snap.steps <= snap.max_steps,
            !old(vm).terminated && old(vm).queue@.len() > 0,
            event == old(vm).queue@[0],
            event.target@ != "System"@,
            vm_wf(*old(vm), *shell),
            runtime_named(old(vm).agents@, event.target@) == Some(a as int),
            a < old(vm).agents@.len(),
            decl == shell.agents@[old(vm).agents@[a as int].decl as int],
            last_handler(decl.handlers@, event.message@) == Some(h as int),
            h < decl.handlers@.len(),
            params == decl.handlers@[h as int].params,
            start == env_map(old(vm).agents@[a as int].state@),
            args == env_map(event.args@),
            bind_params(start, params@, args, 0) == bind_params(env_map(env@), params@, args, i as int),
    {
        match env_get(&event.args, params[i].name.as_str()) {
            None => {
                return Err(StepError::MissingArgument(params[i].name.clone()));
            },
            Some(v) => {
                env_insert(&mut env, params[i].name.clone(), v);
            },
        }
    }
    Ok(StepStart::Run { agent: a, handler: h, env })
}

/// Lists of named values with equal views read as the same map.
proof fn lemma_fields_view_env(a: Seq<(String, ShellValue)>, b: Seq<(String, ShellValue)>)
    requires
        fields_view(a) == fields_view(b),
    ensures
        env_map(a) == env_map(b),
    decreases a.len(),
{
    assert(a.len() == fields_view(a).len());
    assert(b.len() == fields_view(b).len());
    if a.len() > 0 {
        assert(fields_view(a.drop_last()) =~= fields_view(b.drop_last())) by {
            assert forall|i: int| 0 <= i < a.len() - 1 implies fields_view(a.drop_last())[i] == fields_view(
                b.drop_last(),
            )[i] by {
                assert(fields_view(a)[i] == fields_view(b)[i]);
            }
        }
        lemma_fields_view_env(a.drop_last(), b.drop_last());
        assert(fields_view(a)[a.len() - 1] == fields_view(b)[a.len() - 1]);
    }
}

/// Writes an agent's state back after its handler ran: each state variable that the
/// environment has takes its value there.
pub fn step_finish(vm: &mut ShellVm, agent: usize, env: &Vec<(String, ShellValue)>)
    requires
        agent < old(vm).agents@.len(),
    ensures
        final(vm).queue@ == old(vm).queue@,
        final(vm).steps == old(vm).steps,
        final(vm).max_steps == old(vm).max_steps,
        final(vm).terminated == old(vm).terminated,
        final(vm).agents@.len() == old(vm).agents@.len(),
        forall|a: int| 0 <= a < old(vm).agents@.len() && a != agent ==> #[trigger] final(vm).agents@[a] == old(vm).agents@[a],
        final(vm).agents@[agent as int].name == old(vm).agents@[agent as int].name,
        final(vm).agents@[agent as int].decl == old(vm).agents@[agent as int].decl,
        final(vm).agents@[agent as int].state_keys@ == old(vm).agents@[agent as int].state_keys@,
        env_map(final(vm).agents@[agent as int].state@) == write_back(
            env_map(old(vm).agents@[agent as int].state@),
            old(vm).agents@[agent as int].state_keys@,
            env_map(env@),
            old(vm).agents@[agent as int].state_keys@.len() as int,
        ),
{
    let ghost old_rt = vm.agents@[agent as int];
    let ghost envm = env_map(env@);
    let mut state = copy_fields(&vm.agents[agent].state);
    let keys = copy_strings(&vm.agents[agent].state_keys);
    proof {
        lemma_fields_view_env(state@, old_rt.state@);
    }
    for i in 0..keys.len()
        invariant
            keys@ == old_rt.state_keys@,
            envm == env_map(env@),
            env_map(state@) == write_back(env_map(old_rt.state@), keys@, envm, i as int),
    {
        match env_get(env, keys[i].as_str()) {
            Some(v) => {
                env_insert(&mut state, keys[i].clone(), v);
            },
            None => {},
        }
    }
    let rt = AgentRuntime {
        name: vm.agents[agent].name.clone(),
        decl: vm.agents[agent].decl,
        state,
        state_keys: keys,
    };
    vm.agents.set(agent, rt);
}

/// The state after writing back the first `k` state variables that the
/// environment has.
pub open spec fn write_back(
    state: Map<Seq<char>, ValueView>,
    keys: Seq<String>,
    env: Map<Seq<char>, ValueView>,
    k: int,
) -> Map<Seq<char>, ValueView>
    decreases k,
{
    if k <= 0 {
        state
    } else {
        let before = write_back(state, keys, env, k - 1);
        let key = keys[k - 1]@;
        if env.contains_key(key) {
            before.insert(key, env[key])
        } else {
            before
        }
    }
}

} // verus!
