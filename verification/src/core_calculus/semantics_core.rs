//! Big-step semantics of the core calculus over the models of
//! `ast_core`, with a budget `fuel` on the depth of evaluation.
//!
//! A term is evaluated in one environment; a command in a term environment
//! and a command environment, with the value to resume with (if any) and the
//! stack of continuations that delimit it (innermost last).  Performing an
//! operation unwinds the stack to the innermost handler with a clause for
//! it; `PrintInt` without a handler prints its argument, which the semantics
//! records as output.
use vstd::prelude::*;
use crate::core_calculus::ast_core::{
    MTerm, MVtr, MCommand, MHandler, MClause, MValue, MEnv, MCont, MResult, MBinder, TopLevelTerm,
    TopLevelCommand, binder_view, var_name, term_view, command_view, Value, Env, value_view, env_view,
};
use crate::show::{str_debug, string_of};
use crate::core_calculus::render_core::{env_text, value_text};
use crate::core_calculus::render_core_write::{write_env, write_value};

verus! {

/// What `{:?}` writes for a value of the core calculus (see `render_core`).
pub open spec fn value_debug(v: MValue) -> Seq<char> {
    value_text(v)
}

/// What `{:?}` writes for an environment of the core calculus.
pub open spec fn env_debug(e: MEnv) -> Seq<char> {
    env_text(e)
}

/// The rendering of a value, as `{:?}` gives it.
pub(crate) fn debug_value(v: &Value) -> (res: String)
    ensures
        res@ == value_debug(value_view(*v)),
{
    let mut s = string_of("");
    proof {
        reveal_strlit("");
    }
    write_value(&mut s, v);
    s
}

/// The rendering of an environment, as `{:?}` gives it.
pub(crate) fn debug_env(env: &Env) -> (res: String)
    ensures
        res@ == env_debug(env_view(env@)),
{
    let mut s = string_of("");
    proof {
        reveal_strlit("");
    }
    write_env(&mut s, env);
    s
}

/// The message given when the evaluation budget is used up.
pub open spec fn exhausted_text() -> Seq<char> {
    "evaluation budget exhausted"@
}

/// The value bound to `x` in `env`: the innermost binding decides.
pub open spec fn lookup_env(x: Seq<char>, env: MEnv) -> Option<MValue>
    decreases env.len(),
{
    if env.len() == 0 {
        None
    } else if env.last().0 == x {
        Some(env.last().1)
    } else {
        lookup_env(x, env.drop_last())
    }
}

/// The closure of the first top-level function named `x`.
pub open spec fn lookup_function(x: Seq<char>, fs: Seq<TopLevelTerm>) -> Option<MValue>
    decreases fs.len(),
{
    if fs.len() == 0 {
        None
    } else if var_name(fs[0].0) == x {
        Some(MValue::ClosureFunc(Seq::empty(), binder_view(fs[0].1).name, term_view(fs[0].3)))
    } else {
        lookup_function(x, fs.drop_first())
    }
}

/// The closure of the first top-level arrow named `x`: a function of the
/// argument returning the arrow over the command argument.
pub open spec fn lookup_arrow(x: Seq<char>, ars: Seq<TopLevelCommand>) -> Option<MValue>
    decreases ars.len(),
{
    if ars.len() == 0 {
        None
    } else if var_name(ars[0].0) == x {
        Some(
            MValue::ClosureFunc(
                Seq::empty(),
                binder_view(ars[0].1).name,
                MTerm::CLam(binder_view(ars[0].2), Box::new(command_view(ars[0].4))),
            ),
        )
    } else {
        lookup_arrow(x, ars.drop_first())
    }
}

/// The first clause for operation `op` among `clauses[j..]`.
pub open spec fn find_clause_from(op: Seq<char>, clauses: Seq<MClause>, j: int) -> Option<MClause>
    decreases clauses.len() - j,
{
    if j < 0 || j >= clauses.len() {
        None
    } else if clauses[j].op == op {
        Some(clauses[j])
    } else {
        find_clause_from(op, clauses, j + 1)
    }
}

/// `cont[c]`: the command `c` put in the hole of the continuation.
pub open spec fn fill(k: MCont, c: MCommand) -> MCommand {
    match k {
        MCont::Let(b, c2, e1, e2) => MCommand::Let(b, Box::new(c), Box::new(c2), Some((e1, e2))),
        MCont::Handle(h, env) => MCommand::Handle(Box::new(c), h, Some(env)),
    }
}

pub open spec fn wrong(msg: Seq<char>) -> MResult {
    MResult::Wrong(msg)
}

/// Evaluating a variable: the environment first, then the top-level
/// functions, then the top-level arrows.
pub open spec fn eval_var(x: Seq<char>, env: MEnv, fs: Seq<TopLevelTerm>, ars: Seq<TopLevelCommand>) -> MResult {
    match lookup_env(x, env) {
        Some(v) => MResult::Val(v),
        None => match lookup_function(x, fs) {
            Some(v) => MResult::Val(v),
            None => match lookup_arrow(x, ars) {
                Some(v) => MResult::Val(v),
                None => wrong("interp_term: Unbound variable "@ + str_debug(x) + ", env="@ + env_debug(env)),
            },
        },
    }
}

/// Evaluating a term.
pub open spec fn eval_term(
    t: MTerm,
    env: MEnv,
    fs: Seq<TopLevelTerm>,
    ars: Seq<TopLevelCommand>,
    fuel: nat,
) -> MResult
    decreases fuel, 0nat,
{
    if fuel == 0 {
        wrong(exhausted_text())
    } else {
        let f = (fuel - 1) as nat;
        match t {
            MTerm::NumInt(n) => MResult::Val(MValue::NumInt(n)),
            MTerm::Unt => MResult::Val(MValue::Unt),
            MTerm::Var(x) => eval_var(x, env, fs, ars),
            MTerm::Pair(a, b) => match eval_term(*a, env, fs, ars, f) {
                MResult::Val(v1) => match eval_term(*b, env, fs, ars, f) {
                    MResult::Val(v2) => MResult::Val(MValue::Pair(Box::new(v1), Box::new(v2))),
                    w => w,
                },
                w => w,
            },
            MTerm::Fst(s) => match eval_term(*s, env, fs, ars, f) {
                MResult::Val(MValue::Pair(v1, _)) => MResult::Val(*v1),
                MResult::Val(v) => wrong("interp_term: "@ + value_debug(v) + " is not a pair"@),
                w => w,
            },
            MTerm::Snd(s) => match eval_term(*s, env, fs, ars, f) {
                MResult::Val(MValue::Pair(_, v2)) => MResult::Val(*v2),
                MResult::Val(v) => wrong("interp_term: "@ + value_debug(v) + " is not a pair"@),
                w => w,
            },
            MTerm::Lam(b, body) => MResult::Val(MValue::ClosureFunc(env, b.name, *body)),
            MTerm::App(t1, t2) => match eval_term(*t1, env, fs, ars, f) {
                MResult::Val(MValue::ClosureFunc(env1, x, body)) => match eval_term(*t2, env, fs, ars, f) {
                    MResult::Val(v2) => eval_term(body, env1.push((x, v2)), fs, ars, f),
                    w => w,
                },
                MResult::Val(v) => wrong("interp_term: "@ + value_debug(v) + " is not a function closure"@),
                w => w,
            },
            MTerm::CLam(b, c) => MResult::Val(MValue::ClosureArr(env, b.name, *c)),
            MTerm::Plus(t1, t2) => match eval_term(*t1, env, fs, ars, f) {
                MResult::Val(MValue::NumInt(n1)) => match eval_term(*t2, env, fs, ars, f) {
                    MResult::Val(MValue::NumInt(n2)) => MResult::Val(MValue::NumInt(n1.wrapping_add(n2))),
                    MResult::Val(v2) => wrong("interp_term: "@ + value_debug(v2) + " is not a number"@),
                    w => w,
                },
                MResult::Val(v1) => wrong("interp_term: "@ + value_debug(v1) + " is not a number"@),
                w => w,
            },
        }
    }
}

/// The outcome of running a command: its result and what it printed.
pub type RunOutcome = (MResult, Seq<i32>);

/// Hands a result to the innermost continuation, or returns it when the
/// stack is empty.
pub open spec fn continue_with(
    val: MValue,
    env: MEnv,
    env_com: MEnv,
    resume: Option<MValue>,
    fs: Seq<TopLevelTerm>,
    ars: Seq<TopLevelCommand>,
    stack: Seq<MCont>,
    f: nat,
) -> RunOutcome
    decreases f, 1nat,
{
    if stack.len() == 0 {
        (MResult::Val(val), Seq::empty())
    } else {
        eval_command(
            fill(stack.last(), MCommand::Return(MVtr::V(Box::new(val)))),
            env,
            env_com,
            resume,
            fs,
            ars,
            stack.drop_last(),
            f,
        )
    }
}

/// Running a command.
pub open spec fn eval_command(
    c: MCommand,
    env: MEnv,
    env_com: MEnv,
    resume: Option<MValue>,
    fs: Seq<TopLevelTerm>,
    ars: Seq<TopLevelCommand>,
    stack: Seq<MCont>,
    fuel: nat,
) -> RunOutcome
    decreases fuel, 0nat,
{
    if fuel == 0 {
        (wrong(exhausted_text()), Seq::empty())
    } else {
        let f = (fuel - 1) as nat;
        match c {
            MCommand::Return(MVtr::Resume) => match resume {
                Some(val) => continue_with(val, env, env_com, None, fs, ars, stack, f),
                None => (wrong("resume value is None"@), Seq::empty()),
            },
            MCommand::Return(MVtr::V(v)) => (MResult::Val(*v), Seq::empty()),
            MCommand::Return(MVtr::T(t)) => match eval_term(*t, env + env_com, fs, ars, f) {
                MResult::Val(val) => continue_with(val, env, env_com, resume, fs, ars, stack, f),
                w => (w, Seq::empty()),
            },
            MCommand::Let(b, c1, c2, envs) => {
                let e = match envs {
                    Some((e1, _)) => e1,
                    None => env,
                };
                let ec = match envs {
                    Some((_, e2)) => e2,
                    None => env_com,
                };
                match *c1 {
                    MCommand::Return(MVtr::V(val1)) => eval_command(
                        *c2,
                        e,
                        ec.push((b.name, *val1)),
                        resume,
                        fs,
                        ars,
                        stack,
                        f,
                    ),
                    _ => eval_command(*c1, e, ec, resume, fs, ars, stack.push(MCont::Let(b, *c2, e, ec)), f),
                }
            },
            MCommand::CApp(t1, t2) => match eval_term(*t1, env, fs, ars, f) {
                MResult::Val(MValue::ClosureArr(env1, x, body)) => match eval_term(*t2, env + env_com, fs, ars, f) {
                    MResult::Val(v2) => eval_command(body, env1, seq![(x, v2)], resume, fs, ars, stack, f),
                    w => (w, Seq::empty()),
                },
                MResult::Val(MValue::ClosureContArr(env1, body)) => match eval_term(
                    *t2,
                    env + env_com,
                    fs,
                    ars,
                    f,
                ) {
                    MResult::Val(v2) => eval_command(body, env1, Seq::empty(), Some(v2), fs, ars, stack, f),
                    w => (w, Seq::empty()),
                },
                MResult::Val(v1) => (
                    wrong("interp_command: CApp: val1="@ + value_debug(v1) + " is not an arrow closure"@),
                    Seq::empty(),
                ),
                w => (w, Seq::empty()),
            },
            MCommand::DoOp(op, t) => match eval_term(*t, env + env_com, fs, ars, f) {
                MResult::Val(val) => unwind(
                    op,
                    val,
                    MCommand::Return(MVtr::Resume),
                    stack,
                    env,
                    resume,
                    fs,
                    ars,
                    f,
                ),
                w => (w, Seq::empty()),
            },
            MCommand::Handle(c1, h, _) => match *c1 {
                MCommand::Return(MVtr::V(val1)) => match h {
                    MHandler::H(x, c_ret, _) => eval_command(
                        *c_ret,
                        env,
                        seq![(x.name, *val1)],
                        resume,
                        fs,
                        ars,
                        stack,
                        f,
                    ),
                },
                _ => eval_command(*c1, env, env_com, resume, fs, ars, stack.push(MCont::Handle(h, env)), f),
            },
        }
    }
}

/// Performing operation `op` with argument `val`: `command` is the part of
/// the computation already captured (innermost continuations filled in);
/// `stack` holds the continuations still to be searched for a handler.
pub open spec fn unwind(
    op: Seq<char>,
    val: MValue,
    command: MCommand,
    stack: Seq<MCont>,
    env: MEnv,
    resume: Option<MValue>,
    fs: Seq<TopLevelTerm>,
    ars: Seq<TopLevelCommand>,
    f: nat,
) -> RunOutcome
    decreases f, stack.len() + 2,
{
    if stack.len() == 0 {
        outermost(op, val, command, env, fs, ars, f)
    } else {
        let k = stack.last();
        let rest = stack.drop_last();
        let cmd = fill(k, command);
        match k {
            MCont::Handle(MHandler::H(_, _, clauses), henv) => match find_clause_from(op, clauses, 0) {
                Some(cl) => eval_command(
                    cl.body,
                    henv.push((cl.k.name, MValue::ClosureContArr(henv, cmd))),
                    seq![(cl.z.name, val)],
                    resume,
                    fs,
                    ars,
                    rest,
                    f,
                ),
                None => unwind(op, val, cmd, rest, env, resume, fs, ars, f),
            },
            _ => unwind(op, val, cmd, rest, env, resume, fs, ars, f),
        }
    }
}

/// An operation that no handler takes: `PrintInt` prints its integer and
/// resumes with the unit value; any other is an error.
pub open spec fn outermost(
    op: Seq<char>,
    val: MValue,
    command: MCommand,
    env: MEnv,
    fs: Seq<TopLevelTerm>,
    ars: Seq<TopLevelCommand>,
    f: nat,
) -> RunOutcome
    decreases f, 1nat,
{
    if op == "PrintInt"@ {
        match val {
            MValue::NumInt(i) => {
                let o = eval_command(command, env, Seq::empty(), Some(MValue::Unt), fs, ars, Seq::empty(), f);
                (o.0, seq![i] + o.1)
            },
            _ => (
                wrong("interp_command: DoOp: PrintInt: val="@ + value_debug(val) + " is not an integer"@),
                Seq::empty(),
            ),
        }
    } else {
        (wrong("interp_command: DoOp: Unhandled operation: Op("@ + str_debug(op) + ")"@), Seq::empty())
    }
}

/// Running a program: the first arrow named `main` is run with its
/// argument and its command argument bound to the unit value.
pub open spec fn run_main_from(fs: Seq<TopLevelTerm>, ars: Seq<TopLevelCommand>, i: int, fuel: nat) -> RunOutcome
    decreases ars.len() - i,
{
    if i < 0 || i >= ars.len() {
        (wrong("main not found"@), Seq::empty())
    } else if var_name(ars[i].0) == "main"@ {
        eval_command(
            command_view(ars[i].4),
            seq![(binder_view(ars[i].1).name, MValue::Unt)],
            seq![(binder_view(ars[i].2).name, MValue::Unt)],
            None,
            fs,
            ars,
            Seq::empty(),
            fuel,
        )
    } else {
        run_main_from(fs, ars, i + 1, fuel)
    }
}

/// A larger budget changes nothing: when evaluating a term within budget
/// `n` does not run out of budget, evaluating it within any budget `m >= n`
/// gives the same result.
pub proof fn lemma_term_budget(
    t: MTerm,
    env: MEnv,
    fs: Seq<TopLevelTerm>,
    ars: Seq<TopLevelCommand>,
    n: nat,
    m: nat,
)
    requires
        n <= m,
        eval_term(t, env, fs, ars, n) != wrong(exhausted_text()),
    ensures
        eval_term(t, env, fs, ars, m) == eval_term(t, env, fs, ars, n),
    decreases n, 0nat,
{
    if n > 0 {
        let f = (n - 1) as nat;
        let g = (m - 1) as nat;
        match t {
            MTerm::Pair(a, b) | MTerm::Plus(a, b) => {
                if eval_term(*a, env, fs, ars, f) != wrong(exhausted_text()) {
                    lemma_term_budget(*a, env, fs, ars, f, g);
                }
                if eval_term(*b, env, fs, ars, f) != wrong(exhausted_text()) {
                    lemma_term_budget(*b, env, fs, ars, f, g);
                }
            },
            MTerm::Fst(a) | MTerm::Snd(a) => {
                if eval_term(*a, env, fs, ars, f) != wrong(exhausted_text()) {
                    lemma_term_budget(*a, env, fs, ars, f, g);
                }
            },
            MTerm::App(a, b) => {
                if eval_term(*a, env, fs, ars, f) != wrong(exhausted_text()) {
                    lemma_term_budget(*a, env, fs, ars, f, g);
                }
                if eval_term(*b, env, fs, ars, f) != wrong(exhausted_text()) {
                    lemma_term_budget(*b, env, fs, ars, f, g);
                }
                match eval_term(*a, env, fs, ars, f) {
                    MResult::Val(MValue::ClosureFunc(env1, x, body)) => match eval_term(*b, env, fs, ars, f) {
                        MResult::Val(v2) => {
                            if eval_term(body, env1.push((x, v2)), fs, ars, f) != wrong(exhausted_text()) {
                                lemma_term_budget(body, env1.push((x, v2)), fs, ars, f, g);
                            }
                        },
                        _ => {},
                    },
                    _ => {},
                }
            },
            _ => {},
        }
    }
}

/// A larger budget changes nothing when handing a result to the innermost
/// continuation.
pub proof fn lemma_continue_budget(
    val: MValue,
    env: MEnv,
    env_com: MEnv,
    resume: Option<MValue>,
    fs: Seq<TopLevelTerm>,
    ars: Seq<TopLevelCommand>,
    stack: Seq<MCont>,
    f: nat,
    g: nat,
)
    requires
        f <= g,
        continue_with(val, env, env_com, resume, fs, ars, stack, f).0 != wrong(exhausted_text()),
    ensures
        continue_with(val, env, env_com, resume, fs, ars, stack, g) == continue_with(
            val,
            env,
            env_com,
            resume,
            fs,
            ars,
            stack,
            f,
        ),
    decreases f, 1nat,
{
    if stack.len() > 0 {
        lemma_command_budget(
            fill(stack.last(), MCommand::Return(MVtr::V(Box::new(val)))),
            env,
            env_com,
            resume,
            fs,
            ars,
            stack.drop_last(),
            f,
            g,
        );
    }
}

/// A larger budget changes nothing: when running a command within budget
/// `n` does not run out of budget, running it within any budget `m >= n`
/// gives the same result and the same output.
pub proof fn lemma_command_budget(
    c: MCommand,
    env: MEnv,
    env_com: MEnv,
    resume: Option<MValue>,
    fs: Seq<TopLevelTerm>,
    ars: Seq<TopLevelCommand>,
    stack: Seq<MCont>,
    n: nat,
    m: nat,
)
    requires
        n <= m,
        eval_command(c, env, env_com, resume, fs, ars, stack, n).0 != wrong(exhausted_text()),
    ensures
        eval_command(c, env, env_com, resume, fs, ars, stack, m) == eval_command(
            c,
            env,
            env_com,
            resume,
            fs,
            ars,
            stack,
            n,
        ),
    decreases n, 0nat,
{
    if n > 0 {
        let f = (n - 1) as nat;
        let g = (m - 1) as nat;
        match c {
            MCommand::Return(MVtr::Resume) => {
                if let Some(val) = resume {
                    lemma_continue_budget(val, env, env_com, None, fs, ars, stack, f, g);
                }
            },
            MCommand::Return(MVtr::T(t)) => {
                if eval_term(*t, env + env_com, fs, ars, f) != wrong(exhausted_text()) {
                    lemma_term_budget(*t, env + env_com, fs, ars, f, g);
                }
                if let MResult::Val(val) = eval_term(*t, env + env_com, fs, ars, f) {
                    lemma_continue_budget(val, env, env_com, resume, fs, ars, stack, f, g);
                }
            },
            MCommand::Let(b, c1, c2, envs) => {
                let e = match envs {
                    Some((e1, _)) => e1,
                    None => env,
                };
                let ec = match envs {
                    Some((_, e2)) => e2,
                    None => env_com,
                };
                match *c1 {
                    MCommand::Return(MVtr::V(val1)) => {
                        lemma_command_budget(*c2, e, ec.push((b.name, *val1)), resume, fs, ars, stack, f, g);
                    },
                    _ => {
                        lemma_command_budget(
                            *c1,
                            e,
                            ec,
                            resume,
                            fs,
                            ars,
                            stack.push(MCont::Let(b, *c2, e, ec)),
                            f,
                            g,
                        );
                    },
                }
            },
            MCommand::CApp(t1, t2) => {
                if eval_term(*t1, env, fs, ars, f) != wrong(exhausted_text()) {
                    lemma_term_budget(*t1, env, fs, ars, f, g);
                }
                if eval_term(*t2, env + env_com, fs, ars, f) != wrong(exhausted_text()) {
                    lemma_term_budget(*t2, env + env_com, fs, ars, f, g);
                }
                match eval_term(*t1, env, fs, ars, f) {
                    MResult::Val(MValue::ClosureArr(env1, x, body)) => {
                        if let MResult::Val(v2) = eval_term(*t2, env + env_com, fs, ars, f) {
                            lemma_command_budget(body, env1, seq![(x, v2)], resume, fs, ars, stack, f, g);
                        }
                    },
                    MResult::Val(MValue::ClosureContArr(env1, body)) => {
                        if let MResult::Val(v2) = eval_term(*t2, env + env_com, fs, ars, f) {
                            lemma_command_budget(body, env1, Seq::empty(), Some(v2), fs, ars, stack, f, g);
                        }
                    },
                    _ => {},
                }
            },
            MCommand::DoOp(op, t) => {
                if eval_term(*t, env + env_com, fs, ars, f) != wrong(exhausted_text()) {
                    lemma_term_budget(*t, env + env_com, fs, ars, f, g);
                }
                if let MResult::Val(val) = eval_term(*t, env + env_com, fs, ars, f) {
                    lemma_unwind_budget(
                        op,
                        val,
                        MCommand::Return(MVtr::Resume),
                        stack,
                        env,
                        resume,
                        fs,
                        ars,
                        f,
                        g,
                    );
                }
            },
            MCommand::Handle(c1, h, _) => match *c1 {
                MCommand::Return(MVtr::V(val1)) => match h {
                    MHandler::H(x, c_ret, _) => {
                        lemma_command_budget(*c_ret, env, seq![(x.name, *val1)], resume, fs, ars, stack, f, g);
                    },
                },
                _ => {
                    lemma_command_budget(*c1, env, env_com, resume, fs, ars, stack.push(MCont::Handle(h, env)), f, g);
                },
            },
            _ => {},
        }
    }
}

/// A larger budget changes nothing while an operation looks for its handler.
pub proof fn lemma_unwind_budget(
    op: Seq<char>,
    val: MValue,
    command: MCommand,
    stack: Seq<MCont>,
    env: MEnv,
    resume: Option<MValue>,
    fs: Seq<TopLevelTerm>,
    ars: Seq<TopLevelCommand>,
    f: nat,
    g: nat,
)
    requires
        f <= g,
        unwind(op, val, command, stack, env, resume, fs, ars, f).0 != wrong(exhausted_text()),
    ensures
        unwind(op, val, command, stack, env, resume, fs, ars, g) == unwind(
            op,
            val,
            command,
            stack,
            env,
            resume,
            fs,
            ars,
            f,
        ),
    decreases f, stack.len() + 2,
{
    if stack.len() == 0 {
        lemma_outermost_budget(op, val, command, env, fs, ars, f, g);
    } else {
        let k = stack.last();
        let rest = stack.drop_last();
        let cmd = fill(k, command);
        match k {
            MCont::Handle(MHandler::H(_, _, clauses), henv) => match find_clause_from(op, clauses, 0) {
                Some(cl) => {
                    lemma_command_budget(
                        cl.body,
                        henv.push((cl.k.name, MValue::ClosureContArr(henv, cmd))),
                        seq![(cl.z.name, val)],
                        resume,
                        fs,
                        ars,
                        rest,
                        f,
                        g,
                    );
                },
                None => {
                    lemma_unwind_budget(op, val, cmd, rest, env, resume, fs, ars, f, g);
                },
            },
            _ => {
                lemma_unwind_budget(op, val, cmd, rest, env, resume, fs, ars, f, g);
            },
        }
    }
}

/// A larger budget changes nothing for an operation that no handler takes.
pub proof fn lemma_outermost_budget(
    op: Seq<char>,
    val: MValue,
    command: MCommand,
    env: MEnv,
    fs: Seq<TopLevelTerm>,
    ars: Seq<TopLevelCommand>,
    f: nat,
    g: nat,
)
    requires
        f <= g,
        outermost(op, val, command, env, fs, ars, f).0 != wrong(exhausted_text()),
    ensures
        outermost(op, val, command, env, fs, ars, g) == outermost(op, val, command, env, fs, ars, f),
    decreases f, 1nat,
{
    if op == "PrintInt"@ {
        if let MValue::NumInt(i) = val {
            lemma_command_budget(command, env, Seq::empty(), Some(MValue::Unt), fs, ars, Seq::empty(), f, g);
        }
    }
}


/// Projections of a pair: `Fst (a, b)` is the value of `a` and `Snd (a, b)`
/// the value of `b`.
pub proof fn lemma_core_projections(a: MTerm, b: MTerm, env: MEnv, fs: Seq<TopLevelTerm>, ars: Seq<TopLevelCommand>, fuel: nat)
    requires
        eval_term(a, env, fs, ars, fuel) is Val,
        eval_term(b, env, fs, ars, fuel) is Val,
    ensures
        eval_term(MTerm::Fst(Box::new(MTerm::Pair(Box::new(a), Box::new(b)))), env, fs, ars, fuel + 2) == eval_term(
            a,
            env,
            fs,
            ars,
            fuel,
        ),
        eval_term(MTerm::Snd(Box::new(MTerm::Pair(Box::new(a), Box::new(b)))), env, fs, ars, fuel + 2) == eval_term(
            b,
            env,
            fs,
            ars,
            fuel,
        ),
{
    let p = MTerm::Pair(Box::new(a), Box::new(b));
    assert(eval_term(p, env, fs, ars, fuel + 1) == MResult::Val(
        MValue::Pair(Box::new(eval_term(a, env, fs, ars, fuel)->Val_0), Box::new(eval_term(b, env, fs, ars, fuel)->Val_0)),
    ));
}

/// Addition of two integers: the sum, wrapping around on overflow.
pub proof fn lemma_core_plus(a: MTerm, b: MTerm, n1: i32, n2: i32, env: MEnv, fs: Seq<TopLevelTerm>, ars: Seq<TopLevelCommand>, fuel: nat)
    requires
        eval_term(a, env, fs, ars, fuel) == MResult::Val(MValue::NumInt(n1)),
        eval_term(b, env, fs, ars, fuel) == MResult::Val(MValue::NumInt(n2)),
    ensures
        eval_term(MTerm::Plus(Box::new(a), Box::new(b)), env, fs, ars, fuel + 1) == MResult::Val(
            MValue::NumInt(n1.wrapping_add(n2)),
        ),
        i32::MIN <= n1 + n2 <= i32::MAX ==> eval_term(MTerm::Plus(Box::new(a), Box::new(b)), env, fs, ars, fuel + 1)
            == MResult::Val(MValue::NumInt((n1 + n2) as i32)),
{
}

/// Application of a function: `(fn x --> body) arg` runs `body` with `x`
/// bound to the value of `arg`, innermost.
pub proof fn lemma_core_beta(x: MBinder, body: MTerm, arg: MTerm, env: MEnv, fs: Seq<TopLevelTerm>, ars: Seq<TopLevelCommand>, fuel: nat)
    requires
        eval_term(arg, env, fs, ars, fuel + 1) is Val,
    ensures
        eval_term(MTerm::App(Box::new(MTerm::Lam(x, Box::new(body))), Box::new(arg)), env, fs, ars, fuel + 2)
            == eval_term(body, env.push((x.name, eval_term(arg, env, fs, ars, fuel + 1)->Val_0)), fs, ars, fuel + 1),
{
    assert(eval_term(MTerm::Lam(x, Box::new(body)), env, fs, ars, fuel + 1) == MResult::Val(
        MValue::ClosureFunc(env, x.name, body),
    ));
}

/// A variable is looked up innermost first: the value most recently bound
/// to `x` in the environment.
pub proof fn lemma_core_var(x: Seq<char>, v: MValue, env: MEnv, fs: Seq<TopLevelTerm>, ars: Seq<TopLevelCommand>, fuel: nat)
    ensures
        eval_term(MTerm::Var(x), env.push((x, v)), fs, ars, fuel + 1) == MResult::Val(v),
{
    assert(env.push((x, v)).last() == (x, v));
}


/// `let x <~ return t in c2`: `c2` runs with `x` bound to the value of `t`
/// (evaluated in the term and command environments), innermost, in the
/// command environment.
pub proof fn lemma_core_let_return(
    b: MBinder, t: MTerm, c2: MCommand, v: MValue, env: MEnv, ec: MEnv, resume: Option<MValue>, fs: Seq<TopLevelTerm>,
    ars: Seq<TopLevelCommand>, stack: Seq<MCont>, f: nat,
)
    requires
        eval_term(t, env + ec, fs, ars, f + 1) == MResult::Val(v),
    ensures
        eval_command(
            MCommand::Let(b, Box::new(MCommand::Return(MVtr::T(Box::new(t)))), Box::new(c2), None),
            env,
            ec,
            resume,
            fs,
            ars,
            stack,
            f + 3,
        ) == eval_command(c2, env, ec.push((b.name, v)), resume, fs, ars, stack, f),
{
    let st = stack.push(MCont::Let(b, c2, env, ec));
    assert(st.last() == MCont::Let(b, c2, env, ec));
    assert(st.drop_last() =~= stack);
    let inner = MCommand::Let(b, Box::new(MCommand::Return(MVtr::V(Box::new(v)))), Box::new(c2), Some((env, ec)));
    assert(fill(st.last(), MCommand::Return(MVtr::V(Box::new(v)))) == inner);
    let o = eval_command(c2, env, ec.push((b.name, v)), resume, fs, ars, stack, f);
    assert(eval_command(inner, env, ec, resume, fs, ars, stack, f + 1) == o);
    assert(continue_with(v, env, ec, resume, fs, ars, st, f + 1) == o);
    let ret = MCommand::Return(MVtr::T(Box::new(t)));
    assert(eval_command(ret, env, ec, resume, fs, ars, st, f + 2) == o);
}

} // verus!
