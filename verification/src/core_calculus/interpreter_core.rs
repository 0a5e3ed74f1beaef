//! The interpreter of the core calculus.  Each function computes what
//! `semantics_core` gives for the models of its arguments; integers that the
//! program prints are appended to `out`.
use vstd::prelude::*;
use crate::core_calculus::ast_core::{
    Term, Command, VTR, Var, VarWithType, Operation, Handler, HandlerRet, HandlerOp, Value, EvalResult,
    Continuation, Env, TopLevelTerm, TopLevelCommand, MValue, MCont, MResult, MCommand, MVtr,
    clause_view, handler_view, MHandler, term_view, command_view,
    value_view, env_view, cont_view, result_view, opt_value_view, stack_view, var_name, binder_view,
    op_name, clauses_view, clone_env, lemma_env_view, lemma_env_view_push, lemma_clauses_view,
    vt_var,
};
use crate::core_calculus::semantics_core::{
    eval_term, eval_command, eval_var, continue_with, unwind, outermost, fill, lookup_env,
    lookup_function, lookup_arrow, find_clause_from, run_main_from, exhausted_text, debug_value,
    debug_env,
};
use crate::show::{debug_str, string_of};

verus! {

/// `cont[c]`: the command `c` put in the hole of continuation `cont`.
pub fn replace_hole_command(cont: &Continuation, c: &Command) -> (res: Command)
    ensures
        command_view(res) == fill(cont_view(*cont), command_view(*c)),
{
    match cont {
        Continuation::Let(x, c2, envs) => Command::Let(
            x.clone(),
            Box::new(c.clone()),
            Box::new((**c2).clone()),
            Some((clone_env(&envs.0), clone_env(&envs.1))),
        ),
        Continuation::Handle(h, env) => Command::Handle(Box::new(c.clone()), h.clone(), Some(clone_env(env))),
    }
}

/// The variable that a typed binder binds.
pub fn var_with_type_to_var(vt: &VarWithType) -> (res: Var)
    ensures
        res == vt_var(*vt),
{
    match vt {
        VarWithType::VT(v, _) => Var::V(v.clone()),
    }
}

fn exhausted() -> (res: EvalResult)
    ensures
        result_view(res) == crate::core_calculus::semantics_core::wrong(exhausted_text()),
{
    EvalResult::Wrong(string_of("evaluation budget exhausted"))
}

/// The value of variable `var`: from the environment (innermost binding
/// first), else a top-level function, else a top-level arrow.
fn eval_variable(
    var: &String,
    env: &Env,
    functions: &Vec<TopLevelTerm>,
    arrows: &Vec<TopLevelCommand>,
) -> (res: EvalResult)
    ensures
        result_view(res) == eval_var(var@, env_view(env@), functions@, arrows@),
{
    let mut i = env.len();
    assert(env@.subrange(0, i as int) =~= env@);
    while i > 0
        invariant
            i <= env@.len(),
            lookup_env(var@, env_view(env@)) == lookup_env(var@, env_view(env@.subrange(0, i as int))),
        decreases i,
    {
        proof {
            let s = env@.subrange(0, i as int);
            assert(s.drop_last() =~= env@.subrange(0, i - 1));
            assert(env_view(s).drop_last() =~= env_view(s.drop_last()));
        }
        let (v, val) = &env[i - 1];
        match v {
            Var::V(y) => {
                if *var == *y {
                    return EvalResult::Val(val.clone());
                }
            },
        }
        i = i - 1;
    }
    assert(env@.subrange(0, 0) =~= Seq::<(Var, Value)>::empty());
    let mut j: usize = 0;
    assert(functions@.subrange(0, functions@.len() as int) =~= functions@);
    while j < functions.len()
        invariant
            j <= functions@.len(),
            lookup_env(var@, env_view(env@)) is None,
            lookup_function(var@, functions@) == lookup_function(
                var@,
                functions@.subrange(j as int, functions@.len() as int),
            ),
        decreases functions.len() - j,
    {
        proof {
            let s = functions@.subrange(j as int, functions@.len() as int);
            assert(s.drop_first() =~= functions@.subrange(j + 1, functions@.len() as int));
            assert(s[0] == functions@[j as int]);
        }
        let f = &functions[j];
        match (&f.0, &f.1) {
            (Var::V(fvar), VarWithType::VT(x, _)) => {
                if *var == *fvar {
                    let empty: Env = Vec::new();
                    assert(env_view(empty@) =~= Seq::<(Seq<char>, MValue)>::empty());
                    return EvalResult::Val(Value::ClosureFunc(empty, Var::V(x.clone()), f.3.clone()));
                }
            },
        }
        j = j + 1;
    }
    assert(functions@.subrange(functions@.len() as int, functions@.len() as int) =~= Seq::<
        TopLevelTerm,
    >::empty());
    let mut j: usize = 0;
    assert(arrows@.subrange(0, arrows@.len() as int) =~= arrows@);
    while j < arrows.len()
        invariant
            j <= arrows@.len(),
            lookup_env(var@, env_view(env@)) is None,
            lookup_function(var@, functions@) is None,
            lookup_arrow(var@, arrows@) == lookup_arrow(
                var@,
                arrows@.subrange(j as int, arrows@.len() as int),
            ),
        decreases arrows.len() - j,
    {
        proof {
            let s = arrows@.subrange(j as int, arrows@.len() as int);
            assert(s.drop_first() =~= arrows@.subrange(j + 1, arrows@.len() as int));
            assert(s[0] == arrows@[j as int]);
        }
        let a = &arrows[j];
        match (&a.0, &a.1) {
            (Var::V(avar), VarWithType::VT(x, _)) => {
                if *var == *avar {
                    let empty: Env = Vec::new();
                    assert(env_view(empty@) =~= Seq::<(Seq<char>, MValue)>::empty());
                    let body = Term::CLam(a.2.clone(), Box::new(a.4.clone()));
                    assert(term_view(body) == crate::core_calculus::ast_core::MTerm::CLam(
                        binder_view(a.2),
                        Box::new(command_view(a.4)),
                    ));
                    return EvalResult::Val(Value::ClosureFunc(empty, Var::V(x.clone()), body));
                }
            },
        }
        j = j + 1;
    }
    assert(arrows@.subrange(arrows@.len() as int, arrows@.len() as int) =~= Seq::<
        TopLevelCommand,
    >::empty());
    let mut m = string_of("interp_term: Unbound variable ");
    let d = debug_str(var.as_str());
    m.append(d.as_str());
    m.append(", env=");
    let de = debug_env(env);
    m.append(de.as_str());
    EvalResult::Wrong(m)
}

fn not_msg(prefix: &str, v: &Value, suffix: &str) -> (res: String)
    ensures
        res@ == prefix@ + crate::core_calculus::semantics_core::value_debug(value_view(*v)) + suffix@,
{
    let mut m = string_of(prefix);
    let d = debug_value(v);
    m.append(d.as_str());
    m.append(suffix);
    m
}

/// Evaluates `t` in the environment `env` followed by `env_com`.
pub fn concat_env_interp_term(
    t: &Term,
    env: &Env,
    env_com: &Env,
    functions: &Vec<TopLevelTerm>,
    arrows: &Vec<TopLevelCommand>,
    fuel: usize,
) -> (res: EvalResult)
    ensures
        result_view(res) == eval_term(
            term_view(*t),
            env_view(env@) + env_view(env_com@),
            functions@,
            arrows@,
            fuel as nat,
        ),
    decreases fuel, 1nat,
{
    let mut concat_env = clone_env(env);
    let mut i: usize = 0;
    assert(env_com@.subrange(0, 0) =~= Seq::<(Var, Value)>::empty());
    assert(env_view(env@) + env_view(Seq::<(Var, Value)>::empty()) =~= env_view(env@));
    while i < env_com.len()
        invariant
            i <= env_com@.len(),
            env_view(concat_env@) == env_view(env@) + env_view(env_com@.subrange(0, i as int)),
        decreases env_com.len() - i,
    {
        let x = env_com[i].0.clone();
        let v = env_com[i].1.clone();
        let ghost before = concat_env@;
        concat_env.push((x, v));
        proof {
            lemma_env_view_push(before, (x, v));
            let s = env_com@.subrange(0, i as int + 1);
            assert(s.drop_last() =~= env_com@.subrange(0, i as int));
            assert(env_view(concat_env@) =~= env_view(env@) + env_view(s));
        }
        i = i + 1;
    }
    assert(env_com@.subrange(0, env_com@.len() as int) =~= env_com@);
    interp_term(t, &concat_env, functions, arrows, fuel)
}

/// Evaluates term `t` in environment `env` within the budget `fuel`.
pub fn interp_term(
    t: &Term,
    env: &Env,
    functions: &Vec<TopLevelTerm>,
    arrows: &Vec<TopLevelCommand>,
    fuel: usize,
) -> (res: EvalResult)
    ensures
        result_view(res) == eval_term(term_view(*t), env_view(env@), functions@, arrows@, fuel as nat),
    decreases fuel, 0nat,
{
    if fuel == 0 {
        return exhausted();
    }
    let f = fuel - 1;
    match t {
        Term::NumInt(n) => EvalResult::Val(Value::NumInt(*n)),
        Term::Unt => EvalResult::Val(Value::Unt),
        Term::Var(Var::V(var)) => eval_variable(var, env, functions, arrows),
        Term::Pair(t1, t2) => {
            match interp_term(t1, env, functions, arrows, f) {
                EvalResult::Val(val1) => {
                    match interp_term(t2, env, functions, arrows, f) {
                        EvalResult::Val(val2) => EvalResult::Val(Value::Pair(Box::new(val1), Box::new(val2))),
                        wrong => wrong,
                    }
                },
                wrong => wrong,
            }
        },
        Term::Fst(s) => {
            match interp_term(s, env, functions, arrows, f) {
                EvalResult::Val(Value::Pair(val1, _val2)) => EvalResult::Val(*val1),
                EvalResult::Val(val) => EvalResult::Wrong(not_msg("interp_term: ", &val, " is not a pair")),
                wrong => wrong,
            }
        },
        Term::Snd(s) => {
            match interp_term(s, env, functions, arrows, f) {
                EvalResult::Val(Value::Pair(_val1, val2)) => EvalResult::Val(*val2),
                EvalResult::Val(val) => EvalResult::Wrong(not_msg("interp_term: ", &val, " is not a pair")),
                wrong => wrong,
            }
        },
        Term::Lam(VarWithType::VT(varname, _), s) => EvalResult::Val(
            Value::ClosureFunc(clone_env(env), Var::V(varname.clone()), (**s).clone()),
        ),
        Term::App(t1, t2) => {
            match interp_term(t1, env, functions, arrows, f) {
                EvalResult::Val(Value::ClosureFunc(env1, var, func_body)) => {
                    match interp_term(t2, env, functions, arrows, f) {
                        EvalResult::Val(val2) => {
                            let mut env1 = env1;
                            let ghost before = env1@;
                            env1.push((var, val2));
                            proof {
                                lemma_env_view_push(before, (var, val2));
                            }
                            interp_term(&func_body, &env1, functions, arrows, f)
                        },
                        wrong => wrong,
                    }
                },
                EvalResult::Val(val) => EvalResult::Wrong(
                    not_msg("interp_term: ", &val, " is not a function closure"),
                ),
                wrong => wrong,
            }
        },
        Term::CLam(VarWithType::VT(varname, _), c) => EvalResult::Val(
            Value::ClosureArr(clone_env(env), Var::V(varname.clone()), (**c).clone()),
        ),
        Term::Plus(t1, t2) => {
            match interp_term(t1, env, functions, arrows, f) {
                EvalResult::Val(Value::NumInt(n1)) => {
                    match interp_term(t2, env, functions, arrows, f) {
                        EvalResult::Val(Value::NumInt(n2)) => EvalResult::Val(Value::NumInt(n1.wrapping_add(n2))),
                        EvalResult::Val(val2) => EvalResult::Wrong(not_msg("interp_term: ", &val2, " is not a number")),
                        wrong => wrong,
                    }
                },
                EvalResult::Val(val1) => EvalResult::Wrong(not_msg("interp_term: ", &val1, " is not a number")),
                wrong => wrong,
            }
        },
    }
}

/// The result of a run and the integers it appended to `out`.
pub open spec fn run_matches(
    res: EvalResult,
    out_before: Seq<i32>,
    out_after: Seq<i32>,
    o: (crate::core_calculus::ast_core::MResult, Seq<i32>),
) -> bool {
    result_view(res) == o.0 && out_after == out_before + o.1
}

proof fn lemma_no_output(s: Seq<i32>)
    ensures
        s + Seq::<i32>::empty() == s,
{
    assert(s + Seq::<i32>::empty() =~= s);
}

proof fn lemma_stack_pop(cs: Seq<&Continuation>)
    requires
        cs.len() > 0,
    ensures
        stack_view(cs.drop_last()) == stack_view(cs).drop_last(),
        stack_view(cs).last() == cont_view(*cs.last()),
        stack_view(cs).len() == cs.len(),
{
    assert(stack_view(cs.drop_last()) =~= stack_view(cs).drop_last());
}

proof fn lemma_stack_push(cs: Seq<&Continuation>, k: &Continuation)
    ensures
        stack_view(cs.push(k)) == stack_view(cs).push(cont_view(*k)),
{
    assert(stack_view(cs.push(k)) =~= stack_view(cs).push(cont_view(*k)));
}

proof fn lemma_stack_empty(cs: Seq<&Continuation>)
    requires
        cs.len() == 0,
    ensures
        stack_view(cs) == Seq::<MCont>::empty(),
{
    assert(stack_view(cs) =~= Seq::<MCont>::empty());
}

fn copy_stack<'a>(cont_stack: &Vec<&'a Continuation>) -> (res: Vec<&'a Continuation>)
    ensures
        res@ == cont_stack@,
{
    let res = cont_stack.clone();
    assert(res@ =~= cont_stack@);
    res
}

/// Hands `val` to the innermost continuation of `cont_stack`, or returns it
/// when the stack is empty.
fn continue_exec(
    val: Value,
    env: &Env,
    env_com: &Env,
    resume_val: Option<Value>,
    functions: &Vec<TopLevelTerm>,
    arrows: &Vec<TopLevelCommand>,
    cont_stack: &Vec<&Continuation>,
    f: usize,
    out: &mut Vec<i32>,
) -> (res: EvalResult)
    ensures
        run_matches(
            res,
            old(out)@,
            final(out)@,
            continue_with(
                value_view(val),
                env_view(env@),
                env_view(env_com@),
                opt_value_view(resume_val),
                functions@,
                arrows@,
                stack_view(cont_stack@),
                f as nat,
            ),
        ),
    decreases f, 1nat,
{
    let mut cs = copy_stack(cont_stack);
    if cs.len() == 0 {
        proof {
            lemma_stack_empty(cs@);
            lemma_no_output(out@);
        }
        return EvalResult::Val(val);
    }
    proof {
        lemma_stack_pop(cs@);
    }
    let cont = cs.pop().unwrap();
    let ret = Command::Return(VTR::V(Box::new(val)));
    assert(command_view(ret) == MCommand::Return(MVtr::V(Box::new(value_view(val)))));
    let c = replace_hole_command(cont, &ret);
    interp_command(&c, env, env_com, resume_val, functions, arrows, &cs, f, out)
}

/// Runs command `c` with term environment `env`, command environment
/// `env_com`, the value to resume with, and the stack of continuations
/// around it, within the budget `fuel`.
pub fn interp_command(
    c: &Command,
    env: &Env,
    env_com: &Env,
    resume_val: Option<Value>,
    functions: &Vec<TopLevelTerm>,
    arrows: &Vec<TopLevelCommand>,
    cont_stack: &Vec<&Continuation>,
    fuel: usize,
    out: &mut Vec<i32>,
) -> (res: EvalResult)
    ensures
        run_matches(
            res,
            old(out)@,
            final(out)@,
            eval_command(
                command_view(*c),
                env_view(env@),
                env_view(env_com@),
                opt_value_view(resume_val),
                functions@,
                arrows@,
                stack_view(cont_stack@),
                fuel as nat,
            ),
        ),
    decreases fuel, 0nat,
{
    proof {
        lemma_no_output(out@);
    }
    if fuel == 0 {
        return exhausted();
    }
    let f = fuel - 1;
    match c {
        Command::Return(VTR::Resume) => {
            match resume_val {
                Some(val) => {
                    continue_exec(val, env, env_com, None, functions, arrows, cont_stack, f, out)
                },
                None => {
                    EvalResult::Wrong(string_of("resume value is None"))
                },
            }
        },
        Command::Return(VTR::V(v)) => {
            EvalResult::Val((**v).clone())
        },
        Command::Return(VTR::T(t)) => {
            match concat_env_interp_term(t, env, env_com, functions, arrows, f) {
                EvalResult::Val(val) => continue_exec(
                    val,
                    env,
                    env_com,
                    resume_val,
                    functions,
                    arrows,
                    cont_stack,
                    f,
                    out,
                ),
                wrong => wrong,
            }
        },
        Command::Let(var, c1, c2, envs) => {
            let (env2, env_com2) = match envs {
                Some((e, ec)) => (clone_env(e), clone_env(ec)),
                None => (clone_env(env), clone_env(env_com)),
            };
            match &**c1 {
                Command::Return(VTR::V(val1)) => {
                    assert(command_view(**c1) == MCommand::Return(MVtr::V(Box::new(value_view(**val1)))));
                    let mut env_com2 = env_com2;
                    let ghost before = env_com2@;
                    let entry = (var_with_type_to_var(var), (**val1).clone());
                    env_com2.push(entry);
                    proof {
                        lemma_env_view_push(before, entry);
                        assert(var_name(vt_var(*var)) == binder_view(*var).name);
                    }
                    interp_command(c2, &env2, &env_com2, resume_val, functions, arrows, cont_stack, f, out)
                },
                _ => {
                    assert(!(command_view(**c1) is Return && command_view(**c1)->Return_0 is V));
                    let cont = Continuation::Let(
                        var.clone(),
                        Box::new((**c2).clone()),
                        (clone_env(&env2), clone_env(&env_com2)),
                    );
                    let mut cs = copy_stack(cont_stack);
                    let ghost before = cs@;
                    cs.push(&cont);
                    proof {
                        lemma_stack_push(before, &cont);
                    }
                    interp_command(c1, &env2, &env_com2, resume_val, functions, arrows, &cs, f, out)
                },
            }
        },
        Command::CApp(t1, t2) => {
            match interp_term(t1, env, functions, arrows, f) {
                EvalResult::Val(Value::ClosureArr(env1, var, arr_body)) => {
                    match concat_env_interp_term(t2, env, env_com, functions, arrows, f) {
                        EvalResult::Val(val2) => {
                            let env_com_arg = vec![(var, val2)];
                            assert(env_view(env_com_arg@) =~= seq![(var_name(var), value_view(val2))]) by {
                                lemma_env_view(env_com_arg@);
                            }
                            interp_command(
                                &arr_body,
                                &env1,
                                &env_com_arg,
                                resume_val,
                                functions,
                                arrows,
                                cont_stack,
                                f,
                                out,
                            )
                        },
                        wrong => wrong,
                    }
                },
                EvalResult::Val(Value::ClosureContArr(env1, cont_body)) => {
                    match concat_env_interp_term(t2, env, env_com, functions, arrows, f) {
                        EvalResult::Val(val2) => {
                            let empty: Env = Vec::new();
                            assert(env_view(empty@) =~= Seq::<(Seq<char>, MValue)>::empty());
                            interp_command(
                                &cont_body,
                                &env1,
                                &empty,
                                Some(val2),
                                functions,
                                arrows,
                                cont_stack,
                                f,
                                out,
                            )
                        },
                        wrong => wrong,
                    }
                },
                EvalResult::Val(val1) => EvalResult::Wrong(
                    not_msg("interp_command: CApp: val1=", &val1, " is not an arrow closure"),
                ),
                wrong => wrong,
            }
        },
        Command::DoOp(op, t) => {
            match concat_env_interp_term(t, env, env_com, functions, arrows, f) {
                EvalResult::Val(val) => {
                    perform(op, val, env, resume_val, functions, arrows, cont_stack, f, out)
                },
                wrong => {
                    wrong
                },
            }
        },
        Command::Handle(c1, h, _h_env) => {
            match h {
                Handler::H(HandlerRet::HRet(x, c_ret), ops) => {
                    assert(handler_view(*h) == MHandler::H(
                        binder_view(*x),
                        Box::new(command_view(**c_ret)),
                        clauses_view(ops@),
                    ));
                    match &**c1 {
                        Command::Return(VTR::V(val1)) => {
                            assert(command_view(**c1) == MCommand::Return(MVtr::V(Box::new(value_view(**val1)))));
                            let env_com_ret = vec![(var_with_type_to_var(x), (**val1).clone())];
                            assert(env_view(env_com_ret@) =~= seq![
                                (var_name(env_com_ret@[0].0), value_view(env_com_ret@[0].1)),
                            ]) by {
                                lemma_env_view(env_com_ret@);
                            }
                            assert(var_name(vt_var(*x)) == binder_view(*x).name);
                            assert(env_view(env_com_ret@) =~= seq![(binder_view(*x).name, value_view(**val1))]);
                            interp_command(
                                c_ret,
                                env,
                                &env_com_ret,
                                resume_val,
                                functions,
                                arrows,
                                cont_stack,
                                f,
                                out,
                            )
                        },
                        _ => {
                            assert(!(command_view(**c1) is Return && command_view(**c1)->Return_0 is V));
                            let cont = Continuation::Handle(h.clone(), clone_env(env));
                            let mut cs = copy_stack(cont_stack);
                            let ghost before = cs@;
                            cs.push(&cont);
                            proof {
                                lemma_stack_push(before, &cont);
                            }
                            interp_command(c1, env, env_com, resume_val, functions, arrows, &cs, f, out)
                        },
                    }
                },
            }
        },
    }
}

fn same_op(a: &Operation, b: &Operation) -> (res: bool)
    ensures
        res == (op_name(*a) == op_name(*b)),
{
    match (a, b) {
        (Operation::Op(x), Operation::Op(y)) => *x == *y,
    }
}

/// The index of the first clause of `h_ops` for operation `op`.
fn find_clause_index(op: &Operation, h_ops: &Vec<HandlerOp>) -> (res: Option<usize>)
    ensures
        match res {
            Some(j) => j < h_ops@.len() && find_clause_from(op_name(*op), clauses_view(h_ops@), 0)
                == Some(clause_view(h_ops@[j as int])),
            None => find_clause_from(op_name(*op), clauses_view(h_ops@), 0) is None,
        },
{
    let ghost cv = clauses_view(h_ops@);
    proof {
        lemma_clauses_view(h_ops@);
    }
    let mut j: usize = 0;
    while j < h_ops.len()
        invariant
            j <= h_ops@.len(),
            cv == clauses_view(h_ops@),
            cv.len() == h_ops@.len(),
            forall|i: int| 0 <= i < h_ops@.len() ==> #[trigger] cv[i] == clause_view(h_ops@[i]),
            find_clause_from(op_name(*op), cv, 0) == find_clause_from(op_name(*op), cv, j as int),
        decreases h_ops.len() - j,
    {
        match &h_ops[j] {
            HandlerOp::HOp(h_op, _, _, _) => {
                if same_op(h_op, op) {
                    return Some(j);
                }
            },
        }
        j = j + 1;
    }
    None
}

/// Performs operation `op` with argument `val`: the continuations are
/// taken off the stack, innermost first, until a handler with a clause for
/// `op` is found; that clause runs with `k` bound to the captured
/// continuation.  Without such a handler the operation goes to
/// `outermost_handler`.
fn perform(
    op: &Operation,
    val: Value,
    env: &Env,
    resume_val: Option<Value>,
    functions: &Vec<TopLevelTerm>,
    arrows: &Vec<TopLevelCommand>,
    cont_stack: &Vec<&Continuation>,
    f: usize,
    out: &mut Vec<i32>,
) -> (res: EvalResult)
    ensures
        run_matches(
            res,
            old(out)@,
            final(out)@,
            unwind(
                op_name(*op),
                value_view(val),
                MCommand::Return(MVtr::Resume),
                stack_view(cont_stack@),
                env_view(env@),
                opt_value_view(resume_val),
                functions@,
                arrows@,
                f as nat,
            ),
        ),
    decreases f, 2nat,
{
    let mut command = Command::Return(VTR::Resume);
    assert(command_view(command) == MCommand::Return(MVtr::Resume));
    let mut cs = copy_stack(cont_stack);
    while cs.len() > 0
        invariant
            out@ == old(out)@,
            unwind(
                op_name(*op),
                value_view(val),
                MCommand::Return(MVtr::Resume),
                stack_view(cont_stack@),
                env_view(env@),
                opt_value_view(resume_val),
                functions@,
                arrows@,
                f as nat,
            ) == unwind(
                op_name(*op),
                value_view(val),
                command_view(command),
                stack_view(cs@),
                env_view(env@),
                opt_value_view(resume_val),
                functions@,
                arrows@,
                f as nat,
            ),
        decreases cs.len(),
    {
        proof {
            lemma_stack_pop(cs@);
        }
        let cont = cs.pop().unwrap();
        command = replace_hole_command(cont, &command);
        match cont {
            Continuation::Handle(Handler::H(_, h_ops), henv) => {
                match find_clause_index(op, h_ops) {
                    Some(j) => {
                        proof {
                            lemma_clauses_view(h_ops@);
                        }
                        match &h_ops[j] {
                            HandlerOp::HOp(h_op, k, z, c_op) => {
                                let mut env_hand = clone_env(henv);
                                let ghost before = env_hand@;
                                let kval = Value::ClosureContArr(clone_env(henv), command.clone());
                                let entry = (var_with_type_to_var(k), kval);
                                env_hand.push(entry);
                                proof {
                                    lemma_env_view_push(before, entry);
                                }
                                let env_com_hand = vec![(var_with_type_to_var(z), val.clone())];
                                assert(env_view(env_com_hand@) =~= seq![
                                    (var_name(env_com_hand@[0].0), value_view(env_com_hand@[0].1)),
                                ]) by {
                                    lemma_env_view(env_com_hand@);
                                }
                                return interp_command(
                                    c_op,
                                    &env_hand,
                                    &env_com_hand,
                                    resume_val,
                                    functions,
                                    arrows,
                                    &cs,
                                    f,
                                    out,
                                );
                            },
                        }
                    },
                    None => {},
                }
            },
            _ => {},
        }
    }
    proof {
        lemma_stack_empty(cs@);
    }
    outermost_handler(op, val, &command, env, functions, arrows, f, out)
}

/// An operation that no handler takes: `PrintInt` appends its integer to
/// `out` and resumes with the unit value; any other operation is an error.
pub fn outermost_handler(
    op: &Operation,
    val: Value,
    command: &Command,
    env: &Env,
    functions: &Vec<TopLevelTerm>,
    arrows: &Vec<TopLevelCommand>,
    f: usize,
    out: &mut Vec<i32>,
) -> (res: EvalResult)
    ensures
        run_matches(
            res,
            old(out)@,
            final(out)@,
            outermost(
                op_name(*op),
                value_view(val),
                command_view(*command),
                env_view(env@),
                functions@,
                arrows@,
                f as nat,
            ),
        ),
    decreases f, 1nat,
{
    proof {
        lemma_no_output(out@);
    }
    let name = match op {
        Operation::Op(s) => s,
    };
    if *name == string_of("PrintInt") {
        match val {
            Value::NumInt(i) => {
                let ghost before = out@;
                out.push(i);
                let empty_env: Env = Vec::new();
                assert(env_view(empty_env@) =~= Seq::<(Seq<char>, MValue)>::empty());
                let empty_stack: Vec<&Continuation> = Vec::new();
                proof {
                    lemma_stack_empty(empty_stack@);
                }
                let r = interp_command(
                    command,
                    env,
                    &empty_env,
                    Some(Value::Unt),
                    functions,
                    arrows,
                    &empty_stack,
                    f,
                    out,
                );
                proof {
                    let o = eval_command(
                        command_view(*command),
                        env_view(env@),
                        Seq::empty(),
                        Some(MValue::Unt),
                        functions@,
                        arrows@,
                        Seq::empty(),
                        f as nat,
                    );
                    assert(out@ =~= before + (seq![i] + o.1));
                }
                r
            },
            _ => EvalResult::Wrong(not_msg("interp_command: DoOp: PrintInt: val=", &val, " is not an integer")),
        }
    } else {
        let mut m = string_of("interp_command: DoOp: Unhandled operation: Op(");
        let d = debug_str(name.as_str());
        m.append(d.as_str());
        m.append(")");
        EvalResult::Wrong(m)
    }
}

/// Runs the program: the first arrow named `main`, with its argument and
/// command argument bound to the unit value; the integers it prints are
/// appended to `out`.
pub fn execute(functions: &Vec<TopLevelTerm>, arrows: &Vec<TopLevelCommand>, out: &mut Vec<i32>) -> (res: EvalResult)
    ensures
        run_matches(res, old(out)@, final(out)@, run_main_from(functions@, arrows@, 0, usize::MAX as nat)),
{
    let mut i: usize = 0;
    while i < arrows.len()
        invariant
            i <= arrows@.len(),
            out@ == old(out)@,
            run_main_from(functions@, arrows@, 0, usize::MAX as nat) == run_main_from(
                functions@,
                arrows@,
                i as int,
                usize::MAX as nat,
            ),
        decreases arrows.len() - i,
    {
        let a = &arrows[i];
        match (&a.0, &a.1, &a.2) {
            (Var::V(arr_name), VarWithType::VT(x, _), VarWithType::VT(z, _)) => {
                if *arr_name == string_of("main") {
                    let env = vec![(Var::V(x.clone()), Value::Unt)];
                    let env_com = vec![(Var::V(z.clone()), Value::Unt)];
                    proof {
                        lemma_env_view(env@);
                        lemma_env_view(env_com@);
                        assert(env_view(env@) =~= seq![(binder_view(a.1).name, MValue::Unt)]);
                        assert(env_view(env_com@) =~= seq![(binder_view(a.2).name, MValue::Unt)]);
                    }
                    let empty_stack: Vec<&Continuation> = Vec::new();
                    proof {
                        lemma_stack_empty(empty_stack@);
                    }
                    return interp_command(&a.4, &env, &env_com, None, functions, arrows, &empty_stack, usize::MAX, out);
                }
            },
        }
        i = i + 1;
    }
    proof {
        lemma_no_output(out@);
    }
    EvalResult::Wrong(string_of("main not found"))
}

} // verus!
