//! Writers of the renderings of `render_core`.
use vstd::prelude::*;
use crate::core_calculus::ast_core::{
    BaseType, Command, Env, Handler, HandlerOp, HandlerRet, Operation, Term, Type, Value, Var, VarWithType, VTR,
    binder_view, clause_view, clauses_view, command_view, env_view, handler_view, lemma_clauses_view, lemma_env_view,
    lemma_env_view_push, op_name, term_view, value_view, var_name,
};
use crate::core_calculus::render_core::{
    binder_text, clause_text, clauses_text, command_text, core_type_text, env_items_text, env_text, entry_text,
    handler_text, lemma_clauses_push, lemma_env_items_push, name_text, op_text, term_text, unfold_clauses_text,
    unfold_command_text, unfold_env_items_text, unfold_handler_text, unfold_term_text, unfold_value_text, value_text,
};
use crate::render::int_text;
use crate::render_write::write_int;
use crate::show::debug_str;

verus! {

fn write_core_type(out: &mut String, t: &Type)
    ensures
        final(out)@ == old(out)@ + core_type_text(*t),
    decreases t,
{
    match t {
        Type::Base(BaseType::Int) => {
            out.append("Base(");
            out.append("Int");
            out.append(")");
        },
        Type::Base(BaseType::Unit) => {
            out.append("Base(");
            out.append("Unit");
            out.append(")");
        },
        Type::Prod(a, b) => {
            out.append("Prod(");
            write_core_type(out, a);
            out.append(", ");
            write_core_type(out, b);
            out.append(")");
        },
        Type::Fun(a, b) => {
            out.append("Fun(");
            write_core_type(out, a);
            out.append(", ");
            write_core_type(out, b);
            out.append(")");
        },
        Type::Arr(a, b) => {
            out.append("Arr(");
            write_core_type(out, a);
            out.append(", ");
            write_core_type(out, b);
            out.append(")");
        },
    }
    assert(out@ =~= old(out)@ + core_type_text(*t));
}

fn write_str_debug(out: &mut String, s: &String)
    ensures
        final(out)@ == old(out)@ + crate::show::str_debug(s@),
{
    let d = debug_str(s.as_str());
    out.append(d.as_str());
}

fn write_binder(out: &mut String, vt: &VarWithType)
    ensures
        final(out)@ == old(out)@ + binder_text(binder_view(*vt)),
{
    match vt {
        VarWithType::VT(x, t) => {
            out.append("VT(");
            write_str_debug(out, x);
            out.append(", ");
            write_core_type(out, t);
            out.append(")");
        },
    }
    assert(out@ =~= old(out)@ + binder_text(binder_view(*vt)));
}

fn write_name(out: &mut String, x: &Var)
    ensures
        final(out)@ == old(out)@ + name_text(var_name(*x)),
{
    match x {
        Var::V(s) => {
            out.append("V(");
            write_str_debug(out, s);
            out.append(")");
        },
    }
    assert(out@ =~= old(out)@ + name_text(var_name(*x)));
}

fn write_op(out: &mut String, op: &Operation)
    ensures
        final(out)@ == old(out)@ + op_text(op_name(*op)),
{
    match op {
        Operation::Op(s) => {
            out.append("Op(");
            write_str_debug(out, s);
            out.append(")");
        },
    }
    assert(out@ =~= old(out)@ + op_text(op_name(*op)));
}

/// Writes the rendering of a value.
#[verifier::spinoff_prover]
#[verifier::rlimit(100)]
pub fn write_value(out: &mut String, v: &Value)
    ensures
        final(out)@ == old(out)@ + value_text(value_view(*v)),
    decreases v, 1nat,
{
    proof {
        unfold_value_text(value_view(*v));
    }
    match v {
        Value::NumInt(n) => {
            out.append("NumInt(");
            write_int(out, *n);
            out.append(")");
            assert(out@ =~= old(out)@ + value_text(value_view(*v)));
        },
        Value::Unt => {
            out.append("Unt");
            assert(out@ =~= old(out)@ + value_text(value_view(*v)));
        },
        Value::Pair(a, b) => {
            out.append("Pair(");
            write_value(out, a);
            out.append(", ");
            write_value(out, b);
            out.append(")");
            assert(out@ =~= old(out)@ + value_text(value_view(*v)));
        },
        Value::ClosureFunc(env, x, t) => {
            out.append("ClosureFunc(");
            write_env(out, env);
            out.append(", ");
            write_name(out, x);
            out.append(", ");
            write_term(out, t);
            out.append(")");
            assert(out@ =~= old(out)@ + value_text(value_view(*v)));
        },
        Value::ClosureArr(env, x, c) => {
            out.append("ClosureArr(");
            write_env(out, env);
            out.append(", ");
            write_name(out, x);
            out.append(", ");
            write_command(out, c);
            out.append(")");
            assert(out@ =~= old(out)@ + value_text(value_view(*v)));
        },
        Value::ClosureContArr(env, c) => {
            out.append("ClosureContArr(");
            write_env(out, env);
            out.append(", ");
            write_command(out, c);
            out.append(")");
            assert(out@ =~= old(out)@ + value_text(value_view(*v)));
        },
    }
}

/// Writes the rendering of an environment, `[(V("x"), value), ...]`.
pub fn write_env(out: &mut String, env: &Env)
    ensures
        final(out)@ == old(out)@ + env_text(env_view(env@)),
    decreases env, 0nat,
{
    proof {
        unfold_env_items_text(env_view(env@.subrange(0, 0)));
    }
    out.append("[");
    let mut i: usize = 0;
    while i < env.len()
        invariant
            i <= env@.len(),
            out@ == old(out)@ + "["@ + env_items_text(env_view(env@.subrange(0, i as int))),
        decreases env.len() - i,
    {
        proof {
            assert(decreases_to!(*env => env@));
            assert(decreases_to!(env@ => env@[i as int]));
            assert(decreases_to!(env@[i as int] => env@[i as int].1));
        }
        if i > 0 {
            out.append(", ");
        }
        out.append("(");
        write_name(out, &env[i].0);
        out.append(", ");
        write_value(out, &env[i].1);
        out.append(")");
        proof {
            let s0 = env@.subrange(0, i as int);
            let s1 = env@.subrange(0, i as int + 1);
            assert(s1 =~= s0.push(env@[i as int]));
            lemma_env_view_push(s0, env@[i as int]);
            lemma_env_view(s0);
            lemma_env_items_push(env_view(s0), (var_name(env@[i as int].0), value_view(env@[i as int].1)));
        }
        i = i + 1;
        assert(out@ =~= old(out)@ + "["@ + env_items_text(env_view(env@.subrange(0, i as int))));
    }
    assert(env@.subrange(0, env@.len() as int) =~= env@);
    out.append("]");
    assert(out@ =~= old(out)@ + env_text(env_view(env@)));
}

/// Writes the rendering of a term.
#[verifier::spinoff_prover]
#[verifier::rlimit(100)]
pub fn write_term(out: &mut String, t: &Term)
    ensures
        final(out)@ == old(out)@ + term_text(term_view(*t)),
    decreases t, 1nat,
{
    proof {
        unfold_term_text(term_view(*t));
    }
    match t {
        Term::NumInt(n) => {
            out.append("NumInt(");
            write_int(out, *n);
            out.append(")");
            assert(out@ =~= old(out)@ + term_text(term_view(*t)));
        },
        Term::Unt => {
            out.append("Unt");
            assert(out@ =~= old(out)@ + term_text(term_view(*t)));
        },
        Term::Var(x) => {
            out.append("Var(");
            write_name(out, x);
            out.append(")");
            assert(out@ =~= old(out)@ + term_text(term_view(*t)));
        },
        Term::Pair(a, b) => {
            out.append("Pair(");
            write_term(out, a);
            out.append(", ");
            write_term(out, b);
            out.append(")");
            assert(out@ =~= old(out)@ + term_text(term_view(*t)));
        },
        Term::Fst(a) => {
            out.append("Fst(");
            write_term(out, a);
            out.append(")");
            assert(out@ =~= old(out)@ + term_text(term_view(*t)));
        },
        Term::Snd(a) => {
            out.append("Snd(");
            write_term(out, a);
            out.append(")");
            assert(out@ =~= old(out)@ + term_text(term_view(*t)));
        },
        Term::Lam(b, body) => {
            out.append("Lam(");
            write_binder(out, b);
            out.append(", ");
            write_term(out, body);
            out.append(")");
            assert(out@ =~= old(out)@ + term_text(term_view(*t)));
        },
        Term::App(a, b) => {
            out.append("App(");
            write_term(out, a);
            out.append(", ");
            write_term(out, b);
            out.append(")");
            assert(out@ =~= old(out)@ + term_text(term_view(*t)));
        },
        Term::CLam(b, c) => {
            out.append("CLam(");
            write_binder(out, b);
            out.append(", ");
            write_command(out, c);
            out.append(")");
            assert(out@ =~= old(out)@ + term_text(term_view(*t)));
        },
        Term::Plus(a, b) => {
            out.append("Plus(");
            write_term(out, a);
            out.append(", ");
            write_term(out, b);
            out.append(")");
            assert(out@ =~= old(out)@ + term_text(term_view(*t)));
        },
    }
}

fn write_opt_env(out: &mut String, env: &Option<Env>)
    ensures
        final(out)@ == old(out)@ + match *env {
            Some(e) => "Some("@ + env_text(env_view(e@)) + ")"@,
            None => "None"@,
        },
    decreases env, 1nat,
{
    match env {
        Some(e) => {
            out.append("Some(");
            write_env(out, e);
            out.append(")");
        },
        None => {
            out.append("None");
        },
    }
    assert(out@ =~= old(out)@ + match *env {
        Some(e) => "Some("@ + env_text(env_view(e@)) + ")"@,
        None => "None"@,
    });
}

/// Writes the rendering of a command.
#[verifier::spinoff_prover]
#[verifier::rlimit(100)]
pub fn write_command(out: &mut String, c: &Command)
    ensures
        final(out)@ == old(out)@ + command_text(command_view(*c)),
    decreases c, 1nat,
{
    proof {
        unfold_command_text(command_view(*c));
    }
    match c {
        Command::Return(v) => {
            out.append("Return(");
            match v {
                VTR::T(t) => {
                    out.append("T(");
                    write_term(out, t);
                    out.append(")");
                },
                VTR::V(x) => {
                    out.append("V(");
                    write_value(out, x);
                    out.append(")");
                },
                VTR::Resume => {
                    out.append("Resume");
                },
            }
            out.append(")");
            assert(out@ =~= old(out)@ + command_text(command_view(*c)));
        },
        Command::Let(b, c1, c2, envs) => {
            out.append("Let(");
            write_binder(out, b);
            out.append(", ");
            write_command(out, c1);
            out.append(", ");
            write_command(out, c2);
            out.append(", ");
            match envs {
                Some((e1, e2)) => {
                    out.append("Some((");
                    write_env(out, e1);
                    out.append(", ");
                    write_env(out, e2);
                    out.append("))");
                },
                None => {
                    out.append("None");
                },
            }
            out.append(")");
            assert(out@ =~= old(out)@ + command_text(command_view(*c)));
        },
        Command::CApp(a, b) => {
            out.append("CApp(");
            write_term(out, a);
            out.append(", ");
            write_term(out, b);
            out.append(")");
            assert(out@ =~= old(out)@ + command_text(command_view(*c)));
        },
        Command::DoOp(op, t) => {
            out.append("DoOp(");
            write_op(out, op);
            out.append(", ");
            write_term(out, t);
            out.append(")");
            assert(out@ =~= old(out)@ + command_text(command_view(*c)));
        },
        Command::Handle(c1, h, env) => {
            out.append("Handle(");
            write_command(out, c1);
            out.append(", ");
            write_handler(out, h);
            out.append(", ");
            write_opt_env(out, env);
            out.append(")");
            assert(out@ =~= old(out)@ + command_text(command_view(*c)));
        },
    }
}

#[verifier::spinoff_prover]
#[verifier::rlimit(100)]
fn write_handler(out: &mut String, h: &Handler)
    ensures
        final(out)@ == old(out)@ + handler_text(handler_view(*h)),
    decreases h, 1nat,
{
    proof {
        unfold_handler_text(handler_view(*h));
    }
    match h {
        Handler::H(HandlerRet::HRet(b, c), ops) => {
            out.append("H(HRet(");
            write_binder(out, b);
            out.append(", ");
            write_command(out, c);
            out.append("), ");
            write_clauses(out, ops);
            out.append(")");
        },
    }
    assert(out@ =~= old(out)@ + handler_text(handler_view(*h)));
}

fn write_clauses(out: &mut String, ops: &Vec<HandlerOp>)
    ensures
        final(out)@ == old(out)@ + "["@ + clauses_text(clauses_view(ops@)) + "]"@,
    decreases ops, 0nat,
{
    proof {
        unfold_clauses_text(clauses_view(ops@.subrange(0, 0)));
    }
    out.append("[");
    let mut i: usize = 0;
    while i < ops.len()
        invariant
            i <= ops@.len(),
            out@ == old(out)@ + "["@ + clauses_text(clauses_view(ops@.subrange(0, i as int))),
        decreases ops.len() - i,
    {
        proof {
            assert(decreases_to!(*ops => ops@));
            assert(decreases_to!(ops@ => ops@[i as int]));
        }
        if i > 0 {
            out.append(", ");
        }
        let ghost mid = out@;
        match &ops[i] {
            HandlerOp::HOp(o, k, z, body) => {
                proof {
                    assert(ops@[i as int] == HandlerOp::HOp(*o, *k, *z, *body));
                    assert(decreases_to!(ops@[i as int] => **body));
                }
                out.append("HOp(");
                write_op(out, o);
                out.append(", ");
                write_binder(out, k);
                out.append(", ");
                write_binder(out, z);
                out.append(", ");
                write_command(out, body);
                out.append(")");
                assert(out@ =~= mid + clause_text(clause_view(ops@[i as int])));
            },
        }
        proof {
            let s0 = ops@.subrange(0, i as int);
            let s1 = ops@.subrange(0, i as int + 1);
            assert(s1.drop_last() =~= s0);
            assert(s1.last() == ops@[i as int]);
            assert(clauses_view(s1) == clauses_view(s0).push(clause_view(ops@[i as int])));
            lemma_clauses_view(s0);
            lemma_clauses_push(clauses_view(s0), clause_view(ops@[i as int]));
        }
        i = i + 1;
        assert(out@ =~= old(out)@ + "["@ + clauses_text(clauses_view(ops@.subrange(0, i as int))));
    }
    assert(ops@.subrange(0, ops@.len() as int) =~= ops@);
    out.append("]");
}

} // verus!
