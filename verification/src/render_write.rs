//! Writers of the renderings of `render`.
use vstd::prelude::*;
use crate::ast::{Command, Env, Handler, HandlerOp, HandlerRet, Term, Value, Var, VarProd, VarWithType, L, VTR};
use crate::model::{
    lemma_clauses_model, lemma_env_model,
    FCommand, FValue, binder_model, clause_model, clauses_model, command_model, env_model, handler_model,
    list_model, rows_model, term_model, value_model, var_prod_model,
};
use crate::render::{
    binder_text, bool_text, clause_text, clauses_text, command_text, env_items_text, env_text, fvar_prod_text, handler_text, int_text, lemma_binder_text, lemma_clauses_push, lemma_env_items_push, lemma_rows_text, lemma_var_prod_text, list_text, mat_text, name_text, op_text, term_text, unfold_clauses_text, unfold_command_text, unfold_env_items_text, unfold_handler_text, unfold_list_text, unfold_term_text, unfold_value_text, value_text,
};
use crate::show::{debug_str, write_nat, write_matrix, write_row, write_type, write_var_prod, write_var_with_type};

verus! {





pub fn write_bool(out: &mut String, b: bool)
    ensures
        final(out)@ == old(out)@ + bool_text(b),
{
    if b {
        out.append("true");
    } else {
        out.append("false");
    }
}

pub fn write_int(out: &mut String, n: i32)
    ensures
        final(out)@ == old(out)@ + int_text(n),
{
    if n < 0 {
        out.append("-");
        let m: u32 = if n == i32::MIN {
            2147483648u32
        } else {
            (0 - n) as u32
        };
        assert(m as nat == (0 - n) as nat);
        write_nat(out, m);
    } else {
        write_nat(out, n as u32);
    }
    assert(out@ =~= old(out)@ + int_text(n));
}

fn write_mat(out: &mut String, m: &Vec<Vec<u32>>)
    ensures
        final(out)@ == old(out)@ + mat_text(rows_model(m@)),
{
    write_matrix(out, m);
    proof {
        lemma_rows_text(m@);
    }
}

fn write_name(out: &mut String, x: &Var)
    ensures
        final(out)@ == old(out)@ + name_text(x.name()),
{
    match x {
        Var::V(s) => {
            out.append("V(");
            let d = debug_str(s.as_str());
            out.append(d.as_str());
            out.append(")");
        },
    }
    assert(out@ =~= old(out)@ + name_text(x.name()));
}

fn write_binder(out: &mut String, vt: &VarWithType)
    ensures
        final(out)@ == old(out)@ + binder_text(binder_model(*vt)),
{
    write_var_with_type(out, vt);
    proof {
        lemma_binder_text(*vt);
    }
}

fn write_fvar_prod(out: &mut String, vp: &VarProd)
    ensures
        final(out)@ == old(out)@ + fvar_prod_text(var_prod_model(*vp)),
{
    write_var_prod(out, vp);
    proof {
        lemma_var_prod_text(*vp);
    }
}

fn write_op(out: &mut String, op: &crate::ast::Operation)
    ensures
        final(out)@ == old(out)@ + op_text(op.name()),
{
    match op {
        crate::ast::Operation::Op(s) => {
            out.append("Op(");
            let d = debug_str(s.as_str());
            out.append(d.as_str());
            out.append(")");
        },
    }
    assert(out@ =~= old(out)@ + op_text(op.name()));
}

/// Writes the rendering of a value.
#[verifier::spinoff_prover]
#[verifier::rlimit(100)]
pub fn write_value(out: &mut String, v: &Value)
    ensures
        final(out)@ == old(out)@ + value_text(value_model(*v)),
    decreases v, 1nat,
{
    proof {
        unfold_value_text(value_model(*v));
    }
    match v {
        Value::NumInt(n) => {
            out.append("NumInt(");
            write_int(out, *n);
            out.append(")");
            assert(out@ =~= old(out)@ + value_text(value_model(*v)));
        },
        Value::NumFloat(x) => {
            out.append("NumFloat(");
            write_nat(out, *x);
            out.append(")");
            assert(out@ =~= old(out)@ + value_text(value_model(*v)));
        },
        Value::Bool(b) => {
            out.append("Bool(");
            write_bool(out, *b);
            out.append(")");
            assert(out@ =~= old(out)@ + value_text(value_model(*v)));
        },
        Value::Vect(x) => {
            out.append("Vect(");
            write_row(out, x);
            out.append(")");
            assert(out@ =~= old(out)@ + value_text(value_model(*v)));
        },
        Value::Mat(m) => {
            out.append("Mat(");
            write_mat(out, m);
            out.append(")");
            assert(out@ =~= old(out)@ + value_text(value_model(*v)));
        },
        Value::Unt => {
            out.append("Unt");
            assert(out@ =~= old(out)@ + value_text(value_model(*v)));
        },
        Value::List(l) => {
            out.append("List(");
            write_list(out, l);
            out.append(")");
            assert(out@ =~= old(out)@ + value_text(value_model(*v)));
        },
        Value::Pair(a, b) => {
            out.append("Pair(");
            write_value(out, a);
            out.append(", ");
            write_value(out, b);
            out.append(")");
            assert(out@ =~= old(out)@ + value_text(value_model(*v)));
        },
        Value::ClosureFunc(env, x, t) => {
            out.append("ClosureFunc(");
            write_env(out, env);
            out.append(", ");
            write_fvar_prod(out, x);
            out.append(", ");
            write_term(out, t);
            out.append(")");
            assert(out@ =~= old(out)@ + value_text(value_model(*v)));
        },
        Value::ClosureArr(env, x, c) => {
            out.append("ClosureArr(");
            write_env(out, env);
            out.append(", ");
            write_fvar_prod(out, x);
            out.append(", ");
            write_command(out, c);
            out.append(")");
            assert(out@ =~= old(out)@ + value_text(value_model(*v)));
        },
        Value::ClosureContArr(env, c) => {
            out.append("ClosureContArr(");
            write_env(out, env);
            out.append(", ");
            write_command(out, c);
            out.append(")");
            assert(out@ =~= old(out)@ + value_text(value_model(*v)));
        },
        Value::Exp => {
            out.append("Exp");
            assert(out@ =~= old(out)@ + value_text(value_model(*v)));
        },
        Value::VectZero => {
            out.append("VectZero");
            assert(out@ =~= old(out)@ + value_text(value_model(*v)));
        },
        Value::VectSize => {
            out.append("VectSize");
            assert(out@ =~= old(out)@ + value_text(value_model(*v)));
        },
        Value::MatZero => {
            out.append("MatZero");
            assert(out@ =~= old(out)@ + value_text(value_model(*v)));
        },
        Value::MatSize => {
            out.append("MatSize");
            assert(out@ =~= old(out)@ + value_text(value_model(*v)));
        },
        Value::Transpose => {
            out.append("Transpose");
            assert(out@ =~= old(out)@ + value_text(value_model(*v)));
        },
    }
}

#[verifier::spinoff_prover]
#[verifier::rlimit(100)]
fn write_list(out: &mut String, l: &L<Box<Value>>)
    ensures
        final(out)@ == old(out)@ + list_text(list_model(*l)),
    decreases l, 1nat,
{
    proof {
        unfold_list_text(list_model(*l));
    }
    match l {
        L::Nil(t) => {
            out.append("Nil(");
            write_type(out, t);
            out.append(")");
            assert(out@ =~= old(out)@ + list_text(list_model(*l)));
        },
        L::Cons(v, rest) => {
            out.append("Cons(");
            write_value(out, v);
            out.append(", ");
            write_list(out, rest);
            out.append(")");
            assert(out@ =~= old(out)@ + list_text(list_model(*l)));
        },
    }
}

/// Writes the rendering of an environment, `[(V("x"), value), ...]`.
pub fn write_env(out: &mut String, env: &Env)
    ensures
        final(out)@ == old(out)@ + env_text(env_model(env@)),
    decreases env, 0nat,
{
    proof {
        unfold_env_items_text(env_model(env@.subrange(0, 0)));
    }
    out.append("[");
    let mut i: usize = 0;
    while i < env.len()
        invariant
            i <= env@.len(),
            out@ == old(out)@ + "["@ + env_items_text(env_model(env@.subrange(0, i as int))),
        decreases env.len() - i,
    {
        proof {
            assert(decreases_to!(*env => env@));
            assert(decreases_to!(env@ => env@[i as int]));
            assert(decreases_to!(env@[i as int] => env@[i as int].1));
        }
        if i > 0 {
            out.append(", ");
        }
        out.append("(");
        write_name(out, &env[i].0);
        out.append(", ");
        write_value(out, &env[i].1);
        out.append(")");
        proof {
            let s0 = env@.subrange(0, i as int);
            let s1 = env@.subrange(0, i as int + 1);
            assert(s1 =~= s0.push(env@[i as int]));
            crate::model::lemma_env_model_push(s0, env@[i as int]);
            lemma_env_model(s0);
            lemma_env_items_push(env_model(s0), (env@[i as int].0.name(), value_model(env@[i as int].1)));
        }
        i = i + 1;
        assert(out@ =~= old(out)@ + "["@ + env_items_text(env_model(env@.subrange(0, i as int))));
    }
    assert(env@.subrange(0, env@.len() as int) =~= env@);
    out.append("]");
    assert(out@ =~= old(out)@ + env_text(env_model(env@)));
}

fn write_opt_env(out: &mut String, env: &Option<Env>)
    ensures
        final(out)@ == old(out)@ + match *env {
            Some(e) => "Some("@ + env_text(env_model(e@)) + ")"@,
            None => "None"@,
        },
    decreases env, 1nat,
{
    match env {
        Some(e) => {
            out.append("Some(");
            write_env(out, e);
            out.append(")");
        },
        None => {
            out.append("None");
        },
    }
    assert(out@ =~= old(out)@ + match *env {
        Some(e) => "Some("@ + env_text(env_model(e@)) + ")"@,
        None => "None"@,
    });
}

/// Writes the rendering of a term.
#[verifier::spinoff_prover]
#[verifier::rlimit(100)]
pub fn write_term(out: &mut String, t: &Term)
    ensures
        final(out)@ == old(out)@ + term_text(term_model(*t)),
    decreases t, 1nat,
{
    proof {
        unfold_term_text(term_model(*t));
    }
    match t {
        Term::NumInt(n) => {
            out.append("NumInt(");
            write_int(out, *n);
            out.append(")");
            assert(out@ =~= old(out)@ + term_text(term_model(*t)));
        },
        Term::NumFloat(x) => {
            out.append("NumFloat(");
            write_nat(out, *x);
            out.append(")");
            assert(out@ =~= old(out)@ + term_text(term_model(*t)));
        },
        Term::Bool(b) => {
            out.append("Bool(");
            write_bool(out, *b);
            out.append(")");
            assert(out@ =~= old(out)@ + term_text(term_model(*t)));
        },
        Term::Vect(x) => {
            out.append("Vect(");
            write_row(out, x);
            out.append(")");
            assert(out@ =~= old(out)@ + term_text(term_model(*t)));
        },
        Term::Mat(m) => {
            out.append("Mat(");
            write_mat(out, m);
            out.append(")");
            assert(out@ =~= old(out)@ + term_text(term_model(*t)));
        },
        Term::Var(x) => {
            out.append("Var(");
            write_name(out, x);
            out.append(")");
            assert(out@ =~= old(out)@ + term_text(term_model(*t)));
        },
        Term::Lam(b, body) => {
            out.append("Lam(");
            write_binder(out, b);
            out.append(", ");
            write_term(out, body);
            out.append(")");
            assert(out@ =~= old(out)@ + term_text(term_model(*t)));
        },
        Term::CLam(b, c) => {
            out.append("CLam(");
            write_binder(out, b);
            out.append(", ");
            write_command(out, c);
            out.append(")");
            assert(out@ =~= old(out)@ + term_text(term_model(*t)));
        },
        Term::If(a, b, c) => {
            out.append("If(");
            write_term(out, a);
            out.append(", ");
            write_term(out, b);
            out.append(", ");
            write_term(out, c);
            out.append(")");
            assert(out@ =~= old(out)@ + term_text(term_model(*t)));
        },
        Term::Nil(ty) => {
            out.append("Nil(");
            write_type(out, ty);
            out.append(")");
            assert(out@ =~= old(out)@ + term_text(term_model(*t)));
        },
        Term::Unt => {
            out.append("Unt");
            assert(out@ =~= old(out)@ + term_text(term_model(*t)));
        },
        Term::Exp => {
            out.append("Exp");
            assert(out@ =~= old(out)@ + term_text(term_model(*t)));
        },
        Term::VectZero => {
            out.append("VectZero");
            assert(out@ =~= old(out)@ + term_text(term_model(*t)));
        },
        Term::VectSize => {
            out.append("VectSize");
            assert(out@ =~= old(out)@ + term_text(term_model(*t)));
        },
        Term::MatZero => {
            out.append("MatZero");
            assert(out@ =~= old(out)@ + term_text(term_model(*t)));
        },
        Term::MatSize => {
            out.append("MatSize");
            assert(out@ =~= old(out)@ + term_text(term_model(*t)));
        },
        Term::Transpose => {
            out.append("Transpose");
            assert(out@ =~= old(out)@ + term_text(term_model(*t)));
        },
        Term::Fst(a) => {
            out.append("Fst(");
            write_term(out, a);
            out.append(")");
            assert(out@ =~= old(out)@ + term_text(term_model(*t)));
        },
        Term::Snd(a) => {
            out.append("Snd(");
            write_term(out, a);
            out.append(")");
            assert(out@ =~= old(out)@ + term_text(term_model(*t)));
        },
        Term::Head(a) => {
            out.append("Head(");
            write_term(out, a);
            out.append(")");
            assert(out@ =~= old(out)@ + term_text(term_model(*t)));
        },
        Term::Tail(a) => {
            out.append("Tail(");
            write_term(out, a);
            out.append(")");
            assert(out@ =~= old(out)@ + term_text(term_model(*t)));
        },
        Term::Pair(a, b) => {
            out.append("Pair(");
            write_term(out, a);
            out.append(", ");
            write_term(out, b);
            out.append(")");
            assert(out@ =~= old(out)@ + term_text(term_model(*t)));
        },
        Term::App(a, b) => {
            out.append("App(");
            write_term(out, a);
            out.append(", ");
            write_term(out, b);
            out.append(")");
            assert(out@ =~= old(out)@ + term_text(term_model(*t)));
        },
        Term::Cons(a, b) => {
            out.append("Cons(");
            write_term(out, a);
            out.append(", ");
            write_term(out, b);
            out.append(")");
            assert(out@ =~= old(out)@ + term_text(term_model(*t)));
        },
        Term::Plus(a, b) => {
            out.append("Plus(");
            write_term(out, a);
            out.append(", ");
            write_term(out, b);
            out.append(")");
            assert(out@ =~= old(out)@ + term_text(term_model(*t)));
        },
        Term::Times(a, b) => {
            out.append("Times(");
            write_term(out, a);
            out.append(", ");
            write_term(out, b);
            out.append(")");
            assert(out@ =~= old(out)@ + term_text(term_model(*t)));
        },
        Term::PlusF(a, b) => {
            out.append("PlusF(");
            write_term(out, a);
            out.append(", ");
            write_term(out, b);
            out.append(")");
            assert(out@ =~= old(out)@ + term_text(term_model(*t)));
        },
        Term::TimesF(a, b) => {
            out.append("TimesF(");
            write_term(out, a);
            out.append(", ");
            write_term(out, b);
            out.append(")");
            assert(out@ =~= old(out)@ + term_text(term_model(*t)));
        },
        Term::DivF(a, b) => {
            out.append("DivF(");
            write_term(out, a);
            out.append(", ");
            write_term(out, b);
            out.append(")");
            assert(out@ =~= old(out)@ + term_text(term_model(*t)));
        },
        Term::MatVectMul(a, b) => {
            out.append("MatVectMul(");
            write_term(out, a);
            out.append(", ");
            write_term(out, b);
            out.append(")");
            assert(out@ =~= old(out)@ + term_text(term_model(*t)));
        },
        Term::EqInt(a, b) => {
            out.append("EqInt(");
            write_term(out, a);
            out.append(", ");
            write_term(out, b);
            out.append(")");
            assert(out@ =~= old(out)@ + term_text(term_model(*t)));
        },
        Term::LTFloat(a, b) => {
            out.append("LTFloat(");
            write_term(out, a);
            out.append(", ");
            write_term(out, b);
            out.append(")");
            assert(out@ =~= old(out)@ + term_text(term_model(*t)));
        },
        Term::GTFloat(a, b) => {
            out.append("GTFloat(");
            write_term(out, a);
            out.append(", ");
            write_term(out, b);
            out.append(")");
            assert(out@ =~= old(out)@ + term_text(term_model(*t)));
        },
        Term::ProdVecVec(a, b) => {
            out.append("ProdVecVec(");
            write_term(out, a);
            out.append(", ");
            write_term(out, b);
            out.append(")");
            assert(out@ =~= old(out)@ + term_text(term_model(*t)));
        },
        Term::ApplicationVectEntrywise(a, b) => {
            out.append("ApplicationVectEntrywise(");
            write_term(out, a);
            out.append(", ");
            write_term(out, b);
            out.append(")");
            assert(out@ =~= old(out)@ + term_text(term_model(*t)));
        },
        Term::VectEntrywisePlus(a, b) => {
            out.append("VectEntrywisePlus(");
            write_term(out, a);
            out.append(", ");
            write_term(out, b);
            out.append(")");
            assert(out@ =~= old(out)@ + term_text(term_model(*t)));
        },
        Term::VectEntrywiseMinus(a, b) => {
            out.append("VectEntrywiseMinus(");
            write_term(out, a);
            out.append(", ");
            write_term(out, b);
            out.append(")");
            assert(out@ =~= old(out)@ + term_text(term_model(*t)));
        },
        Term::VectEntrywiseTimes(a, b) => {
            out.append("VectEntrywiseTimes(");
            write_term(out, a);
            out.append(", ");
            write_term(out, b);
            out.append(")");
            assert(out@ =~= old(out)@ + term_text(term_model(*t)));
        },
        Term::ScalarVect(a, b) => {
            out.append("ScalarVect(");
            write_term(out, a);
            out.append(", ");
            write_term(out, b);
            out.append(")");
            assert(out@ =~= old(out)@ + term_text(term_model(*t)));
        },
        Term::MatEntrywisePlus(a, b) => {
            out.append("MatEntrywisePlus(");
            write_term(out, a);
            out.append(", ");
            write_term(out, b);
            out.append(")");
            assert(out@ =~= old(out)@ + term_text(term_model(*t)));
        },
        Term::MatEntrywiseMinus(a, b) => {
            out.append("MatEntrywiseMinus(");
            write_term(out, a);
            out.append(", ");
            write_term(out, b);
            out.append(")");
            assert(out@ =~= old(out)@ + term_text(term_model(*t)));
        },
        Term::ScalarMat(a, b) => {
            out.append("ScalarMat(");
            write_term(out, a);
            out.append(", ");
            write_term(out, b);
            out.append(")");
            assert(out@ =~= old(out)@ + term_text(term_model(*t)));
        },
    }
}

/// Writes the rendering of a command.
#[verifier::spinoff_prover]
#[verifier::rlimit(100)]
pub fn write_command(out: &mut String, c: &Command)
    ensures
        final(out)@ == old(out)@ + command_text(command_model(*c)),
    decreases c, 1nat,
{
    proof {
        unfold_command_text(command_model(*c));
    }
    match c {
        Command::Return(v) => {
            out.append("Return(");
            match v {
                VTR::T(t) => {
                    out.append("T(");
                    write_term(out, t);
                    out.append(")");
                },
                VTR::V(x) => {
                    out.append("V(");
                    write_value(out, x);
                    out.append(")");
                },
                VTR::Resume => {
                    out.append("Resume");
                },
            }
            out.append(")");
            assert(out@ =~= old(out)@ + command_text(command_model(*c)));
        },
        Command::Let(b, c1, c2, envs) => {
            out.append("Let(");
            write_binder(out, b);
            out.append(", ");
            write_command(out, c1);
            out.append(", ");
            write_command(out, c2);
            out.append(", ");
            match envs {
                Some((e1, e2)) => {
                    out.append("Some((");
                    write_env(out, e1);
                    out.append(", ");
                    write_env(out, e2);
                    out.append("))");
                },
                None => {
                    out.append("None");
                },
            }
            out.append(")");
            assert(out@ =~= old(out)@ + command_text(command_model(*c)));
        },
        Command::CApp(a, b) => {
            out.append("CApp(");
            write_term(out, a);
            out.append(", ");
            write_term(out, b);
            out.append(")");
            assert(out@ =~= old(out)@ + command_text(command_model(*c)));
        },
        Command::DoOp(op, t) => {
            out.append("DoOp(");
            write_op(out, op);
            out.append(", ");
            write_term(out, t);
            out.append(")");
            assert(out@ =~= old(out)@ + command_text(command_model(*c)));
        },
        Command::Handle(c1, h, env) => {
            out.append("Handle(");
            write_command(out, c1);
            out.append(", ");
            write_handler(out, h);
            out.append(", ");
            write_opt_env(out, env);
            out.append(")");
            assert(out@ =~= old(out)@ + command_text(command_model(*c)));
        },
    }
}

#[verifier::spinoff_prover]
#[verifier::rlimit(100)]
fn write_handler(out: &mut String, h: &Handler)
    ensures
        final(out)@ == old(out)@ + handler_text(handler_model(*h)),
    decreases h, 1nat,
{
    proof {
        unfold_handler_text(handler_model(*h));
    }
    match h {
        Handler::H(HandlerRet::HRet(b, c), ops) => {
            out.append("H(HRet(");
            write_binder(out, b);
            out.append(", ");
            write_command(out, c);
            out.append("), ");
            write_clauses(out, ops);
            out.append(")");
        },
    }
    assert(out@ =~= old(out)@ + handler_text(handler_model(*h)));
}

fn write_clauses(out: &mut String, ops: &Vec<HandlerOp>)
    ensures
        final(out)@ == old(out)@ + "["@ + clauses_text(clauses_model(ops@)) + "]"@,
    decreases ops, 0nat,
{
    proof {
        unfold_clauses_text(clauses_model(ops@.subrange(0, 0)));
    }
    out.append("[");
    let mut i: usize = 0;
    while i < ops.len()
        invariant
            i <= ops@.len(),
            out@ == old(out)@ + "["@ + clauses_text(clauses_model(ops@.subrange(0, i as int))),
        decreases ops.len() - i,
    {
        proof {
            assert(decreases_to!(*ops => ops@));
            assert(decreases_to!(ops@ => ops@[i as int]));
        }
        if i > 0 {
            out.append(", ");
        }
        let ghost mid = out@;
        match &ops[i] {
            HandlerOp::HOp(o, k, z, body) => {
                proof {
                    assert(ops@[i as int] == HandlerOp::HOp(*o, *k, *z, *body));
                    assert(decreases_to!(ops@[i as int] => **body));
                }
                out.append("HOp(");
                write_op(out, o);
                out.append(", ");
                write_binder(out, k);
                out.append(", ");
                write_binder(out, z);
                out.append(", ");
                write_command(out, body);
                out.append(")");
                assert(out@ =~= mid + clause_text(clause_model(ops@[i as int])));
            },
        }
        proof {
            let s0 = ops@.subrange(0, i as int);
            let s1 = ops@.subrange(0, i as int + 1);
            assert(s1.drop_last() =~= s0);
            assert(s1.last() == ops@[i as int]);
            assert(clauses_model(s1) == clauses_model(s0).push(clause_model(ops@[i as int])));
            lemma_clauses_model(s0);
            lemma_clauses_push(clauses_model(s0), clause_model(ops@[i as int]));
        }
        i = i + 1;
        assert(out@ =~= old(out)@ + "["@ + clauses_text(clauses_model(ops@.subrange(0, i as int))));
    }
    assert(ops@.subrange(0, ops@.len() as int) =~= ops@);
    out.append("]");
}



} // verus!
