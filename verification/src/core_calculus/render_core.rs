//! Textual rendering of the core calculus's values and syntax, in the
//! shape that Rust's `{:?}` gives them; run-time error messages quote
//! values in this form.  Each rendering is stated over the models of
//! `ast_core`.
use vstd::prelude::*;
use crate::core_calculus::ast_core::{BaseType, MBinder, MClause, MCommand, MEnv, MHandler, MTerm, MValue, MVtr, Type};
use crate::render::int_text;
use crate::show::str_debug;

verus! {

/// Rendering of a type of the core calculus, e.g. `Fun(Base(Int), Base(Unit))`.
pub open spec fn core_type_text(t: Type) -> Seq<char>
    decreases t,
{
    match t {
        Type::Base(BaseType::Int) => "Base("@ + "Int"@ + ")"@,
        Type::Base(BaseType::Unit) => "Base("@ + "Unit"@ + ")"@,
        Type::Prod(a, b) => "Prod("@ + core_type_text(*a) + ", "@ + core_type_text(*b) + ")"@,
        Type::Fun(a, b) => "Fun("@ + core_type_text(*a) + ", "@ + core_type_text(*b) + ")"@,
        Type::Arr(a, b) => "Arr("@ + core_type_text(*a) + ", "@ + core_type_text(*b) + ")"@,
    }
}

pub open spec fn binder_text(b: MBinder) -> Seq<char> {
    "VT("@ + str_debug(b.name) + ", "@ + core_type_text(b.typ) + ")"@
}

pub open spec fn name_text(x: Seq<char>) -> Seq<char> {
    "V("@ + str_debug(x) + ")"@
}

pub open spec fn op_text(x: Seq<char>) -> Seq<char> {
    "Op("@ + str_debug(x) + ")"@
}

/// Rendering of a value.
#[verifier::opaque]
pub open spec fn value_text(v: MValue) -> Seq<char>
    decreases v,
{
    match v {
        MValue::NumInt(n) => "NumInt("@ + int_text(n) + ")"@,
        MValue::Unt => "Unt"@,
        MValue::Pair(a, b) => "Pair("@ + value_text(*a) + ", "@ + value_text(*b) + ")"@,
        MValue::ClosureFunc(env, x, t) => "ClosureFunc("@ + "["@ + env_items_text(env) + "]"@ + ", "@ + name_text(x)
            + ", "@ + term_text(t) + ")"@,
        MValue::ClosureArr(env, x, c) => "ClosureArr("@ + "["@ + env_items_text(env) + "]"@ + ", "@ + name_text(x)
            + ", "@ + command_text(c) + ")"@,
        MValue::ClosureContArr(env, c) => "ClosureContArr("@ + "["@ + env_items_text(env) + "]"@ + ", "@
            + command_text(c) + ")"@,
    }
}

/// The entries of an environment, separated by `", "`.
#[verifier::opaque]
pub open spec fn env_items_text(e: MEnv) -> Seq<char>
    decreases e,
{
    if e.len() == 0 {
        Seq::empty()
    } else if e.len() == 1 {
        "("@ + name_text(e[0].0) + ", "@ + value_text(e[0].1) + ")"@
    } else {
        env_items_text(e.drop_last()) + ", "@ + ("("@ + name_text(e.last().0) + ", "@ + value_text(e.last().1) + ")"@)
    }
}

pub open spec fn entry_text(x: (Seq<char>, MValue)) -> Seq<char> {
    "("@ + name_text(x.0) + ", "@ + value_text(x.1) + ")"@
}

/// Rendering of a term.
#[verifier::opaque]
pub open spec fn term_text(t: MTerm) -> Seq<char>
    decreases t,
{
    match t {
        MTerm::NumInt(n) => "NumInt("@ + int_text(n) + ")"@,
        MTerm::Unt => "Unt"@,
        MTerm::Var(x) => "Var("@ + name_text(x) + ")"@,
        MTerm::Pair(a, b) => "Pair("@ + term_text(*a) + ", "@ + term_text(*b) + ")"@,
        MTerm::Fst(a) => "Fst("@ + term_text(*a) + ")"@,
        MTerm::Snd(a) => "Snd("@ + term_text(*a) + ")"@,
        MTerm::Lam(b, body) => "Lam("@ + binder_text(b) + ", "@ + term_text(*body) + ")"@,
        MTerm::App(a, b) => "App("@ + term_text(*a) + ", "@ + term_text(*b) + ")"@,
        MTerm::CLam(b, c) => "CLam("@ + binder_text(b) + ", "@ + command_text(*c) + ")"@,
        MTerm::Plus(a, b) => "Plus("@ + term_text(*a) + ", "@ + term_text(*b) + ")"@,
    }
}

/// Rendering of a command.
#[verifier::opaque]
pub open spec fn command_text(c: MCommand) -> Seq<char>
    decreases c,
{
    match c {
        MCommand::Return(v) => "Return("@ + match v {
            MVtr::T(t) => "T("@ + term_text(*t) + ")"@,
            MVtr::V(x) => "V("@ + value_text(*x) + ")"@,
            MVtr::Resume => "Resume"@,
        } + ")"@,
        MCommand::Let(b, c1, c2, envs) => "Let("@ + binder_text(b) + ", "@ + command_text(*c1) + ", "@ + command_text(*c2)
            + ", "@ + match envs {
            Some((e1, e2)) => "Some(("@ + "["@ + env_items_text(e1) + "]"@ + ", "@ + "["@ + env_items_text(e2) + "]"@
                + "))"@,
            None => "None"@,
        } + ")"@,
        MCommand::CApp(a, b) => "CApp("@ + term_text(*a) + ", "@ + term_text(*b) + ")"@,
        MCommand::DoOp(op, t) => "DoOp("@ + op_text(op) + ", "@ + term_text(*t) + ")"@,
        MCommand::Handle(c1, h, env) => "Handle("@ + command_text(*c1) + ", "@ + handler_text(h) + ", "@ + match env {
            Some(e) => "Some("@ + "["@ + env_items_text(e) + "]"@ + ")"@,
            None => "None"@,
        } + ")"@,
    }
}

/// Rendering of a handler: `H(HRet(binder, command), [clauses])`.
#[verifier::opaque]
pub open spec fn handler_text(h: MHandler) -> Seq<char>
    decreases h,
{
    match h {
        MHandler::H(b, c, cs) => "H(HRet("@ + binder_text(b) + ", "@ + command_text(*c) + "), "@ + "["@ + clauses_text(cs)
            + "]"@ + ")"@,
    }
}

/// The operation clauses of a handler, separated by `", "`.
#[verifier::opaque]
pub open spec fn clauses_text(cs: Seq<MClause>) -> Seq<char>
    decreases cs,
{
    if cs.len() == 0 {
        Seq::empty()
    } else if cs.len() == 1 {
        "HOp("@ + op_text(cs[0].op) + ", "@ + binder_text(cs[0].k) + ", "@ + binder_text(cs[0].z) + ", "@
            + command_text(cs[0].body) + ")"@
    } else {
        clauses_text(cs.drop_last()) + ", "@ + ("HOp("@ + op_text(cs.last().op) + ", "@ + binder_text(cs.last().k)
            + ", "@ + binder_text(cs.last().z) + ", "@ + command_text(cs.last().body) + ")"@)
    }
}

pub open spec fn clause_text(c: MClause) -> Seq<char> {
    "HOp("@ + op_text(c.op) + ", "@ + binder_text(c.k) + ", "@ + binder_text(c.z) + ", "@ + command_text(c.body) + ")"@
}

pub open spec fn env_text(e: MEnv) -> Seq<char> {
    "["@ + env_items_text(e) + "]"@
}

/// One step of `value_text`.
pub proof fn unfold_value_text(v: MValue)
    ensures
        value_text(v) == ({
        match v {
            MValue::NumInt(n) => "NumInt("@ + int_text(n) + ")"@,
            MValue::Unt => "Unt"@,
            MValue::Pair(a, b) => "Pair("@ + value_text(*a) + ", "@ + value_text(*b) + ")"@,
            MValue::ClosureFunc(env, x, t) => "ClosureFunc("@ + "["@ + env_items_text(env) + "]"@ + ", "@ + name_text(x)
                + ", "@ + term_text(t) + ")"@,
            MValue::ClosureArr(env, x, c) => "ClosureArr("@ + "["@ + env_items_text(env) + "]"@ + ", "@ + name_text(x)
                + ", "@ + command_text(c) + ")"@,
            MValue::ClosureContArr(env, c) => "ClosureContArr("@ + "["@ + env_items_text(env) + "]"@ + ", "@
                + command_text(c) + ")"@,
        }
        }),
{
    reveal_with_fuel(value_text, 1);
    reveal_with_fuel(env_items_text, 1);
    reveal_with_fuel(term_text, 1);
    reveal_with_fuel(command_text, 1);
    reveal_with_fuel(handler_text, 1);
    reveal_with_fuel(clauses_text, 1);
}

/// One step of `env_items_text`.
pub proof fn unfold_env_items_text(e: MEnv)
    ensures
        env_items_text(e) == ({
        if e.len() == 0 {
            Seq::empty()
        } else if e.len() == 1 {
            "("@ + name_text(e[0].0) + ", "@ + value_text(e[0].1) + ")"@
        } else {
            env_items_text(e.drop_last()) + ", "@ + ("("@ + name_text(e.last().0) + ", "@ + value_text(e.last().1) + ")"@)
        }
        }),
{
    reveal_with_fuel(value_text, 1);
    reveal_with_fuel(env_items_text, 1);
    reveal_with_fuel(term_text, 1);
    reveal_with_fuel(command_text, 1);
    reveal_with_fuel(handler_text, 1);
    reveal_with_fuel(clauses_text, 1);
}

/// One step of `term_text`.
pub proof fn unfold_term_text(t: MTerm)
    ensures
        term_text(t) == ({
        match t {
            MTerm::NumInt(n) => "NumInt("@ + int_text(n) + ")"@,
            MTerm::Unt => "Unt"@,
            MTerm::Var(x) => "Var("@ + name_text(x) + ")"@,
            MTerm::Pair(a, b) => "Pair("@ + term_text(*a) + ", "@ + term_text(*b) + ")"@,
            MTerm::Fst(a) => "Fst("@ + term_text(*a) + ")"@,
            MTerm::Snd(a) => "Snd("@ + term_text(*a) + ")"@,
            MTerm::Lam(b, body) => "Lam("@ + binder_text(b) + ", "@ + term_text(*body) + ")"@,
            MTerm::App(a, b) => "App("@ + term_text(*a) + ", "@ + term_text(*b) + ")"@,
            MTerm::CLam(b, c) => "CLam("@ + binder_text(b) + ", "@ + command_text(*c) + ")"@,
            MTerm::Plus(a, b) => "Plus("@ + term_text(*a) + ", "@ + term_text(*b) + ")"@,
        }
        }),
{
    reveal_with_fuel(value_text, 1);
    reveal_with_fuel(env_items_text, 1);
    reveal_with_fuel(term_text, 1);
    reveal_with_fuel(command_text, 1);
    reveal_with_fuel(handler_text, 1);
    reveal_with_fuel(clauses_text, 1);
}

/// One step of `command_text`.
pub proof fn unfold_command_text(c: MCommand)
    ensures
        command_text(c) == ({
        match c {
            MCommand::Return(v) => "Return("@ + match v {
                MVtr::T(t) => "T("@ + term_text(*t) + ")"@,
                MVtr::V(x) => "V("@ + value_text(*x) + ")"@,
                MVtr::Resume => "Resume"@,
            } + ")"@,
            MCommand::Let(b, c1, c2, envs) => "Let("@ + binder_text(b) + ", "@ + command_text(*c1) + ", "@ + command_text(*c2)
                + ", "@ + match envs {
                Some((e1, e2)) => "Some(("@ + "["@ + env_items_text(e1) + "]"@ + ", "@ + "["@ + env_items_text(e2) + "]"@
                    + "))"@,
                None => "None"@,
            } + ")"@,
            MCommand::CApp(a, b) => "CApp("@ + term_text(*a) + ", "@ + term_text(*b) + ")"@,
            MCommand::DoOp(op, t) => "DoOp("@ + op_text(op) + ", "@ + term_text(*t) + ")"@,
            MCommand::Handle(c1, h, env) => "Handle("@ + command_text(*c1) + ", "@ + handler_text(h) + ", "@ + match env {
                Some(e) => "Some("@ + "["@ + env_items_text(e) + "]"@ + ")"@,
                None => "None"@,
            } + ")"@,
        }
        }),
{
    reveal_with_fuel(value_text, 1);
    reveal_with_fuel(env_items_text, 1);
    reveal_with_fuel(term_text, 1);
    reveal_with_fuel(command_text, 1);
    reveal_with_fuel(handler_text, 1);
    reveal_with_fuel(clauses_text, 1);
}

/// One step of `handler_text`.
pub proof fn unfold_handler_text(h: MHandler)
    ensures
        handler_text(h) == ({
        match h {
            MHandler::H(b, c, cs) => "H(HRet("@ + binder_text(b) + ", "@ + command_text(*c) + "), "@ + "["@ + clauses_text(cs)
                + "]"@ + ")"@,
        }
        }),
{
    reveal_with_fuel(value_text, 1);
    reveal_with_fuel(env_items_text, 1);
    reveal_with_fuel(term_text, 1);
    reveal_with_fuel(command_text, 1);
    reveal_with_fuel(handler_text, 1);
    reveal_with_fuel(clauses_text, 1);
}

/// One step of `clauses_text`.
pub proof fn unfold_clauses_text(cs: Seq<MClause>)
    ensures
        clauses_text(cs) == ({
        if cs.len() == 0 {
            Seq::empty()
        } else if cs.len() == 1 {
            "HOp("@ + op_text(cs[0].op) + ", "@ + binder_text(cs[0].k) + ", "@ + binder_text(cs[0].z) + ", "@
                + command_text(cs[0].body) + ")"@
        } else {
            clauses_text(cs.drop_last()) + ", "@ + ("HOp("@ + op_text(cs.last().op) + ", "@ + binder_text(cs.last().k)
                + ", "@ + binder_text(cs.last().z) + ", "@ + command_text(cs.last().body) + ")"@)
        }
        }),
{
    reveal_with_fuel(value_text, 1);
    reveal_with_fuel(env_items_text, 1);
    reveal_with_fuel(term_text, 1);
    reveal_with_fuel(command_text, 1);
    reveal_with_fuel(handler_text, 1);
    reveal_with_fuel(clauses_text, 1);
}

/// One more entry of an environment.
pub proof fn lemma_env_items_push(m0: MEnv, x: (Seq<char>, MValue))
    ensures
        env_items_text(m0.push(x)) == env_items_text(m0) + (if m0.len() == 0 {
            Seq::<char>::empty()
        } else {
            ", "@
        }) + entry_text(x),
{
    let m1 = m0.push(x);
    unfold_env_items_text(m1);
    unfold_env_items_text(m0);
    assert(m1.drop_last() =~= m0);
    assert(m1.last() == x);
    if m0.len() == 0 {
        assert(m1[0] == x);
        assert(env_items_text(m1) =~= env_items_text(m0) + Seq::<char>::empty() + entry_text(x));
    } else {
        assert(env_items_text(m1) =~= env_items_text(m0) + ", "@ + entry_text(x));
    }
}

/// One more operation clause of a handler.
pub proof fn lemma_clauses_push(cs0: Seq<MClause>, x: MClause)
    ensures
        clauses_text(cs0.push(x)) == clauses_text(cs0) + (if cs0.len() == 0 {
            Seq::<char>::empty()
        } else {
            ", "@
        }) + clause_text(x),
{
    let cs1 = cs0.push(x);
    unfold_clauses_text(cs1);
    unfold_clauses_text(cs0);
    assert(cs1.drop_last() =~= cs0);
    assert(cs1.last() == x);
    if cs0.len() == 0 {
        assert(cs1[0] == x);
        assert(clauses_text(cs1) =~= clauses_text(cs0) + Seq::<char>::empty() + clause_text(x));
    } else {
        assert(clauses_text(cs1) =~= clauses_text(cs0) + ", "@ + clause_text(x));
    }
}

} // verus!
