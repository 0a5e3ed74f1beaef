//! Textual rendering of run-time values and syntax, in the shape that
//! Rust's `{:?}` gives them (`Pair(NumInt(1), Bool(true))`,
//! `ClosureFunc([(V("x"), NumInt(2))], V("y"), Var(V("y")))`); run-time
//! error messages quote values in this form.  Each rendering is stated
//! over the models of `model`, and written by a verified function.
use vstd::prelude::*;
use crate::ast::{Command, Env, Handler, HandlerOp, HandlerRet, Term, Value, Var, VarProd, VarWithType, L, VTR};
use crate::model::{
    FBinder, FClause, FCommand, FEnv, FHandler, FList, FTerm, FValue, FVarProd, FVtr, binder_model, clause_model,
    clauses_model, command_model, env_model, handler_model, lemma_clauses_model, lemma_env_model, list_model,
    rows_model, term_model, value_model, var_prod_model,
};
use crate::show::{
    debug_str, nat_text, row_text, rows_items_text, str_debug, type_text, var_prod_text, var_with_type_text,
    write_nat, write_matrix, write_row, write_type, write_var_prod, write_var_with_type,
};

verus! {

pub open spec fn bool_text(b: bool) -> Seq<char> {
    if b {
        "true"@
    } else {
        "false"@
    }
}

/// Decimal rendering of a signed integer.
pub open spec fn int_text(n: i32) -> Seq<char> {
    if n < 0 {
        "-"@ + nat_text((0 - n) as nat)
    } else {
        nat_text(n as nat)
    }
}

/// The rows of a matrix's model, separated by `", "`.
pub open spec fn rows_text(m: Seq<Seq<u32>>) -> Seq<char>
    decreases m.len(),
{
    if m.len() == 0 {
        Seq::empty()
    } else if m.len() == 1 {
        row_text(m[0])
    } else {
        rows_text(m.drop_last()) + ", "@ + row_text(m.last())
    }
}

pub open spec fn mat_text(m: Seq<Seq<u32>>) -> Seq<char> {
    "["@ + rows_text(m) + "]"@
}

pub open spec fn fvar_prod_text(vp: FVarProd) -> Seq<char>
    decreases vp,
{
    match vp {
        FVarProd::Unused => "Unused"@,
        FVarProd::V(s) => "V("@ + str_debug(s) + ")"@,
        FVarProd::P(a, b) => "P("@ + fvar_prod_text(*a) + ", "@ + fvar_prod_text(*b) + ")"@,
    }
}

pub open spec fn binder_text(b: FBinder) -> Seq<char> {
    "VT("@ + fvar_prod_text(b.var) + ", "@ + type_text(b.typ) + ")"@
}

pub open spec fn name_text(x: Seq<char>) -> Seq<char> {
    "V("@ + str_debug(x) + ")"@
}

pub open spec fn op_text(x: Seq<char>) -> Seq<char> {
    "Op("@ + str_debug(x) + ")"@
}

/// Rendering of a value.
#[verifier::opaque]
pub open spec fn value_text(v: FValue) -> Seq<char>
    decreases v,
{
    match v {
        FValue::NumInt(n) => "NumInt("@ + int_text(n) + ")"@,
        FValue::NumFloat(x) => "NumFloat("@ + nat_text(x as nat) + ")"@,
        FValue::Bool(b) => "Bool("@ + bool_text(b) + ")"@,
        FValue::Vect(x) => "Vect("@ + row_text(x) + ")"@,
        FValue::Mat(m) => "Mat("@ + mat_text(m) + ")"@,
        FValue::Unt => "Unt"@,
        FValue::List(l) => "List("@ + list_text(l) + ")"@,
        FValue::Pair(a, b) => "Pair("@ + value_text(*a) + ", "@ + value_text(*b) + ")"@,
        FValue::ClosureFunc(env, x, t) => "ClosureFunc("@ + "["@ + env_items_text(env) + "]"@ + ", "@ + fvar_prod_text(x) + ", "@
            + term_text(t) + ")"@,
        FValue::ClosureArr(env, x, c) => "ClosureArr("@ + "["@ + env_items_text(env) + "]"@ + ", "@ + fvar_prod_text(x) + ", "@
            + command_text(c) + ")"@,
        FValue::ClosureContArr(env, c) => "ClosureContArr("@ + "["@ + env_items_text(env) + "]"@ + ", "@ + command_text(c) + ")"@,
        FValue::Exp => "Exp"@,
        FValue::VectZero => "VectZero"@,
        FValue::VectSize => "VectSize"@,
        FValue::MatZero => "MatZero"@,
        FValue::MatSize => "MatSize"@,
        FValue::Transpose => "Transpose"@,
    }
}

#[verifier::opaque]
pub open spec fn list_text(l: FList) -> Seq<char>
    decreases l,
{
    match l {
        FList::Nil(t) => "Nil("@ + type_text(t) + ")"@,
        FList::Cons(v, rest) => "Cons("@ + value_text(*v) + ", "@ + list_text(*rest) + ")"@,
    }
}

/// The entries of an environment, separated by `", "`; an entry is
/// rendered `(V("x"), value)`.
#[verifier::opaque]
pub open spec fn env_items_text(e: FEnv) -> Seq<char>
    decreases e,
{
    if e.len() == 0 {
        Seq::empty()
    } else if e.len() == 1 {
        "("@ + name_text(e[0].0) + ", "@ + value_text(e[0].1) + ")"@
    } else {
        env_items_text(e.drop_last()) + ", "@ + ("("@ + name_text(e.last().0) + ", "@ + value_text(e.last().1) + ")"@)
    }
}

pub open spec fn entry_text(x: (Seq<char>, FValue)) -> Seq<char> {
    "("@ + name_text(x.0) + ", "@ + value_text(x.1) + ")"@
}

/// Rendering of a term.
#[verifier::opaque]
pub open spec fn term_text(t: FTerm) -> Seq<char>
    decreases t,
{
    match t {
        FTerm::NumInt(n) => "NumInt("@ + int_text(n) + ")"@,
        FTerm::NumFloat(x) => "NumFloat("@ + nat_text(x as nat) + ")"@,
        FTerm::Bool(b) => "Bool("@ + bool_text(b) + ")"@,
        FTerm::Vect(x) => "Vect("@ + row_text(x) + ")"@,
        FTerm::Mat(m) => "Mat("@ + mat_text(m) + ")"@,
        FTerm::Var(x) => "Var("@ + name_text(x) + ")"@,
        FTerm::Lam(b, body) => "Lam("@ + binder_text(b) + ", "@ + term_text(*body) + ")"@,
        FTerm::CLam(b, c) => "CLam("@ + binder_text(b) + ", "@ + command_text(*c) + ")"@,
        FTerm::If(a, b, c) => "If("@ + term_text(*a) + ", "@ + term_text(*b) + ", "@ + term_text(*c) + ")"@,
        FTerm::Nil(ty) => "Nil("@ + type_text(ty) + ")"@,
        FTerm::Unt => "Unt"@,
        FTerm::Exp => "Exp"@,
        FTerm::VectZero => "VectZero"@,
        FTerm::VectSize => "VectSize"@,
        FTerm::MatZero => "MatZero"@,
        FTerm::MatSize => "MatSize"@,
        FTerm::Transpose => "Transpose"@,
        FTerm::Fst(a) => "Fst("@ + term_text(*a) + ")"@,
        FTerm::Snd(a) => "Snd("@ + term_text(*a) + ")"@,
        FTerm::Head(a) => "Head("@ + term_text(*a) + ")"@,
        FTerm::Tail(a) => "Tail("@ + term_text(*a) + ")"@,
        FTerm::Pair(a, b) => "Pair("@ + term_text(*a) + ", "@ + term_text(*b) + ")"@,
        FTerm::App(a, b) => "App("@ + term_text(*a) + ", "@ + term_text(*b) + ")"@,
        FTerm::Cons(a, b) => "Cons("@ + term_text(*a) + ", "@ + term_text(*b) + ")"@,
        FTerm::Plus(a, b) => "Plus("@ + term_text(*a) + ", "@ + term_text(*b) + ")"@,
        FTerm::Times(a, b) => "Times("@ + term_text(*a) + ", "@ + term_text(*b) + ")"@,
        FTerm::PlusF(a, b) => "PlusF("@ + term_text(*a) + ", "@ + term_text(*b) + ")"@,
        FTerm::TimesF(a, b) => "TimesF("@ + term_text(*a) + ", "@ + term_text(*b) + ")"@,
        FTerm::DivF(a, b) => "DivF("@ + term_text(*a) + ", "@ + term_text(*b) + ")"@,
        FTerm::MatVectMul(a, b) => "MatVectMul("@ + term_text(*a) + ", "@ + term_text(*b) + ")"@,
        FTerm::EqInt(a, b) => "EqInt("@ + term_text(*a) + ", "@ + term_text(*b) + ")"@,
        FTerm::LTFloat(a, b) => "LTFloat("@ + term_text(*a) + ", "@ + term_text(*b) + ")"@,
        FTerm::GTFloat(a, b) => "GTFloat("@ + term_text(*a) + ", "@ + term_text(*b) + ")"@,
        FTerm::ProdVecVec(a, b) => "ProdVecVec("@ + term_text(*a) + ", "@ + term_text(*b) + ")"@,
        FTerm::ApplicationVectEntrywise(a, b) => "ApplicationVectEntrywise("@ + term_text(*a) + ", "@ + term_text(*b) + ")"@,
        FTerm::VectEntrywisePlus(a, b) => "VectEntrywisePlus("@ + term_text(*a) + ", "@ + term_text(*b) + ")"@,
        FTerm::VectEntrywiseMinus(a, b) => "VectEntrywiseMinus("@ + term_text(*a) + ", "@ + term_text(*b) + ")"@,
        FTerm::VectEntrywiseTimes(a, b) => "VectEntrywiseTimes("@ + term_text(*a) + ", "@ + term_text(*b) + ")"@,
        FTerm::ScalarVect(a, b) => "ScalarVect("@ + term_text(*a) + ", "@ + term_text(*b) + ")"@,
        FTerm::MatEntrywisePlus(a, b) => "MatEntrywisePlus("@ + term_text(*a) + ", "@ + term_text(*b) + ")"@,
        FTerm::MatEntrywiseMinus(a, b) => "MatEntrywiseMinus("@ + term_text(*a) + ", "@ + term_text(*b) + ")"@,
        FTerm::ScalarMat(a, b) => "ScalarMat("@ + term_text(*a) + ", "@ + term_text(*b) + ")"@,
    }
}

/// Rendering of a command.
#[verifier::opaque]
pub open spec fn command_text(c: FCommand) -> Seq<char>
    decreases c,
{
    match c {
        FCommand::Return(v) => "Return("@ + match v {
            FVtr::T(t) => "T("@ + term_text(*t) + ")"@,
            FVtr::V(x) => "V("@ + value_text(*x) + ")"@,
            FVtr::Resume => "Resume"@,
        } + ")"@,
        FCommand::Let(b, c1, c2, envs) => "Let("@ + binder_text(b) + ", "@ + command_text(*c1) + ", "@ + command_text(*c2)
            + ", "@ + match envs {
            Some((e1, e2)) => "Some(("@ + "["@ + env_items_text(e1) + "]"@ + ", "@ + "["@ + env_items_text(e2) + "]"@ + "))"@,
            None => "None"@,
        } + ")"@,
        FCommand::CApp(a, b) => "CApp("@ + term_text(*a) + ", "@ + term_text(*b) + ")"@,
        FCommand::DoOp(op, t) => "DoOp("@ + op_text(op) + ", "@ + term_text(*t) + ")"@,
        FCommand::Handle(c1, h, env) => "Handle("@ + command_text(*c1) + ", "@ + handler_text(h) + ", "@ + match env {
            Some(e) => "Some("@ + "["@ + env_items_text(e) + "]"@ + ")"@,
            None => "None"@,
        } + ")"@,
    }
}

/// Rendering of a handler: `H(HRet(binder, command), [clauses])`.
#[verifier::opaque]
pub open spec fn handler_text(h: FHandler) -> Seq<char>
    decreases h,
{
    match h {
        FHandler::H(b, c, cs) => "H(HRet("@ + binder_text(b) + ", "@ + command_text(*c) + "), "@ + "["@ + clauses_text(cs)
            + "]"@ + ")"@,
    }
}

/// The operation clauses of a handler, separated by `", "`; a clause is
/// rendered `HOp(Op("name"), k, z, body)`.
#[verifier::opaque]
pub open spec fn clauses_text(cs: Seq<FClause>) -> Seq<char>
    decreases cs,
{
    if cs.len() == 0 {
        Seq::empty()
    } else if cs.len() == 1 {
        "HOp("@ + op_text(cs[0].op) + ", "@ + binder_text(cs[0].k) + ", "@ + binder_text(cs[0].z) + ", "@
            + command_text(cs[0].body) + ")"@
    } else {
        clauses_text(cs.drop_last()) + ", "@ + ("HOp("@ + op_text(cs.last().op) + ", "@ + binder_text(cs.last().k)
            + ", "@ + binder_text(cs.last().z) + ", "@ + command_text(cs.last().body) + ")"@)
    }
}

pub open spec fn clause_text(c: FClause) -> Seq<char> {
    "HOp("@ + op_text(c.op) + ", "@ + binder_text(c.k) + ", "@ + binder_text(c.z) + ", "@ + command_text(c.body) + ")"@
}

pub open spec fn env_text(e: FEnv) -> Seq<char> {
    "["@ + env_items_text(e) + "]"@
}



pub proof fn lemma_var_prod_text(vp: VarProd)
    ensures
        fvar_prod_text(var_prod_model(vp)) == var_prod_text(vp),
    decreases vp,
{
    match vp {
        VarProd::P(a, b) => {
            lemma_var_prod_text(*a);
            lemma_var_prod_text(*b);
        },
        _ => {},
    }
}

pub proof fn lemma_binder_text(vt: VarWithType)
    ensures
        binder_text(binder_model(vt)) == var_with_type_text(vt),
{
    lemma_var_prod_text(vt.var());
}

pub proof fn lemma_rows_text(m: Seq<Vec<u32>>)
    ensures
        rows_text(rows_model(m)) == rows_items_text(m),
    decreases m.len(),
{
    if m.len() > 1 {
        lemma_rows_text(m.drop_last());
        assert(rows_model(m).drop_last() =~= rows_model(m.drop_last()));
    }
}

/// One step of `value_text`.
pub proof fn unfold_value_text(v: FValue)
    ensures
        value_text(v) == {
        match v {
            FValue::NumInt(n) => "NumInt("@ + int_text(n) + ")"@,
            FValue::NumFloat(x) => "NumFloat("@ + nat_text(x as nat) + ")"@,
            FValue::Bool(b) => "Bool("@ + bool_text(b) + ")"@,
            FValue::Vect(x) => "Vect("@ + row_text(x) + ")"@,
            FValue::Mat(m) => "Mat("@ + mat_text(m) + ")"@,
            FValue::Unt => "Unt"@,
            FValue::List(l) => "List("@ + list_text(l) + ")"@,
            FValue::Pair(a, b) => "Pair("@ + value_text(*a) + ", "@ + value_text(*b) + ")"@,
            FValue::ClosureFunc(env, x, t) => "ClosureFunc("@ + "["@ + env_items_text(env) + "]"@ + ", "@ + fvar_prod_text(x) + ", "@
                + term_text(t) + ")"@,
            FValue::ClosureArr(env, x, c) => "ClosureArr("@ + "["@ + env_items_text(env) + "]"@ + ", "@ + fvar_prod_text(x) + ", "@
                + command_text(c) + ")"@,
            FValue::ClosureContArr(env, c) => "ClosureContArr("@ + "["@ + env_items_text(env) + "]"@ + ", "@ + command_text(c) + ")"@,
            FValue::Exp => "Exp"@,
            FValue::VectZero => "VectZero"@,
            FValue::VectSize => "VectSize"@,
            FValue::MatZero => "MatZero"@,
            FValue::MatSize => "MatSize"@,
            FValue::Transpose => "Transpose"@,
        }
        },
{
    reveal_with_fuel(value_text, 1);
    reveal_with_fuel(list_text, 1);
    reveal_with_fuel(env_items_text, 1);
    reveal_with_fuel(term_text, 1);
    reveal_with_fuel(command_text, 1);
    reveal_with_fuel(handler_text, 1);
    reveal_with_fuel(clauses_text, 1);
}

/// One step of `list_text`.
pub proof fn unfold_list_text(l: FList)
    ensures
        list_text(l) == {
        match l {
            FList::Nil(t) => "Nil("@ + type_text(t) + ")"@,
            FList::Cons(v, rest) => "Cons("@ + value_text(*v) + ", "@ + list_text(*rest) + ")"@,
        }
        },
{
    reveal_with_fuel(value_text, 1);
    reveal_with_fuel(list_text, 1);
    reveal_with_fuel(env_items_text, 1);
    reveal_with_fuel(term_text, 1);
    reveal_with_fuel(command_text, 1);
    reveal_with_fuel(handler_text, 1);
    reveal_with_fuel(clauses_text, 1);
}

/// One step of `env_items_text`.
pub proof fn unfold_env_items_text(e: FEnv)
    ensures
        env_items_text(e) == {
        if e.len() == 0 {
            Seq::empty()
        } else if e.len() == 1 {
            "("@ + name_text(e[0].0) + ", "@ + value_text(e[0].1) + ")"@
        } else {
            env_items_text(e.drop_last()) + ", "@ + ("("@ + name_text(e.last().0) + ", "@ + value_text(e.last().1) + ")"@)
        }
        },
{
    reveal_with_fuel(value_text, 1);
    reveal_with_fuel(list_text, 1);
    reveal_with_fuel(env_items_text, 1);
    reveal_with_fuel(term_text, 1);
    reveal_with_fuel(command_text, 1);
    reveal_with_fuel(handler_text, 1);
    reveal_with_fuel(clauses_text, 1);
}

/// One step of `term_text`.
pub proof fn unfold_term_text(t: FTerm)
    ensures
        term_text(t) == {
        match t {
            FTerm::NumInt(n) => "NumInt("@ + int_text(n) + ")"@,
            FTerm::NumFloat(x) => "NumFloat("@ + nat_text(x as nat) + ")"@,
            FTerm::Bool(b) => "Bool("@ + bool_text(b) + ")"@,
            FTerm::Vect(x) => "Vect("@ + row_text(x) + ")"@,
            FTerm::Mat(m) => "Mat("@ + mat_text(m) + ")"@,
            FTerm::Var(x) => "Var("@ + name_text(x) + ")"@,
            FTerm::Lam(b, body) => "Lam("@ + binder_text(b) + ", "@ + term_text(*body) + ")"@,
            FTerm::CLam(b, c) => "CLam("@ + binder_text(b) + ", "@ + command_text(*c) + ")"@,
            FTerm::If(a, b, c) => "If("@ + term_text(*a) + ", "@ + term_text(*b) + ", "@ + term_text(*c) + ")"@,
            FTerm::Nil(ty) => "Nil("@ + type_text(ty) + ")"@,
            FTerm::Unt => "Unt"@,
            FTerm::Exp => "Exp"@,
            FTerm::VectZero => "VectZero"@,
            FTerm::VectSize => "VectSize"@,
            FTerm::MatZero => "MatZero"@,
            FTerm::MatSize => "MatSize"@,
            FTerm::Transpose => "Transpose"@,
            FTerm::Fst(a) => "Fst("@ + term_text(*a) + ")"@,
            FTerm::Snd(a) => "Snd("@ + term_text(*a) + ")"@,
            FTerm::Head(a) => "Head("@ + term_text(*a) + ")"@,
            FTerm::Tail(a) => "Tail("@ + term_text(*a) + ")"@,
            FTerm::Pair(a, b) => "Pair("@ + term_text(*a) + ", "@ + term_text(*b) + ")"@,
            FTerm::App(a, b) => "App("@ + term_text(*a) + ", "@ + term_text(*b) + ")"@,
            FTerm::Cons(a, b) => "Cons("@ + term_text(*a) + ", "@ + term_text(*b) + ")"@,
            FTerm::Plus(a, b) => "Plus("@ + term_text(*a) + ", "@ + term_text(*b) + ")"@,
            FTerm::Times(a, b) => "Times("@ + term_text(*a) + ", "@ + term_text(*b) + ")"@,
            FTerm::PlusF(a, b) => "PlusF("@ + term_text(*a) + ", "@ + term_text(*b) + ")"@,
            FTerm::TimesF(a, b) => "TimesF("@ + term_text(*a) + ", "@ + term_text(*b) + ")"@,
            FTerm::DivF(a, b) => "DivF("@ + term_text(*a) + ", "@ + term_text(*b) + ")"@,
            FTerm::MatVectMul(a, b) => "MatVectMul("@ + term_text(*a) + ", "@ + term_text(*b) + ")"@,
            FTerm::EqInt(a, b) => "EqInt("@ + term_text(*a) + ", "@ + term_text(*b) + ")"@,
            FTerm::LTFloat(a, b) => "LTFloat("@ + term_text(*a) + ", "@ + term_text(*b) + ")"@,
            FTerm::GTFloat(a, b) => "GTFloat("@ + term_text(*a) + ", "@ + term_text(*b) + ")"@,
            FTerm::ProdVecVec(a, b) => "ProdVecVec("@ + term_text(*a) + ", "@ + term_text(*b) + ")"@,
            FTerm::ApplicationVectEntrywise(a, b) => "ApplicationVectEntrywise("@ + term_text(*a) + ", "@ + term_text(*b) + ")"@,
            FTerm::VectEntrywisePlus(a, b) => "VectEntrywisePlus("@ + term_text(*a) + ", "@ + term_text(*b) + ")"@,
            FTerm::VectEntrywiseMinus(a, b) => "VectEntrywiseMinus("@ + term_text(*a) + ", "@ + term_text(*b) + ")"@,
            FTerm::VectEntrywiseTimes(a, b) => "VectEntrywiseTimes("@ + term_text(*a) + ", "@ + term_text(*b) + ")"@,
            FTerm::ScalarVect(a, b) => "ScalarVect("@ + term_text(*a) + ", "@ + term_text(*b) + ")"@,
            FTerm::MatEntrywisePlus(a, b) => "MatEntrywisePlus("@ + term_text(*a) + ", "@ + term_text(*b) + ")"@,
            FTerm::MatEntrywiseMinus(a, b) => "MatEntrywiseMinus("@ + term_text(*a) + ", "@ + term_text(*b) + ")"@,
            FTerm::ScalarMat(a, b) => "ScalarMat("@ + term_text(*a) + ", "@ + term_text(*b) + ")"@,
        }
        },
{
    reveal_with_fuel(value_text, 1);
    reveal_with_fuel(list_text, 1);
    reveal_with_fuel(env_items_text, 1);
    reveal_with_fuel(term_text, 1);
    reveal_with_fuel(command_text, 1);
    reveal_with_fuel(handler_text, 1);
    reveal_with_fuel(clauses_text, 1);
}

/// One step of `command_text`.
pub proof fn unfold_command_text(c: FCommand)
    ensures
        command_text(c) == {
        match c {
            FCommand::Return(v) => "Return("@ + match v {
                FVtr::T(t) => "T("@ + term_text(*t) + ")"@,
                FVtr::V(x) => "V("@ + value_text(*x) + ")"@,
                FVtr::Resume => "Resume"@,
            } + ")"@,
            FCommand::Let(b, c1, c2, envs) => "Let("@ + binder_text(b) + ", "@ + command_text(*c1) + ", "@ + command_text(*c2)
                + ", "@ + match envs {
                Some((e1, e2)) => "Some(("@ + "["@ + env_items_text(e1) + "]"@ + ", "@ + "["@ + env_items_text(e2) + "]"@ + "))"@,
                None => "None"@,
            } + ")"@,
            FCommand::CApp(a, b) => "CApp("@ + term_text(*a) + ", "@ + term_text(*b) + ")"@,
            FCommand::DoOp(op, t) => "DoOp("@ + op_text(op) + ", "@ + term_text(*t) + ")"@,
            FCommand::Handle(c1, h, env) => "Handle("@ + command_text(*c1) + ", "@ + handler_text(h) + ", "@ + match env {
                Some(e) => "Some("@ + "["@ + env_items_text(e) + "]"@ + ")"@,
                None => "None"@,
            } + ")"@,
        }
        },
{
    reveal_with_fuel(value_text, 1);
    reveal_with_fuel(list_text, 1);
    reveal_with_fuel(env_items_text, 1);
    reveal_with_fuel(term_text, 1);
    reveal_with_fuel(command_text, 1);
    reveal_with_fuel(handler_text, 1);
    reveal_with_fuel(clauses_text, 1);
}

/// One step of `handler_text`.
pub proof fn unfold_handler_text(h: FHandler)
    ensures
        handler_text(h) == {
        match h {
            FHandler::H(b, c, cs) => "H(HRet("@ + binder_text(b) + ", "@ + command_text(*c) + "), "@ + "["@ + clauses_text(cs)
                + "]"@ + ")"@,
        }
        },
{
    reveal_with_fuel(value_text, 1);
    reveal_with_fuel(list_text, 1);
    reveal_with_fuel(env_items_text, 1);
    reveal_with_fuel(term_text, 1);
    reveal_with_fuel(command_text, 1);
    reveal_with_fuel(handler_text, 1);
    reveal_with_fuel(clauses_text, 1);
}

/// One step of `clauses_text`.
pub proof fn unfold_clauses_text(cs: Seq<FClause>)
    ensures
        clauses_text(cs) == {
        if cs.len() == 0 {
            Seq::empty()
        } else if cs.len() == 1 {
            "HOp("@ + op_text(cs[0].op) + ", "@ + binder_text(cs[0].k) + ", "@ + binder_text(cs[0].z) + ", "@
                + command_text(cs[0].body) + ")"@
        } else {
            clauses_text(cs.drop_last()) + ", "@ + ("HOp("@ + op_text(cs.last().op) + ", "@ + binder_text(cs.last().k)
                + ", "@ + binder_text(cs.last().z) + ", "@ + command_text(cs.last().body) + ")"@)
        }
        },
{
    reveal_with_fuel(value_text, 1);
    reveal_with_fuel(list_text, 1);
    reveal_with_fuel(env_items_text, 1);
    reveal_with_fuel(term_text, 1);
    reveal_with_fuel(command_text, 1);
    reveal_with_fuel(handler_text, 1);
    reveal_with_fuel(clauses_text, 1);
}

/// One more entry of an environment.
pub proof fn lemma_env_items_push(m0: FEnv, x: (Seq<char>, FValue))
    ensures
        env_items_text(m0.push(x)) == env_items_text(m0) + (if m0.len() == 0 {
            Seq::<char>::empty()
        } else {
            ", "@
        }) + entry_text(x),
{
    let m1 = m0.push(x);
    unfold_env_items_text(m1);
    unfold_env_items_text(m0);
    assert(m1.drop_last() =~= m0);
    assert(m1.last() == x);
    if m0.len() == 0 {
        assert(m1[0] == x);
        assert(env_items_text(m1) =~= env_items_text(m0) + Seq::<char>::empty() + entry_text(x));
    } else {
        assert(env_items_text(m1) =~= env_items_text(m0) + ", "@ + entry_text(x));
    }
}

/// One more operation clause of a handler.
pub proof fn lemma_clauses_push(cs0: Seq<FClause>, x: FClause)
    ensures
        clauses_text(cs0.push(x)) == clauses_text(cs0) + (if cs0.len() == 0 {
            Seq::<char>::empty()
        } else {
            ", "@
        }) + clause_text(x),
{
    let cs1 = cs0.push(x);
    unfold_clauses_text(cs1);
    unfold_clauses_text(cs0);
    assert(cs1.drop_last() =~= cs0);
    assert(cs1.last() == x);
    if cs0.len() == 0 {
        assert(cs1[0] == x);
        assert(clauses_text(cs1) =~= clauses_text(cs0) + Seq::<char>::empty() + clause_text(x));
    } else {
        assert(clauses_text(cs1) =~= clauses_text(cs0) + ", "@ + clause_text(x));
    }
}

} // verus!
