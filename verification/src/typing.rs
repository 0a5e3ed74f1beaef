//! The typing rules of the full language, as functions of the syntax and
//! the two typing contexts (Γ for terms, Δ for the argument of the arrow
//! being checked).
//!
//! The checker threads its contexts through the derivation and leaves them
//! where it stopped; each rule below therefore gives the outcome together
//! with the contexts after the check.  Messages are rendered as in
//! `crate::show`.
use vstd::prelude::*;
use crate::ast::{
    BaseType, Type, VarWithType, VarProd, Var, Term, Command, VTR, Handler, HandlerRet, HandlerOp,
    EffectDecl, TopLevelTerm, TopLevelCommand,
};
use crate::show::{type_text, var_with_type_text, operation_text, matrix_text, str_debug};

verus! {

/// The outcome of checking a term: its type or a message, and Γ afterwards.
pub type TermOutcome = (Result<Type, Seq<char>>, Seq<VarWithType>);

/// The outcome of checking a command: its type or a message, and Γ and Δ
/// afterwards.
pub type CommandOutcome = (Result<Type, Seq<char>>, Seq<VarWithType>, Seq<VarWithType>);

/// The outcome of checking a handler: its input and output types or a
/// message, and Γ afterwards.
pub type HandlerOutcome = (Result<(Type, Type), Seq<char>>, Seq<VarWithType>);

/// Progress over the operation clauses of a handler.
pub type ClausesOutcome = (Result<(), Seq<char>>, Seq<VarWithType>);

pub open spec fn base(b: BaseType) -> Type {
    Type::Base(b)
}

pub open spec fn fun(a: Type, b: Type) -> Type {
    Type::Fun(Box::new(a), Box::new(b))
}

/// `Vec::pop` on a context: the last binding goes, an empty context stays.
pub open spec fn pop_ctx(g: Seq<VarWithType>) -> Seq<VarWithType> {
    if g.len() == 0 {
        g
    } else {
        g.drop_last()
    }
}

/// `a` is an initial segment of `b`.
pub open spec fn is_prefix(a: Seq<VarWithType>, b: Seq<VarWithType>) -> bool {
    a.len() <= b.len() && b.subrange(0, a.len() as int) == a
}

/// "type mismatch (label): a != b"
pub open spec fn mismatch_text(label: Seq<char>, a: Type, b: Type) -> Seq<char> {
    "type mismatch ("@ + label + "): "@ + type_text(a) + " != "@ + type_text(b)
}

/// "type mismatch (label): a" followed by `suffix`
pub open spec fn wrong_text(label: Seq<char>, a: Type, suffix: Seq<char>) -> Seq<char> {
    "type mismatch ("@ + label + "): "@ + type_text(a) + suffix
}

/// The signature of a binary operator: the operand types it wants, the type
/// it gives, its symbol, and how its messages name the wanted types.
pub struct BinSig {
    pub left: Type,
    pub right: Type,
    pub result: Type,
    pub label: &'static str,
    pub left_desc: &'static str,
    pub right_desc: &'static str,
}

pub open spec fn sig(
    left: Type,
    right: Type,
    result: Type,
    label: &'static str,
    left_desc: &'static str,
    right_desc: &'static str,
) -> BinSig {
    BinSig { left, right, result, label, left_desc, right_desc }
}

/// The operator table of the language.
pub open spec fn binop_sig(t: Term) -> BinSig {
    let i = base(BaseType::Int);
    let f = base(BaseType::Float);
    let v = base(BaseType::Vect);
    let m = base(BaseType::Mat);
    let b = base(BaseType::Bool);
    match t {
        Term::Plus(_, _) => sig(i, i, i, "+", "an integer", "an integer"),
        Term::Times(_, _) => sig(i, i, i, "*", "Int", "Int"),
        Term::PlusF(_, _) => sig(f, f, f, "+.", "Float", "Float"),
        Term::TimesF(_, _) => sig(f, f, f, "*.", "Float", "Float"),
        Term::DivF(_, _) => sig(f, f, f, "/.", "Float", "Float"),
        Term::MatVectMul(_, _) => sig(m, v, v, "#>", "Mat", "Vec"),
        Term::EqInt(_, _) => sig(i, i, b, "==", "Int", "Int"),
        Term::LTFloat(_, _) => sig(f, f, b, "<.", "Int", "Int"),
        Term::GTFloat(_, _) => sig(f, f, b, ">.", "Int", "Int"),
        Term::ProdVecVec(_, _) => sig(v, v, m, "><", "Vec", "Vec"),
        Term::ApplicationVectEntrywise(_, _) => sig(fun(f, f), v, v, "$>", "Float -> Float", "Vec"),
        Term::VectEntrywisePlus(_, _) => sig(v, v, v, "<+>", "Vec", "Vec"),
        Term::VectEntrywiseMinus(_, _) => sig(v, v, v, "<->", "Vec", "Vec"),
        Term::VectEntrywiseTimes(_, _) => sig(v, v, v, "<*>", "Vec", "Vec"),
        Term::ScalarVect(_, _) => sig(f, v, v, ".>", "Float", "Vec"),
        Term::MatEntrywisePlus(_, _) => sig(m, m, m, "#+#", "Mat", "Mat"),
        Term::MatEntrywiseMinus(_, _) => sig(m, m, m, "#-#", "Mat", "Mat"),
        _ => sig(f, m, m, ".#", "Float", "Mat"),
    }
}

/// A binary operator: the left operand must have the wanted type before the
/// right one is checked.
pub open spec fn binop_out(o1: TermOutcome, o2: TermOutcome, s: BinSig) -> TermOutcome {
    match o1.0 {
        Err(e) => (Err(e), o1.1),
        Ok(t1) => if t1 != s.left {
            (Err(wrong_text(s.label@, t1, " is not "@ + s.left_desc@)), o1.1)
        } else {
            match o2.0 {
                Err(e) => (Err(e), o2.1),
                Ok(t2) => if t2 != s.right {
                    (Err(wrong_text(s.label@, t2, " is not "@ + s.right_desc@)), o2.1)
                } else {
                    (Ok(s.result), o2.1)
                },
            }
        },
    }
}

/// Where the name `name` sits in a binder `vp` of type `t`: `Ok(None)` when
/// it does not occur, `Err(())` when the binder is a pair but the type is not.
pub open spec fn search_type_spec(name: Seq<char>, vp: VarProd, t: Type) -> Result<Option<Type>, ()>
    decreases vp,
{
    match vp {
        VarProd::Unused => Ok(None),
        VarProd::V(s) => if s@ == name {
            Ok(Some(t))
        } else {
            Ok(None)
        },
        VarProd::P(v1, v2) => match t {
            Type::Prod(t1, t2) => match search_type_spec(name, *v1, *t1) {
                Ok(Some(found)) => Ok(Some(found)),
                Ok(None) => search_type_spec(name, *v2, *t2),
                Err(()) => Err(()),
            },
            _ => Err(()),
        },
    }
}

/// The type of variable `name` in context `g`: the innermost (last) binding
/// that mentions it decides.
pub open spec fn lookup_var(name: Seq<char>, g: Seq<VarWithType>) -> Result<Type, Seq<char>>
    decreases g.len(),
{
    if g.len() == 0 {
        Err("variable not found: "@ + name)
    } else {
        let vt = g.last();
        match search_type_spec(name, vt.var(), vt.typ()) {
            Ok(Some(t)) => Ok(t),
            Ok(None) => lookup_var(name, g.drop_last()),
            Err(()) => Err("illigal product: "@ + var_with_type_text(vt)),
        }
    }
}

/// The argument and result types of operation `op`: the first declaration
/// with that name decides.
pub open spec fn lookup_op(op: Seq<char>, eff: Seq<EffectDecl>) -> Option<(Type, Type)>
    decreases eff.len(),
{
    if eff.len() == 0 {
        None
    } else if eff[0].0.name() == op {
        Some((eff[0].1, eff[0].2))
    } else {
        lookup_op(op, eff.drop_first())
    }
}

/// A matrix literal is rectangular when all rows are as long as the first.
pub open spec fn is_rectangular(rows: Seq<Vec<u32>>) -> bool {
    forall|i: int| 0 <= i < rows.len() ==> #[trigger] rows[i]@.len() == rows[0]@.len()
}

/// Checking a term `t` in context `g`.
pub open spec fn tc_term(t: Term, g: Seq<VarWithType>, eff: Seq<EffectDecl>) -> TermOutcome
    decreases t,
{
    match t {
        Term::NumInt(_) => (Ok(base(BaseType::Int)), g),
        Term::NumFloat(_) => (Ok(base(BaseType::Float)), g),
        Term::Vect(_) => (Ok(base(BaseType::Vect)), g),
        Term::Mat(rows) => if is_rectangular(rows@) {
            (Ok(base(BaseType::Mat)), g)
        } else {
            (Err("matrix "@ + matrix_text(rows@) + " is not rectangular"@), g)
        },
        Term::Bool(_) => (Ok(base(BaseType::Bool)), g),
        Term::Unt => (Ok(base(BaseType::Unit)), g),
        Term::Exp => (Ok(fun(base(BaseType::Float), base(BaseType::Float))), g),
        Term::Nil(typ) => (Ok(Type::List(Box::new(typ))), g),
        Term::Cons(h, tl) => {
            let o1 = tc_term(*h, g, eff);
            match o1.0 {
                Err(e) => (Err(e), o1.1),
                Ok(th) => {
                    let o2 = tc_term(*tl, o1.1, eff);
                    match o2.0 {
                        Err(e) => (Err(e), o2.1),
                        Ok(tt) => {
                            let want = Type::List(Box::new(th));
                            if tt == want {
                                (Ok(want), o2.1)
                            } else {
                                (Err(mismatch_text("Cons"@, tt, want)), o2.1)
                            }
                        },
                    }
                },
            }
        },
        Term::Head(s) => {
            let o = tc_term(*s, g, eff);
            match o.0 {
                Ok(Type::List(a)) => (Ok(*a), o.1),
                Ok(other) => (Err(wrong_text("Head"@, other, " is not a list"@)), o.1),
                Err(e) => (Err(e), o.1),
            }
        },
        Term::Tail(s) => {
            let o = tc_term(*s, g, eff);
            match o.0 {
                Ok(Type::List(a)) => (Ok(Type::List(a)), o.1),
                Ok(other) => (Err(wrong_text("Tail"@, other, " is not a list"@)), o.1),
                Err(e) => (Err(e), o.1),
            }
        },
        Term::VectZero => (Ok(fun(base(BaseType::Int), base(BaseType::Vect))), g),
        Term::VectSize => (Ok(fun(base(BaseType::Vect), base(BaseType::Int))), g),
        Term::MatZero => (
            Ok(
                fun(
                    Type::Prod(Box::new(base(BaseType::Int)), Box::new(base(BaseType::Int))),
                    base(BaseType::Mat),
                ),
            ),
            g,
        ),
        Term::MatSize => (
            Ok(
                fun(
                    base(BaseType::Mat),
                    Type::Prod(Box::new(base(BaseType::Int)), Box::new(base(BaseType::Int))),
                ),
            ),
            g,
        ),
        Term::Transpose => (Ok(fun(base(BaseType::Mat), base(BaseType::Mat))), g),
        Term::Var(v) => (lookup_var(v.name(), g), g),
        Term::Pair(a, b) => {
            let o1 = tc_term(*a, g, eff);
            match o1.0 {
                Err(e) => (Err(e), o1.1),
                Ok(ta) => {
                    let o2 = tc_term(*b, o1.1, eff);
                    match o2.0 {
                        Err(e) => (Err(e), o2.1),
                        Ok(tb) => (Ok(Type::Prod(Box::new(ta), Box::new(tb))), o2.1),
                    }
                },
            }
        },
        Term::Fst(s) => {
            let o = tc_term(*s, g, eff);
            match o.0 {
                Ok(Type::Prod(a, _)) => (Ok(*a), o.1),
                Ok(other) => (Err(wrong_text("Fst"@, other, " is not a product type"@)), o.1),
                Err(e) => (Err(e), o.1),
            }
        },
        Term::Snd(s) => {
            let o = tc_term(*s, g, eff);
            match o.0 {
                Ok(Type::Prod(_, b)) => (Ok(*b), o.1),
                Ok(other) => (Err(wrong_text("Snd"@, other, " is not a product type"@)), o.1),
                Err(e) => (Err(e), o.1),
            }
        },
        Term::Lam(vt, body) => {
            let o = tc_term(*body, g.push(vt), eff);
            match o.0 {
                Ok(tb) => (Ok(fun(vt.typ(), tb)), pop_ctx(o.1)),
                Err(e) => (Err(e), o.1),
            }
        },
        Term::App(f, a) => {
            let o1 = tc_term(*f, g, eff);
            match o1.0 {
                Ok(Type::Fun(targ, tres)) => {
                    let o2 = tc_term(*a, o1.1, eff);
                    match o2.0 {
                        Ok(ta) => if *targ == ta {
                            (Ok(*tres), o2.1)
                        } else {
                            (Err(mismatch_text("App"@, *targ, ta)), o2.1)
                        },
                        Err(e) => (Err(e), o2.1),
                    }
                },
                Ok(other) => (Err(wrong_text("App"@, other, " is not a function"@)), o1.1),
                Err(e) => (Err(e), o1.1),
            }
        },
        Term::CLam(vt, c) => {
            let o = tc_command(*c, g, seq![vt], eff);
            match o.0 {
                Ok(tc) => (Ok(Type::Arr(Box::new(vt.typ()), Box::new(tc))), o.1),
                Err(e) => (Err(e), o.1),
            }
        },
        Term::If(c, a, b) => {
            let o = tc_term(*c, g, eff);
            match o.0 {
                Ok(tcond) => if tcond != base(BaseType::Bool) {
                    (Err(wrong_text("If"@, tcond, " is not Bool"@)), o.1)
                } else {
                    let o1 = tc_term(*a, o.1, eff);
                    match o1.0 {
                        Err(e) => (Err(e), o1.1),
                        Ok(ta) => {
                            let o2 = tc_term(*b, o1.1, eff);
                            match o2.0 {
                                Err(e) => (Err(e), o2.1),
                                Ok(tb) => if ta == tb {
                                    (Ok(ta), o2.1)
                                } else {
                                    (Err(mismatch_text("If"@, ta, tb)), o2.1)
                                },
                            }
                        },
                    }
                },
                Err(e) => (Err(e), o.1),
            }
        },
        Term::Plus(a, b)
        | Term::Times(a, b)
        | Term::PlusF(a, b)
        | Term::TimesF(a, b)
        | Term::DivF(a, b)
        | Term::MatVectMul(a, b)
        | Term::EqInt(a, b)
        | Term::LTFloat(a, b)
        | Term::GTFloat(a, b)
        | Term::ProdVecVec(a, b)
        | Term::ApplicationVectEntrywise(a, b)
        | Term::VectEntrywisePlus(a, b)
        | Term::VectEntrywiseMinus(a, b)
        | Term::VectEntrywiseTimes(a, b)
        | Term::ScalarVect(a, b)
        | Term::MatEntrywisePlus(a, b)
        | Term::MatEntrywiseMinus(a, b)
        | Term::ScalarMat(a, b) => {
            let o1 = tc_term(*a, g, eff);
            binop_out(o1, tc_term(*b, o1.1, eff), binop_sig(t))
        },
    }
}

/// Checking a command `c` with term context `g` and arrow context `d`.
pub open spec fn tc_command(
    c: Command,
    g: Seq<VarWithType>,
    d: Seq<VarWithType>,
    eff: Seq<EffectDecl>,
) -> CommandOutcome
    decreases c,
{
    let l = g.len() as int;
    match c {
        Command::Return(VTR::Resume) => (Err("resume variable"@), g, d),
        Command::Return(VTR::V(_)) => (Err("found a value"@), g, d),
        Command::Return(VTR::T(t)) => {
            let o = tc_term(*t, g + d, eff);
            match o.0 {
                Ok(ty) => (Ok(ty), o.1.subrange(0, l), o.1.subrange(l, o.1.len() as int)),
                Err(e) => (Err(e), o.1, Seq::empty()),
            }
        },
        Command::Let(vt, c1, c2, _) => {
            let o1 = tc_command(*c1, g, d, eff);
            match o1.0 {
                Ok(t1) => if vt.typ() == t1 {
                    let o2 = tc_command(*c2, o1.1, o1.2.push(vt), eff);
                    match o2.0 {
                        Ok(t2) => (Ok(t2), o2.1, pop_ctx(o2.2)),
                        Err(e) => (Err(e), o2.1, o2.2),
                    }
                } else {
                    (Err(mismatch_text("Let"@, vt.typ(), t1)), o1.1, o1.2)
                },
                Err(e) => (Err(e), o1.1, o1.2),
            }
        },
        Command::CApp(f, a) => {
            let o1 = tc_term(*f, g, eff);
            match o1.0 {
                Ok(Type::Arr(targ, tres)) => {
                    let l1 = o1.1.len() as int;
                    let o2 = tc_term(*a, o1.1 + d, eff);
                    match o2.0 {
                        Ok(ta) => if *targ == ta {
                            (Ok(*tres), o2.1.subrange(0, l1), o2.1.subrange(l1, o2.1.len() as int))
                        } else {
                            (Err(mismatch_text("CApp"@, *targ, ta)), o2.1, Seq::empty())
                        },
                        Err(e) => (Err(e), o2.1, Seq::empty()),
                    }
                },
                Ok(other) => (Err(wrong_text("CApp"@, other, " is not an arrow type"@)), o1.1, d),
                Err(e) => (Err(e), o1.1, d),
            }
        },
        Command::DoOp(op, t) => {
            let o = tc_term(*t, g + d, eff);
            match o.0 {
                Ok(ty) => match lookup_op(op.name(), eff) {
                    Some((targ, tres)) => if ty == targ {
                        (Ok(tres), o.1.subrange(0, l), o.1.subrange(l, o.1.len() as int))
                    } else {
                        (Err(mismatch_text("DoOp"@, ty, targ)), o.1, Seq::empty())
                    },
                    None => (Err("unknown operation (DoOp): "@ + operation_text(op)), o.1, Seq::empty()),
                },
                Err(e) => (Err(e), o.1, Seq::empty()),
            }
        },
        Command::Handle(c1, h, _) => {
            let o1 = tc_command(*c1, g, d, eff);
            match o1.0 {
                Ok(ty) => {
                    let oh = tc_handler(h, o1.1, eff);
                    match oh.0 {
                        Ok((tin, tout)) => if ty == tin {
                            (Ok(tout), oh.1, o1.2)
                        } else {
                            (Err(mismatch_text("Handle"@, ty, tin)), oh.1, o1.2)
                        },
                        Err(e) => (Err(e), oh.1, o1.2),
                    }
                },
                Err(e) => (Err(e), o1.1, o1.2),
            }
        },
    }
}

/// Checking a handler: its return clause, then its operation clauses in
/// order, each of which must fit the declared type of its operation.
pub open spec fn tc_handler(h: Handler, g: Seq<VarWithType>, eff: Seq<EffectDecl>) -> HandlerOutcome
    decreases h,
{
    match h {
        Handler::H(hret, hops) => match hret {
            HandlerRet::HRet(vt, c) => {
                let o = tc_command(*c, g, seq![vt], eff);
                match o.0 {
                    Err(e) => (Err(e), o.1),
                    Ok(tout) => {
                        let oc = tc_clauses(hops@, o.1, eff, tout);
                        match oc.0 {
                            Ok(()) => (Ok((vt.typ(), tout)), oc.1),
                            Err(e) => (Err(e), oc.1),
                        }
                    },
                }
            },
        },
    }
}

/// Checking one operation clause `Op k ; z => c` of a handler whose result
/// type is `tout`: `k` must be an arrow from the operation's result type to
/// `tout`, `z` must have the operation's argument type, and `c` must give
/// `tout` with `k` added to Γ; `k` is in scope in this clause only.
pub open spec fn tc_clause(clause: HandlerOp, g: Seq<VarWithType>, eff: Seq<EffectDecl>, tout: Type) -> ClausesOutcome
    decreases clause,
{
    match clause {
        HandlerOp::HOp(op, vt_k, vt_z, c_op) => match lookup_op(op.name(), eff) {
            None => (Err("operation "@ + operation_text(op) + " not found"@), g),
            Some((targ, tres)) => match vt_k.typ() {
                Type::Arr(tres_k, tout_k) => if *tres_k != tres {
                    (Err(mismatch_text("handler 0"@, *tres_k, tres)), g)
                } else if *tout_k != tout {
                    (Err(mismatch_text("handler 1"@, *tout_k, tout)), g)
                } else if vt_z.typ() != targ {
                    (Err(mismatch_text("handler 2"@, vt_z.typ(), targ)), g)
                } else {
                    let o = tc_command(*c_op, g.push(vt_k), seq![vt_z], eff);
                    match o.0 {
                        Ok(tc) => if tc != tout {
                            (Err(mismatch_text("handler 3"@, *tout_k, tout)), o.1)
                        } else {
                            (Ok(()), o.1.drop_last())
                        },
                        Err(e) => (Err(e), o.1),
                    }
                },
                _ => (Err(var_with_type_text(vt_k) + " is not an arrow type"@), g),
            },
        },
    }
}

/// Checking the operation clauses `ops` of a handler, in order.
pub open spec fn tc_clauses(
    ops: Seq<HandlerOp>,
    g: Seq<VarWithType>,
    eff: Seq<EffectDecl>,
    tout: Type,
) -> ClausesOutcome
    decreases ops,
{
    if ops.len() == 0 {
        (Ok(()), g)
    } else {
        let o = tc_clause(ops[0], g, eff, tout);
        match o.0 {
            Ok(()) => tc_clauses(ops.drop_first(), o.1, eff, tout),
            Err(e) => (Err(e), o.1),
        }
    }
}

/// The string that names a variable.
pub open spec fn var_string(v: Var) -> String {
    match v {
        Var::V(s) => s,
    }
}

/// The binding that a top-level function contributes to the initial context.
pub open spec fn function_binding(f: TopLevelTerm) -> VarWithType {
    VarWithType::VT(VarProd::V(var_string(f.0)), fun(f.1.typ(), f.2))
}

/// The binding that a top-level arrow contributes to the initial context.
pub open spec fn arrow_binding(a: TopLevelCommand) -> VarWithType {
    VarWithType::VT(
        VarProd::V(var_string(a.0)),
        fun(a.1.typ(), Type::Arr(Box::new(a.2.typ()), Box::new(a.3))),
    )
}

/// All top-level names with their types: the functions, then the arrows.
pub open spec fn toplevel_context(fs: Seq<TopLevelTerm>, ars: Seq<TopLevelCommand>) -> Seq<VarWithType> {
    fs.map_values(|f: TopLevelTerm| function_binding(f)) + ars.map_values(
        |a: TopLevelCommand| arrow_binding(a),
    )
}

/// Checking one top-level function: its body, as a lambda over its
/// argument, must give the declared result type.
pub open spec fn check_function(f: TopLevelTerm, g: Seq<VarWithType>, eff: Seq<EffectDecl>) -> ClausesOutcome {
    let name = f.0.name();
    let o = tc_term(Term::Lam(f.1, Box::new(f.3)), g, eff);
    match o.0 {
        Ok(Type::Fun(_, r)) => if *r != f.2 {
            (
                Err(
                    "Type Error: function "@ + str_debug(name) + ", "@ + type_text(f.2) + " != "@
                        + type_text(*r),
                ),
                o.1,
            )
        } else {
            (Ok(()), o.1)
        },
        Ok(_) => (Err(name + " is not a function type"@), o.1),
        Err(e) => (Err(name + ": "@ + e), o.1),
    }
}

/// Checking the top-level functions in order.
pub open spec fn check_functions(
    fs: Seq<TopLevelTerm>,
    g: Seq<VarWithType>,
    eff: Seq<EffectDecl>,
) -> ClausesOutcome
    decreases fs.len(),
{
    if fs.len() == 0 {
        (Ok(()), g)
    } else {
        let o = check_function(fs[0], g, eff);
        match o.0 {
            Ok(()) => check_functions(fs.drop_first(), o.1, eff),
            Err(e) => (Err(e), o.1),
        }
    }
}

/// Checking one top-level arrow: its body, as a lambda over the argument
/// returning an arrow over the command argument, must give the declared
/// result type.
pub open spec fn check_arrow(a: TopLevelCommand, g: Seq<VarWithType>, eff: Seq<EffectDecl>) -> ClausesOutcome {
    let name = a.0.name();
    let o = tc_term(Term::Lam(a.1, Box::new(Term::CLam(a.2, Box::new(a.4)))), g, eff);
    match o.0 {
        Ok(Type::Fun(_, arr)) => match *arr {
            Type::Arr(_, r) => if *r != a.3 {
                (
                    Err(
                        "Type Error: arrow "@ + str_debug(name) + ", "@ + type_text(a.3) + " != "@
                            + type_text(*r),
                    ),
                    o.1,
                )
            } else {
                (Ok(()), o.1)
            },
            _ => (Err(name + " is not an arrow type"@), o.1),
        },
        Ok(_) => (Err(name + " is not an arrow type"@), o.1),
        Err(e) => (Err(name + ": "@ + e), o.1),
    }
}

/// Checking the top-level arrows in order.
pub open spec fn check_arrows(
    ars: Seq<TopLevelCommand>,
    g: Seq<VarWithType>,
    eff: Seq<EffectDecl>,
) -> ClausesOutcome
    decreases ars.len(),
{
    if ars.len() == 0 {
        (Ok(()), g)
    } else {
        let o = check_arrow(ars[0], g, eff);
        match o.0 {
            Ok(()) => check_arrows(ars.drop_first(), o.1, eff),
            Err(e) => (Err(e), o.1),
        }
    }
}

/// Checking a whole program: all top-level names are in scope in every
/// body; functions are checked before arrows.
pub open spec fn tc_toplevel(
    eff: Seq<EffectDecl>,
    fs: Seq<TopLevelTerm>,
    ars: Seq<TopLevelCommand>,
) -> Result<(), Seq<char>> {
    let o = check_functions(fs, toplevel_context(fs, ars), eff);
    match o.0 {
        Err(e) => Err(e),
        Ok(()) => check_arrows(ars, o.1, eff).0,
    }
}

proof fn lemma_prefix_trans(a: Seq<VarWithType>, b: Seq<VarWithType>, c: Seq<VarWithType>)
    requires
        is_prefix(a, b),
        is_prefix(b, c),
    ensures
        is_prefix(a, c),
{
    assert(c.subrange(0, a.len() as int) =~= b.subrange(0, a.len() as int));
}

proof fn lemma_prefix_push(g: Seq<VarWithType>, x: VarWithType)
    ensures
        is_prefix(g, g.push(x)),
{
    assert(g.push(x).subrange(0, g.len() as int) =~= g);
}

proof fn lemma_prefix_pop(g: Seq<VarWithType>, x: VarWithType, s: Seq<VarWithType>)
    requires
        is_prefix(g.push(x), s),
    ensures
        is_prefix(g, pop_ctx(s)),
{
    assert(pop_ctx(s).subrange(0, g.len() as int) =~= s.subrange(0, g.len() as int));
    assert(g.push(x).subrange(0, g.len() as int) =~= g);
    assert(s.subrange(0, g.len() as int) =~= s.subrange(0, g.len() as int + 1).subrange(0, g.len() as int));
}

proof fn lemma_prefix_split(g: Seq<VarWithType>, d: Seq<VarWithType>, s: Seq<VarWithType>)
    requires
        is_prefix(g + d, s),
    ensures
        s.subrange(0, g.len() as int) == g,
        is_prefix(d, s.subrange(g.len() as int, s.len() as int)),
{
    assert(s.subrange(0, g.len() as int) =~= (g + d).subrange(0, g.len() as int));
    assert((g + d).subrange(0, g.len() as int) =~= g);
    assert(s.subrange(g.len() as int, s.len() as int).subrange(0, d.len() as int)
        =~= (g + d).subrange(g.len() as int, (g + d).len() as int));
    assert((g + d).subrange(g.len() as int, (g + d).len() as int) =~= d);
}

proof fn lemma_prefix_refl(g: Seq<VarWithType>)
    ensures
        is_prefix(g, g),
{
    assert(g.subrange(0, g.len() as int) =~= g);
}

/// Γ only grows: when a term checks, the context it was checked in is an
/// initial segment of the context afterwards.
pub proof fn lemma_term_context_grows(t: Term, g: Seq<VarWithType>, eff: Seq<EffectDecl>)
    ensures
        tc_term(t, g, eff).0 is Ok ==> is_prefix(g, tc_term(t, g, eff).1),
    decreases t,
{
    lemma_prefix_refl(g);
    match t {
        Term::Cons(a, b) | Term::Pair(a, b) | Term::App(a, b) => {
            lemma_term_context_grows(*a, g, eff);
            let o1 = tc_term(*a, g, eff);
            lemma_term_context_grows(*b, o1.1, eff);
            if tc_term(t, g, eff).0 is Ok {
                lemma_prefix_trans(g, o1.1, tc_term(*b, o1.1, eff).1);
            }
        },
        Term::Head(a) | Term::Tail(a) | Term::Fst(a) | Term::Snd(a) => {
            lemma_term_context_grows(*a, g, eff);
        },
        Term::Lam(vt, body) => {
            lemma_term_context_grows(*body, g.push(vt), eff);
            let o = tc_term(*body, g.push(vt), eff);
            if o.0 is Ok {
                lemma_prefix_pop(g, vt, o.1);
            }
        },
        Term::CLam(vt, c) => {
            lemma_command_context_grows(*c, g, seq![vt], eff);
        },
        Term::If(c, a, b) => {
            lemma_term_context_grows(*c, g, eff);
            let o = tc_term(*c, g, eff);
            lemma_term_context_grows(*a, o.1, eff);
            let o1 = tc_term(*a, o.1, eff);
            lemma_term_context_grows(*b, o1.1, eff);
            if tc_term(t, g, eff).0 is Ok {
                lemma_prefix_trans(g, o.1, o1.1);
                lemma_prefix_trans(g, o1.1, tc_term(*b, o1.1, eff).1);
            }
        },
        Term::Plus(a, b)
        | Term::Times(a, b)
        | Term::PlusF(a, b)
        | Term::TimesF(a, b)
        | Term::DivF(a, b)
        | Term::MatVectMul(a, b)
        | Term::EqInt(a, b)
        | Term::LTFloat(a, b)
        | Term::GTFloat(a, b)
        | Term::ProdVecVec(a, b)
        | Term::ApplicationVectEntrywise(a, b)
        | Term::VectEntrywisePlus(a, b)
        | Term::VectEntrywiseMinus(a, b)
        | Term::VectEntrywiseTimes(a, b)
        | Term::ScalarVect(a, b)
        | Term::MatEntrywisePlus(a, b)
        | Term::MatEntrywiseMinus(a, b)
        | Term::ScalarMat(a, b) => {
            lemma_term_context_grows(*a, g, eff);
            let o1 = tc_term(*a, g, eff);
            lemma_term_context_grows(*b, o1.1, eff);
            if tc_term(t, g, eff).0 is Ok {
                lemma_prefix_trans(g, o1.1, tc_term(*b, o1.1, eff).1);
            }
        },
        _ => {},
    }
}

/// Γ and Δ only grow: when a command checks, each context it was checked
/// in is an initial segment of the same context afterwards.
pub proof fn lemma_command_context_grows(
    c: Command,
    g: Seq<VarWithType>,
    d: Seq<VarWithType>,
    eff: Seq<EffectDecl>,
)
    ensures
        tc_command(c, g, d, eff).0 is Ok ==> is_prefix(g, tc_command(c, g, d, eff).1) && is_prefix(
            d,
            tc_command(c, g, d, eff).2,
        ),
    decreases c,
{
    lemma_prefix_refl(g);
    lemma_prefix_refl(d);
    match c {
        Command::Return(VTR::T(t)) => {
            lemma_term_context_grows(*t, g + d, eff);
            let o = tc_term(*t, g + d, eff);
            if o.0 is Ok {
                lemma_prefix_split(g, d, o.1);
            }
        },
        Command::Let(vt, c1, c2, _) => {
            lemma_command_context_grows(*c1, g, d, eff);
            let o1 = tc_command(*c1, g, d, eff);
            lemma_command_context_grows(*c2, o1.1, o1.2.push(vt), eff);
            let o2 = tc_command(*c2, o1.1, o1.2.push(vt), eff);
            if tc_command(c, g, d, eff).0 is Ok {
                lemma_prefix_trans(g, o1.1, o2.1);
                lemma_prefix_pop(o1.2, vt, o2.2);
                lemma_prefix_trans(d, o1.2, pop_ctx(o2.2));
            }
        },
        Command::CApp(f, a) => {
            lemma_term_context_grows(*f, g, eff);
            let o1 = tc_term(*f, g, eff);
            lemma_term_context_grows(*a, o1.1 + d, eff);
            let o2 = tc_term(*a, o1.1 + d, eff);
            if tc_command(c, g, d, eff).0 is Ok {
                lemma_prefix_split(o1.1, d, o2.1);
            }
        },
        Command::DoOp(op, t) => {
            lemma_term_context_grows(*t, g + d, eff);
            let o = tc_term(*t, g + d, eff);
            if o.0 is Ok {
                lemma_prefix_split(g, d, o.1);
            }
        },
        Command::Handle(c1, h, _) => {
            lemma_command_context_grows(*c1, g, d, eff);
            let o1 = tc_command(*c1, g, d, eff);
            lemma_handler_context_grows(h, o1.1, eff);
            if tc_command(c, g, d, eff).0 is Ok {
                lemma_prefix_trans(g, o1.1, tc_handler(h, o1.1, eff).1);
            }
        },
        _ => {},
    }
}

/// Γ only grows while a handler is checked.
pub proof fn lemma_handler_context_grows(h: Handler, g: Seq<VarWithType>, eff: Seq<EffectDecl>)
    ensures
        tc_handler(h, g, eff).0 is Ok ==> is_prefix(g, tc_handler(h, g, eff).1),
    decreases h,
{
    match h {
        Handler::H(hret, hops) => match hret {
            HandlerRet::HRet(vt, c) => {
                lemma_command_context_grows(*c, g, seq![vt], eff);
                let o = tc_command(*c, g, seq![vt], eff);
                if let Ok(tout) = o.0 {
                    lemma_clauses_context_grows(hops@, o.1, eff, tout);
                    if tc_handler(h, g, eff).0 is Ok {
                        lemma_prefix_trans(g, o.1, tc_clauses(hops@, o.1, eff, tout).1);
                    }
                }
            },
        },
    }
}

/// Γ only grows while one operation clause is checked.
pub proof fn lemma_clause_context_grows(
    clause: HandlerOp,
    g: Seq<VarWithType>,
    eff: Seq<EffectDecl>,
    tout: Type,
)
    ensures
        tc_clause(clause, g, eff, tout).0 is Ok ==> is_prefix(g, tc_clause(clause, g, eff, tout).1),
    decreases clause,
{
    match clause {
        HandlerOp::HOp(op, vt_k, vt_z, c_op) => {
            lemma_command_context_restored(*c_op, g.push(vt_k), seq![vt_z], eff);
            let o = tc_command(*c_op, g.push(vt_k), seq![vt_z], eff);
            if tc_clause(clause, g, eff, tout).0 is Ok {
                assert(g.push(vt_k).drop_last() =~= g);
                lemma_prefix_refl(g);
            }
        },
    }
}

/// Γ only grows while the operation clauses of a handler are checked.
pub proof fn lemma_clauses_context_grows(
    ops: Seq<HandlerOp>,
    g: Seq<VarWithType>,
    eff: Seq<EffectDecl>,
    tout: Type,
)
    ensures
        tc_clauses(ops, g, eff, tout).0 is Ok ==> is_prefix(g, tc_clauses(ops, g, eff, tout).1),
    decreases ops,
{
    lemma_prefix_refl(g);
    if ops.len() > 0 {
        lemma_clause_context_grows(ops[0], g, eff, tout);
        let o = tc_clause(ops[0], g, eff, tout);
        lemma_clauses_context_grows(ops.drop_first(), o.1, eff, tout);
        if tc_clauses(ops, g, eff, tout).0 is Ok {
            lemma_prefix_trans(g, o.1, tc_clauses(ops.drop_first(), o.1, eff, tout).1);
        }
    }
}

/// Checking leaves Γ as it found it: when a term checks, Γ afterwards is
/// Γ before.
pub proof fn lemma_term_context_restored(t: Term, g: Seq<VarWithType>, eff: Seq<EffectDecl>)
    ensures
        tc_term(t, g, eff).0 is Ok ==> tc_term(t, g, eff).1 == g,
    decreases t,
{
    match t {
        Term::Cons(a, b) | Term::Pair(a, b) | Term::App(a, b) => {
            lemma_term_context_restored(*a, g, eff);
            let o1 = tc_term(*a, g, eff);
            lemma_term_context_restored(*b, o1.1, eff);
        },
        Term::Head(a) | Term::Tail(a) | Term::Fst(a) | Term::Snd(a) => {
            lemma_term_context_restored(*a, g, eff);
        },
        Term::Lam(vt, body) => {
            lemma_term_context_restored(*body, g.push(vt), eff);
            assert(g.push(vt).drop_last() =~= g);
        },
        Term::CLam(vt, c) => {
            lemma_command_context_restored(*c, g, seq![vt], eff);
        },
        Term::If(c, a, b) => {
            lemma_term_context_restored(*c, g, eff);
            let o = tc_term(*c, g, eff);
            lemma_term_context_restored(*a, o.1, eff);
            let o1 = tc_term(*a, o.1, eff);
            lemma_term_context_restored(*b, o1.1, eff);
        },
        Term::Plus(a, b)
        | Term::Times(a, b)
        | Term::PlusF(a, b)
        | Term::TimesF(a, b)
        | Term::DivF(a, b)
        | Term::MatVectMul(a, b)
        | Term::EqInt(a, b)
        | Term::LTFloat(a, b)
        | Term::GTFloat(a, b)
        | Term::ProdVecVec(a, b)
        | Term::ApplicationVectEntrywise(a, b)
        | Term::VectEntrywisePlus(a, b)
        | Term::VectEntrywiseMinus(a, b)
        | Term::VectEntrywiseTimes(a, b)
        | Term::ScalarVect(a, b)
        | Term::MatEntrywisePlus(a, b)
        | Term::MatEntrywiseMinus(a, b)
        | Term::ScalarMat(a, b) => {
            lemma_term_context_restored(*a, g, eff);
            let o1 = tc_term(*a, g, eff);
            lemma_term_context_restored(*b, o1.1, eff);
        },
        _ => {},
    }
}

/// Checking leaves Γ and Δ as it found them: when a command checks, both
/// contexts afterwards are the contexts before.
#[verifier::spinoff_prover]
#[verifier::rlimit(60)]
pub proof fn lemma_command_context_restored(
    c: Command,
    g: Seq<VarWithType>,
    d: Seq<VarWithType>,
    eff: Seq<EffectDecl>,
)
    ensures
        tc_command(c, g, d, eff).0 is Ok ==> tc_command(c, g, d, eff).1 == g && tc_command(c, g, d, eff).2
            == d,
    decreases c,
{
    match c {
        Command::Return(VTR::T(t)) => {
            lemma_term_context_restored(*t, g + d, eff);
            assert((g + d).subrange(0, g.len() as int) =~= g);
            assert((g + d).subrange(g.len() as int, (g + d).len() as int) =~= d);
        },
        Command::Let(vt, c1, c2, _) => {
            lemma_command_context_restored(*c1, g, d, eff);
            let o1 = tc_command(*c1, g, d, eff);
            lemma_command_context_restored(*c2, o1.1, o1.2.push(vt), eff);
            assert(o1.2.push(vt).drop_last() =~= o1.2);
        },
        Command::CApp(f, a) => {
            lemma_term_context_restored(*f, g, eff);
            let o1 = tc_term(*f, g, eff);
            lemma_term_context_restored(*a, o1.1 + d, eff);
            assert((o1.1 + d).subrange(0, o1.1.len() as int) =~= o1.1);
            assert((o1.1 + d).subrange(o1.1.len() as int, (o1.1 + d).len() as int) =~= d);
        },
        Command::DoOp(op, t) => {
            lemma_term_context_restored(*t, g + d, eff);
            assert((g + d).subrange(0, g.len() as int) =~= g);
            assert((g + d).subrange(g.len() as int, (g + d).len() as int) =~= d);
        },
        Command::Handle(c1, h, _) => {
            lemma_command_context_restored(*c1, g, d, eff);
            let o1 = tc_command(*c1, g, d, eff);
            lemma_handler_context_restored(h, o1.1, eff);
        },
        _ => {},
    }
}

/// Checking a handler leaves Γ as it found it: the return clause is
/// checked in Γ, and each operation clause in Γ with its own `k`.
pub proof fn lemma_handler_context_restored(h: Handler, g: Seq<VarWithType>, eff: Seq<EffectDecl>)
    ensures
        tc_handler(h, g, eff).0 is Ok ==> tc_handler(h, g, eff).1 == g,
    decreases h,
{
    match h {
        Handler::H(hret, hops) => match hret {
            HandlerRet::HRet(vt, cr) => {
                lemma_command_context_restored(*cr, g, seq![vt], eff);
                let o = tc_command(*cr, g, seq![vt], eff);
                if let Ok(tout) = o.0 {
                    lemma_clauses_context_restored(hops@, o.1, eff, tout);
                }
            },
        },
    }
}

/// Checking one operation clause leaves Γ as it found it.
pub proof fn lemma_clause_context_restored(clause: HandlerOp, g: Seq<VarWithType>, eff: Seq<EffectDecl>, tout: Type)
    ensures
        tc_clause(clause, g, eff, tout).0 is Ok ==> tc_clause(clause, g, eff, tout).1 == g,
    decreases clause,
{
    match clause {
        HandlerOp::HOp(op, vt_k, vt_z, c_op) => {
            lemma_command_context_restored(*c_op, g.push(vt_k), seq![vt_z], eff);
            assert(g.push(vt_k).drop_last() =~= g);
        },
    }
}

/// Checking the operation clauses of a handler leaves Γ as it found it.
pub proof fn lemma_clauses_context_restored(
    ops: Seq<HandlerOp>,
    g: Seq<VarWithType>,
    eff: Seq<EffectDecl>,
    tout: Type,
)
    ensures
        tc_clauses(ops, g, eff, tout).0 is Ok ==> tc_clauses(ops, g, eff, tout).1 == g,
    decreases ops,
{
    if ops.len() > 0 {
        lemma_clause_context_restored(ops[0], g, eff, tout);
        let o = tc_clause(ops[0], g, eff, tout);
        lemma_clauses_context_restored(ops.drop_first(), o.1, eff, tout);
    }
}


/// The two operands of a binary operator.
pub open spec fn binop_operands(t: Term) -> Option<(Term, Term)> {
    match t {
        Term::Plus(a, b) => Some((*a, *b)),
        Term::Times(a, b) => Some((*a, *b)),
        Term::PlusF(a, b) => Some((*a, *b)),
        Term::TimesF(a, b) => Some((*a, *b)),
        Term::DivF(a, b) => Some((*a, *b)),
        Term::MatVectMul(a, b) => Some((*a, *b)),
        Term::EqInt(a, b) => Some((*a, *b)),
        Term::LTFloat(a, b) => Some((*a, *b)),
        Term::GTFloat(a, b) => Some((*a, *b)),
        Term::ProdVecVec(a, b) => Some((*a, *b)),
        Term::ApplicationVectEntrywise(a, b) => Some((*a, *b)),
        Term::VectEntrywisePlus(a, b) => Some((*a, *b)),
        Term::VectEntrywiseMinus(a, b) => Some((*a, *b)),
        Term::VectEntrywiseTimes(a, b) => Some((*a, *b)),
        Term::ScalarVect(a, b) => Some((*a, *b)),
        Term::MatEntrywisePlus(a, b) => Some((*a, *b)),
        Term::MatEntrywiseMinus(a, b) => Some((*a, *b)),
        Term::ScalarMat(a, b) => Some((*a, *b)),
        _ => None,
    }
}

/// The operator table: an operator whose two operands check in Γ has the
/// table's result type exactly when the operands have the types the table
/// wants, and is a type error otherwise.
pub proof fn lemma_binop_table(t: Term, a: Term, b: Term, g: Seq<VarWithType>, eff: Seq<EffectDecl>)
    requires
        binop_operands(t) == Some((a, b)),
        tc_term(a, g, eff).0 is Ok,
        tc_term(b, g, eff).0 is Ok,
    ensures
        ({
            let s = binop_sig(t);
            &&& tc_term(t, g, eff).0 is Ok <==> (tc_term(a, g, eff).0->Ok_0 == s.left && tc_term(b, g, eff).0->Ok_0
                == s.right)
            &&& tc_term(t, g, eff).0 is Ok ==> tc_term(t, g, eff).0 == Ok::<Type, Seq<char>>(s.result)
        }),
{
    lemma_term_context_restored(a, g, eff);
}


/// Each operation clause of a handler is checked in the same Γ: the
/// clauses check, in order, exactly when each of them checks in Γ.
#[verifier::spinoff_prover]
#[verifier::rlimit(100)]
pub proof fn lemma_clauses_each(ops: Seq<HandlerOp>, g: Seq<VarWithType>, eff: Seq<EffectDecl>, tout: Type)
    ensures
        tc_clauses(ops, g, eff, tout).0 is Ok <==> forall|i: int|
            0 <= i < ops.len() ==> (#[trigger] tc_clause(ops[i], g, eff, tout)).0 is Ok,
    decreases ops.len(),
{
    if ops.len() > 0 {
        lemma_clause_context_restored(ops[0], g, eff, tout);
        lemma_clauses_each(ops.drop_first(), g, eff, tout);
        if tc_clauses(ops, g, eff, tout).0 is Ok {
            assert forall|i: int| 0 <= i < ops.len() implies (#[trigger] tc_clause(ops[i], g, eff, tout)).0 is Ok by {
                if i > 0 {
                    assert(ops[i] == ops.drop_first()[i - 1]);
                }
            }
        }
        if forall|i: int| 0 <= i < ops.len() ==> (#[trigger] tc_clause(ops[i], g, eff, tout)).0 is Ok {
            assert(tc_clause(ops[0], g, eff, tout).0 is Ok);
            assert forall|i: int| 0 <= i < ops.drop_first().len() implies (#[trigger] tc_clause(
                ops.drop_first()[i],
                g,
                eff,
                tout,
            )).0 is Ok by {
                assert(ops.drop_first()[i] == ops[i + 1]);
                assert(tc_clause(ops[i + 1], g, eff, tout).0 is Ok);
            }
        }
    }
}

/// The handler rule: `x => c` must give some type `tout` with `x` in Δ,
/// and every operation clause must check in Γ against `tout`; the handler
/// then has type `x`'s type to `tout`.
pub proof fn lemma_handler_rule(
    vt: VarWithType,
    c: Command,
    hops: Vec<HandlerOp>,
    g: Seq<VarWithType>,
    eff: Seq<EffectDecl>,
)
    ensures
        ({
            let h = Handler::H(HandlerRet::HRet(vt, Box::new(c)), hops);
            let o = tc_command(c, g, seq![vt], eff);
            &&& tc_handler(h, g, eff).0 is Ok <==> (o.0 is Ok && forall|i: int|
                0 <= i < hops@.len() ==> (#[trigger] tc_clause(hops@[i], g, eff, o.0->Ok_0)).0 is Ok)
            &&& tc_handler(h, g, eff).0 is Ok ==> tc_handler(h, g, eff).0 == Ok::<(Type, Type), Seq<char>>(
                (vt.typ(), o.0->Ok_0),
            )
        }),
{
    let o = tc_command(c, g, seq![vt], eff);
    lemma_command_context_restored(c, g, seq![vt], eff);
    if let Ok(tout) = o.0 {
        lemma_clauses_each(hops@, g, eff, tout);
    }
}

/// The top-level functions check, in order, exactly when each of them
/// checks in the same context.
pub proof fn lemma_functions_each(fs: Seq<TopLevelTerm>, g: Seq<VarWithType>, eff: Seq<EffectDecl>)
    ensures
        check_functions(fs, g, eff).0 is Ok <==> forall|i: int|
            0 <= i < fs.len() ==> (#[trigger] check_function(fs[i], g, eff)).0 is Ok,
        check_functions(fs, g, eff).0 is Ok ==> check_functions(fs, g, eff).1 == g,
    decreases fs.len(),
{
    if fs.len() > 0 {
        let f = fs[0];
        lemma_term_context_restored(Term::Lam(f.1, Box::new(f.3)), g, eff);
        lemma_functions_each(fs.drop_first(), g, eff);
        if check_functions(fs, g, eff).0 is Ok {
            assert forall|i: int| 0 <= i < fs.len() implies (#[trigger] check_function(fs[i], g, eff)).0 is Ok by {
                if i > 0 {
                    assert(fs[i] == fs.drop_first()[i - 1]);
                }
            }
        }
        if forall|i: int| 0 <= i < fs.len() ==> (#[trigger] check_function(fs[i], g, eff)).0 is Ok {
            assert(check_function(fs[0], g, eff).0 is Ok);
            assert forall|i: int| 0 <= i < fs.drop_first().len() implies (#[trigger] check_function(
                fs.drop_first()[i],
                g,
                eff,
            )).0 is Ok by {
                assert(fs.drop_first()[i] == fs[i + 1]);
                assert(check_function(fs[i + 1], g, eff).0 is Ok);
            }
        }
    }
}

/// The top-level arrows check, in order, exactly when each of them checks
/// in the same context.
pub proof fn lemma_arrows_each(ars: Seq<TopLevelCommand>, g: Seq<VarWithType>, eff: Seq<EffectDecl>)
    ensures
        check_arrows(ars, g, eff).0 is Ok <==> forall|i: int|
            0 <= i < ars.len() ==> (#[trigger] check_arrow(ars[i], g, eff)).0 is Ok,
    decreases ars.len(),
{
    if ars.len() > 0 {
        let a = ars[0];
        lemma_term_context_restored(Term::Lam(a.1, Box::new(Term::CLam(a.2, Box::new(a.4)))), g, eff);
        lemma_arrows_each(ars.drop_first(), g, eff);
        if check_arrows(ars, g, eff).0 is Ok {
            assert forall|i: int| 0 <= i < ars.len() implies (#[trigger] check_arrow(ars[i], g, eff)).0 is Ok by {
                if i > 0 {
                    assert(ars[i] == ars.drop_first()[i - 1]);
                }
            }
        }
        if forall|i: int| 0 <= i < ars.len() ==> (#[trigger] check_arrow(ars[i], g, eff)).0 is Ok {
            assert(check_arrow(ars[0], g, eff).0 is Ok);
            assert forall|i: int| 0 <= i < ars.drop_first().len() implies (#[trigger] check_arrow(
                ars.drop_first()[i],
                g,
                eff,
            )).0 is Ok by {
                assert(ars.drop_first()[i] == ars[i + 1]);
                assert(check_arrow(ars[i + 1], g, eff).0 is Ok);
            }
        }
    }
}

/// A program checks exactly when every function body and every arrow body
/// checks in the context of all top-level names, so that bodies may use
/// any top-level name, recursion included.
pub proof fn lemma_toplevel_rule(eff: Seq<EffectDecl>, fs: Seq<TopLevelTerm>, ars: Seq<TopLevelCommand>)
    ensures
        tc_toplevel(eff, fs, ars) is Ok <==> (forall|i: int|
            0 <= i < fs.len() ==> (#[trigger] check_function(fs[i], toplevel_context(fs, ars), eff)).0 is Ok)
            && (forall|i: int|
            0 <= i < ars.len() ==> (#[trigger] check_arrow(ars[i], toplevel_context(fs, ars), eff)).0 is Ok),
{
    let g0 = toplevel_context(fs, ars);
    lemma_functions_each(fs, g0, eff);
    lemma_arrows_each(ars, g0, eff);
}


/// The types of the binary operators, over all operands `a` and `b` that
/// check in Γ with types `x` and `y`: integer `+`, `*` give `Int` and `==`
/// gives `Bool`; float `+.`, `*.`, `/.` give `Float` and `<.`, `>.` give
/// `Bool`; `#>` takes a matrix and a vector to a vector; `><` takes two
/// vectors to a matrix; `$>` applies a `Float -> Float` function to a
/// vector; the entrywise vector operators give vectors, `.>` scales a
/// vector, the entrywise matrix operators give matrices and `.#` scales a
/// matrix.  Operands of other types are a type error.
pub proof fn lemma_operator_types(a: Term, b: Term, x: Type, y: Type, g: Seq<VarWithType>, eff: Seq<EffectDecl>)
    requires
        tc_term(a, g, eff).0 == Ok::<Type, Seq<char>>(x),
        tc_term(b, g, eff).0 == Ok::<Type, Seq<char>>(y),
    ensures
        x == Type::Base(BaseType::Int) && y == Type::Base(BaseType::Int) ==> tc_term(Term::Plus(Box::new(a), Box::new(b)), g, eff).0 == Ok::<Type, Seq<char>>(Type::Base(BaseType::Int)),
        !(x == Type::Base(BaseType::Int) && y == Type::Base(BaseType::Int)) ==> tc_term(Term::Plus(Box::new(a), Box::new(b)), g, eff).0 is Err,
        x == Type::Base(BaseType::Int) && y == Type::Base(BaseType::Int) ==> tc_term(Term::Times(Box::new(a), Box::new(b)), g, eff).0 == Ok::<Type, Seq<char>>(Type::Base(BaseType::Int)),
        !(x == Type::Base(BaseType::Int) && y == Type::Base(BaseType::Int)) ==> tc_term(Term::Times(Box::new(a), Box::new(b)), g, eff).0 is Err,
        x == Type::Base(BaseType::Float) && y == Type::Base(BaseType::Float) ==> tc_term(Term::PlusF(Box::new(a), Box::new(b)), g, eff).0 == Ok::<Type, Seq<char>>(Type::Base(BaseType::Float)),
        !(x == Type::Base(BaseType::Float) && y == Type::Base(BaseType::Float)) ==> tc_term(Term::PlusF(Box::new(a), Box::new(b)), g, eff).0 is Err,
        x == Type::Base(BaseType::Float) && y == Type::Base(BaseType::Float) ==> tc_term(Term::TimesF(Box::new(a), Box::new(b)), g, eff).0 == Ok::<Type, Seq<char>>(Type::Base(BaseType::Float)),
        !(x == Type::Base(BaseType::Float) && y == Type::Base(BaseType::Float)) ==> tc_term(Term::TimesF(Box::new(a), Box::new(b)), g, eff).0 is Err,
        x == Type::Base(BaseType::Float) && y == Type::Base(BaseType::Float) ==> tc_term(Term::DivF(Box::new(a), Box::new(b)), g, eff).0 == Ok::<Type, Seq<char>>(Type::Base(BaseType::Float)),
        !(x == Type::Base(BaseType::Float) && y == Type::Base(BaseType::Float)) ==> tc_term(Term::DivF(Box::new(a), Box::new(b)), g, eff).0 is Err,
        x == Type::Base(BaseType::Mat) && y == Type::Base(BaseType::Vect) ==> tc_term(Term::MatVectMul(Box::new(a), Box::new(b)), g, eff).0 == Ok::<Type, Seq<char>>(Type::Base(BaseType::Vect)),
        !(x == Type::Base(BaseType::Mat) && y == Type::Base(BaseType::Vect)) ==> tc_term(Term::MatVectMul(Box::new(a), Box::new(b)), g, eff).0 is Err,
        x == Type::Base(BaseType::Int) && y == Type::Base(BaseType::Int) ==> tc_term(Term::EqInt(Box::new(a), Box::new(b)), g, eff).0 == Ok::<Type, Seq<char>>(Type::Base(BaseType::Bool)),
        !(x == Type::Base(BaseType::Int) && y == Type::Base(BaseType::Int)) ==> tc_term(Term::EqInt(Box::new(a), Box::new(b)), g, eff).0 is Err,
        x == Type::Base(BaseType::Float) && y == Type::Base(BaseType::Float) ==> tc_term(Term::LTFloat(Box::new(a), Box::new(b)), g, eff).0 == Ok::<Type, Seq<char>>(Type::Base(BaseType::Bool)),
        !(x == Type::Base(BaseType::Float) && y == Type::Base(BaseType::Float)) ==> tc_term(Term::LTFloat(Box::new(a), Box::new(b)), g, eff).0 is Err,
        x == Type::Base(BaseType::Float) && y == Type::Base(BaseType::Float) ==> tc_term(Term::GTFloat(Box::new(a), Box::new(b)), g, eff).0 == Ok::<Type, Seq<char>>(Type::Base(BaseType::Bool)),
        !(x == Type::Base(BaseType::Float) && y == Type::Base(BaseType::Float)) ==> tc_term(Term::GTFloat(Box::new(a), Box::new(b)), g, eff).0 is Err,
        x == Type::Base(BaseType::Vect) && y == Type::Base(BaseType::Vect) ==> tc_term(Term::ProdVecVec(Box::new(a), Box::new(b)), g, eff).0 == Ok::<Type, Seq<char>>(Type::Base(BaseType::Mat)),
        !(x == Type::Base(BaseType::Vect) && y == Type::Base(BaseType::Vect)) ==> tc_term(Term::ProdVecVec(Box::new(a), Box::new(b)), g, eff).0 is Err,
        x == Type::Fun(Box::new(Type::Base(BaseType::Float)), Box::new(Type::Base(BaseType::Float))) && y == Type::Base(BaseType::Vect) ==> tc_term(Term::ApplicationVectEntrywise(Box::new(a), Box::new(b)), g, eff).0 == Ok::<Type, Seq<char>>(Type::Base(BaseType::Vect)),
        !(x == Type::Fun(Box::new(Type::Base(BaseType::Float)), Box::new(Type::Base(BaseType::Float))) && y == Type::Base(BaseType::Vect)) ==> tc_term(Term::ApplicationVectEntrywise(Box::new(a), Box::new(b)), g, eff).0 is Err,
        x == Type::Base(BaseType::Vect) && y == Type::Base(BaseType::Vect) ==> tc_term(Term::VectEntrywisePlus(Box::new(a), Box::new(b)), g, eff).0 == Ok::<Type, Seq<char>>(Type::Base(BaseType::Vect)),
        !(x == Type::Base(BaseType::Vect) && y == Type::Base(BaseType::Vect)) ==> tc_term(Term::VectEntrywisePlus(Box::new(a), Box::new(b)), g, eff).0 is Err,
        x == Type::Base(BaseType::Vect) && y == Type::Base(BaseType::Vect) ==> tc_term(Term::VectEntrywiseMinus(Box::new(a), Box::new(b)), g, eff).0 == Ok::<Type, Seq<char>>(Type::Base(BaseType::Vect)),
        !(x == Type::Base(BaseType::Vect) && y == Type::Base(BaseType::Vect)) ==> tc_term(Term::VectEntrywiseMinus(Box::new(a), Box::new(b)), g, eff).0 is Err,
        x == Type::Base(BaseType::Vect) && y == Type::Base(BaseType::Vect) ==> tc_term(Term::VectEntrywiseTimes(Box::new(a), Box::new(b)), g, eff).0 == Ok::<Type, Seq<char>>(Type::Base(BaseType::Vect)),
        !(x == Type::Base(BaseType::Vect) && y == Type::Base(BaseType::Vect)) ==> tc_term(Term::VectEntrywiseTimes(Box::new(a), Box::new(b)), g, eff).0 is Err,
        x == Type::Base(BaseType::Float) && y == Type::Base(BaseType::Vect) ==> tc_term(Term::ScalarVect(Box::new(a), Box::new(b)), g, eff).0 == Ok::<Type, Seq<char>>(Type::Base(BaseType::Vect)),
        !(x == Type::Base(BaseType::Float) && y == Type::Base(BaseType::Vect)) ==> tc_term(Term::ScalarVect(Box::new(a), Box::new(b)), g, eff).0 is Err,
        x == Type::Base(BaseType::Mat) && y == Type::Base(BaseType::Mat) ==> tc_term(Term::MatEntrywisePlus(Box::new(a), Box::new(b)), g, eff).0 == Ok::<Type, Seq<char>>(Type::Base(BaseType::Mat)),
        !(x == Type::Base(BaseType::Mat) && y == Type::Base(BaseType::Mat)) ==> tc_term(Term::MatEntrywisePlus(Box::new(a), Box::new(b)), g, eff).0 is Err,
        x == Type::Base(BaseType::Mat) && y == Type::Base(BaseType::Mat) ==> tc_term(Term::MatEntrywiseMinus(Box::new(a), Box::new(b)), g, eff).0 == Ok::<Type, Seq<char>>(Type::Base(BaseType::Mat)),
        !(x == Type::Base(BaseType::Mat) && y == Type::Base(BaseType::Mat)) ==> tc_term(Term::MatEntrywiseMinus(Box::new(a), Box::new(b)), g, eff).0 is Err,
        x == Type::Base(BaseType::Float) && y == Type::Base(BaseType::Mat) ==> tc_term(Term::ScalarMat(Box::new(a), Box::new(b)), g, eff).0 == Ok::<Type, Seq<char>>(Type::Base(BaseType::Mat)),
        !(x == Type::Base(BaseType::Float) && y == Type::Base(BaseType::Mat)) ==> tc_term(Term::ScalarMat(Box::new(a), Box::new(b)), g, eff).0 is Err,
{
    lemma_binop_table(Term::Plus(Box::new(a), Box::new(b)), a, b, g, eff);
    lemma_binop_table(Term::Times(Box::new(a), Box::new(b)), a, b, g, eff);
    lemma_binop_table(Term::PlusF(Box::new(a), Box::new(b)), a, b, g, eff);
    lemma_binop_table(Term::TimesF(Box::new(a), Box::new(b)), a, b, g, eff);
    lemma_binop_table(Term::DivF(Box::new(a), Box::new(b)), a, b, g, eff);
    lemma_binop_table(Term::MatVectMul(Box::new(a), Box::new(b)), a, b, g, eff);
    lemma_binop_table(Term::EqInt(Box::new(a), Box::new(b)), a, b, g, eff);
    lemma_binop_table(Term::LTFloat(Box::new(a), Box::new(b)), a, b, g, eff);
    lemma_binop_table(Term::GTFloat(Box::new(a), Box::new(b)), a, b, g, eff);
    lemma_binop_table(Term::ProdVecVec(Box::new(a), Box::new(b)), a, b, g, eff);
    lemma_binop_table(Term::ApplicationVectEntrywise(Box::new(a), Box::new(b)), a, b, g, eff);
    lemma_binop_table(Term::VectEntrywisePlus(Box::new(a), Box::new(b)), a, b, g, eff);
    lemma_binop_table(Term::VectEntrywiseMinus(Box::new(a), Box::new(b)), a, b, g, eff);
    lemma_binop_table(Term::VectEntrywiseTimes(Box::new(a), Box::new(b)), a, b, g, eff);
    lemma_binop_table(Term::ScalarVect(Box::new(a), Box::new(b)), a, b, g, eff);
    lemma_binop_table(Term::MatEntrywisePlus(Box::new(a), Box::new(b)), a, b, g, eff);
    lemma_binop_table(Term::MatEntrywiseMinus(Box::new(a), Box::new(b)), a, b, g, eff);
    lemma_binop_table(Term::ScalarMat(Box::new(a), Box::new(b)), a, b, g, eff);
}


/// Typing rules of terms, over all operands that check in Γ: a pair has
/// the product of its components' types, `proj1` and `proj2` give the
/// first and second factor of a product, `cons` of an element and a list
/// of such elements is a list, `head` gives the element type and `tail`
/// the list type, an application of a function from `x` to `y` to an
/// argument of type `x` has type `y` (and any other argument type is an
/// error), a lambda whose body has type `y` when its binder is added to Γ
/// is a function to `y`, and `if` with a `Bool` condition and two branches
/// of one type has that type.
pub proof fn lemma_typing_rules(a: Term, b: Term, c: Term, vt: VarWithType, x: Type, y: Type, g: Seq<VarWithType>, eff: Seq<EffectDecl>)
    ensures
        tc_term(a, g, eff).0 is Ok && tc_term(b, g, eff).0 is Ok ==> tc_term(Term::Pair(Box::new(a), Box::new(b)), g, eff).0
            == Ok::<Type, Seq<char>>(Type::Prod(Box::new(tc_term(a, g, eff).0->Ok_0), Box::new(tc_term(b, g, eff).0->Ok_0))),
            tc_term(a, g, eff).0 == Ok::<Type, Seq<char>>(Type::Prod(Box::new(x), Box::new(y))) ==> tc_term(
                Term::Fst(Box::new(a)),
                g,
                eff,
            ).0 == Ok::<Type, Seq<char>>(x) && tc_term(Term::Snd(Box::new(a)), g, eff).0 == Ok::<Type, Seq<char>>(y),
            tc_term(a, g, eff).0 == Ok::<Type, Seq<char>>(Type::List(Box::new(x))) ==> tc_term(
                Term::Head(Box::new(a)),
                g,
                eff,
            ).0 == Ok::<Type, Seq<char>>(x) && tc_term(Term::Tail(Box::new(a)), g, eff).0 == Ok::<Type, Seq<char>>(
                Type::List(Box::new(x)),
            ),
            tc_term(a, g, eff).0 == Ok::<Type, Seq<char>>(x) && tc_term(b, g, eff).0 == Ok::<Type, Seq<char>>(
                Type::List(Box::new(x)),
            ) ==> tc_term(Term::Cons(Box::new(a), Box::new(b)), g, eff).0 == Ok::<Type, Seq<char>>(
                Type::List(Box::new(x)),
            ),
            tc_term(a, g, eff).0 == Ok::<Type, Seq<char>>(Type::Fun(Box::new(x), Box::new(y)))
                && tc_term(b, g, eff).0 is Ok ==> (tc_term(Term::App(Box::new(a), Box::new(b)), g, eff).0
                == Ok::<Type, Seq<char>>(y) <==> tc_term(b, g, eff).0 == Ok::<Type, Seq<char>>(x)),
        tc_term(b, g.push(vt), eff).0 is Ok ==> tc_term(Term::Lam(vt, Box::new(b)), g, eff).0 == Ok::<Type, Seq<char>>(
            Type::Fun(Box::new(vt.typ()), Box::new(tc_term(b, g.push(vt), eff).0->Ok_0)),
        ),
        tc_term(c, g, eff).0 == Ok::<Type, Seq<char>>(Type::Base(BaseType::Bool)) && tc_term(a, g, eff).0 is Ok && tc_term(a, g, eff).0
            == tc_term(b, g, eff).0 ==> tc_term(Term::If(Box::new(c), Box::new(a), Box::new(b)), g, eff).0 == tc_term(
            a,
            g,
            eff,
        ).0,
{
    lemma_term_context_restored(a, g, eff);
    lemma_term_context_restored(c, g, eff);
}

/// The types of the constants: integers, floats, booleans, vectors and the
/// unit value have their base types, and the built-in functions have
/// `exp : Float -> Float`, `vec_zero : Int -> Vect`, `vec_size : Vect -> Int`,
/// `mat_zero : Int * Int -> Mat`, `mat_size : Mat -> Int * Int` and
/// `transpose : Mat -> Mat`.
pub proof fn lemma_constant_types(n: i32, x: u32, bo: bool, v: Vec<u32>, g: Seq<VarWithType>, eff: Seq<EffectDecl>)
    ensures
        tc_term(Term::NumInt(n), g, eff).0 == Ok::<Type, Seq<char>>(Type::Base(BaseType::Int)),
        tc_term(Term::NumFloat(x), g, eff).0 == Ok::<Type, Seq<char>>(Type::Base(BaseType::Float)),
        tc_term(Term::Bool(bo), g, eff).0 == Ok::<Type, Seq<char>>(Type::Base(BaseType::Bool)),
        tc_term(Term::Vect(v), g, eff).0 == Ok::<Type, Seq<char>>(Type::Base(BaseType::Vect)),
        tc_term(Term::Unt, g, eff).0 == Ok::<Type, Seq<char>>(Type::Base(BaseType::Unit)),
        tc_term(Term::Exp, g, eff).0 == Ok::<Type, Seq<char>>(Type::Fun(Box::new(Type::Base(BaseType::Float)), Box::new(Type::Base(BaseType::Float)))),
        tc_term(Term::VectZero, g, eff).0 == Ok::<Type, Seq<char>>(Type::Fun(Box::new(Type::Base(BaseType::Int)), Box::new(Type::Base(BaseType::Vect)))),
        tc_term(Term::VectSize, g, eff).0 == Ok::<Type, Seq<char>>(Type::Fun(Box::new(Type::Base(BaseType::Vect)), Box::new(Type::Base(BaseType::Int)))),
        tc_term(Term::MatZero, g, eff).0 == Ok::<Type, Seq<char>>(
            Type::Fun(Box::new(Type::Prod(Box::new(Type::Base(BaseType::Int)), Box::new(Type::Base(BaseType::Int)))), Box::new(Type::Base(BaseType::Mat))),
        ),
        tc_term(Term::MatSize, g, eff).0 == Ok::<Type, Seq<char>>(
            Type::Fun(Box::new(Type::Base(BaseType::Mat)), Box::new(Type::Prod(Box::new(Type::Base(BaseType::Int)), Box::new(Type::Base(BaseType::Int))))),
        ),
        tc_term(Term::Transpose, g, eff).0 == Ok::<Type, Seq<char>>(Type::Fun(Box::new(Type::Base(BaseType::Mat)), Box::new(Type::Base(BaseType::Mat)))),
{
}

} // verus!
