//! The type checker of the full language.  Each function computes exactly
//! the outcome that `crate::typing` gives for its input, contexts included.
use vstd::prelude::*;
use crate::ast::{
    BaseType, Type, VarWithType, VarProd, Var, Term, Command, VTR, Handler, HandlerRet, HandlerOp,
    Operation, EffectDecl, TopLevelTerm, TopLevelCommand,
};
use crate::show::{
    write_type, write_var_with_type, write_operation, write_matrix, debug_str, type_text,
    var_with_type_text, operation_text, matrix_text, str_debug,
};
use crate::typing::{
    BinSig, binop_sig, binop_out, tc_term, tc_command, tc_handler, tc_clauses, tc_clause, search_type_spec,
    lookup_var, lookup_op, mismatch_text, wrong_text, is_rectangular, lemma_term_context_grows,
    is_prefix, tc_toplevel, check_functions, check_arrows, check_function, check_arrow, toplevel_context, function_binding,
    arrow_binding, lemma_command_context_restored,
};

verus! {

/// A checker result, with the message as a sequence of characters.
pub open spec fn result_view(r: Result<Type, String>) -> Result<Type, Seq<char>> {
    match r {
        Ok(t) => Ok(t),
        Err(e) => Err(e@),
    }
}

pub open spec fn handler_result_view(r: Result<(Type, Type), String>) -> Result<(Type, Type), Seq<char>> {
    match r {
        Ok(p) => Ok(p),
        Err(e) => Err(e@),
    }
}

pub open spec fn unit_result_view(r: Result<(), String>) -> Result<(), Seq<char>> {
    match r {
        Ok(()) => Ok(()),
        Err(e) => Err(e@),
    }
}

fn text(s: &str) -> (res: String)
    ensures
        res@ == s@,
{
    let mut m = String::new();
    m.append(s);
    m
}

fn mismatch_msg(label: &str, a: &Type, b: &Type) -> (res: String)
    ensures
        res@ == mismatch_text(label@, *a, *b),
{
    let mut m = String::new();
    m.append("type mismatch (");
    m.append(label);
    m.append("): ");
    write_type(&mut m, a);
    m.append(" != ");
    write_type(&mut m, b);
    assert(m@ =~= mismatch_text(label@, *a, *b));
    m
}

fn wrong_msg(label: &str, a: &Type, suffix: &str) -> (res: String)
    ensures
        res@ == wrong_text(label@, *a, suffix@),
{
    let mut m = String::new();
    m.append("type mismatch (");
    m.append(label);
    m.append("): ");
    write_type(&mut m, a);
    m.append(suffix);
    assert(m@ =~= wrong_text(label@, *a, suffix@));
    m
}

fn not_of_msg(label: &str, a: &Type, desc: &str) -> (res: String)
    ensures
        res@ == wrong_text(label@, *a, " is not "@ + desc@),
{
    let mut m = String::new();
    m.append("type mismatch (");
    m.append(label);
    m.append("): ");
    write_type(&mut m, a);
    m.append(" is not ");
    m.append(desc);
    assert(m@ =~= wrong_text(label@, *a, " is not "@ + desc@));
    m
}

/// Where `name` occurs in the binder `var` of type `typ`.
fn search_type(name: &String, var: &VarProd, typ: &Type) -> (res: Result<Option<Type>, ()>)
    ensures
        res == search_type_spec(name@, *var, *typ),
    decreases var,
{
    match (var, typ) {
        (VarProd::Unused, _) => Ok(None),
        (VarProd::V(varname), typ) => {
            if *name == *varname {
                Ok(Some(typ.clone()))
            } else {
                Ok(None)
            }
        },
        (VarProd::P(var1, var2), Type::Prod(typ1, typ2)) => {
            match search_type(name, var1, typ1) {
                Ok(Some(typ)) => Ok(Some(typ)),
                Ok(None) => search_type(name, var2, typ2),
                Err(()) => Err(()),
            }
        },
        (VarProd::P(_, _), _) => Err(()),
    }
}

/// The type of variable `name`: the last binding that mentions it decides.
fn search_type_of_var(name: &String, var_and_type: &Vec<VarWithType>) -> (res: Result<Type, String>)
    ensures
        result_view(res) == lookup_var(name@, var_and_type@),
{
    let mut i = var_and_type.len();
    assert(var_and_type@.subrange(0, i as int) =~= var_and_type@);
    while i > 0
        invariant
            i <= var_and_type@.len(),
            lookup_var(name@, var_and_type@) == lookup_var(
                name@,
                var_and_type@.subrange(0, i as int),
            ),
        decreases i,
    {
        let vt = &var_and_type[i - 1];
        proof {
            let s = var_and_type@.subrange(0, i as int);
            assert(s.drop_last() =~= var_and_type@.subrange(0, i - 1));
            assert(s.last() == var_and_type@[i - 1]);
        }
        match vt {
            VarWithType::VT(var, typ) => {
                match search_type(name, var, typ) {
                    Ok(Some(typ)) => {
                        return Ok(typ);
                    },
                    Ok(None) => {},
                    Err(()) => {
                        let mut m = String::new();
                        m.append("illigal product: ");
                        write_var_with_type(&mut m, vt);
                        return Err(m);
                    },
                }
            },
        }
        i = i - 1;
    }
    assert(var_and_type@.subrange(0, 0) =~= Seq::<VarWithType>::empty());
    let mut m = String::new();
    m.append("variable not found: ");
    m.append(name.as_str());
    Err(m)
}

fn same_operation(a: &Operation, b: &Operation) -> (res: bool)
    ensures
        res == (a.name() == b.name()),
{
    match (a, b) {
        (Operation::Op(x), Operation::Op(y)) => *x == *y,
    }
}

/// The argument and result types of `opr`: the first declaration decides.
fn search_type_of_operation(opr: &Operation, effects: &Vec<EffectDecl>) -> (res: Option<(Type, Type)>)
    ensures
        res == lookup_op(opr.name(), effects@),
{
    let mut i: usize = 0;
    assert(effects@.subrange(0, effects@.len() as int) =~= effects@);
    while i < effects.len()
        invariant
            i <= effects@.len(),
            lookup_op(opr.name(), effects@) == lookup_op(
                opr.name(),
                effects@.subrange(i as int, effects@.len() as int),
            ),
        decreases effects.len() - i,
    {
        proof {
            let s = effects@.subrange(i as int, effects@.len() as int);
            assert(s.drop_first() =~= effects@.subrange(i + 1, effects@.len() as int));
        }
        let (o, typ1, typ2) = &effects[i];
        if same_operation(opr, o) {
            return Some((typ1.clone(), typ2.clone()));
        }
        i = i + 1;
    }
    None
}

/// The signature of the binary operator at the root of `t`.
fn binop_signature(t: &Term) -> (res: BinSig)
    ensures
        res == binop_sig(*t),
{
    let i = Type::Base(BaseType::Int);
    let f = Type::Base(BaseType::Float);
    let v = Type::Base(BaseType::Vect);
    let m = Type::Base(BaseType::Mat);
    let b = Type::Base(BaseType::Bool);
    match t {
        Term::Plus(_, _) => BinSig {
            left: i,
            right: Type::Base(BaseType::Int),
            result: Type::Base(BaseType::Int),
            label: "+",
            left_desc: "an integer",
            right_desc: "an integer",
        },
        Term::Times(_, _) => BinSig {
            left: i,
            right: Type::Base(BaseType::Int),
            result: Type::Base(BaseType::Int),
            label: "*",
            left_desc: "Int",
            right_desc: "Int",
        },
        Term::PlusF(_, _) => BinSig {
            left: f,
            right: Type::Base(BaseType::Float),
            result: Type::Base(BaseType::Float),
            label: "+.",
            left_desc: "Float",
            right_desc: "Float",
        },
        Term::TimesF(_, _) => BinSig {
            left: f,
            right: Type::Base(BaseType::Float),
            result: Type::Base(BaseType::Float),
            label: "*.",
            left_desc: "Float",
            right_desc: "Float",
        },
        Term::DivF(_, _) => BinSig {
            left: f,
            right: Type::Base(BaseType::Float),
            result: Type::Base(BaseType::Float),
            label: "/.",
            left_desc: "Float",
            right_desc: "Float",
        },
        Term::MatVectMul(_, _) => BinSig {
            left: m,
            right: v,
            result: Type::Base(BaseType::Vect),
            label: "#>",
            left_desc: "Mat",
            right_desc: "Vec",
        },
        Term::EqInt(_, _) => BinSig {
            left: i,
            right: Type::Base(BaseType::Int),
            result: b,
            label: "==",
            left_desc: "Int",
            right_desc: "Int",
        },
        Term::LTFloat(_, _) => BinSig {
            left: f,
            right: Type::Base(BaseType::Float),
            result: b,
            label: "<.",
            left_desc: "Int",
            right_desc: "Int",
        },
        Term::GTFloat(_, _) => BinSig {
            left: f,
            right: Type::Base(BaseType::Float),
            result: b,
            label: ">.",
            left_desc: "Int",
            right_desc: "Int",
        },
        Term::ProdVecVec(_, _) => BinSig {
            left: v,
            right: Type::Base(BaseType::Vect),
            result: m,
            label: "><",
            left_desc: "Vec",
            right_desc: "Vec",
        },
        Term::ApplicationVectEntrywise(_, _) => BinSig {
            left: Type::Fun(Box::new(f), Box::new(Type::Base(BaseType::Float))),
            right: v,
            result: Type::Base(BaseType::Vect),
            label: "$>",
            left_desc: "Float -> Float",
            right_desc: "Vec",
        },
        Term::VectEntrywisePlus(_, _) => BinSig {
            left: v,
            right: Type::Base(BaseType::Vect),
            result: Type::Base(BaseType::Vect),
            label: "<+>",
            left_desc: "Vec",
            right_desc: "Vec",
        },
        Term::VectEntrywiseMinus(_, _) => BinSig {
            left: v,
            right: Type::Base(BaseType::Vect),
            result: Type::Base(BaseType::Vect),
            label: "<->",
            left_desc: "Vec",
            right_desc: "Vec",
        },
        Term::VectEntrywiseTimes(_, _) => BinSig {
            left: v,
            right: Type::Base(BaseType::Vect),
            result: Type::Base(BaseType::Vect),
            label: "<*>",
            left_desc: "Vec",
            right_desc: "Vec",
        },
        Term::ScalarVect(_, _) => BinSig {
            left: f,
            right: v,
            result: Type::Base(BaseType::Vect),
            label: ".>",
            left_desc: "Float",
            right_desc: "Vec",
        },
        Term::MatEntrywisePlus(_, _) => BinSig {
            left: m,
            right: Type::Base(BaseType::Mat),
            result: Type::Base(BaseType::Mat),
            label: "#+#",
            left_desc: "Mat",
            right_desc: "Mat",
        },
        Term::MatEntrywiseMinus(_, _) => BinSig {
            left: m,
            right: Type::Base(BaseType::Mat),
            result: Type::Base(BaseType::Mat),
            label: "#-#",
            left_desc: "Mat",
            right_desc: "Mat",
        },
        _ => BinSig {
            left: f,
            right: m,
            result: Type::Base(BaseType::Mat),
            label: ".#",
            left_desc: "Float",
            right_desc: "Mat",
        },
    }
}

/// Checks a matrix literal for rectangular shape.
fn check_matrix(mat: &Vec<Vec<u32>>) -> (res: Result<Type, String>)
    ensures
        is_rectangular(mat@) ==> res == Ok::<Type, String>(Type::Base(BaseType::Mat)),
        !is_rectangular(mat@) ==> result_view(res) == Err::<Type, Seq<char>>(
            "matrix "@ + matrix_text(mat@) + " is not rectangular"@,
        ),
{
    if mat.len() != 0 {
        let n = mat[0].len();
        let mut i: usize = 0;
        while i < mat.len()
            invariant
                i <= mat@.len(),
                mat@.len() > 0,
                n == mat@[0]@.len(),
                forall|j: int| 0 <= j < i ==> #[trigger] mat@[j]@.len() == n,
            decreases mat.len() - i,
        {
            if mat[i].len() != n {
                let mut m = String::new();
                m.append("matrix ");
                write_matrix(&mut m, mat);
                m.append(" is not rectangular");
                assert(m@ =~= "matrix "@ + matrix_text(mat@) + " is not rectangular"@);
                return Err(m);
            }
            i = i + 1;
        }
    }
    Ok(Type::Base(BaseType::Mat))
}

/// Type of a term in context `var_and_type` (Γ); Γ is left as the checker
/// leaves it.
pub fn typecheck_term(t: &Term, var_and_type: &mut Vec<VarWithType>, effects: &Vec<EffectDecl>) -> (res:
    Result<Type, String>)
    ensures
        (result_view(res), final(var_and_type)@) == tc_term(*t, old(var_and_type)@, effects@),
    decreases t, 0nat,
{
    match t {
        Term::NumInt(_) => Ok(Type::Base(BaseType::Int)),
        Term::NumFloat(_) => Ok(Type::Base(BaseType::Float)),
        Term::Vect(_) => Ok(Type::Base(BaseType::Vect)),
        Term::Mat(mat) => check_matrix(mat),
        Term::Bool(_) => Ok(Type::Base(BaseType::Bool)),
        Term::Unt => Ok(Type::Base(BaseType::Unit)),
        Term::Exp => Ok(
            Type::Fun(Box::new(Type::Base(BaseType::Float)), Box::new(Type::Base(BaseType::Float))),
        ),
        Term::Nil(typ) => Ok(Type::List(Box::new(typ.clone()))),
        Term::Cons(t_head, t_tail) => {
            match typecheck_term(t_head, var_and_type, effects) {
                Ok(typ_head) => {
                    match typecheck_term(t_tail, var_and_type, effects) {
                        Ok(typ_tail) => {
                            let want = Type::List(Box::new(typ_head));
                            if typ_tail == want {
                                Ok(want)
                            } else {
                                Err(mismatch_msg("Cons", &typ_tail, &want))
                            }
                        },
                        Err(e) => Err(e),
                    }
                },
                Err(e) => Err(e),
            }
        },
        Term::Head(s) => {
            match typecheck_term(s, var_and_type, effects) {
                Ok(Type::List(typ)) => Ok(*typ),
                Ok(typ) => Err(wrong_msg("Head", &typ, " is not a list")),
                Err(e) => Err(e),
            }
        },
        Term::Tail(s) => {
            match typecheck_term(s, var_and_type, effects) {
                Ok(Type::List(typ)) => Ok(Type::List(typ)),
                Ok(typ) => Err(wrong_msg("Tail", &typ, " is not a list")),
                Err(e) => Err(e),
            }
        },
        Term::VectZero => Ok(
            Type::Fun(Box::new(Type::Base(BaseType::Int)), Box::new(Type::Base(BaseType::Vect))),
        ),
        Term::VectSize => Ok(
            Type::Fun(Box::new(Type::Base(BaseType::Vect)), Box::new(Type::Base(BaseType::Int))),
        ),
        Term::MatZero => Ok(
            Type::Fun(
                Box::new(
                    Type::Prod(
                        Box::new(Type::Base(BaseType::Int)),
                        Box::new(Type::Base(BaseType::Int)),
                    ),
                ),
                Box::new(Type::Base(BaseType::Mat)),
            ),
        ),
        Term::MatSize => Ok(
            Type::Fun(
                Box::new(Type::Base(BaseType::Mat)),
                Box::new(
                    Type::Prod(
                        Box::new(Type::Base(BaseType::Int)),
                        Box::new(Type::Base(BaseType::Int)),
                    ),
                ),
            ),
        ),
        Term::Transpose => Ok(
            Type::Fun(Box::new(Type::Base(BaseType::Mat)), Box::new(Type::Base(BaseType::Mat))),
        ),
        Term::Var(Var::V(vname)) => search_type_of_var(vname, var_and_type),
        Term::Pair(t1, t2) => {
            match typecheck_term(t1, var_and_type, effects) {
                Ok(typ1) => {
                    match typecheck_term(t2, var_and_type, effects) {
                        Ok(typ2) => Ok(Type::Prod(Box::new(typ1), Box::new(typ2))),
                        Err(e) => Err(e),
                    }
                },
                Err(e) => Err(e),
            }
        },
        Term::Fst(s) => {
            match typecheck_term(s, var_and_type, effects) {
                Ok(Type::Prod(typ1, _)) => Ok(*typ1),
                Ok(typ) => Err(wrong_msg("Fst", &typ, " is not a product type")),
                Err(e) => Err(e),
            }
        },
        Term::Snd(s) => {
            match typecheck_term(s, var_and_type, effects) {
                Ok(Type::Prod(_, typ2)) => Ok(*typ2),
                Ok(typ) => Err(wrong_msg("Snd", &typ, " is not a product type")),
                Err(e) => Err(e),
            }
        },
        Term::Lam(vt, body) => {
            var_and_type.push(vt.clone());
            match typecheck_term(body, var_and_type, effects) {
                Ok(typ2) => {
                    var_and_type.pop();
                    match vt {
                        VarWithType::VT(_, typ1) => Ok(Type::Fun(Box::new(typ1.clone()), Box::new(typ2))),
                    }
                },
                Err(e) => Err(e),
            }
        },
        Term::App(t1, t2) => {
            match typecheck_term(t1, var_and_type, effects) {
                Ok(Type::Fun(typ1, typ2)) => {
                    match typecheck_term(t2, var_and_type, effects) {
                        Ok(typ3) => {
                            if *typ1 == typ3 {
                                Ok(*typ2)
                            } else {
                                Err(mismatch_msg("App", &typ1, &typ3))
                            }
                        },
                        Err(e) => Err(e),
                    }
                },
                Ok(typ) => Err(wrong_msg("App", &typ, " is not a function")),
                Err(e) => Err(e),
            }
        },
        Term::CLam(vt, c) => {
            let mut arrow_var_and_type = vec![vt.clone()];
            assert(arrow_var_and_type@ =~= seq![*vt]);
            match typecheck_command(c, var_and_type, &mut arrow_var_and_type, effects) {
                Ok(typ2) => {
                    match vt {
                        VarWithType::VT(_, typ1) => Ok(Type::Arr(Box::new(typ1.clone()), Box::new(typ2))),
                    }
                },
                Err(e) => Err(e),
            }
        },
        Term::If(tc, t1, t2) => {
            match typecheck_term(tc, var_and_type, effects) {
                Ok(typ) => {
                    if !(typ == Type::Base(BaseType::Bool)) {
                        Err(wrong_msg("If", &typ, " is not Bool"))
                    } else {
                        match typecheck_term(t1, var_and_type, effects) {
                            Ok(typ1) => {
                                match typecheck_term(t2, var_and_type, effects) {
                                    Ok(typ2) => {
                                        if typ1 == typ2 {
                                            Ok(typ1)
                                        } else {
                                            Err(mismatch_msg("If", &typ1, &typ2))
                                        }
                                    },
                                    Err(e) => Err(e),
                                }
                            },
                            Err(e) => Err(e),
                        }
                    }
                },
                Err(e) => Err(e),
            }
        },
        Term::Plus(t1, t2)
        | Term::Times(t1, t2)
        | Term::PlusF(t1, t2)
        | Term::TimesF(t1, t2)
        | Term::DivF(t1, t2)
        | Term::MatVectMul(t1, t2)
        | Term::EqInt(t1, t2)
        | Term::LTFloat(t1, t2)
        | Term::GTFloat(t1, t2)
        | Term::ProdVecVec(t1, t2)
        | Term::ApplicationVectEntrywise(t1, t2)
        | Term::VectEntrywisePlus(t1, t2)
        | Term::VectEntrywiseMinus(t1, t2)
        | Term::VectEntrywiseTimes(t1, t2)
        | Term::ScalarVect(t1, t2)
        | Term::MatEntrywisePlus(t1, t2)
        | Term::MatEntrywiseMinus(t1, t2)
        | Term::ScalarMat(t1, t2) => {
            let s = binop_signature(t);
            match typecheck_term(t1, var_and_type, effects) {
                Ok(typ1) => {
                    if !(typ1 == s.left) {
                        Err(not_of_msg(s.label, &typ1, s.left_desc))
                    } else {
                        match typecheck_term(t2, var_and_type, effects) {
                            Ok(typ2) => {
                                if !(typ2 == s.right) {
                                    Err(not_of_msg(s.label, &typ2, s.right_desc))
                                } else {
                                    Ok(s.result)
                                }
                            },
                            Err(e) => Err(e),
                        }
                    }
                },
                Err(e) => Err(e),
            }
        },
    }
}

/// Checks `t` under the joined context Γ,Δ; when it checks, the joined
/// context is split back into Γ (its first `l` bindings) and Δ.
fn typecheck_joined(
    t: &Term,
    var_and_type: &mut Vec<VarWithType>,
    arrow_var_and_type: &mut Vec<VarWithType>,
    effects: &Vec<EffectDecl>,
) -> (res: Result<Type, String>)
    ensures
        ({
            let l = old(var_and_type)@.len() as int;
            let o = tc_term(*t, old(var_and_type)@ + old(arrow_var_and_type)@, effects@);
            &&& result_view(res) == o.0
            &&& res is Ok ==> final(var_and_type)@ == o.1.subrange(0, l)
            &&& res is Ok ==> final(arrow_var_and_type)@ == o.1.subrange(l, o.1.len() as int)
            &&& res is Err ==> final(var_and_type)@ == o.1
            &&& res is Err ==> final(arrow_var_and_type)@ == Seq::<VarWithType>::empty()
        }),
    decreases t, 1nat,
{
    let l = var_and_type.len();
    var_and_type.append(arrow_var_and_type);
    let ghost joined = var_and_type@;
    match typecheck_term(t, var_and_type, effects) {
        Ok(typ) => {
            proof {
                lemma_term_context_grows(*t, joined, effects@);
            }
            let mut rest = var_and_type.split_off(l);
            arrow_var_and_type.append(&mut rest);
            Ok(typ)
        },
        Err(e) => Err(e),
    }
}

/// Type of a command with term context `var_and_type` (Γ) and arrow
/// context `arrow_var_and_type` (Δ); both are left as the checker leaves
/// them.
pub fn typecheck_command(
    c: &Command,
    var_and_type: &mut Vec<VarWithType>,
    arrow_var_and_type: &mut Vec<VarWithType>,
    effects: &Vec<EffectDecl>,
) -> (res: Result<Type, String>)
    ensures
        (result_view(res), final(var_and_type)@, final(arrow_var_and_type)@) == tc_command(
            *c,
            old(var_and_type)@,
            old(arrow_var_and_type)@,
            effects@,
        ),
    decreases c, 0nat,
{
    match c {
        Command::Return(VTR::Resume) => Err(text("resume variable")),
        Command::Return(VTR::V(_)) => Err(text("found a value")),
        Command::Return(VTR::T(t)) => typecheck_joined(t, var_and_type, arrow_var_and_type, effects),
        Command::Let(vt, c1, c2, _) => {
            match typecheck_command(c1, var_and_type, arrow_var_and_type, effects) {
                Ok(typ1_) => {
                    let typ1 = match vt {
                        VarWithType::VT(_, typ1) => typ1,
                    };
                    if *typ1 == typ1_ {
                        arrow_var_and_type.push(vt.clone());
                        match typecheck_command(c2, var_and_type, arrow_var_and_type, effects) {
                            Ok(typ2) => {
                                arrow_var_and_type.pop();
                                Ok(typ2)
                            },
                            Err(e) => Err(e),
                        }
                    } else {
                        Err(mismatch_msg("Let", typ1, &typ1_))
                    }
                },
                Err(e) => Err(e),
            }
        },
        Command::CApp(t1, t2) => {
            match typecheck_term(t1, var_and_type, effects) {
                Ok(Type::Arr(typ1, typ2)) => {
                    let ghost g1 = var_and_type@;
                    let l = var_and_type.len();
                    var_and_type.append(arrow_var_and_type);
                    let ghost joined = var_and_type@;
                    match typecheck_term(t2, var_and_type, effects) {
                        Ok(typ1_) => {
                            if *typ1 == typ1_ {
                                proof {
                                    lemma_term_context_grows(**t2, joined, effects@);
                                }
                                let mut rest = var_and_type.split_off(l);
                                arrow_var_and_type.append(&mut rest);
                                Ok(*typ2)
                            } else {
                                Err(mismatch_msg("CApp", &typ1, &typ1_))
                            }
                        },
                        Err(e) => Err(e),
                    }
                },
                Ok(typ) => Err(wrong_msg("CApp", &typ, " is not an arrow type")),
                Err(e) => Err(e),
            }
        },
        Command::DoOp(opr, t) => {
            let ghost g0 = var_and_type@;
            let ghost d0 = arrow_var_and_type@;
            let l = var_and_type.len();
            var_and_type.append(arrow_var_and_type);
            let ghost joined = var_and_type@;
            match typecheck_term(t, var_and_type, effects) {
                Ok(typ) => {
                    match search_type_of_operation(opr, effects) {
                        Some((typ_gamma, typ_delta)) => {
                            if typ == typ_gamma {
                                proof {
                                    lemma_term_context_grows(**t, joined, effects@);
                                }
                                let mut rest = var_and_type.split_off(l);
                                arrow_var_and_type.append(&mut rest);
                                Ok(typ_delta)
                            } else {
                                Err(mismatch_msg("DoOp", &typ, &typ_gamma))
                            }
                        },
                        None => {
                            let mut m = String::new();
                            m.append("unknown operation (DoOp): ");
                            write_operation(&mut m, opr);
                            Err(m)
                        },
                    }
                },
                Err(e) => Err(e),
            }
        },
        Command::Handle(c1, handler, _) => {
            match typecheck_command(c1, var_and_type, arrow_var_and_type, effects) {
                Ok(typ) => {
                    match typecheck_handler(handler, var_and_type, effects) {
                        Ok((typ1, typ2)) => {
                            if typ == typ1 {
                                Ok(typ2)
                            } else {
                                Err(mismatch_msg("Handle", &typ, &typ1))
                            }
                        },
                        Err(e) => Err(e),
                    }
                },
                Err(e) => Err(e),
            }
        },
    }
}

/// Checks one operation clause of a handler whose result type is `typ2`.
fn typecheck_clause(
    clause: &HandlerOp,
    var_and_type: &mut Vec<VarWithType>,
    effects: &Vec<EffectDecl>,
    typ2: &Type,
) -> (res: Result<(), String>)
    ensures
        (unit_result_view(res), final(var_and_type)@) == tc_clause(
            *clause,
            old(var_and_type)@,
            effects@,
            *typ2,
        ),
    decreases clause, 0nat,
{
    match clause {
        HandlerOp::HOp(opr, vt_k, vt_z, c_op) => {
            match search_type_of_operation(opr, effects) {
                Some((typ_gamma, typ_delta)) => {
                    match vt_k {
                        VarWithType::VT(_, Type::Arr(typ_delta_, typ2_)) => {
                            if !(**typ_delta_ == typ_delta) {
                                return Err(mismatch_msg("handler 0", typ_delta_, &typ_delta));
                            }
                            if !(**typ2_ == *typ2) {
                                return Err(mismatch_msg("handler 1", typ2_, typ2));
                            }
                            match vt_z {
                                VarWithType::VT(_, typ_gamma_) => {
                                    if !(*typ_gamma_ == typ_gamma) {
                                        return Err(mismatch_msg("handler 2", typ_gamma_, &typ_gamma));
                                    }
                                    let mut arrow_var_and_type = vec![vt_z.clone()];
                                    assert(arrow_var_and_type@ =~= seq![*vt_z]);
                                    let ghost g0 = var_and_type@;
                                    var_and_type.push(vt_k.clone());
                                    let ghost g1 = var_and_type@;
                                    match typecheck_command(c_op, var_and_type, &mut arrow_var_and_type, effects) {
                                        Ok(typ2__) => {
                                            if !(typ2__ == *typ2) {
                                                return Err(mismatch_msg("handler 3", typ2_, typ2));
                                            }
                                            proof {
                                                lemma_command_context_restored(**c_op, g1, seq![*vt_z], effects@);
                                            }
                                            // `k` is in scope in this clause only
                                            var_and_type.pop();
                                            Ok(())
                                        },
                                        Err(e) => Err(e),
                                    }
                                },
                            }
                        },
                        _ => {
                            let mut m = String::new();
                            write_var_with_type(&mut m, vt_k);
                            m.append(" is not an arrow type");
                            Err(m)
                        },
                    }
                },
                None => {
                    let mut m = String::new();
                    m.append("operation ");
                    write_operation(&mut m, opr);
                    m.append(" not found");
                    Err(m)
                },
            }
        },
    }
}

/// Checks the operation clauses of a handler whose result type is `typ2`,
/// in order, stopping at the first that fails.
fn typecheck_clauses(
    hops: &Vec<HandlerOp>,
    var_and_type: &mut Vec<VarWithType>,
    effects: &Vec<EffectDecl>,
    typ2: &Type,
) -> (res: Result<(), String>)
    ensures
        (unit_result_view(res), final(var_and_type)@) == tc_clauses(
            hops@,
            old(var_and_type)@,
            effects@,
            *typ2,
        ),
    decreases hops, 0nat,
{
    let mut i: usize = 0;
    assert(hops@.subrange(0, hops@.len() as int) =~= hops@);
    while i < hops.len()
        invariant
            i <= hops@.len(),
            tc_clauses(hops@, old(var_and_type)@, effects@, *typ2) == tc_clauses(
                hops@.subrange(i as int, hops@.len() as int),
                var_and_type@,
                effects@,
                *typ2,
            ),
        decreases hops.len() - i,
    {
        proof {
            let s = hops@.subrange(i as int, hops@.len() as int);
            assert(s.drop_first() =~= hops@.subrange(i + 1, hops@.len() as int));
            assert(s[0] == hops@[i as int]);
            assert(decreases_to!(*hops => hops@));
            assert(decreases_to!(hops@ => hops@[i as int]));
        }
        match typecheck_clause(&hops[i], var_and_type, effects, typ2) {
            Ok(()) => {},
            Err(e) => {
                return Err(e);
            },
        }
        i = i + 1;
    }
    assert(hops@.subrange(hops@.len() as int, hops@.len() as int) =~= Seq::<HandlerOp>::empty());
    Ok(())
}

/// Input and output types of a handler, checked in term context
/// `var_and_type` (Γ), which is left as the checker leaves it.
pub fn typecheck_handler(handler: &Handler, var_and_type: &mut Vec<VarWithType>, effects: &Vec<EffectDecl>) -> (res:
    Result<(Type, Type), String>)
    ensures
        (handler_result_view(res), final(var_and_type)@) == tc_handler(
            *handler,
            old(var_and_type)@,
            effects@,
        ),
    decreases handler, 0nat,
{
    match handler {
        Handler::H(hret, hops) => {
            match hret {
                HandlerRet::HRet(vt, c) => {
                    let mut arrow_var_and_type = vec![vt.clone()];
                    assert(arrow_var_and_type@ =~= seq![*vt]);
                    match typecheck_command(c, var_and_type, &mut arrow_var_and_type, effects) {
                        Ok(typ2) => {
                            match typecheck_clauses(hops, var_and_type, effects, &typ2) {
                                Ok(()) => {},
                                Err(e) => {
                                    return Err(e);
                                },
                            }
                            match vt {
                                VarWithType::VT(_, typ1) => Ok((typ1.clone(), typ2)),
                            }
                        },
                        Err(e) => Err(e),
                    }
                },
            }
        },
    }
}

/// Checks one top-level function against its declared result type.
fn check_one_function(f: &TopLevelTerm, var_and_type: &mut Vec<VarWithType>, effects: &Vec<EffectDecl>) -> (res:
    Result<(), String>)
    ensures
        (unit_result_view(res), final(var_and_type)@) == check_function(*f, old(var_and_type)@, effects@),
{
    let func_name = match &f.0 {
        Var::V(s) => s,
    };
    var_and_type.push(f.1.clone());
    match typecheck_term(&f.3, var_and_type, effects) {
        Ok(ret_typ_) => {
            var_and_type.pop();
            if !(ret_typ_ == f.2) {
                let mut m = String::new();
                m.append("Type Error: function ");
                let d = debug_str(func_name.as_str());
                m.append(d.as_str());
                m.append(", ");
                write_type(&mut m, &f.2);
                m.append(" != ");
                write_type(&mut m, &ret_typ_);
                assert(m@ =~= "Type Error: function "@ + str_debug(func_name@) + ", "@ + type_text(f.2)
                    + " != "@ + type_text(ret_typ_));
                return Err(m);
            }
            Ok(())
        },
        Err(e) => {
            let mut m = String::new();
            m.append(func_name.as_str());
            m.append(": ");
            m.append(e.as_str());
            Err(m)
        },
    }
}

/// Checks one top-level arrow against its declared result type.
fn check_one_arrow(a: &TopLevelCommand, var_and_type: &mut Vec<VarWithType>, effects: &Vec<EffectDecl>) -> (res:
    Result<(), String>)
    ensures
        (unit_result_view(res), final(var_and_type)@) == check_arrow(*a, old(var_and_type)@, effects@),
{
    let arr_name = match &a.0 {
        Var::V(s) => s,
    };
    let ghost g0 = var_and_type@;
    var_and_type.push(a.1.clone());
    let mut arrow_var_and_type = vec![a.2.clone()];
    assert(arrow_var_and_type@ =~= seq![a.2]);
    match typecheck_command(&a.4, var_and_type, &mut arrow_var_and_type, effects) {
        Ok(ret_typ_) => {
            assert(tc_term(Term::CLam(a.2, Box::new(a.4)), g0.push(a.1), effects@) == (
                Ok::<Type, Seq<char>>(Type::Arr(Box::new(a.2.typ()), Box::new(ret_typ_))),
                var_and_type@,
            ));
            var_and_type.pop();
            if !(ret_typ_ == a.3) {
                let mut m = String::new();
                m.append("Type Error: arrow ");
                let d = debug_str(arr_name.as_str());
                m.append(d.as_str());
                m.append(", ");
                write_type(&mut m, &a.3);
                m.append(" != ");
                write_type(&mut m, &ret_typ_);
                assert(m@ =~= "Type Error: arrow "@ + str_debug(arr_name@) + ", "@ + type_text(a.3)
                    + " != "@ + type_text(ret_typ_));
                return Err(m);
            }
            Ok(())
        },
        Err(e) => {
            assert(tc_term(Term::CLam(a.2, Box::new(a.4)), g0.push(a.1), effects@) == (
                Err::<Type, Seq<char>>(e@),
                var_and_type@,
            ));
            let mut m = String::new();
            m.append(arr_name.as_str());
            m.append(": ");
            m.append(e.as_str());
            Err(m)
        },
    }
}

/// Checks a whole program: every top-level function and arrow is checked
/// against its declared type, with all top-level names in scope.
pub fn typecheck_toplevel(
    effects: &Vec<EffectDecl>,
    functions: &Vec<TopLevelTerm>,
    arrows: &Vec<TopLevelCommand>,
) -> (res: Result<(), String>)
    ensures
        unit_result_view(res) == tc_toplevel(effects@, functions@, arrows@),
{
    let mut var_and_type: Vec<VarWithType> = Vec::new();
    let mut i: usize = 0;
    while i < functions.len()
        invariant
            i <= functions@.len(),
            var_and_type@ == functions@.subrange(0, i as int).map_values(
                |f: TopLevelTerm| function_binding(f),
            ),
        decreases functions.len() - i,
    {
        let f = &functions[i];
        match (&f.0, &f.1) {
            (Var::V(func_name), VarWithType::VT(_, arg_typ)) => {
                var_and_type.push(
                    VarWithType::VT(
                        VarProd::V(func_name.clone()),
                        Type::Fun(Box::new(arg_typ.clone()), Box::new(f.2.clone())),
                    ),
                );
            },
        }
        assert(functions@.subrange(0, i + 1).map_values(|f: TopLevelTerm| function_binding(f))
            =~= functions@.subrange(0, i as int).map_values(
            |f: TopLevelTerm| function_binding(f),
        ).push(function_binding(functions@[i as int])));
        i = i + 1;
    }
    assert(functions@.subrange(0, functions@.len() as int) =~= functions@);
    let ghost fs_ctx = var_and_type@;
    let mut j: usize = 0;
    assert(arrows@.subrange(0, 0).map_values(|a: TopLevelCommand| arrow_binding(a)) =~= Seq::<
        VarWithType,
    >::empty());
    assert(var_and_type@ =~= fs_ctx + arrows@.subrange(0, 0).map_values(
        |a: TopLevelCommand| arrow_binding(a),
    ));
    while j < arrows.len()
        invariant
            j <= arrows@.len(),
            var_and_type@ == fs_ctx + arrows@.subrange(0, j as int).map_values(
                |a: TopLevelCommand| arrow_binding(a),
            ),
        decreases arrows.len() - j,
    {
        let a = &arrows[j];
        match (&a.0, &a.1, &a.2) {
            (Var::V(arr_name), VarWithType::VT(_, arg_typ), VarWithType::VT(_, arr_arg_typ)) => {
                var_and_type.push(
                    VarWithType::VT(
                        VarProd::V(arr_name.clone()),
                        Type::Fun(
                            Box::new(arg_typ.clone()),
                            Box::new(Type::Arr(Box::new(arr_arg_typ.clone()), Box::new(a.3.clone()))),
                        ),
                    ),
                );
            },
        }
        assert(arrows@.subrange(0, j + 1).map_values(|a: TopLevelCommand| arrow_binding(a))
            =~= arrows@.subrange(0, j as int).map_values(
            |a: TopLevelCommand| arrow_binding(a),
        ).push(arrow_binding(arrows@[j as int])));
        j = j + 1;
    }
    assert(arrows@.subrange(0, arrows@.len() as int) =~= arrows@);
    assert(var_and_type@ =~= toplevel_context(functions@, arrows@));
    let ghost g0 = var_and_type@;
    let mut i: usize = 0;
    while i < functions.len()
        invariant
            i <= functions@.len(),
            g0 == toplevel_context(functions@, arrows@),
            check_functions(functions@, g0, effects@) == check_functions(
                functions@.subrange(i as int, functions@.len() as int),
                var_and_type@,
                effects@,
            ),
        decreases functions.len() - i,
    {
        proof {
            let s = functions@.subrange(i as int, functions@.len() as int);
            assert(s.drop_first() =~= functions@.subrange(i + 1, functions@.len() as int));
            assert(s[0] == functions@[i as int]);
        }
        match check_one_function(&functions[i], &mut var_and_type, effects) {
            Ok(()) => {},
            Err(e) => {
                return Err(e);
            },
        }
        i = i + 1;
    }
    assert(functions@.subrange(functions@.len() as int, functions@.len() as int) =~= Seq::<
        TopLevelTerm,
    >::empty());
    let ghost g1 = var_and_type@;
    let mut j: usize = 0;
    assert(arrows@.subrange(0, arrows@.len() as int) =~= arrows@);
    while j < arrows.len()
        invariant
            j <= arrows@.len(),
            g0 == toplevel_context(functions@, arrows@),
            check_functions(functions@, g0, effects@) == (Ok::<(), Seq<char>>(()), g1),
            check_arrows(arrows@, g1, effects@) == check_arrows(
                arrows@.subrange(j as int, arrows@.len() as int),
                var_and_type@,
                effects@,
            ),
        decreases arrows.len() - j,
    {
        proof {
            let s = arrows@.subrange(j as int, arrows@.len() as int);
            assert(s.drop_first() =~= arrows@.subrange(j + 1, arrows@.len() as int));
            assert(s[0] == arrows@[j as int]);
        }
        match check_one_arrow(&arrows[j], &mut var_and_type, effects) {
            Ok(()) => {},
            Err(e) => {
                return Err(e);
            },
        }
        j = j + 1;
    }
    assert(arrows@.subrange(arrows@.len() as int, arrows@.len() as int) =~= Seq::<
        TopLevelCommand,
    >::empty());
    Ok(())
}

} // verus!
