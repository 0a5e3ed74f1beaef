use arrowml::location::locate;
use arrowml::ast::{
    BaseType, Command, EffectDecl, Handler, HandlerOp, HandlerRet, Operation, Term, TopLevelCommand,
    TopLevelTerm, Type, Var, VarProd, VarWithType, VTR,
};
use arrowml::builtin;
use arrowml::typechecker::{typecheck_command, typecheck_handler, typecheck_term, typecheck_toplevel};

fn t_int() -> Type {
    Type::Base(BaseType::Int)
}

fn unit() -> Type {
    Type::Base(BaseType::Unit)
}

fn bx<T>(x: T) -> Box<T> {
    Box::new(x)
}

fn var(x: &str) -> Term {
    Term::Var(Var::V(x.to_string()))
}

fn vt(x: &str, t: Type) -> VarWithType {
    VarWithType::VT(VarProd::V(x.to_string()), t)
}

fn ret(t: Term) -> Command {
    Command::Return(VTR::T(bx(t)))
}

fn op(name: &str) -> Operation {
    Operation::Op(name.to_string())
}

fn float_bits(x: f32) -> u32 {
    x.to_bits()
}

#[test]
fn test_typecheck_toplevel() {
    // effect { Op : Int ~> Int }
    // function f x : Int --> Int { x + 1 }
    // function g x : Int --> Int { g (g x) }
    // arrow main u : Unit ; u : Unit ~~> Unit { let x : Int <~ Op 1 in PrintInt (f x) }
    let mut effects: Vec<EffectDecl> = vec![(op("Op"), t_int(), t_int())];
    let functions: Vec<TopLevelTerm> = vec![
        (Var::V("f".to_string()), vt("x", t_int()), t_int(), Term::Plus(bx(var("x")), bx(Term::NumInt(1)))),
        (
            Var::V("g".to_string()),
            vt("x", t_int()),
            t_int(),
            Term::App(bx(var("g")), bx(Term::App(bx(var("g")), bx(var("x"))))),
        ),
    ];
    let arrows: Vec<TopLevelCommand> = vec![(
        Var::V("main".to_string()),
        vt("u", unit()),
        vt("u", unit()),
        unit(),
        Command::Let(
            vt("x", t_int()),
            bx(Command::DoOp(op("Op"), bx(Term::NumInt(1)))),
            bx(Command::DoOp(op("PrintInt"), bx(Term::App(bx(var("f")), bx(var("x")))))),
            None,
        ),
    )];
    effects.extend(builtin::builtin_effect());
    let res = typecheck_toplevel(&effects, &functions, &arrows);
    assert_eq!(res, Ok(()));
}

#[test]
fn test_typecheck_command() {
    let t1 = Term::CLam(vt("x", t_int()), bx(ret(var("x"))));
    let t2 = Term::NumInt(42);
    let c1 = Command::CApp(bx(t1), bx(t2));
    let res = typecheck_command(&c1, &mut vec![], &mut vec![], &vec![]);
    assert_eq!(res, Ok(Type::Base(BaseType::Int)));

    // let x , y , z : Int * Int * Int <~ return (1, (4 , 5)) in return x + y + z
    let c = Command::Let(
        VarWithType::VT(
            VarProd::P(
                bx(VarProd::V("x".to_string())),
                bx(VarProd::P(bx(VarProd::V("y".to_string())), bx(VarProd::V("z".to_string())))),
            ),
            Type::Prod(bx(t_int()), bx(Type::Prod(bx(t_int()), bx(t_int())))),
        ),
        bx(ret(Term::Pair(
            bx(Term::NumInt(1)),
            bx(Term::Pair(bx(Term::NumInt(4)), bx(Term::NumInt(5)))),
        ))),
        bx(ret(Term::Plus(bx(Term::Plus(bx(var("x")), bx(var("y")))), bx(var("z"))))),
        None,
    );
    let res = typecheck_command(&c, &mut vec![], &mut vec![], &vec![]);
    assert_eq!(res, Ok(Type::Base(BaseType::Int)));
}

#[test]
fn test_typecheck_term() {
    // λ (x: Int). x
    let id_int = Term::Lam(vt("x", t_int()), bx(var("x")));
    let res = typecheck_term(&id_int, &mut vec![], &mut vec![]);
    assert_eq!(res, Ok(Type::Fun(Box::new(Type::Base(BaseType::Int)), Box::new(Type::Base(BaseType::Int)))));

    let int_42 = Term::NumInt(42);
    let res = typecheck_term(&int_42, &mut vec![], &mut vec![]);
    assert_eq!(res, Ok(Type::Base(BaseType::Int)));

    let id_int2 = Term::Lam(vt("x", t_int()), bx(var("x")));
    let app_id_42 = Term::App(bx(id_int2), bx(Term::NumInt(42)));
    let res = typecheck_term(&app_id_42, &mut vec![], &mut vec![]);
    assert_eq!(res, Ok(Type::Base(BaseType::Int)));

    let app_id_id = Term::App(
        bx(Term::Lam(vt("x", t_int()), bx(var("x")))),
        bx(Term::Lam(vt("x", t_int()), bx(var("x")))),
    );
    let res = typecheck_term(&app_id_id, &mut vec![], &mut vec![]);
    assert_eq!(res, Err("type mismatch (App): Base(Int) != Fun(Base(Int), Base(Int))".to_string()));

    let t1 = Term::CLam(vt("x", t_int()), bx(ret(var("x"))));
    let res = typecheck_term(&t1, &mut vec![], &mut vec![]);
    assert_eq!(res, Ok(Type::Arr(Box::new(Type::Base(BaseType::Int)), Box::new(Type::Base(BaseType::Int)))));

    let t = Term::EqInt(Box::new(Term::NumInt(2)), Box::new(Term::NumInt(2)));
    let res = typecheck_term(&t, &mut vec![], &mut vec![]);
    assert_eq!(res, Ok(Type::Base(BaseType::Bool)));

    // mat[[1.0, 2.0], [3.0, 4.0]]
    let ret = Term::Mat(vec![
        vec![float_bits(1.0), float_bits(2.0)],
        vec![float_bits(3.0), float_bits(4.0)],
    ]);
    let res = typecheck_term(&ret, &mut vec![], &mut vec![]);
    assert_eq!(res, Ok(Type::Base(BaseType::Mat)));
}

#[test]
fn typecheck_handler_return_clause_only() {
    // return x : Int => { return x }
    let h = Handler::H(HandlerRet::HRet(vt("x", t_int()), bx(ret(var("x")))), Vec::new());
    assert_eq!(typecheck_handler(&h, &mut Vec::new(), &Vec::new()), Ok((t_int(), t_int())));
}

#[test]
fn typecheck_handle_return() {
    // handle return 1 with { return x : Int => { return 2 } }
    let c = Command::Handle(
        bx(ret(Term::NumInt(1))),
        Handler::H(HandlerRet::HRet(vt("x", t_int()), bx(ret(Term::NumInt(2)))), Vec::new()),
        None,
    );
    assert_eq!(typecheck_command(&c, &mut Vec::new(), &mut Vec::new(), &Vec::new()), Ok(t_int()));
}

#[test]
fn typecheck_restores_context_on_success() {
    let mut ctx = vec![vt("y", t_int())];
    let t = Term::Lam(vt("x", t_int()), bx(Term::Plus(bx(var("x")), bx(var("y")))));
    let res = typecheck_term(&t, &mut ctx, &Vec::new());
    assert_eq!(res, Ok(Type::Fun(bx(t_int()), bx(t_int()))));
    assert_eq!(ctx, vec![vt("y", t_int())]);
}

#[test]
fn typecheck_lambda_error_keeps_binding() {
    // the binder of a lambda whose body fails stays in the context
    let mut ctx: Vec<VarWithType> = Vec::new();
    let t = Term::Lam(vt("x", t_int()), bx(var("nope")));
    let res = typecheck_term(&t, &mut ctx, &Vec::new());
    assert_eq!(res, Err("variable not found: nope".to_string()));
    assert_eq!(ctx, vec![vt("x", t_int())]);
}

#[test]
fn typecheck_binop_messages() {
    let t = Term::Plus(bx(Term::Bool(true)), bx(Term::NumInt(1)));
    assert_eq!(
        typecheck_term(&t, &mut Vec::new(), &Vec::new()),
        Err("type mismatch (+): Base(Bool) is not an integer".to_string())
    );
    let t = Term::LTFloat(bx(Term::NumFloat(float_bits(1.0))), bx(Term::Unt));
    assert_eq!(
        typecheck_term(&t, &mut Vec::new(), &Vec::new()),
        Err("type mismatch (<.): Base(Unit) is not Int".to_string())
    );
    let t = Term::ApplicationVectEntrywise(bx(Term::Exp), bx(Term::Vect(vec![float_bits(1.0)])));
    assert_eq!(typecheck_term(&t, &mut Vec::new(), &Vec::new()), Ok(Type::Base(BaseType::Vect)));
    let t = Term::MatVectMul(bx(Term::Vect(vec![])), bx(Term::Vect(vec![])));
    assert_eq!(
        typecheck_term(&t, &mut Vec::new(), &Vec::new()),
        Err("type mismatch (#>): Base(Vect) is not Mat".to_string())
    );
}

#[test]
fn typecheck_matrix_not_rectangular() {
    let t = Term::Mat(vec![vec![1, 2], vec![3]]);
    assert_eq!(
        typecheck_term(&t, &mut Vec::new(), &Vec::new()),
        Err("matrix [[1, 2], [3]] is not rectangular".to_string())
    );
}

#[test]
fn typecheck_illegal_product_and_unknown_operation() {
    let mut ctx = vec![VarWithType::VT(
        VarProd::P(bx(VarProd::V("a".to_string())), bx(VarProd::Unused)),
        t_int(),
    )];
    assert_eq!(
        typecheck_term(&var("a"), &mut ctx, &Vec::new()),
        Err("illigal product: VT(P(V(\"a\"), Unused), Base(Int))".to_string())
    );
    let c = Command::DoOp(op("Nope"), bx(Term::Unt));
    assert_eq!(
        typecheck_command(&c, &mut Vec::new(), &mut Vec::new(), &Vec::new()),
        Err("unknown operation (DoOp): Op(\"Nope\")".to_string())
    );
}

#[test]
fn typecheck_handler_clause_mismatch() {
    // return x : Int => { return x }   Op k : (Int ~> Unit) ; z : Int => { k @ z }
    let h = Handler::H(
        HandlerRet::HRet(vt("x", t_int()), bx(ret(var("x")))),
        vec![HandlerOp::HOp(
            op("Op"),
            vt("k", Type::Arr(bx(t_int()), bx(unit()))),
            vt("z", t_int()),
            bx(Command::CApp(bx(var("k")), bx(var("z")))),
        )],
    );
    let effects: Vec<EffectDecl> = vec![(op("Op"), t_int(), t_int())];
    assert_eq!(
        typecheck_handler(&h, &mut Vec::new(), &effects),
        Err("type mismatch (handler 1): Base(Unit) != Base(Int)".to_string())
    );
}

#[test]
fn typecheck_toplevel_reports_function() {
    let functions: Vec<TopLevelTerm> =
        vec![(Var::V("f".to_string()), vt("x", t_int()), unit(), var("x"))];
    assert_eq!(
        typecheck_toplevel(&Vec::new(), &functions, &Vec::new()),
        Err("Type Error: function \"f\", Base(Unit) != Base(Int)".to_string())
    );
}

#[test]
fn builtin_effect_table() {
    let e = builtin::builtin_effect();
    assert_eq!(e.len(), 7);
    assert_eq!(e[0], (op("PrintInt"), t_int(), unit()));
    assert_eq!(
        e[4],
        (op("SampleNormal"), Type::Prod(bx(Type::Base(BaseType::Float)), bx(Type::Base(BaseType::Float))), Type::Base(BaseType::Float))
    );
}

fn prod(a: Type, b: Type) -> Type {
    Type::Prod(bx(a), bx(b))
}

#[test]
fn test_arrowml_term() {
    // 1
    let one = Term::NumInt(1);
    assert_eq!(typecheck_term(&one, &mut Vec::new(), &mut Vec::new()), Ok(t_int()));

    // 1, 2  and  (1, 2)
    let pair = Term::Pair(bx(Term::NumInt(1)), bx(Term::NumInt(2)));
    assert_eq!(typecheck_term(&pair, &mut Vec::new(), &mut Vec::new()), Ok(prod(t_int(), t_int())));

    // ar x: Int ~~> { return x }
    let clam = Term::CLam(vt("x", t_int()), bx(ret(var("x"))));
    assert_eq!(
        typecheck_term(&clam, &mut Vec::new(), &mut Vec::new()),
        Ok(Type::Arr(bx(t_int()), bx(t_int())))
    );

    // fn x : Int --> { x }
    let lam = Term::Lam(vt("x", t_int()), bx(var("x")));
    assert_eq!(
        typecheck_term(&lam, &mut Vec::new(), &mut Vec::new()),
        Ok(Type::Fun(bx(t_int()), bx(t_int())))
    );

    // fn x : (Int * Int) --> { x }
    let ty_int_int = prod(t_int(), t_int());
    let lam = Term::Lam(vt("x", ty_int_int.clone()), bx(var("x")));
    assert_eq!(
        typecheck_term(&lam, &mut Vec::new(), &mut Vec::new()),
        Ok(Type::Fun(bx(ty_int_int.clone()), bx(ty_int_int.clone())))
    );

    // fn z : Int --> { (fn x : Int --> { x }) z }
    let app = Term::Lam(
        vt("z", t_int()),
        bx(Term::App(bx(Term::Lam(vt("x", t_int()), bx(var("x")))), bx(var("z")))),
    );
    assert_eq!(
        typecheck_term(&app, &mut Vec::new(), &mut Vec::new()),
        Ok(Type::Fun(bx(t_int()), bx(t_int())))
    );

    // if (3 == 2) then 1 else 2
    let iseq = Term::If(
        bx(Term::EqInt(bx(Term::NumInt(3)), bx(Term::NumInt(2)))),
        bx(Term::NumInt(1)),
        bx(Term::NumInt(2)),
    );
    assert_eq!(typecheck_term(&iseq, &mut Vec::new(), &mut Vec::new()), Ok(t_int()));
}

#[test]
fn test_arrowml_command() {
    // handle return 1 with { return x : Int => { return 2 } }
    let hand = Command::Handle(
        bx(ret(Term::NumInt(1))),
        Handler::H(HandlerRet::HRet(vt("x", t_int()), bx(ret(Term::NumInt(2)))), Vec::new()),
        None,
    );
    assert_eq!(typecheck_command(&hand, &mut Vec::new(), &mut Vec::new(), &Vec::new()), Ok(t_int()));
}

#[test]
fn test_arrowml_handler() {
    // return x : Int => { return x }
    let ret_only = Handler::H(HandlerRet::HRet(vt("x", t_int()), bx(ret(var("x")))), Vec::new());
    assert_eq!(typecheck_handler(&ret_only, &mut Vec::new(), &Vec::new()), Ok((t_int(), t_int())));
}

#[test]
fn parse_error_location() {
    // "ab\ncde\nf": lines of lengths 2, 3, 1
    let lens = vec![2usize, 3, 1];
    assert_eq!(locate(&lens, 0), Some((0, 0)));
    assert_eq!(locate(&lens, 2), Some((0, 2)));
    assert_eq!(locate(&lens, 3), Some((1, 0)));
    assert_eq!(locate(&lens, 5), Some((1, 2)));
    assert_eq!(locate(&lens, 7), Some((2, 0)));
    assert_eq!(locate(&lens, 9), None);
}

#[test]
fn typecheck_handler_clause_continuation_is_local() {
    // handle return 1 with { return x : Int => return x ; Op k : Int ~> Int ; z : Int => k @ z }
    let effects: Vec<EffectDecl> = vec![(op("Op"), t_int(), t_int())];
    let h = Handler::H(
        HandlerRet::HRet(vt("x", t_int()), bx(ret(var("x")))),
        vec![HandlerOp::HOp(
            op("Op"),
            vt("k", Type::Arr(bx(t_int()), bx(t_int()))),
            vt("z", t_int()),
            bx(Command::CApp(bx(var("k")), bx(var("z")))),
        )],
    );
    let mut ctx: Vec<VarWithType> = Vec::new();
    let res = typecheck_handler(&h, &mut ctx, &effects);
    assert_eq!(res, Ok((t_int(), t_int())));
    assert_eq!(ctx, Vec::new());
}
