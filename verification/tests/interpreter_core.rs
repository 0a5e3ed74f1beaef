use arrowml::core_calculus::ast_core::{
    BaseType, Command, EvalResult, Handler, HandlerOp, HandlerRet, Operation, Term, Type, Value, Var,
    VarWithType, VTR,
};
use arrowml::core_calculus::interpreter_core::{interp_command, interp_term};

const FUEL: usize = usize::MAX;

fn t_int() -> Type {
    Type::Base(BaseType::Int)
}

fn bx<T>(x: T) -> Box<T> {
    Box::new(x)
}

fn var(x: &str) -> Term {
    Term::Var(Var::V(x.to_string()))
}

fn vt(x: &str, t: Type) -> VarWithType {
    VarWithType::VT(x.to_string(), t)
}

fn ret(t: Term) -> Command {
    Command::Return(VTR::T(bx(t)))
}

fn plus(a: Term, b: Term) -> Term {
    Term::Plus(bx(a), bx(b))
}

fn num(n: i32) -> Term {
    Term::NumInt(n)
}

fn let_(x: &str, c1: Command, c2: Command) -> Command {
    Command::Let(vt(x, t_int()), bx(c1), bx(c2), None)
}

fn do_op(name: &str, t: Term) -> Command {
    Command::DoOp(Operation::Op(name.to_string()), bx(t))
}

fn arrow_app(x: &str, body: Command, arg: Term) -> Command {
    Command::CApp(bx(Term::CLam(vt(x, t_int()), bx(body))), bx(arg))
}

/// handle c with { return s : Int => { return s + ret_add }  Op k : Int ~> Int ; z : Int => { k @ (z + op_add) } }
fn handle_op(c: Command, ret_add: Option<i32>, z: &str, op_add: i32) -> Command {
    let ret_body = match ret_add {
        Some(n) => ret(plus(var("s"), num(n))),
        None => ret(var("s")),
    };
    Command::Handle(
        bx(c),
        Handler::H(
            HandlerRet::HRet(vt("s", t_int()), bx(ret_body)),
            vec![HandlerOp::HOp(
                Operation::Op("Op".to_string()),
                vt("k", Type::Arr(bx(t_int()), bx(t_int()))),
                vt(z, t_int()),
                bx(Command::CApp(bx(var("k")), bx(plus(var(z), num(op_add))))),
            )],
        ),
        None,
    )
}

fn run(c: &Command, out: &mut Vec<i32>) -> EvalResult {
    interp_command(c, &Vec::new(), &Vec::new(), None, &Vec::new(), &Vec::new(), &Vec::new(), FUEL, out)
}

#[test]
fn test() {
    // 1 + 2
    let t = plus(num(1), num(2));
    assert_eq!(interp_term(&t, &Vec::new(), &Vec::new(), &Vec::new(), FUEL), EvalResult::Val(Value::NumInt(3)));

    // let x : Int <~ return 1 in
    // let y : Int <~ (ar z : Int ~~> { return z + 300 }) @ 20 in
    // return x + y
    let c = let_(
        "x",
        ret(num(1)),
        let_("y", arrow_app("z", ret(plus(var("z"), num(300))), num(20)), ret(plus(var("x"), var("y")))),
    );
    let mut out = Vec::new();
    assert_eq!(run(&c, &mut out), EvalResult::Val(Value::NumInt(321)));

    // handle let x : Int <~ Op 1 in return x
    // with { return s : Int => { return s + 4000 }  Op k : Int ~> Int ; z : Int => { k @ (z + 50000) } }
    let c = handle_op(let_("x", do_op("Op", num(1)), ret(var("x"))), Some(4000), "z", 50000);
    let mut out = Vec::new();
    assert_eq!(run(&c, &mut out), EvalResult::Val(Value::NumInt(54001)));

    // handle
    //   let x : Int <~ return 1 in
    //   let y : Int <~ (ar z : Int ~~> { let x : Int <~ Op z in return x + 300 }) @ 20 in
    //   return x + y
    // with { return s => { return s + 4000 }  Op k ; z_ => { k @ (z_ + 50000) } }
    let c = handle_op(
        let_(
            "x",
            ret(num(1)),
            let_(
                "y",
                arrow_app("z", let_("x", do_op("Op", var("z")), ret(plus(var("x"), num(300)))), num(20)),
                ret(plus(var("x"), var("y"))),
            ),
        ),
        Some(4000),
        "z_",
        50000,
    );
    let mut out = Vec::new();
    assert_eq!(run(&c, &mut out), EvalResult::Val(Value::NumInt(54321)));

    // handle
    //   let y : Int <~ (ar z : Int ~~> { let x <~ Op z in let a <~ Op z in return x }) @ 20 in
    //   return y
    // with { return s => { return s }  Op k ; p => { k @ (p + 100) } }
    let c = handle_op(
        let_(
            "y",
            arrow_app("z", let_("x", do_op("Op", var("z")), let_("a", do_op("Op", var("z")), ret(var("x")))), num(20)),
            ret(var("y")),
        ),
        None,
        "p",
        100,
    );
    let mut out = Vec::new();
    assert_eq!(run(&c, &mut out), EvalResult::Val(Value::NumInt(120)));

    // handle
    //   let x <~ return 1 in let a <~ return 0 in
    //   let y <~ (ar z ~~> { let x <~ Op z in let a <~ Op z in return x + 300 }) @ 20 in
    //   return x + y + a
    // with { return s => { return s + 4000 }  Op k ; z_ => { k @ (z_ + 50000) } }
    let c = handle_op(
        let_(
            "x",
            ret(num(1)),
            let_(
                "a",
                ret(num(0)),
                let_(
                    "y",
                    arrow_app(
                        "z",
                        let_("x", do_op("Op", var("z")), let_("a", do_op("Op", var("z")), ret(plus(var("x"), num(300))))),
                        num(20),
                    ),
                    ret(plus(plus(var("x"), var("y")), var("a"))),
                ),
            ),
        ),
        Some(4000),
        "z_",
        50000,
    );
    let mut out = Vec::new();
    assert_eq!(run(&c, &mut out), EvalResult::Val(Value::NumInt(54321)));

    // as above, with PrintInt 10000 before the arrow and three operations in it
    let c = handle_op(
        let_(
            "x",
            ret(num(1)),
            let_(
                "a",
                ret(num(0)),
                let_(
                    "u",
                    do_op("PrintInt", num(10000)),
                    let_(
                        "y",
                        arrow_app(
                            "z",
                            let_(
                                "x",
                                do_op("Op", var("z")),
                                let_(
                                    "a",
                                    do_op("Op", plus(var("z"), num(1))),
                                    let_("b", do_op("Op", plus(var("z"), num(2))), ret(plus(var("x"), num(300)))),
                                ),
                            ),
                            num(20),
                        ),
                        ret(plus(plus(var("x"), var("y")), var("a"))),
                    ),
                ),
            ),
        ),
        Some(4000),
        "z",
        50000,
    );
    let mut out = Vec::new();
    assert_eq!(run(&c, &mut out), EvalResult::Val(Value::NumInt(54321)));
    assert_eq!(out, vec![10000]);
}

#[test]
fn core_budget_exhausted() {
    let t = plus(num(1), num(2));
    assert_eq!(
        interp_term(&t, &Vec::new(), &Vec::new(), &Vec::new(), 1),
        EvalResult::Wrong("evaluation budget exhausted".to_string())
    );
}

#[test]
fn core_unhandled_operation() {
    let c = do_op("Op", num(1));
    let mut out = Vec::new();
    assert_eq!(
        run(&c, &mut out),
        EvalResult::Wrong("interp_command: DoOp: Unhandled operation: Op(\"Op\")".to_string())
    );
}

#[test]
fn core_handle_return_value() {
    // handle (return 2) with { return s => return s + 5 } gives 7
    let c = Command::Handle(
        bx(Command::Return(VTR::V(bx(Value::NumInt(2))))),
        Handler::H(HandlerRet::HRet(vt("s", t_int()), bx(ret(plus(var("s"), num(5))))), vec![]),
        None,
    );
    let mut out = Vec::new();
    assert_eq!(run(&c, &mut out), EvalResult::Val(Value::NumInt(7)));
}

#[test]
fn core_error_messages_render_values_as_debug() {
    // proj1 of a closure: the closure is quoted as `{:?}` writes it
    let clo = Term::Lam(vt("x", t_int()), bx(plus(var("x"), num(-3))));
    let expected = Value::ClosureFunc(Vec::new(), Var::V("x".to_string()), plus(var("x"), num(-3)));
    let r = interp_term(&Term::Fst(bx(clo)), &Vec::new(), &Vec::new(), &Vec::new(), FUEL);
    assert_eq!(r, EvalResult::Wrong(format!("interp_term: {:?} is not a pair", expected)));
}
