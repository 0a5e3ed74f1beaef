use rand::rngs::StdRng;
use rand::SeedableRng;
use rand_distr::{Distribution, Normal};

use arrowml::ast::{
    BaseType, Command, EvalResult, Handler, HandlerOp, HandlerRet, Operation, Printed, Term, Type, Value, Var,
    VarProd, VarWithType, L, VTR,
};
use arrowml::interpreter::{execute, interp_command, interp_term};
use arrowml::numerics::{Numerics, Provider};

const FUEL: usize = usize::MAX;

/// `f32` arithmetic and seeded normal draws.
struct TestNumerics {
    rng: StdRng,
}

fn fl(b: u32) -> f32 {
    f32::from_bits(b)
}

fn bits(x: f32) -> u32 {
    x.to_bits()
}

impl Numerics for TestNumerics {
    fn fadd(&mut self, a: u32, b: u32) -> u32 {
        bits(fl(a) + fl(b))
    }
    fn fsub(&mut self, a: u32, b: u32) -> u32 {
        bits(fl(a) - fl(b))
    }
    fn fmul(&mut self, a: u32, b: u32) -> u32 {
        bits(fl(a) * fl(b))
    }
    fn fdiv(&mut self, a: u32, b: u32) -> u32 {
        bits(fl(a) / fl(b))
    }
    fn fexp(&mut self, a: u32) -> u32 {
        bits(fl(a).exp())
    }
    fn flt(&mut self, a: u32, b: u32) -> bool {
        fl(a) < fl(b)
    }
    fn fgt(&mut self, a: u32, b: u32) -> bool {
        fl(a) > fl(b)
    }
    fn normal_ok(&mut self, mean: u32, std_dev: u32) -> bool {
        Normal::<f32>::new(fl(mean), fl(std_dev)).is_ok()
    }
    fn sample_normal(&mut self, mean: u32, std_dev: u32) -> u32 {
        bits(Normal::<f32>::new(fl(mean), fl(std_dev)).unwrap().sample(&mut self.rng))
    }
}

fn numerics() -> TestNumerics {
    TestNumerics { rng: StdRng::from_seed([0; 32]) }
}

/// A provider whose every answer is a fixed float; it counts the questions.
struct Constant {
    answer: f32,
    asked: usize,
}

impl Numerics for Constant {
    fn fadd(&mut self, _a: u32, _b: u32) -> u32 {
        self.asked += 1;
        bits(self.answer)
    }
    fn fsub(&mut self, _a: u32, _b: u32) -> u32 {
        self.asked += 1;
        bits(self.answer)
    }
    fn fmul(&mut self, _a: u32, _b: u32) -> u32 {
        self.asked += 1;
        bits(self.answer)
    }
    fn fdiv(&mut self, _a: u32, _b: u32) -> u32 {
        self.asked += 1;
        bits(self.answer)
    }
    fn fexp(&mut self, _a: u32) -> u32 {
        self.asked += 1;
        bits(self.answer)
    }
    fn flt(&mut self, _a: u32, _b: u32) -> bool {
        self.asked += 1;
        true
    }
    fn fgt(&mut self, _a: u32, _b: u32) -> bool {
        self.asked += 1;
        true
    }
    fn normal_ok(&mut self, _mean: u32, _std_dev: u32) -> bool {
        self.asked += 1;
        true
    }
    fn sample_normal(&mut self, _mean: u32, _std_dev: u32) -> u32 {
        self.asked += 1;
        bits(self.answer)
    }
}

fn bx<T>(x: T) -> Box<T> {
    Box::new(x)
}

fn t_int() -> Type {
    Type::Base(BaseType::Int)
}

fn t_float() -> Type {
    Type::Base(BaseType::Float)
}

fn t_unit() -> Type {
    Type::Base(BaseType::Unit)
}

fn num(n: i32) -> Term {
    Term::NumInt(n)
}

fn flt(x: f32) -> Term {
    Term::NumFloat(bits(x))
}

fn vect(xs: &[f32]) -> Term {
    Term::Vect(xs.iter().map(|x| bits(*x)).collect())
}

fn mat(rows: &[&[f32]]) -> Term {
    Term::Mat(rows.iter().map(|r| r.iter().map(|x| bits(*x)).collect()).collect())
}

fn vect_val(xs: &[f32]) -> Value {
    Value::Vect(xs.iter().map(|x| bits(*x)).collect())
}

fn mat_val(rows: &[&[f32]]) -> Value {
    Value::Mat(rows.iter().map(|r| r.iter().map(|x| bits(*x)).collect()).collect())
}

fn var(x: &str) -> Term {
    Term::Var(Var::V(x.to_string()))
}

fn vt(x: &str, t: Type) -> VarWithType {
    VarWithType::VT(VarProd::V(x.to_string()), t)
}

fn plus(a: Term, b: Term) -> Term {
    Term::Plus(bx(a), bx(b))
}

fn times(a: Term, b: Term) -> Term {
    Term::Times(bx(a), bx(b))
}

fn lam(x: &str, t: Type, body: Term) -> Term {
    Term::Lam(vt(x, t), bx(body))
}

fn app(a: Term, b: Term) -> Term {
    Term::App(bx(a), bx(b))
}

fn pair(a: Term, b: Term) -> Term {
    Term::Pair(bx(a), bx(b))
}

fn cons(a: Term, b: Term) -> Term {
    Term::Cons(bx(a), bx(b))
}

fn ret(t: Term) -> Command {
    Command::Return(VTR::T(bx(t)))
}

fn let_(b: VarWithType, c1: Command, c2: Command) -> Command {
    Command::Let(b, bx(c1), bx(c2), None)
}

fn do_op(name: &str, t: Term) -> Command {
    Command::DoOp(Operation::Op(name.to_string()), bx(t))
}

fn handle(c: Command, x: &str, ret_body: Command, ops: Vec<HandlerOp>) -> Command {
    Command::Handle(bx(c), Handler::H(HandlerRet::HRet(vt(x, t_int()), bx(ret_body)), ops), None)
}

fn clause(op: &str, k: &str, k_ty: Type, z: &str, z_ty: Type, body: Command) -> HandlerOp {
    HandlerOp::HOp(Operation::Op(op.to_string()), vt(k, k_ty), vt(z, z_ty), bx(body))
}

fn k_type(a: Type, b: Type) -> Type {
    Type::Arr(bx(a), bx(b))
}

fn eval(t: &Term) -> EvalResult {
    interp_term(t, &Vec::new(), (&Vec::new(), &Vec::new()), FUEL, &mut Provider::new(numerics()))
}

fn run(c: &Command, out: &mut Vec<Printed>) -> EvalResult {
    interp_command(c, &Vec::new(), &Vec::new(), None, (&Vec::new(), &Vec::new()), &Vec::new(), FUEL, &mut Provider::new(numerics()), out)
}

#[test]
fn test_interp_term() {
    // 1 + 1
    assert_eq!(eval(&plus(num(1), num(1))), EvalResult::Val(Value::NumInt(2)));
    // 1 + 1 + 2
    assert_eq!(eval(&plus(plus(num(1), num(1)), num(2))), EvalResult::Val(Value::NumInt(4)));
    // 2 + 3 * 4
    assert_eq!(eval(&plus(num(2), times(num(3), num(4)))), EvalResult::Val(Value::NumInt(14)));
    // 2 * 3 + 5
    assert_eq!(eval(&plus(times(num(2), num(3)), num(5))), EvalResult::Val(Value::NumInt(11)));
    // (2 * 3) + 5
    assert_eq!(eval(&plus(times(num(2), num(3)), num(5))), EvalResult::Val(Value::NumInt(11)));
    // (fn x : Int --> { 3 * x } ) 2
    let t = app(lam("x", t_int(), times(num(3), var("x"))), num(2));
    assert_eq!(eval(&t), EvalResult::Val(Value::NumInt(6)));
    // (fn x : Int --> { fn y : Int --> { y * x } }) 2 3
    let t = app(app(lam("x", t_int(), lam("y", t_int(), times(var("y"), var("x")))), num(2)), num(3));
    assert_eq!(eval(&t), EvalResult::Val(Value::NumInt(6)));
    // proj1 (1, 2)
    assert_eq!(eval(&Term::Fst(bx(pair(num(1), num(2))))), EvalResult::Val(Value::NumInt(1)));
    // proj2 (1, 2)
    assert_eq!(eval(&Term::Snd(bx(pair(num(1), num(2))))), EvalResult::Val(Value::NumInt(2)));
    // head (cons 1 (cons 2 (cons 3 nil_int)))
    let list = cons(num(1), cons(num(2), cons(num(3), Term::Nil(t_int()))));
    assert_eq!(eval(&Term::Head(bx(list))), EvalResult::Val(Value::NumInt(1)));
    // tail (cons 1 (cons 2 (cons 3 nil_int)))
    let list = cons(num(1), cons(num(2), cons(num(3), Term::Nil(t_int()))));
    assert_eq!(
        eval(&Term::Tail(bx(list))),
        EvalResult::Val(Value::List(L::Cons(
            bx(Value::NumInt(2)),
            bx(L::Cons(bx(Value::NumInt(3)), bx(L::Nil(Type::Base(BaseType::Int))))),
        )))
    );
    // (fn x : Float --> { if (x <. 0.0) then 0.0 else x }) $> [1.0, -2.0, 3.0]
    let relu = lam(
        "x",
        t_float(),
        Term::If(bx(Term::LTFloat(bx(var("x")), bx(flt(0.0)))), bx(flt(0.0)), bx(var("x"))),
    );
    let t = Term::ApplicationVectEntrywise(bx(relu), bx(vect(&[1.0, -2.0, 3.0])));
    assert_eq!(eval(&t), EvalResult::Val(vect_val(&[1.0, 0.0, 3.0])));
    // [1.0, 3.0, 4.0] <-> [1.0, -2.0, 3.0]
    let t = Term::VectEntrywiseMinus(bx(vect(&[1.0, 3.0, 4.0])), bx(vect(&[1.0, -2.0, 3.0])));
    assert_eq!(eval(&t), EvalResult::Val(vect_val(&[1.0 - 1.0, 3.0 - (-2.0), 4.0 - 3.0])));
    // mat[[1.0, 3.0], [2.0, 1.0]] #+# mat[[1.0, -2.0], [3.0, -1.0]]
    let t = Term::MatEntrywisePlus(bx(mat(&[&[1.0, 3.0], &[2.0, 1.0]])), bx(mat(&[&[1.0, -2.0], &[3.0, -1.0]])));
    assert_eq!(eval(&t), EvalResult::Val(mat_val(&[&[1.0 + 1.0, 3.0 + (-2.0)], &[2.0 + 3.0, 1.0 + (-1.0)]])));
    // transpose mat[[1.0, 3.0], [2.0, 1.0], [3.0, 4.0]]
    let t = app(Term::Transpose, mat(&[&[1.0, 3.0], &[2.0, 1.0], &[3.0, 4.0]]));
    assert_eq!(eval(&t), EvalResult::Val(mat_val(&[&[1.0, 2.0, 3.0], &[3.0, 1.0, 4.0]])));
}

#[test]
fn test_interp_command() {
    // let x : Int <- (1 + 1) in return (x + x)
    let c = let_(vt("x", t_int()), ret(plus(num(1), num(1))), ret(plus(var("x"), var("x"))));
    let mut out = Vec::new();
    assert_eq!(run(&c, &mut out), EvalResult::Val(Value::NumInt(4)));

    // let u : Unit <~ PrintInt (1 + 1) in return 0
    let c = let_(vt("u", t_unit()), do_op("PrintInt", plus(num(1), num(1))), ret(num(0)));
    let mut out = Vec::new();
    assert_eq!(run(&c, &mut out), EvalResult::Val(Value::NumInt(0)));
    assert_eq!(out, vec![Printed::Int(2)]);

    // let u : Unit <~ PrintInt (1 + 2) in let u : Unit <~ PrintInt (2 + 3) in return (8 * 7)
    let c = let_(
        vt("u", t_unit()),
        do_op("PrintInt", plus(num(1), num(2))),
        let_(vt("u", t_unit()), do_op("PrintInt", plus(num(2), num(3))), ret(times(num(8), num(7)))),
    );
    let mut out = Vec::new();
    assert_eq!(run(&c, &mut out), EvalResult::Val(Value::NumInt(56)));
    assert_eq!(out, vec![Printed::Int(3), Printed::Int(5)]);

    // handle (handle (return 2) with { return x : Int => { return (x + 1) } })
    // with { return x : Int => { return (x + 5) } }
    let inner = handle(ret(num(2)), "x", ret(plus(var("x"), num(1))), vec![]);
    let c = handle(inner, "x", ret(plus(var("x"), num(5))), vec![]);
    let mut out = Vec::new();
    assert_eq!(run(&c, &mut out), EvalResult::Val(Value::NumInt(8)));

    // handle (let u : Unit <~ PrintInt 1 in return 2) with {
    //   return x : Int => { return (x + 5) }
    //   PrintInt k : (Unit ~> Int) ; z : Int => { let u : Unit <~ PrintInt (z + 100) in return 1 } }
    let body = let_(vt("u", t_unit()), do_op("PrintInt", num(1)), ret(num(2)));
    let c = handle(
        body,
        "x",
        ret(plus(var("x"), num(5))),
        vec![clause(
            "PrintInt",
            "k",
            k_type(t_unit(), t_int()),
            "z",
            t_int(),
            let_(vt("u", t_unit()), do_op("PrintInt", plus(var("z"), num(100))), ret(num(1))),
        )],
    );
    let mut out = Vec::new();
    assert_eq!(run(&c, &mut out), EvalResult::Val(Value::NumInt(1)));
    assert_eq!(out, vec![Printed::Int(101)]);

    // the same, but the clause resumes: ... in (k @ u)
    let body = let_(vt("u", t_unit()), do_op("PrintInt", num(1)), ret(num(2)));
    let c = handle(
        body,
        "x",
        ret(plus(var("x"), num(5))),
        vec![clause(
            "PrintInt",
            "k",
            k_type(t_unit(), t_int()),
            "z",
            t_int(),
            let_(
                vt("u", t_unit()),
                do_op("PrintInt", plus(var("z"), num(100))),
                Command::CApp(bx(var("k")), bx(var("u"))),
            ),
        )],
    );
    let mut out = Vec::new();
    assert_eq!(run(&c, &mut out), EvalResult::Val(Value::NumInt(7)));
    assert_eq!(out, vec![Printed::Int(101)]);

    // handle (let r : Int <~ Op 1 in return (r + 1000)) with {
    //   return x : Int => { return (x + 50) }
    //   Op k : (Int ~> Int) ; z : Int => { k @ (z + 200) } }
    let body = let_(vt("r", t_int()), do_op("Op", num(1)), ret(plus(var("r"), num(1000))));
    let c = handle(
        body,
        "x",
        ret(plus(var("x"), num(50))),
        vec![clause(
            "Op",
            "k",
            k_type(t_int(), t_int()),
            "z",
            t_int(),
            Command::CApp(bx(var("k")), bx(plus(var("z"), num(200)))),
        )],
    );
    let mut out = Vec::new();
    assert_eq!(run(&c, &mut out), EvalResult::Val(Value::NumInt(1251)));

    // let x, y : Int * Int <~ return (2, 3) in return (x + y)
    let c = let_(
        VarWithType::VT(
            VarProd::P(bx(VarProd::V("x".to_string())), bx(VarProd::V("y".to_string()))),
            Type::Prod(bx(t_int()), bx(t_int())),
        ),
        ret(pair(num(2), num(3))),
        ret(plus(var("x"), var("y"))),
    );
    let mut out = Vec::new();
    assert_eq!(run(&c, &mut out), EvalResult::Val(Value::NumInt(5)));

    // let r : Float <~ SampleNormal (1.0, 1.0) in let u : Unit <~ PrintFloat r in return r
    let c = let_(
        vt("r", t_float()),
        do_op("SampleNormal", pair(flt(1.0), flt(1.0))),
        let_(vt("u", t_unit()), do_op("PrintFloat", var("r")), ret(var("r"))),
    );
    let mut out = Vec::new();
    match run(&c, &mut out) {
        EvalResult::Val(Value::NumFloat(_)) => (),
        _ => panic!("not a float"),
    }
}

#[test]
fn float_work_goes_to_the_provider() {
    // 1.0 +. 2.0 with a provider that answers 7.0 to everything
    let t = Term::PlusF(bx(flt(1.0)), bx(flt(2.0)));
    let mut num = Provider::new(Constant { answer: 7.0, asked: 0 });
    let r = interp_term(&t, &Vec::new(), (&Vec::new(), &Vec::new()), FUEL, &mut num);
    assert_eq!(r, EvalResult::Val(Value::NumFloat(bits(7.0))));
    assert_eq!(num.inner().asked, 1);
    // integer work asks nothing
    let mut num = Provider::new(Constant { answer: 7.0, asked: 0 });
    let r = interp_term(&plus(num_t(40), num_t(2)), &Vec::new(), (&Vec::new(), &Vec::new()), FUEL, &mut num);
    assert_eq!(r, EvalResult::Val(Value::NumInt(42)));
    assert_eq!(num.into_inner().asked, 0);
}

fn num_t(n: i32) -> Term {
    num(n)
}

#[test]
fn matrix_vector_product() {
    // mat[[1, 2], [3, 4]] #> [5, 6] = [17, 39]
    let t = Term::MatVectMul(bx(mat(&[&[1.0, 2.0], &[3.0, 4.0]])), bx(vect(&[5.0, 6.0])));
    assert_eq!(eval(&t), EvalResult::Val(vect_val(&[17.0, 39.0])));
    // mismatched dimensions
    let t = Term::MatVectMul(bx(mat(&[&[1.0, 2.0], &[3.0, 4.0]])), bx(vect(&[5.0])));
    assert_eq!(eval(&t), EvalResult::Wrong("Matrix and vector dimensions do not match".to_string()));
    // both empty
    let t = Term::MatVectMul(bx(Term::Mat(vec![])), bx(Term::Vect(vec![])));
    assert_eq!(eval(&t), EvalResult::Val(Value::Vect(vec![])));
}

#[test]
fn vector_and_matrix_builtins() {
    assert_eq!(eval(&app(Term::VectZero, num(3))), EvalResult::Val(vect_val(&[0.0, 0.0, 0.0])));
    assert_eq!(eval(&app(Term::VectSize, vect(&[1.0, 2.0]))), EvalResult::Val(Value::NumInt(2)));
    assert_eq!(
        eval(&app(Term::MatZero, pair(num(2), num(1)))),
        EvalResult::Val(mat_val(&[&[0.0], &[0.0]]))
    );
    assert_eq!(
        eval(&app(Term::MatSize, mat(&[&[1.0, 2.0, 3.0], &[4.0, 5.0, 6.0]]))),
        EvalResult::Val(Value::Pair(bx(Value::NumInt(2)), bx(Value::NumInt(3))))
    );
    assert_eq!(
        eval(&Term::ProdVecVec(bx(vect(&[1.0, 2.0])), bx(vect(&[3.0, 4.0])))),
        EvalResult::Val(mat_val(&[&[3.0, 4.0], &[6.0, 8.0]]))
    );
    assert_eq!(
        eval(&Term::ScalarVect(bx(flt(2.0)), bx(vect(&[1.0, -1.5])))),
        EvalResult::Val(vect_val(&[2.0, -3.0]))
    );
    assert_eq!(
        eval(&Term::ScalarMat(bx(flt(0.5)), bx(mat(&[&[2.0], &[4.0]])))),
        EvalResult::Val(mat_val(&[&[1.0], &[2.0]]))
    );
    assert_eq!(
        eval(&Term::VectEntrywiseTimes(bx(vect(&[2.0, 3.0])), bx(vect(&[4.0, 5.0])))),
        EvalResult::Val(vect_val(&[8.0, 15.0]))
    );
    assert_eq!(eval(&app(Term::Exp, flt(0.0))), EvalResult::Val(Value::NumFloat(bits(1.0))));
    assert_eq!(
        eval(&Term::DivF(bx(flt(1.0)), bx(flt(4.0)))),
        EvalResult::Val(Value::NumFloat(bits(0.25)))
    );
    assert_eq!(eval(&Term::GTFloat(bx(flt(1.0)), bx(flt(4.0)))), EvalResult::Val(Value::Bool(false)));
    assert_eq!(eval(&Term::EqInt(bx(num(4)), bx(num(4)))), EvalResult::Val(Value::Bool(true)));
}

#[test]
fn shape_errors() {
    let t = Term::VectEntrywisePlus(bx(vect(&[1.0])), bx(vect(&[1.0, 2.0])));
    assert_eq!(eval(&t), EvalResult::Wrong("(<+>): Vectors have different lengths".to_string()));
    let t = Term::MatEntrywiseMinus(bx(mat(&[&[1.0]])), bx(mat(&[&[1.0], &[2.0]])));
    assert_eq!(eval(&t), EvalResult::Wrong("(#-#): Matrices have different shape".to_string()));
    let t = Term::Head(bx(Term::Nil(t_int())));
    assert_eq!(eval(&t), EvalResult::Wrong("Execution error: head of empty list".to_string()));
    let t = Term::Tail(bx(Term::Nil(t_int())));
    assert_eq!(eval(&t), EvalResult::Wrong("Execution error: tail of empty list".to_string()));
}

#[test]
fn entrywise_application_needs_floats() {
    // (fn x : Float --> { 1 }) $> [1.0]
    let t = Term::ApplicationVectEntrywise(bx(lam("x", t_float(), num(1))), bx(vect(&[1.0])));
    assert_eq!(eval(&t), EvalResult::Wrong("Type error: expected float".to_string()));
}

#[test]
fn budget_runs_out() {
    let t = plus(num(1), num(1));
    let r = interp_term(&t, &Vec::new(), (&Vec::new(), &Vec::new()), 1, &mut Provider::new(numerics()));
    assert_eq!(r, EvalResult::Wrong("evaluation budget exhausted".to_string()));
    let r = interp_term(&t, &Vec::new(), (&Vec::new(), &Vec::new()), 2, &mut Provider::new(numerics()));
    assert_eq!(r, EvalResult::Val(Value::NumInt(2)));
}

#[test]
fn unhandled_operation_is_an_error() {
    let c = do_op("Nope", num(1));
    let mut out = Vec::new();
    match run(&c, &mut out) {
        EvalResult::Wrong(m) => assert!(m.starts_with("interp_command: DoOp: Unhandled operation: Op(")),
        r => panic!("unexpected {:?}", r),
    }
}

#[test]
fn printing_floats_vectors_and_matrices() {
    let c = let_(
        vt("u", t_unit()),
        do_op("PrintVec", vect(&[1.0, 2.0])),
        let_(vt("u", t_unit()), do_op("PrintMat", mat(&[&[3.0]])), ret(num(0))),
    );
    let mut out = Vec::new();
    assert_eq!(run(&c, &mut out), EvalResult::Val(Value::NumInt(0)));
    assert_eq!(out, vec![Printed::Vect(vec![bits(1.0), bits(2.0)]), Printed::Mat(vec![vec![bits(3.0)]])]);
}

#[test]
fn sampling_a_matrix() {
    // let m : Mat <~ MatInitNormal (2, 3, 0.0, 1.0) in return m
    let arg = pair(num(2), pair(num(3), pair(flt(0.0), flt(1.0))));
    let c = let_(vt("m", Type::Base(BaseType::Mat)), do_op("MatInitNormal", arg), ret(var("m")));
    let mut out = Vec::new();
    match run(&c, &mut out) {
        EvalResult::Val(Value::Mat(m)) => {
            assert_eq!(m.len(), 2);
            assert!(m.iter().all(|r| r.len() == 3));
        }
        r => panic!("unexpected {:?}", r),
    }
    // an infinite deviation is refused
    let arg = pair(num(3), pair(flt(0.0), flt(f32::INFINITY)));
    let c = do_op("VecInitNormal", arg);
    let mut out = Vec::new();
    assert_eq!(
        run(&c, &mut out),
        EvalResult::Wrong("Execution error: invalid parameters of a normal distribution".to_string())
    );
}

#[test]
fn execute_runs_main() {
    // arrow main x z = let u : Unit <~ PrintInt 42 in return 1
    let body = let_(vt("u", t_unit()), do_op("PrintInt", num(42)), ret(num(1)));
    let main = (Var::V("main".to_string()), vt("x", t_unit()), vt("z", t_unit()), t_int(), body);
    let mut out = Vec::new();
    let r = execute(&Vec::new(), &vec![main], &mut Provider::new(numerics()), &mut out);
    assert_eq!(r, EvalResult::Val(Value::NumInt(1)));
    assert_eq!(out, vec![Printed::Int(42)]);
    let mut out = Vec::new();
    let r = execute(&Vec::new(), &Vec::new(), &mut Provider::new(numerics()), &mut out);
    assert_eq!(r, EvalResult::Wrong("main not found".to_string()));
}

#[test]
fn full_mode_checks_then_runs() {
    // arrow main x : Unit ; z : Unit ~~> Int { let u : Unit <~ PrintInt 42 in return 1 }
    let body = let_(vt("u", t_unit()), do_op("PrintInt", num(42)), ret(num(1)));
    let main = (Var::V("main".to_string()), vt("x", t_unit()), vt("z", t_unit()), t_int(), body);
    let mut out = Vec::new();
    let r = arrowml::full_mode(Vec::new(), &Vec::new(), &vec![main], &mut Provider::new(numerics()), &mut out);
    assert_eq!(r, Ok(EvalResult::Val(Value::NumInt(1))));
    assert_eq!(out, vec![Printed::Int(42)]);
    // the same body declared to return a float is refused before it runs
    let body = let_(vt("u", t_unit()), do_op("PrintInt", num(42)), ret(num(1)));
    let main = (Var::V("main".to_string()), vt("x", t_unit()), vt("z", t_unit()), t_float(), body);
    let mut out = Vec::new();
    let r = arrowml::full_mode(Vec::new(), &Vec::new(), &vec![main], &mut Provider::new(numerics()), &mut out);
    assert!(r.is_err());
    assert!(out.is_empty());
}

#[test]
fn error_messages_render_values_as_debug() {
    // proj1 of a closure: the closure is quoted as `{:?}` writes it
    let clo = lam("x", t_int(), plus(var("x"), num(-3)));
    let expected = Value::ClosureFunc(Vec::new(), VarProd::V("x".to_string()), plus(var("x"), num(-3)));
    assert_eq!(eval(&Term::Fst(bx(clo))), EvalResult::Wrong(format!("Type error: {:?}", expected)));
    // proj2 of a list
    let list = cons(num(7), Term::Nil(t_int()));
    let expected = Value::List(L::Cons(bx(Value::NumInt(7)), bx(L::Nil(t_int()))));
    assert_eq!(eval(&Term::Snd(bx(list))), EvalResult::Wrong(format!("Type error: {:?}", expected)));
}
