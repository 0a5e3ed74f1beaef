//! Mathematical models of the full language's syntax and values: names
//! become character sequences, vectors become sequences.  Copies of syntax
//! and values are specified by these models.
use vstd::prelude::*;
use crate::ast::{
    Type, VarWithType, Var, VarProd, L, Term, VTR, Command, Operation, Handler, HandlerRet, HandlerOp,
    Value, Continuation, Env, EvalResult, Printed,
};

verus! {

pub enum FVarProd {
    Unused,
    V(Seq<char>),
    P(Box<FVarProd>, Box<FVarProd>),
}

/// Model of a typed binder.
pub struct FBinder {
    pub var: FVarProd,
    pub typ: Type,
}

pub enum FTerm {
    NumInt(i32),
    NumFloat(u32),
    Bool(bool),
    Unt,
    Vect(Seq<u32>),
    Mat(Seq<Seq<u32>>),
    Var(Seq<char>),
    Pair(Box<FTerm>, Box<FTerm>),
    Fst(Box<FTerm>),
    Snd(Box<FTerm>),
    Lam(FBinder, Box<FTerm>),
    App(Box<FTerm>, Box<FTerm>),
    CLam(FBinder, Box<FCommand>),
    If(Box<FTerm>, Box<FTerm>, Box<FTerm>),
    Exp,
    Nil(Type),
    Cons(Box<FTerm>, Box<FTerm>),
    Head(Box<FTerm>),
    Tail(Box<FTerm>),
    VectZero,
    VectSize,
    MatZero,
    MatSize,
    Transpose,
    Plus(Box<FTerm>, Box<FTerm>),
    Times(Box<FTerm>, Box<FTerm>),
    PlusF(Box<FTerm>, Box<FTerm>),
    TimesF(Box<FTerm>, Box<FTerm>),
    DivF(Box<FTerm>, Box<FTerm>),
    MatVectMul(Box<FTerm>, Box<FTerm>),
    EqInt(Box<FTerm>, Box<FTerm>),
    LTFloat(Box<FTerm>, Box<FTerm>),
    GTFloat(Box<FTerm>, Box<FTerm>),
    ProdVecVec(Box<FTerm>, Box<FTerm>),
    ApplicationVectEntrywise(Box<FTerm>, Box<FTerm>),
    VectEntrywisePlus(Box<FTerm>, Box<FTerm>),
    VectEntrywiseMinus(Box<FTerm>, Box<FTerm>),
    VectEntrywiseTimes(Box<FTerm>, Box<FTerm>),
    ScalarVect(Box<FTerm>, Box<FTerm>),
    MatEntrywisePlus(Box<FTerm>, Box<FTerm>),
    MatEntrywiseMinus(Box<FTerm>, Box<FTerm>),
    ScalarMat(Box<FTerm>, Box<FTerm>),
}

pub enum FVtr {
    T(Box<FTerm>),
    V(Box<FValue>),
    Resume,
}

pub enum FCommand {
    Return(FVtr),
    Let(FBinder, Box<FCommand>, Box<FCommand>, Option<(FEnv, FEnv)>),
    CApp(Box<FTerm>, Box<FTerm>),
    DoOp(Seq<char>, Box<FTerm>),
    Handle(Box<FCommand>, FHandler, Option<FEnv>),
}

/// Model of an operation clause `op k ; z => body`.
pub struct FClause {
    pub op: Seq<char>,
    pub k: FBinder,
    pub z: FBinder,
    pub body: FCommand,
}

/// Model of a handler: its return clause and its operation clauses.
pub enum FHandler {
    H(FBinder, Box<FCommand>, Seq<FClause>),
}

pub enum FList {
    Nil(Type),
    Cons(Box<FValue>, Box<FList>),
}

pub enum FValue {
    NumInt(i32),
    NumFloat(u32),
    Bool(bool),
    Vect(Seq<u32>),
    Mat(Seq<Seq<u32>>),
    Unt,
    List(FList),
    Pair(Box<FValue>, Box<FValue>),
    ClosureFunc(FEnv, FVarProd, FTerm),
    ClosureArr(FEnv, FVarProd, FCommand),
    ClosureContArr(FEnv, FCommand),
    Exp,
    VectZero,
    VectSize,
    MatZero,
    MatSize,
    Transpose,
}

/// Model of an environment: names with their values, innermost last.
pub type FEnv = Seq<(Seq<char>, FValue)>;

pub enum FCont {
    Let(FBinder, FCommand, FEnv, FEnv),
    Handle(FHandler, FEnv),
}

pub open spec fn var_prod_model(vp: VarProd) -> FVarProd
    decreases vp,
{
    match vp {
        VarProd::Unused => FVarProd::Unused,
        VarProd::V(s) => FVarProd::V(s@),
        VarProd::P(a, b) => FVarProd::P(Box::new(var_prod_model(*a)), Box::new(var_prod_model(*b))),
    }
}

pub open spec fn binder_model(vt: VarWithType) -> FBinder {
    FBinder { var: var_prod_model(vt.var()), typ: vt.typ() }
}

pub open spec fn rows_model(m: Seq<Vec<u32>>) -> Seq<Seq<u32>> {
    Seq::new(m.len(), |i: int| m[i]@)
}

pub open spec fn term_model(t: Term) -> FTerm
    decreases t,
{
    match t {
        Term::NumInt(x) => FTerm::NumInt(x),
        Term::NumFloat(x) => FTerm::NumFloat(x),
        Term::Bool(x) => FTerm::Bool(x),
        Term::Unt => FTerm::Unt,
        Term::Vect(v) => FTerm::Vect(v@),
        Term::Mat(m) => FTerm::Mat(rows_model(m@)),
        Term::Var(x) => FTerm::Var(x.name()),
        Term::Pair(a, b) => FTerm::Pair(Box::new(term_model(*a)), Box::new(term_model(*b))),
        Term::Fst(a) => FTerm::Fst(Box::new(term_model(*a))),
        Term::Snd(a) => FTerm::Snd(Box::new(term_model(*a))),
        Term::Lam(vt, b) => FTerm::Lam(binder_model(vt), Box::new(term_model(*b))),
        Term::App(a, b) => FTerm::App(Box::new(term_model(*a)), Box::new(term_model(*b))),
        Term::CLam(vt, c) => FTerm::CLam(binder_model(vt), Box::new(command_model(*c))),
        Term::If(a, b, c) => FTerm::If(Box::new(term_model(*a)), Box::new(term_model(*b)), Box::new(term_model(*c))),
        Term::Exp => FTerm::Exp,
        Term::Nil(t) => FTerm::Nil(t),
        Term::Cons(a, b) => FTerm::Cons(Box::new(term_model(*a)), Box::new(term_model(*b))),
        Term::Head(a) => FTerm::Head(Box::new(term_model(*a))),
        Term::Tail(a) => FTerm::Tail(Box::new(term_model(*a))),
        Term::VectZero => FTerm::VectZero,
        Term::VectSize => FTerm::VectSize,
        Term::MatZero => FTerm::MatZero,
        Term::MatSize => FTerm::MatSize,
        Term::Transpose => FTerm::Transpose,
        Term::Plus(a, b) => FTerm::Plus(Box::new(term_model(*a)), Box::new(term_model(*b))),
        Term::Times(a, b) => FTerm::Times(Box::new(term_model(*a)), Box::new(term_model(*b))),
        Term::PlusF(a, b) => FTerm::PlusF(Box::new(term_model(*a)), Box::new(term_model(*b))),
        Term::TimesF(a, b) => FTerm::TimesF(Box::new(term_model(*a)), Box::new(term_model(*b))),
        Term::DivF(a, b) => FTerm::DivF(Box::new(term_model(*a)), Box::new(term_model(*b))),
        Term::MatVectMul(a, b) => FTerm::MatVectMul(Box::new(term_model(*a)), Box::new(term_model(*b))),
        Term::EqInt(a, b) => FTerm::EqInt(Box::new(term_model(*a)), Box::new(term_model(*b))),
        Term::LTFloat(a, b) => FTerm::LTFloat(Box::new(term_model(*a)), Box::new(term_model(*b))),
        Term::GTFloat(a, b) => FTerm::GTFloat(Box::new(term_model(*a)), Box::new(term_model(*b))),
        Term::ProdVecVec(a, b) => FTerm::ProdVecVec(Box::new(term_model(*a)), Box::new(term_model(*b))),
        Term::ApplicationVectEntrywise(a, b) => FTerm::ApplicationVectEntrywise(Box::new(term_model(*a)), Box::new(term_model(*b))),
        Term::VectEntrywisePlus(a, b) => FTerm::VectEntrywisePlus(Box::new(term_model(*a)), Box::new(term_model(*b))),
        Term::VectEntrywiseMinus(a, b) => FTerm::VectEntrywiseMinus(Box::new(term_model(*a)), Box::new(term_model(*b))),
        Term::VectEntrywiseTimes(a, b) => FTerm::VectEntrywiseTimes(Box::new(term_model(*a)), Box::new(term_model(*b))),
        Term::ScalarVect(a, b) => FTerm::ScalarVect(Box::new(term_model(*a)), Box::new(term_model(*b))),
        Term::MatEntrywisePlus(a, b) => FTerm::MatEntrywisePlus(Box::new(term_model(*a)), Box::new(term_model(*b))),
        Term::MatEntrywiseMinus(a, b) => FTerm::MatEntrywiseMinus(Box::new(term_model(*a)), Box::new(term_model(*b))),
        Term::ScalarMat(a, b) => FTerm::ScalarMat(Box::new(term_model(*a)), Box::new(term_model(*b))),
    }
}

pub open spec fn command_model(c: Command) -> FCommand
    decreases c,
{
    match c {
        Command::Return(v) => FCommand::Return(
            match v {
                VTR::T(t) => FVtr::T(Box::new(term_model(*t))),
                VTR::V(x) => FVtr::V(Box::new(value_model(*x))),
                VTR::Resume => FVtr::Resume,
            },
        ),
        Command::Let(vt, c1, c2, envs) => FCommand::Let(
            binder_model(vt),
            Box::new(command_model(*c1)),
            Box::new(command_model(*c2)),
            match envs {
                Some((e1, e2)) => Some((env_model(e1@), env_model(e2@))),
                None => None,
            },
        ),
        Command::CApp(a, b) => FCommand::CApp(Box::new(term_model(*a)), Box::new(term_model(*b))),
        Command::DoOp(op, t) => FCommand::DoOp(op.name(), Box::new(term_model(*t))),
        Command::Handle(c1, h, env) => FCommand::Handle(
            Box::new(command_model(*c1)),
            handler_model(h),
            match env {
                Some(e) => Some(env_model(e@)),
                None => None,
            },
        ),
    }
}

pub open spec fn handler_model(h: Handler) -> FHandler
    decreases h,
{
    match h {
        Handler::H(hret, ops) => match hret {
            HandlerRet::HRet(vt, c) => FHandler::H(binder_model(vt), Box::new(command_model(*c)), clauses_model(ops@)),
        },
    }
}

pub open spec fn clause_model(op: HandlerOp) -> FClause
    decreases op,
{
    match op {
        HandlerOp::HOp(o, k, z, c) => FClause {
            op: o.name(),
            k: binder_model(k),
            z: binder_model(z),
            body: command_model(*c),
        },
    }
}

pub open spec fn clauses_model(ops: Seq<HandlerOp>) -> Seq<FClause>
    decreases ops,
{
    if ops.len() == 0 {
        Seq::empty()
    } else {
        clauses_model(ops.drop_last()).push(clause_model(ops.last()))
    }
}

pub open spec fn list_model(l: L<Box<Value>>) -> FList
    decreases l,
{
    match l {
        L::Nil(t) => FList::Nil(t),
        L::Cons(v, rest) => FList::Cons(Box::new(value_model(*v)), Box::new(list_model(*rest))),
    }
}

pub open spec fn value_model(v: Value) -> FValue
    decreases v,
{
    match v {
        Value::NumInt(n) => FValue::NumInt(n),
        Value::NumFloat(x) => FValue::NumFloat(x),
        Value::Bool(b) => FValue::Bool(b),
        Value::Vect(x) => FValue::Vect(x@),
        Value::Mat(m) => FValue::Mat(rows_model(m@)),
        Value::Unt => FValue::Unt,
        Value::List(l) => FValue::List(list_model(l)),
        Value::Pair(a, b) => FValue::Pair(Box::new(value_model(*a)), Box::new(value_model(*b))),
        Value::ClosureFunc(env, x, t) => FValue::ClosureFunc(env_model(env@), var_prod_model(x), term_model(t)),
        Value::ClosureArr(env, x, c) => FValue::ClosureArr(env_model(env@), var_prod_model(x), command_model(c)),
        Value::ClosureContArr(env, c) => FValue::ClosureContArr(env_model(env@), command_model(c)),
        Value::Exp => FValue::Exp,
        Value::VectZero => FValue::VectZero,
        Value::VectSize => FValue::VectSize,
        Value::MatZero => FValue::MatZero,
        Value::MatSize => FValue::MatSize,
        Value::Transpose => FValue::Transpose,
    }
}

pub open spec fn env_model(e: Seq<(Var, Value)>) -> FEnv
    decreases e,
{
    if e.len() == 0 {
        Seq::empty()
    } else {
        env_model(e.drop_last()).push((e.last().0.name(), value_model(e.last().1)))
    }
}

pub open spec fn cont_model(k: Continuation) -> FCont {
    match k {
        Continuation::Let(vt, c, envs) => FCont::Let(
            binder_model(vt),
            command_model(*c),
            env_model(envs.0@),
            env_model(envs.1@),
        ),
        Continuation::Handle(h, env) => FCont::Handle(handler_model(h), env_model(env@)),
    }
}

/// Model of the outcome of an evaluation.
pub enum FResult {
    Val(FValue),
    Wrong(Seq<char>),
}

/// Model of one printed item.
pub enum FPrinted {
    Int(i32),
    Float(u32),
    Vect(Seq<u32>),
    Mat(Seq<Seq<u32>>),
}

pub open spec fn result_model(r: EvalResult) -> FResult {
    match r {
        EvalResult::Val(v) => FResult::Val(value_model(v)),
        EvalResult::Wrong(s) => FResult::Wrong(s@),
    }
}

pub open spec fn opt_value_model(v: Option<Value>) -> Option<FValue> {
    match v {
        Some(x) => Some(value_model(x)),
        None => None,
    }
}

pub open spec fn printed_model(p: Printed) -> FPrinted {
    match p {
        Printed::Int(n) => FPrinted::Int(n),
        Printed::Float(x) => FPrinted::Float(x),
        Printed::Vect(v) => FPrinted::Vect(v@),
        Printed::Mat(m) => FPrinted::Mat(rows_model(m@)),
    }
}

/// Model of what has been printed, in order.
pub open spec fn output_model(out: Seq<Printed>) -> Seq<FPrinted> {
    Seq::new(out.len(), |i: int| printed_model(out[i]))
}

/// Model of a stack of continuations, innermost last.
pub open spec fn stack_model(cs: Seq<&Continuation>) -> Seq<FCont> {
    Seq::new(cs.len(), |i: int| cont_model(*cs[i]))
}

/// Each entry of an environment's model is the model of the entry.
pub proof fn lemma_env_model(e: Seq<(Var, Value)>)
    ensures
        env_model(e).len() == e.len(),
        forall|i: int| 0 <= i < e.len() ==> #[trigger] env_model(e)[i] == (e[i].0.name(), value_model(e[i].1)),
    decreases e.len(),
{
    if e.len() > 0 {
        lemma_env_model(e.drop_last());
    }
}

/// The model of an environment with one more entry.
pub proof fn lemma_env_model_push(a: Seq<(Var, Value)>, x: (Var, Value))
    ensures
        env_model(a.push(x)) == env_model(a).push((x.0.name(), value_model(x.1))),
{
    assert(a.push(x).drop_last() =~= a);
}

pub proof fn lemma_clauses_model(ops: Seq<HandlerOp>)
    ensures
        clauses_model(ops).len() == ops.len(),
        forall|i: int| 0 <= i < ops.len() ==> #[trigger] clauses_model(ops)[i] == clause_model(ops[i]),
    decreases ops.len(),
{
    if ops.len() > 0 {
        lemma_clauses_model(ops.drop_last());
    }
}

// ---------------------------------------------------------------------
// Copies
// ---------------------------------------------------------------------

/// A copy of a row of float bit patterns.
pub fn clone_row(v: &Vec<u32>) -> (res: Vec<u32>)
    ensures
        res@ == v@,
{
    let mut res: Vec<u32> = Vec::new();
    let mut i: usize = 0;
    while i < v.len()
        invariant
            i <= v@.len(),
            res@ == v@.subrange(0, i as int),
        decreases v.len() - i,
    {
        res.push(v[i]);
        i = i + 1;
        assert(res@ =~= v@.subrange(0, i as int));
    }
    assert(v@.subrange(0, v@.len() as int) =~= v@);
    res
}

/// A copy of the rows of a matrix.
pub fn clone_rows(m: &Vec<Vec<u32>>) -> (res: Vec<Vec<u32>>)
    ensures
        rows_model(res@) == rows_model(m@),
{
    let mut res: Vec<Vec<u32>> = Vec::new();
    let mut i: usize = 0;
    while i < m.len()
        invariant
            i <= m@.len(),
            res@.len() == i,
            forall|j: int| 0 <= j < i ==> #[trigger] res@[j]@ == m@[j]@,
        decreases m.len() - i,
    {
        res.push(clone_row(&m[i]));
        i = i + 1;
    }
    assert(rows_model(res@) =~= rows_model(m@));
    res
}

impl Clone for Term {
    fn clone(&self) -> (res: Self)
        ensures
            term_model(res) == term_model(*self),
        decreases self, 0nat,
    {
        match self {
            Term::NumInt(x) => Term::NumInt(*x),
            Term::NumFloat(x) => Term::NumFloat(*x),
            Term::Bool(x) => Term::Bool(*x),
            Term::Unt => Term::Unt,
            Term::Vect(v) => Term::Vect(clone_row(v)),
            Term::Mat(m) => Term::Mat(clone_rows(m)),
            Term::Var(x) => Term::Var(x.clone()),
            Term::Pair(a, b) => Term::Pair(Box::new((**a).clone()), Box::new((**b).clone())),
            Term::Fst(a) => Term::Fst(Box::new((**a).clone())),
            Term::Snd(a) => Term::Snd(Box::new((**a).clone())),
            Term::Lam(vt, b) => Term::Lam(vt.clone(), Box::new((**b).clone())),
            Term::App(a, b) => Term::App(Box::new((**a).clone()), Box::new((**b).clone())),
            Term::CLam(vt, c) => Term::CLam(vt.clone(), Box::new((**c).clone())),
            Term::If(a, b, c) => Term::If(Box::new((**a).clone()), Box::new((**b).clone()), Box::new((**c).clone())),
            Term::Exp => Term::Exp,
            Term::Nil(t) => Term::Nil(t.clone()),
            Term::Cons(a, b) => Term::Cons(Box::new((**a).clone()), Box::new((**b).clone())),
            Term::Head(a) => Term::Head(Box::new((**a).clone())),
            Term::Tail(a) => Term::Tail(Box::new((**a).clone())),
            Term::VectZero => Term::VectZero,
            Term::VectSize => Term::VectSize,
            Term::MatZero => Term::MatZero,
            Term::MatSize => Term::MatSize,
            Term::Transpose => Term::Transpose,
            Term::Plus(a, b) => Term::Plus(Box::new((**a).clone()), Box::new((**b).clone())),
            Term::Times(a, b) => Term::Times(Box::new((**a).clone()), Box::new((**b).clone())),
            Term::PlusF(a, b) => Term::PlusF(Box::new((**a).clone()), Box::new((**b).clone())),
            Term::TimesF(a, b) => Term::TimesF(Box::new((**a).clone()), Box::new((**b).clone())),
            Term::DivF(a, b) => Term::DivF(Box::new((**a).clone()), Box::new((**b).clone())),
            Term::MatVectMul(a, b) => Term::MatVectMul(Box::new((**a).clone()), Box::new((**b).clone())),
            Term::EqInt(a, b) => Term::EqInt(Box::new((**a).clone()), Box::new((**b).clone())),
            Term::LTFloat(a, b) => Term::LTFloat(Box::new((**a).clone()), Box::new((**b).clone())),
            Term::GTFloat(a, b) => Term::GTFloat(Box::new((**a).clone()), Box::new((**b).clone())),
            Term::ProdVecVec(a, b) => Term::ProdVecVec(Box::new((**a).clone()), Box::new((**b).clone())),
            Term::ApplicationVectEntrywise(a, b) => Term::ApplicationVectEntrywise(Box::new((**a).clone()), Box::new((**b).clone())),
            Term::VectEntrywisePlus(a, b) => Term::VectEntrywisePlus(Box::new((**a).clone()), Box::new((**b).clone())),
            Term::VectEntrywiseMinus(a, b) => Term::VectEntrywiseMinus(Box::new((**a).clone()), Box::new((**b).clone())),
            Term::VectEntrywiseTimes(a, b) => Term::VectEntrywiseTimes(Box::new((**a).clone()), Box::new((**b).clone())),
            Term::ScalarVect(a, b) => Term::ScalarVect(Box::new((**a).clone()), Box::new((**b).clone())),
            Term::MatEntrywisePlus(a, b) => Term::MatEntrywisePlus(Box::new((**a).clone()), Box::new((**b).clone())),
            Term::MatEntrywiseMinus(a, b) => Term::MatEntrywiseMinus(Box::new((**a).clone()), Box::new((**b).clone())),
            Term::ScalarMat(a, b) => Term::ScalarMat(Box::new((**a).clone()), Box::new((**b).clone())),
        }
    }
}

/// A copy of a list value, element by element.
pub fn clone_list(l: &L<Box<Value>>) -> (res: L<Box<Value>>)
    ensures
        list_model(res) == list_model(*l),
    decreases l, 0nat,
{
    match l {
        L::Nil(t) => L::Nil(t.clone()),
        L::Cons(v, rest) => L::Cons(Box::new((**v).clone()), Box::new(clone_list(rest))),
    }
}

impl Clone for Value {
    fn clone(&self) -> (res: Self)
        ensures
            value_model(res) == value_model(*self),
        decreases self, 0nat,
    {
        match self {
            Value::NumInt(n) => Value::NumInt(*n),
            Value::NumFloat(x) => Value::NumFloat(*x),
            Value::Bool(b) => Value::Bool(*b),
            Value::Vect(x) => Value::Vect(clone_row(x)),
            Value::Mat(m) => Value::Mat(clone_rows(m)),
            Value::Unt => Value::Unt,
            Value::List(l) => Value::List(clone_list(l)),
            Value::Pair(a, b) => Value::Pair(Box::new((**a).clone()), Box::new((**b).clone())),
            Value::ClosureFunc(env, x, t) => Value::ClosureFunc(clone_env(env), x.clone(), t.clone()),
            Value::ClosureArr(env, x, c) => Value::ClosureArr(clone_env(env), x.clone(), c.clone()),
            Value::ClosureContArr(env, c) => Value::ClosureContArr(clone_env(env), c.clone()),
            Value::Exp => Value::Exp,
            Value::VectZero => Value::VectZero,
            Value::VectSize => Value::VectSize,
            Value::MatZero => Value::MatZero,
            Value::MatSize => Value::MatSize,
            Value::Transpose => Value::Transpose,
        }
    }
}

/// A copy of an environment, entry by entry.
pub fn clone_env(env: &Env) -> (res: Env)
    ensures
        env_model(res@) == env_model(env@),
    decreases env, 0nat,
{
    let mut res: Env = Vec::new();
    let mut i: usize = 0;
    while i < env.len()
        invariant
            i <= env@.len(),
            res@.len() == i,
            forall|j: int|
                0 <= j < i ==> (#[trigger] res@[j]).0.name() == env@[j].0.name() && value_model(res@[j].1)
                    == value_model(env@[j].1),
        decreases env.len() - i,
    {
        proof {
            assert(decreases_to!(*env => env@));
            assert(decreases_to!(env@ => env@[i as int]));
            assert(decreases_to!(env@[i as int] => env@[i as int].1));
        }
        let v = env[i].1.clone();
        let x = env[i].0.clone();
        res.push((x, v));
        i = i + 1;
    }
    proof {
        lemma_env_model(res@);
        lemma_env_model(env@);
        assert(env_model(res@) =~= env_model(env@));
    }
    res
}

impl Clone for Command {
    fn clone(&self) -> (res: Self)
        ensures
            command_model(res) == command_model(*self),
        decreases self, 0nat,
    {
        match self {
            Command::Return(VTR::T(t)) => Command::Return(VTR::T(Box::new((**t).clone()))),
            Command::Return(VTR::V(v)) => Command::Return(VTR::V(Box::new((**v).clone()))),
            Command::Return(VTR::Resume) => Command::Return(VTR::Resume),
            Command::Let(vt, c1, c2, envs) => {
                let envs2 = match envs {
                    Some((e1, e2)) => Some((clone_env(e1), clone_env(e2))),
                    None => None,
                };
                Command::Let(vt.clone(), Box::new((**c1).clone()), Box::new((**c2).clone()), envs2)
            },
            Command::CApp(a, b) => Command::CApp(Box::new((**a).clone()), Box::new((**b).clone())),
            Command::DoOp(op, t) => Command::DoOp(op.clone(), Box::new((**t).clone())),
            Command::Handle(c1, h, env) => {
                let env2 = match env {
                    Some(e) => Some(clone_env(e)),
                    None => None,
                };
                Command::Handle(Box::new((**c1).clone()), h.clone(), env2)
            },
        }
    }
}

impl Clone for Handler {
    fn clone(&self) -> (res: Self)
        ensures
            handler_model(res) == handler_model(*self),
        decreases self, 0nat,
    {
        match self {
            Handler::H(HandlerRet::HRet(vt, c), ops) => {
                let res_ops = clone_clauses(ops);
                Handler::H(HandlerRet::HRet(vt.clone(), Box::new((**c).clone())), res_ops)
            },
        }
    }
}

/// A copy of the operation clauses of a handler, clause by clause.
fn clone_clauses(ops: &Vec<HandlerOp>) -> (res: Vec<HandlerOp>)
    ensures
        clauses_model(res@) == clauses_model(ops@),
    decreases ops, 0nat,
{
    let mut res_ops: Vec<HandlerOp> = Vec::new();
    let mut i: usize = 0;
    while i < ops.len()
        invariant
            i <= ops@.len(),
            res_ops@.len() == i,
            forall|j: int| 0 <= j < i ==> clause_model(#[trigger] res_ops@[j]) == clause_model(ops@[j]),
        decreases ops.len() - i,
    {
        proof {
            assert(decreases_to!(*ops => ops@));
            assert(decreases_to!(ops@ => ops@[i as int]));
        }
        let copy = match &ops[i] {
            HandlerOp::HOp(o, k, z, body) => {
                proof {
                    assert(ops@[i as int] == HandlerOp::HOp(*o, *k, *z, *body));
                    assert(decreases_to!(ops@[i as int] => **body));
                }
                HandlerOp::HOp(o.clone(), k.clone(), z.clone(), Box::new((**body).clone()))
            },
        };
        res_ops.push(copy);
        i = i + 1;
    }
    proof {
        lemma_clauses_model(res_ops@);
        lemma_clauses_model(ops@);
        assert(clauses_model(res_ops@) =~= clauses_model(ops@));
    }
    res_ops
}

impl Clone for HandlerOp {
    fn clone(&self) -> (res: Self)
        ensures
            clause_model(res) == clause_model(*self),
    {
        match self {
            HandlerOp::HOp(o, k, z, body) => HandlerOp::HOp(o.clone(), k.clone(), z.clone(), Box::new((**body).clone())),
        }
    }
}

impl Clone for Continuation {
    fn clone(&self) -> (res: Self)
        ensures
            cont_model(res) == cont_model(*self),
    {
        match self {
            Continuation::Let(vt, c, envs) => Continuation::Let(
                vt.clone(),
                Box::new((**c).clone()),
                (clone_env(&envs.0), clone_env(&envs.1)),
            ),
            Continuation::Handle(h, env) => Continuation::Handle(h.clone(), clone_env(env)),
        }
    }
}

} // verus!
