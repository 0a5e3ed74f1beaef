//! Syntax and values of the core calculus, and their mathematical models.
//!
//! Each syntax or value type has a model (`M...`) in which names are
//! character sequences and environments are sequences; `term_view`,
//! `command_view`, `value_view` and the like map a value to its model.  The
//! interpreter's contracts are stated over the models.
use vstd::prelude::*;

verus! {

#[derive(Debug, Clone, Copy, PartialEq, Eq, Structural)]
pub enum BaseType {
    Int,
    Unit,
}

#[derive(Debug)]
pub enum Type {
    Base(BaseType),
    Prod(Box<Type>, Box<Type>),
    Fun(Box<Type>, Box<Type>),
    Arr(Box<Type>, Box<Type>),
}

#[derive(Debug, PartialEq)]
pub enum VarWithType {
    VT(String, Type),
}

#[derive(Debug, PartialEq)]
pub enum Var {
    V(String),
}

#[derive(Debug, PartialEq)]
pub enum Term {
    NumInt(i32),
    Unt,
    Var(Var),
    Pair(Box<Term>, Box<Term>),
    Fst(Box<Term>),
    Snd(Box<Term>),
    Lam(VarWithType, Box<Term>),
    App(Box<Term>, Box<Term>),
    CLam(VarWithType, Box<Command>),
    /// `+`
    Plus(Box<Term>, Box<Term>),
}

#[derive(Debug, PartialEq)]
pub enum VTR {
    T(Box<Term>),
    V(Box<Value>),
    Resume,
}

#[derive(Debug, PartialEq)]
pub enum Command {
    Return(VTR),
    /// `Let` may carry the term and command environments it was suspended with
    Let(VarWithType, Box<Command>, Box<Command>, Option<(Env, Env)>),
    CApp(Box<Term>, Box<Term>),
    DoOp(Operation, Box<Term>),
    /// `Handle` may carry the term environment it was suspended with
    Handle(Box<Command>, Handler, Option<Env>),
}

#[derive(Debug, PartialEq)]
pub enum Operation {
    Op(String),
}

#[derive(Debug, PartialEq)]
pub enum Handler {
    H(HandlerRet, Vec<HandlerOp>),
}

#[derive(Debug, PartialEq)]
pub enum HandlerRet {
    HRet(VarWithType, Box<Command>),
}

#[derive(Debug, PartialEq)]
pub enum HandlerOp {
    HOp(Operation, VarWithType, VarWithType, Box<Command>),
}

pub type EffectDecl = (Operation, Type, Type);

pub type TopLevelTerm = (Var, VarWithType, Type, Term);

pub type TopLevelCommand = (Var, VarWithType, VarWithType, Type, Command);

#[derive(Debug, PartialEq)]
pub enum Value {
    NumInt(i32),
    Unt,
    Pair(Box<Value>, Box<Value>),
    ClosureFunc(Env, Var, Term),
    ClosureArr(Env, Var, Command),
    ClosureContArr(Env, Command),
}

#[derive(Debug, PartialEq)]
pub enum EvalResult {
    Val(Value),
    Wrong(String),
}

#[derive(Debug, PartialEq)]
pub enum Continuation {
    Let(VarWithType, Box<Command>, (Env, Env)),
    Handle(Handler, Env),
}

pub type Env = Vec<(Var, Value)>;

// ---------------------------------------------------------------------
// Models
// ---------------------------------------------------------------------

/// Model of a typed binder `x : T`.
pub struct MBinder {
    pub name: Seq<char>,
    pub typ: Type,
}

pub enum MTerm {
    NumInt(i32),
    Unt,
    Var(Seq<char>),
    Pair(Box<MTerm>, Box<MTerm>),
    Fst(Box<MTerm>),
    Snd(Box<MTerm>),
    Lam(MBinder, Box<MTerm>),
    App(Box<MTerm>, Box<MTerm>),
    CLam(MBinder, Box<MCommand>),
    Plus(Box<MTerm>, Box<MTerm>),
}

pub enum MVtr {
    T(Box<MTerm>),
    V(Box<MValue>),
    Resume,
}

pub enum MCommand {
    Return(MVtr),
    Let(MBinder, Box<MCommand>, Box<MCommand>, Option<(MEnv, MEnv)>),
    CApp(Box<MTerm>, Box<MTerm>),
    DoOp(Seq<char>, Box<MTerm>),
    Handle(Box<MCommand>, MHandler, Option<MEnv>),
}

/// Model of an operation clause `op k ; z => body`.
pub struct MClause {
    pub op: Seq<char>,
    pub k: MBinder,
    pub z: MBinder,
    pub body: MCommand,
}

/// Model of a handler: its return clause `x => body` and its operation clauses.
pub enum MHandler {
    H(MBinder, Box<MCommand>, Seq<MClause>),
}

pub enum MValue {
    NumInt(i32),
    Unt,
    Pair(Box<MValue>, Box<MValue>),
    ClosureFunc(MEnv, Seq<char>, MTerm),
    ClosureArr(MEnv, Seq<char>, MCommand),
    ClosureContArr(MEnv, MCommand),
}

/// Model of an environment: names with their values, innermost last.
pub type MEnv = Seq<(Seq<char>, MValue)>;

pub enum MCont {
    Let(MBinder, MCommand, MEnv, MEnv),
    Handle(MHandler, MEnv),
}

pub enum MResult {
    Val(MValue),
    Wrong(Seq<char>),
}

pub open spec fn binder_view(vt: VarWithType) -> MBinder {
    match vt {
        VarWithType::VT(s, t) => MBinder { name: s@, typ: t },
    }
}

/// The variable bound by a typed binder.
pub open spec fn vt_var(vt: VarWithType) -> Var {
    match vt {
        VarWithType::VT(s, _) => Var::V(s),
    }
}

pub open spec fn var_name(v: Var) -> Seq<char> {
    match v {
        Var::V(s) => s@,
    }
}

pub open spec fn op_name(op: Operation) -> Seq<char> {
    match op {
        Operation::Op(s) => s@,
    }
}

pub open spec fn term_view(t: Term) -> MTerm
    decreases t,
{
    match t {
        Term::NumInt(n) => MTerm::NumInt(n),
        Term::Unt => MTerm::Unt,
        Term::Var(v) => MTerm::Var(var_name(v)),
        Term::Pair(a, b) => MTerm::Pair(Box::new(term_view(*a)), Box::new(term_view(*b))),
        Term::Fst(a) => MTerm::Fst(Box::new(term_view(*a))),
        Term::Snd(a) => MTerm::Snd(Box::new(term_view(*a))),
        Term::Lam(vt, body) => MTerm::Lam(binder_view(vt), Box::new(term_view(*body))),
        Term::App(a, b) => MTerm::App(Box::new(term_view(*a)), Box::new(term_view(*b))),
        Term::CLam(vt, c) => MTerm::CLam(binder_view(vt), Box::new(command_view(*c))),
        Term::Plus(a, b) => MTerm::Plus(Box::new(term_view(*a)), Box::new(term_view(*b))),
    }
}

pub open spec fn command_view(c: Command) -> MCommand
    decreases c,
{
    match c {
        Command::Return(v) => MCommand::Return(
            match v {
                VTR::T(t) => MVtr::T(Box::new(term_view(*t))),
                VTR::V(x) => MVtr::V(Box::new(value_view(*x))),
                VTR::Resume => MVtr::Resume,
            },
        ),
        Command::Let(vt, c1, c2, envs) => MCommand::Let(
            binder_view(vt),
            Box::new(command_view(*c1)),
            Box::new(command_view(*c2)),
            match envs {
                Some((e1, e2)) => Some((env_view(e1@), env_view(e2@))),
                None => None,
            },
        ),
        Command::CApp(a, b) => MCommand::CApp(Box::new(term_view(*a)), Box::new(term_view(*b))),
        Command::DoOp(op, t) => MCommand::DoOp(op_name(op), Box::new(term_view(*t))),
        Command::Handle(c1, h, env) => MCommand::Handle(
            Box::new(command_view(*c1)),
            handler_view(h),
            match env {
                Some(e) => Some(env_view(e@)),
                None => None,
            },
        ),
    }
}

pub open spec fn handler_view(h: Handler) -> MHandler
    decreases h,
{
    match h {
        Handler::H(hret, ops) => match hret {
            HandlerRet::HRet(vt, c) => MHandler::H(
                binder_view(vt),
                Box::new(command_view(*c)),
                clauses_view(ops@),
            ),
        },
    }
}

pub open spec fn clause_view(op: HandlerOp) -> MClause
    decreases op,
{
    match op {
        HandlerOp::HOp(o, k, z, c) => MClause {
            op: op_name(o),
            k: binder_view(k),
            z: binder_view(z),
            body: command_view(*c),
        },
    }
}

pub open spec fn clauses_view(ops: Seq<HandlerOp>) -> Seq<MClause>
    decreases ops,
{
    if ops.len() == 0 {
        Seq::empty()
    } else {
        clauses_view(ops.drop_last()).push(clause_view(ops.last()))
    }
}

pub open spec fn value_view(v: Value) -> MValue
    decreases v,
{
    match v {
        Value::NumInt(n) => MValue::NumInt(n),
        Value::Unt => MValue::Unt,
        Value::Pair(a, b) => MValue::Pair(Box::new(value_view(*a)), Box::new(value_view(*b))),
        Value::ClosureFunc(env, x, t) => MValue::ClosureFunc(env_view(env@), var_name(x), term_view(t)),
        Value::ClosureArr(env, x, c) => MValue::ClosureArr(env_view(env@), var_name(x), command_view(c)),
        Value::ClosureContArr(env, c) => MValue::ClosureContArr(env_view(env@), command_view(c)),
    }
}

pub open spec fn env_view(e: Seq<(Var, Value)>) -> MEnv
    decreases e,
{
    if e.len() == 0 {
        Seq::empty()
    } else {
        env_view(e.drop_last()).push((var_name(e.last().0), value_view(e.last().1)))
    }
}

pub open spec fn cont_view(k: Continuation) -> MCont {
    match k {
        Continuation::Let(vt, c, envs) => MCont::Let(
            binder_view(vt),
            command_view(*c),
            env_view(envs.0@),
            env_view(envs.1@),
        ),
        Continuation::Handle(h, env) => MCont::Handle(handler_view(h), env_view(env@)),
    }
}

pub open spec fn result_view(r: EvalResult) -> MResult {
    match r {
        EvalResult::Val(v) => MResult::Val(value_view(v)),
        EvalResult::Wrong(s) => MResult::Wrong(s@),
    }
}

pub open spec fn opt_value_view(v: Option<Value>) -> Option<MValue> {
    match v {
        Some(x) => Some(value_view(x)),
        None => None,
    }
}

/// The model of a continuation stack, innermost last.
pub open spec fn stack_view(cs: Seq<&Continuation>) -> Seq<MCont> {
    Seq::new(cs.len(), |i: int| cont_view(*cs[i]))
}

/// Each entry of an environment's model is the model of the entry.
pub proof fn lemma_env_view(e: Seq<(Var, Value)>)
    ensures
        env_view(e).len() == e.len(),
        forall|i: int|
            0 <= i < e.len() ==> #[trigger] env_view(e)[i] == (var_name(e[i].0), value_view(e[i].1)),
    decreases e.len(),
{
    if e.len() > 0 {
        lemma_env_view(e.drop_last());
    }
}

/// Environments with pointwise equal models have equal models.
pub proof fn lemma_env_view_ext(a: Seq<(Var, Value)>, b: Seq<(Var, Value)>)
    requires
        a.len() == b.len(),
        forall|i: int|
            0 <= i < a.len() ==> var_name(#[trigger] a[i].0) == var_name(b[i].0) && value_view(a[i].1)
                == value_view(b[i].1),
    ensures
        env_view(a) == env_view(b),
{
    lemma_env_view(a);
    lemma_env_view(b);
    assert(env_view(a) =~= env_view(b));
}

/// The model of an environment with one more entry.
pub proof fn lemma_env_view_push(a: Seq<(Var, Value)>, x: (Var, Value))
    ensures
        env_view(a.push(x)) == env_view(a).push((var_name(x.0), value_view(x.1))),
{
    assert(a.push(x).drop_last() =~= a);
}

pub proof fn lemma_clauses_view(ops: Seq<HandlerOp>)
    ensures
        clauses_view(ops).len() == ops.len(),
        forall|i: int| 0 <= i < ops.len() ==> #[trigger] clauses_view(ops)[i] == clause_view(ops[i]),
    decreases ops.len(),
{
    if ops.len() > 0 {
        lemma_clauses_view(ops.drop_last());
    }
}

// ---------------------------------------------------------------------
// Copies
// ---------------------------------------------------------------------

impl Clone for Type {
    fn clone(&self) -> (res: Self)
        ensures
            res == *self,
        decreases self,
    {
        match self {
            Type::Base(b) => Type::Base(*b),
            Type::Prod(a, b) => Type::Prod(Box::new((**a).clone()), Box::new((**b).clone())),
            Type::Fun(a, b) => Type::Fun(Box::new((**a).clone()), Box::new((**b).clone())),
            Type::Arr(a, b) => Type::Arr(Box::new((**a).clone()), Box::new((**b).clone())),
        }
    }
}

impl PartialEq for Type {
    fn eq(&self, other: &Self) -> (res: bool)
        decreases self,
    {
        match (self, other) {
            (Type::Base(a), Type::Base(b)) => *a == *b,
            (Type::Prod(a1, a2), Type::Prod(b1, b2)) => (**a1).eq(&**b1) && (**a2).eq(&**b2),
            (Type::Fun(a1, a2), Type::Fun(b1, b2)) => (**a1).eq(&**b1) && (**a2).eq(&**b2),
            (Type::Arr(a1, a2), Type::Arr(b1, b2)) => (**a1).eq(&**b1) && (**a2).eq(&**b2),
            _ => false,
        }
    }
}

impl vstd::std_specs::cmp::PartialEqSpecImpl for Type {
    open spec fn obeys_eq_spec() -> bool {
        true
    }

    open spec fn eq_spec(&self, other: &Self) -> bool {
        *self == *other
    }
}

impl Clone for VarWithType {
    fn clone(&self) -> (res: Self)
        ensures
            res == *self,
    {
        match self {
            VarWithType::VT(s, t) => VarWithType::VT(s.clone(), t.clone()),
        }
    }
}

impl Clone for Var {
    fn clone(&self) -> (res: Self)
        ensures
            res == *self,
    {
        match self {
            Var::V(s) => Var::V(s.clone()),
        }
    }
}

impl Clone for Operation {
    fn clone(&self) -> (res: Self)
        ensures
            res == *self,
    {
        match self {
            Operation::Op(s) => Operation::Op(s.clone()),
        }
    }
}

impl Clone for Term {
    fn clone(&self) -> (res: Self)
        ensures
            term_view(res) == term_view(*self),
        decreases self, 0nat,
    {
        match self {
            Term::NumInt(n) => Term::NumInt(*n),
            Term::Unt => Term::Unt,
            Term::Var(v) => Term::Var(v.clone()),
            Term::Pair(a, b) => Term::Pair(Box::new((**a).clone()), Box::new((**b).clone())),
            Term::Fst(a) => Term::Fst(Box::new((**a).clone())),
            Term::Snd(a) => Term::Snd(Box::new((**a).clone())),
            Term::Lam(vt, body) => Term::Lam(vt.clone(), Box::new((**body).clone())),
            Term::App(a, b) => Term::App(Box::new((**a).clone()), Box::new((**b).clone())),
            Term::CLam(vt, c) => Term::CLam(vt.clone(), Box::new((**c).clone())),
            Term::Plus(a, b) => Term::Plus(Box::new((**a).clone()), Box::new((**b).clone())),
        }
    }
}

impl Clone for Value {
    fn clone(&self) -> (res: Self)
        ensures
            value_view(res) == value_view(*self),
        decreases self, 0nat,
    {
        match self {
            Value::NumInt(n) => Value::NumInt(*n),
            Value::Unt => Value::Unt,
            Value::Pair(a, b) => Value::Pair(Box::new((**a).clone()), Box::new((**b).clone())),
            Value::ClosureFunc(env, x, t) => Value::ClosureFunc(clone_env(env), x.clone(), t.clone()),
            Value::ClosureArr(env, x, c) => Value::ClosureArr(clone_env(env), x.clone(), c.clone()),
            Value::ClosureContArr(env, c) => Value::ClosureContArr(clone_env(env), c.clone()),
        }
    }
}

/// A copy of an environment, entry by entry.
pub fn clone_env(env: &Env) -> (res: Env)
    ensures
        env_view(res@) == env_view(env@),
    decreases env, 0nat,
{
    let mut res: Env = Vec::new();
    let mut i: usize = 0;
    while i < env.len()
        invariant
            i <= env@.len(),
            res@.len() == i,
            forall|j: int|
                0 <= j < i ==> var_name(#[trigger] res@[j].0) == var_name(env@[j].0) && value_view(
                    res@[j].1,
                ) == value_view(env@[j].1),
        decreases env.len() - i,
    {
        proof {
            assert(decreases_to!(*env => env@));
            assert(decreases_to!(env@ => env@[i as int]));
            assert(decreases_to!(env@[i as int] => env@[i as int].1));
        }
        let v = env[i].1.clone();
        let x = env[i].0.clone();
        res.push((x, v));
        i = i + 1;
    }
    proof {
        lemma_env_view_ext(res@, env@);
    }
    res
}

impl Clone for Command {
    fn clone(&self) -> (res: Self)
        ensures
            command_view(res) == command_view(*self),
        decreases self, 0nat,
    {
        match self {
            Command::Return(VTR::T(t)) => Command::Return(VTR::T(Box::new((**t).clone()))),
            Command::Return(VTR::V(v)) => Command::Return(VTR::V(Box::new((**v).clone()))),
            Command::Return(VTR::Resume) => Command::Return(VTR::Resume),
            Command::Let(vt, c1, c2, envs) => {
                let envs2 = match envs {
                    Some((e1, e2)) => Some((clone_env(e1), clone_env(e2))),
                    None => None,
                };
                Command::Let(vt.clone(), Box::new((**c1).clone()), Box::new((**c2).clone()), envs2)
            },
            Command::CApp(a, b) => Command::CApp(Box::new((**a).clone()), Box::new((**b).clone())),
            Command::DoOp(op, t) => Command::DoOp(op.clone(), Box::new((**t).clone())),
            Command::Handle(c1, h, env) => {
                let env2 = match env {
                    Some(e) => Some(clone_env(e)),
                    None => None,
                };
                Command::Handle(Box::new((**c1).clone()), h.clone(), env2)
            },
        }
    }
}

impl Clone for Handler {
    fn clone(&self) -> (res: Self)
        ensures
            handler_view(res) == handler_view(*self),
        decreases self, 0nat,
    {
        match self {
            Handler::H(HandlerRet::HRet(vt, c), ops) => {
                let res_ops = clone_clauses(ops);
                Handler::H(HandlerRet::HRet(vt.clone(), Box::new((**c).clone())), res_ops)
            },
        }
    }
}

/// A copy of the operation clauses of a handler, clause by clause.
fn clone_clauses(ops: &Vec<HandlerOp>) -> (res: Vec<HandlerOp>)
    ensures
        clauses_view(res@) == clauses_view(ops@),
    decreases ops, 0nat,
{
    let mut res_ops: Vec<HandlerOp> = Vec::new();
    let mut i: usize = 0;
    while i < ops.len()
        invariant
            i <= ops@.len(),
            res_ops@.len() == i,
            forall|j: int| 0 <= j < i ==> clause_view(#[trigger] res_ops@[j]) == clause_view(ops@[j]),
        decreases ops.len() - i,
    {
        proof {
            assert(decreases_to!(*ops => ops@));
            assert(decreases_to!(ops@ => ops@[i as int]));
        }
        let copy = match &ops[i] {
            HandlerOp::HOp(o, k, z, body) => {
                proof {
                    assert(ops@[i as int] == HandlerOp::HOp(*o, *k, *z, *body));
                    assert(decreases_to!(ops@[i as int] => **body));
                }
                HandlerOp::HOp(o.clone(), k.clone(), z.clone(), Box::new((**body).clone()))
            },
        };
        res_ops.push(copy);
        i = i + 1;
    }
    proof {
        lemma_clauses_view(res_ops@);
        lemma_clauses_view(ops@);
        assert(clauses_view(res_ops@) =~= clauses_view(ops@));
    }
    res_ops
}

impl Clone for Continuation {
    fn clone(&self) -> (res: Self)
        ensures
            cont_view(res) == cont_view(*self),
    {
        match self {
            Continuation::Let(vt, c, envs) => Continuation::Let(
                vt.clone(),
                Box::new((**c).clone()),
                (clone_env(&envs.0), clone_env(&envs.1)),
            ),
            Continuation::Handle(h, env) => Continuation::Handle(h.clone(), clone_env(env)),
        }
    }
}

} // verus!
