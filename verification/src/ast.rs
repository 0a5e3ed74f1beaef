//! Abstract syntax of the full language: types, terms, commands, handlers
//! and the run-time values of the interpreter.
//!
//! A single-precision literal is held as its IEEE-754 bit pattern (`u32`):
//! the type checker never looks inside a float, and the interpreter that
//! computes with floats converts the pattern where it needs the number.
use vstd::prelude::*;

verus! {

#[derive(Debug, Clone, Copy, PartialEq, Eq, Structural)]
pub enum BaseType {
    UInt,
    Int,
    Bool,
    Float,
    Vect,
    Mat,
    Unit,
}

#[derive(Debug)]
pub enum Type {
    Base(BaseType),
    Prod(Box<Type>, Box<Type>),
    Fun(Box<Type>, Box<Type>),
    Arr(Box<Type>, Box<Type>),
    List(Box<Type>),
}

#[derive(Debug, PartialEq)]
pub enum VarWithType {
    VT(VarProd, Type),
}

#[derive(Debug, PartialEq)]
pub enum Var {
    V(String),
}

#[derive(Debug, PartialEq)]
pub enum VarProd {
    Unused,
    V(String),
    P(Box<VarProd>, Box<VarProd>),
}

#[derive(Debug, PartialEq)]
pub enum L<T> {
    Nil(Type),
    Cons(T, Box<L<T>>),
}

#[derive(Debug, PartialEq)]
pub enum Term {
    NumInt(i32),
    /// bit pattern of an `f32`
    NumFloat(u32),
    Bool(bool),
    Unt,
    /// bit patterns of the `f32` entries
    Vect(Vec<u32>),
    /// rows of bit patterns of `f32` entries
    Mat(Vec<Vec<u32>>),
    Var(Var),
    Pair(Box<Term>, Box<Term>),
    Fst(Box<Term>),
    Snd(Box<Term>),
    Lam(VarWithType, Box<Term>),
    App(Box<Term>, Box<Term>),
    CLam(VarWithType, Box<Command>),
    If(Box<Term>, Box<Term>, Box<Term>),
    Exp,
    Nil(Type),
    Cons(Box<Term>, Box<Term>),
    Head(Box<Term>),
    Tail(Box<Term>),
    VectZero,
    VectSize,
    MatZero,
    MatSize,
    Transpose,
    /// `+`
    Plus(Box<Term>, Box<Term>),
    /// `*`
    Times(Box<Term>, Box<Term>),
    /// `+.`
    PlusF(Box<Term>, Box<Term>),
    /// `*.`
    TimesF(Box<Term>, Box<Term>),
    /// `/.`
    DivF(Box<Term>, Box<Term>),
    /// `#>`
    MatVectMul(Box<Term>, Box<Term>),
    /// `==`
    EqInt(Box<Term>, Box<Term>),
    /// `<.`
    LTFloat(Box<Term>, Box<Term>),
    /// `>.`
    GTFloat(Box<Term>, Box<Term>),
    /// `><`
    ProdVecVec(Box<Term>, Box<Term>),
    /// `$>`
    ApplicationVectEntrywise(Box<Term>, Box<Term>),
    /// `<+>`
    VectEntrywisePlus(Box<Term>, Box<Term>),
    /// `<->`
    VectEntrywiseMinus(Box<Term>, Box<Term>),
    /// `<*>`
    VectEntrywiseTimes(Box<Term>, Box<Term>),
    /// `.>`
    ScalarVect(Box<Term>, Box<Term>),
    /// `#+#`
    MatEntrywisePlus(Box<Term>, Box<Term>),
    /// `#-#`
    MatEntrywiseMinus(Box<Term>, Box<Term>),
    /// `.#`
    ScalarMat(Box<Term>, Box<Term>),
}

#[derive(Debug, PartialEq)]
pub enum VTR {
    T(Box<Term>),
    V(Box<Value>),
    Resume,
}

#[derive(Debug, PartialEq)]
pub enum Command {
    Return(VTR),
    /// `Let` may carry the term and command environments it was suspended with
    Let(VarWithType, Box<Command>, Box<Command>, Option<(Env, Env)>),
    CApp(Box<Term>, Box<Term>),
    DoOp(Operation, Box<Term>),
    /// `Handle` may carry the term environment it was suspended with
    Handle(Box<Command>, Handler, Option<Env>),
}

#[derive(Debug, PartialEq)]
pub enum Operation {
    Op(String),
}

#[derive(Debug, PartialEq)]
pub enum Handler {
    H(HandlerRet, Vec<HandlerOp>),
}

#[derive(Debug, PartialEq)]
pub enum HandlerRet {
    HRet(VarWithType, Box<Command>),
}

#[derive(Debug, PartialEq)]
pub enum HandlerOp {
    HOp(Operation, VarWithType, VarWithType, Box<Command>),
}

pub type EffectDecl = (Operation, Type, Type);

pub type TopLevelTerm = (Var, VarWithType, Type, Term);

pub type TopLevelCommand = (Var, VarWithType, VarWithType, Type, Command);

#[derive(Debug, PartialEq)]
pub enum Value {
    NumInt(i32),
    /// bit pattern of an `f32`
    NumFloat(u32),
    Bool(bool),
    /// bit patterns of the `f32` entries
    Vect(Vec<u32>),
    /// rows of bit patterns of `f32` entries
    Mat(Vec<Vec<u32>>),
    Unt,
    List(L<Box<Value>>),
    Pair(Box<Value>, Box<Value>),
    ClosureFunc(Env, VarProd, Term),
    ClosureArr(Env, VarProd, Command),
    ClosureContArr(Env, Command),
    Exp,
    VectZero,
    VectSize,
    MatZero,
    MatSize,
    Transpose,
}

#[derive(Debug, PartialEq)]
pub enum EvalResult {
    Val(Value),
    Wrong(String),
}

#[derive(Debug, PartialEq)]
pub enum Continuation {
    Let(VarWithType, Box<Command>, (Env, Env)),
    Handle(Handler, Env),
}

pub type Env = Vec<(Var, Value)>;

/// What a program prints through the built-in printing operations; floats
/// are bit patterns.
#[derive(Debug, PartialEq)]
pub enum Printed {
    Int(i32),
    Float(u32),
    Vect(Vec<u32>),
    Mat(Vec<Vec<u32>>),
}

impl Clone for Type {
    fn clone(&self) -> (res: Self)
        ensures
            res == *self,
        decreases self,
    {
        match self {
            Type::Base(b) => Type::Base(*b),
            Type::Prod(a, b) => Type::Prod(Box::new((**a).clone()), Box::new((**b).clone())),
            Type::Fun(a, b) => Type::Fun(Box::new((**a).clone()), Box::new((**b).clone())),
            Type::Arr(a, b) => Type::Arr(Box::new((**a).clone()), Box::new((**b).clone())),
            Type::List(a) => Type::List(Box::new((**a).clone())),
        }
    }
}

impl PartialEq for Type {
    fn eq(&self, other: &Self) -> (res: bool)
        decreases self,
    {
        match (self, other) {
            (Type::Base(a), Type::Base(b)) => *a == *b,
            (Type::Prod(a1, a2), Type::Prod(b1, b2)) => (**a1).eq(&**b1) && (**a2).eq(&**b2),
            (Type::Fun(a1, a2), Type::Fun(b1, b2)) => (**a1).eq(&**b1) && (**a2).eq(&**b2),
            (Type::Arr(a1, a2), Type::Arr(b1, b2)) => (**a1).eq(&**b1) && (**a2).eq(&**b2),
            (Type::List(a), Type::List(b)) => (**a).eq(&**b),
            _ => false,
        }
    }
}

impl vstd::std_specs::cmp::PartialEqSpecImpl for Type {
    open spec fn obeys_eq_spec() -> bool {
        true
    }

    open spec fn eq_spec(&self, other: &Self) -> bool {
        *self == *other
    }
}

impl Clone for VarProd {
    fn clone(&self) -> (res: Self)
        ensures
            res == *self,
        decreases self,
    {
        match self {
            VarProd::Unused => VarProd::Unused,
            VarProd::V(s) => VarProd::V(s.clone()),
            VarProd::P(a, b) => VarProd::P(Box::new((**a).clone()), Box::new((**b).clone())),
        }
    }
}

impl Clone for VarWithType {
    fn clone(&self) -> (res: Self)
        ensures
            res == *self,
    {
        match self {
            VarWithType::VT(vp, t) => VarWithType::VT(vp.clone(), t.clone()),
        }
    }
}

impl Clone for Var {
    fn clone(&self) -> (res: Self)
        ensures
            res == *self,
    {
        match self {
            Var::V(s) => Var::V(s.clone()),
        }
    }
}

impl Clone for Operation {
    fn clone(&self) -> (res: Self)
        ensures
            res == *self,
    {
        match self {
            Operation::Op(s) => Operation::Op(s.clone()),
        }
    }
}

impl VarWithType {
    /// The type annotation of the binder.
    pub open spec fn typ(self) -> Type {
        match self {
            VarWithType::VT(_, t) => t,
        }
    }

    /// The (possibly structured) variable of the binder.
    pub open spec fn var(self) -> VarProd {
        match self {
            VarWithType::VT(vp, _) => vp,
        }
    }
}

impl Operation {
    /// The name of the operation.
    pub open spec fn name(self) -> Seq<char> {
        match self {
            Operation::Op(s) => s@,
        }
    }
}

impl Var {
    /// The name of the variable.
    pub open spec fn name(self) -> Seq<char> {
        match self {
            Var::V(s) => s@,
        }
    }
}

} // verus!
