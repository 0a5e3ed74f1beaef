//! Big-step semantics of the full language over the models of `model`,
//! with a budget `fuel` on the depth of evaluation.
//!
//! Floating-point work is a question to the numerics provider (see
//! `numerics`).  Every function here takes the provider's answers still to
//! come, and returns, besides its result, the questions it asked (in order)
//! and the answers it left unread; it reads one answer per question.
//!
//! A command also returns what it printed.  Printing happens through the
//! operations `PrintInt`, `PrintFloat`, `PrintVec` and `PrintMat` when no
//! handler takes them.
use vstd::prelude::*;
use crate::ast::{TopLevelTerm, TopLevelCommand, Value, VarProd, Env};
use crate::model::{
    FTerm, FVtr, FCommand, FHandler, FClause, FValue, FList, FEnv, FCont, FResult, FPrinted,
    FVarProd, FBinder, var_prod_model, binder_model, term_model, command_model, value_model, env_model,
};
use crate::numerics::{NQuery, NAnswer, float_of, truth_of, floats, FOp, op_query};
use crate::interpreter::{bind_pattern, fill};
use crate::show::{str_debug, string_of, var_prod_text, write_var_prod};
use crate::render::{env_text, value_text};
use crate::render_write::{write_env, write_value};

verus! {

/// What `{:?}` writes for a value (see `render`).
pub open spec fn value_debug(v: FValue) -> Seq<char> {
    value_text(v)
}

/// What `{:?}` writes for a pattern of variables: `Unused`, `V("x")`,
/// `P(V("x"), Unused)`.
pub open spec fn var_prod_debug(vp: FVarProd) -> Seq<char>
    decreases vp,
{
    match vp {
        FVarProd::Unused => "Unused"@,
        FVarProd::V(s) => "V("@ + str_debug(s) + ")"@,
        FVarProd::P(a, b) => "P("@ + var_prod_debug(*a) + ", "@ + var_prod_debug(*b) + ")"@,
    }
}

/// The rendering of a pattern's model is the rendering of the pattern.
pub proof fn lemma_var_prod_debug(vp: VarProd)
    ensures
        var_prod_debug(var_prod_model(vp)) == var_prod_text(vp),
    decreases vp,
{
    match vp {
        VarProd::P(a, b) => {
            lemma_var_prod_debug(*a);
            lemma_var_prod_debug(*b);
        },
        _ => {},
    }
}

/// What `{:?}` writes for an environment (see `render`).
pub open spec fn env_debug(e: FEnv) -> Seq<char> {
    env_text(e)
}

/// The rendering of a value, as `{:?}` gives it.
pub(crate) fn debug_value(v: &Value) -> (res: String)
    ensures
        res@ == value_debug(value_model(*v)),
{
    let mut s = string_of("");
    proof {
        reveal_strlit("");
    }
    write_value(&mut s, v);
    s
}

/// The rendering of a pattern, as `{:?}` gives it.
pub(crate) fn debug_var_prod(vp: &VarProd) -> (res: String)
    ensures
        res@ == var_prod_debug(var_prod_model(*vp)),
{
    let mut s = string_of("");
    write_var_prod(&mut s, vp);
    proof {
        lemma_var_prod_debug(*vp);
        reveal_strlit("");
        assert(s@ =~= var_prod_text(*vp));
    }
    s
}

/// The rendering of an environment, as `{:?}` gives it.
pub(crate) fn debug_env(env: &Env) -> (res: String)
    ensures
        res@ == env_debug(env_model(env@)),
{
    let mut s = string_of("");
    proof {
        reveal_strlit("");
    }
    write_env(&mut s, env);
    s
}

/// A term's run: its result, the questions asked, the answers left.
pub type TermRun = (FResult, Seq<NQuery>, Seq<NAnswer>);

/// A command's run: its result, what it printed, the questions asked, the
/// answers left.
pub type CommandRun = (FResult, Seq<FPrinted>, Seq<NQuery>, Seq<NAnswer>);

pub open spec fn wrong(msg: Seq<char>) -> FResult {
    FResult::Wrong(msg)
}

/// The message given when the evaluation budget is used up.
pub open spec fn exhausted_text() -> Seq<char> {
    "evaluation budget exhausted"@
}

pub open spec fn type_error(v: FValue) -> Seq<char> {
    "Type error: "@ + value_debug(v)
}

/// `{:?}` of the variable named `x`.
pub open spec fn var_debug(x: Seq<char>) -> Seq<char> {
    "V("@ + str_debug(x) + ")"@
}

// ---------------------------------------------------------------------
// Variables
// ---------------------------------------------------------------------

/// The value bound to `x` in `env`: the innermost binding decides.
pub open spec fn lookup_env(x: Seq<char>, env: FEnv) -> Option<FValue>
    decreases env.len(),
{
    if env.len() == 0 {
        None
    } else if env.last().0 == x {
        Some(env.last().1)
    } else {
        lookup_env(x, env.drop_last())
    }
}

/// The closure of the first top-level function named `x`.
pub open spec fn lookup_function(x: Seq<char>, fs: Seq<TopLevelTerm>) -> Option<FValue>
    decreases fs.len(),
{
    if fs.len() == 0 {
        None
    } else if fs[0].0.name() == x {
        Some(FValue::ClosureFunc(Seq::empty(), var_prod_model(fs[0].1.var()), term_model(fs[0].3)))
    } else {
        lookup_function(x, fs.drop_first())
    }
}

/// The closure of the first top-level arrow named `x`: a function of the
/// argument returning the arrow over the command argument.
pub open spec fn lookup_arrow(x: Seq<char>, ars: Seq<TopLevelCommand>) -> Option<FValue>
    decreases ars.len(),
{
    if ars.len() == 0 {
        None
    } else if ars[0].0.name() == x {
        Some(
            FValue::ClosureFunc(
                Seq::empty(),
                var_prod_model(ars[0].1.var()),
                FTerm::CLam(binder_model(ars[0].2), Box::new(command_model(ars[0].4))),
            ),
        )
    } else {
        lookup_arrow(x, ars.drop_first())
    }
}

/// Evaluating a variable: the environment first, then the top-level
/// functions, then the top-level arrows.
pub open spec fn eval_var(x: Seq<char>, env: FEnv, fs: Seq<TopLevelTerm>, ars: Seq<TopLevelCommand>) -> FResult {
    match lookup_env(x, env) {
        Some(v) => FResult::Val(v),
        None => match lookup_function(x, fs) {
            Some(v) => FResult::Val(v),
            None => match lookup_arrow(x, ars) {
                Some(v) => FResult::Val(v),
                None => wrong("Unbound variable: "@ + var_debug(x) + ", environment "@ + env_debug(env)),
            },
        },
    }
}

// ---------------------------------------------------------------------
// Entry-by-entry float work
// ---------------------------------------------------------------------

/// A family of rows of float questions.
pub enum Grid {
    /// `op` of the entries of two matrices, row `i` of the first with row `i` of the second
    Pairwise(FOp, Seq<Seq<u32>>, Seq<Seq<u32>>),
    /// the scalar times each entry
    Scaled(u32, Seq<Seq<u32>>),
    /// entry `(i, j)` is `v1[i] * v2[j]`
    Outer(Seq<u32>, Seq<u32>),
    /// draws from a normal distribution (mean, standard deviation), in a given number of columns
    Normal(u32, u32, nat),
}

/// The number of entries in row `i`.
pub open spec fn grid_cols(g: Grid, i: int) -> nat {
    match g {
        Grid::Pairwise(_, m1, _) => m1[i].len(),
        Grid::Scaled(_, m) => m[i].len(),
        Grid::Outer(_, v2) => v2.len(),
        Grid::Normal(_, _, n) => n,
    }
}

/// The question asked for entry `(i, j)`.
pub open spec fn grid_query(g: Grid, i: int, j: int) -> NQuery {
    match g {
        Grid::Pairwise(op, m1, m2) => op_query(op, m1[i][j], m2[i][j]),
        Grid::Scaled(a, m) => NQuery::Mul(a, m[i][j]),
        Grid::Outer(v1, v2) => NQuery::Mul(v1[i], v2[j]),
        Grid::Normal(mean, sd, _) => NQuery::Sample(mean, sd),
    }
}

/// Row `i`: one question per entry, left to right; the entry is the answer.
pub open spec fn row_run(g: Grid, i: int, ans: Seq<NAnswer>) -> (Seq<u32>, Seq<NQuery>, Seq<NAnswer>) {
    let n = grid_cols(g, i);
    (floats(ans, n), Seq::new(n, |j: int| grid_query(g, i, j)), ans.skip(n as int))
}

/// The first `rows` rows, top to bottom.
pub open spec fn grid_run(g: Grid, rows: nat, ans: Seq<NAnswer>) -> (Seq<Seq<u32>>, Seq<NQuery>, Seq<NAnswer>)
    decreases rows,
{
    if rows == 0 {
        (Seq::empty(), Seq::empty(), ans)
    } else {
        let p = grid_run(g, (rows - 1) as nat, ans);
        let r = row_run(g, rows - 1, p.2);
        (p.0.push(r.0), p.1 + r.1, r.2)
    }
}

/// The dot product of the first `n` entries of `row` and `v`, summed from
/// the left starting at `0.0`: for each entry the product, then the sum.
pub open spec fn dot_run(row: Seq<u32>, v: Seq<u32>, n: nat, ans: Seq<NAnswer>) -> (u32, Seq<NQuery>, Seq<NAnswer>)
    decreases n,
{
    if n == 0 {
        (0u32, Seq::empty(), ans)
    } else {
        let p = dot_run(row, v, (n - 1) as nat, ans);
        let prod = float_of(p.2[0]);
        let sum = float_of(p.2[1]);
        (sum, p.1 + seq![NQuery::Mul(row[n - 1], v[n - 1]), NQuery::Add(p.0, prod)], p.2.skip(2))
    }
}

/// The product of the first `rows` rows of `m` with `v`.
pub open spec fn mat_vec_run(m: Seq<Seq<u32>>, v: Seq<u32>, rows: nat, ans: Seq<NAnswer>) -> (Seq<u32>, Seq<NQuery>, Seq<NAnswer>)
    decreases rows,
{
    if rows == 0 {
        (Seq::empty(), Seq::empty(), ans)
    } else {
        let p = mat_vec_run(m, v, (rows - 1) as nat, ans);
        let d = dot_run(m[rows - 1], v, v.len(), p.2);
        (p.0.push(d.0), p.1 + d.1, d.2)
    }
}

/// Every row of `m` has at least `n` entries.
pub open spec fn rows_at_least(m: Seq<Seq<u32>>, n: nat) -> bool {
    forall|i: int| 0 <= i < m.len() ==> #[trigger] m[i].len() >= n
}

/// Every row of `m2` is at least as long as the same row of `m1`.
pub open spec fn rows_cover(m1: Seq<Seq<u32>>, m2: Seq<Seq<u32>>) -> bool {
    forall|i: int| 0 <= i < m1.len() ==> #[trigger] m2[i].len() >= m1[i].len()
}

/// The transpose of the first `m[0].len()` columns of `m`.
pub open spec fn transpose(m: Seq<Seq<u32>>) -> Seq<Seq<u32>> {
    Seq::new(m[0].len(), |j: int| Seq::new(m.len(), |i: int| m[i][j]))
}

// ---------------------------------------------------------------------
// Operators on two values
// ---------------------------------------------------------------------

/// The term formers that evaluate two operands, left then right.
#[derive(Clone, Copy)]
pub enum BinKind {
    Pair,
    Cons,
    Plus,
    Times,
    PlusF,
    TimesF,
    DivF,
    MatVectMul,
    EqInt,
    LTFloat,
    GTFloat,
    ProdVecVec,
    VectPlus,
    VectMinus,
    VectTimes,
    ScalarVect,
    MatPlus,
    MatMinus,
    ScalarMat,
}

/// Whether the left operand has the kind of value the operator takes.
pub open spec fn left_ok(k: BinKind, v: FValue) -> bool {
    match k {
        BinKind::Pair | BinKind::Cons => true,
        BinKind::Plus | BinKind::Times | BinKind::EqInt => v is NumInt,
        BinKind::PlusF | BinKind::TimesF | BinKind::DivF | BinKind::LTFloat | BinKind::GTFloat
        | BinKind::ScalarVect | BinKind::ScalarMat => v is NumFloat,
        BinKind::MatVectMul | BinKind::MatPlus | BinKind::MatMinus => v is Mat,
        BinKind::ProdVecVec | BinKind::VectPlus | BinKind::VectMinus | BinKind::VectTimes => v is Vect,
    }
}

/// Whether the right operand has the kind of value the operator takes.
pub open spec fn right_ok(k: BinKind, v: FValue) -> bool {
    match k {
        BinKind::Pair => true,
        BinKind::Cons => v is List,
        BinKind::Plus | BinKind::Times | BinKind::EqInt => v is NumInt,
        BinKind::PlusF | BinKind::TimesF | BinKind::DivF | BinKind::LTFloat | BinKind::GTFloat => v is NumFloat,
        BinKind::MatVectMul | BinKind::ProdVecVec | BinKind::VectPlus | BinKind::VectMinus | BinKind::VectTimes
        | BinKind::ScalarVect => v is Vect,
        BinKind::MatPlus | BinKind::MatMinus | BinKind::ScalarMat => v is Mat,
    }
}

pub open spec fn left_error(k: BinKind, v: FValue) -> Seq<char> {
    match k {
        BinKind::MatVectMul => type_error(v) + ", expected matrix"@,
        _ => type_error(v),
    }
}

pub open spec fn right_error(k: BinKind, v: FValue) -> Seq<char> {
    match k {
        BinKind::Cons => type_error(v) + " is not a list"@,
        _ => type_error(v),
    }
}

/// The vector operation of an entry-by-entry operator.
pub open spec fn vect_op(k: BinKind) -> FOp {
    match k {
        BinKind::VectPlus | BinKind::MatPlus => FOp::Add,
        BinKind::VectMinus | BinKind::MatMinus => FOp::Sub,
        _ => FOp::Mul,
    }
}

pub open spec fn vect_length_error(k: BinKind) -> Seq<char> {
    match k {
        BinKind::VectPlus => "(<+>): Vectors have different lengths"@,
        BinKind::VectMinus => "(<->): Vectors have different lengths"@,
        _ => "(<*>): Vectors have different lengths"@,
    }
}

pub open spec fn mat_shape_error(k: BinKind) -> Seq<char> {
    match k {
        BinKind::MatPlus => "(#+#): Matrices have different shape"@,
        _ => "(#-#): Matrices have different shape"@,
    }
}

pub open spec fn dimension_error() -> Seq<char> {
    "Matrix and vector dimensions do not match"@
}

/// One float question; its answer is a float.
pub open spec fn ask_float(q: NQuery, ans: Seq<NAnswer>) -> TermRun {
    (FResult::Val(FValue::NumFloat(float_of(ans[0]))), seq![q], ans.drop_first())
}

/// One float question; its answer is a truth value.
pub open spec fn ask_truth(q: NQuery, ans: Seq<NAnswer>) -> TermRun {
    (FResult::Val(FValue::Bool(truth_of(ans[0]))), seq![q], ans.drop_first())
}

/// The operator applied to two operands of the kinds it takes (on other
/// operands it gives the unit value; the evaluation never applies it so).
pub open spec fn combine(k: BinKind, v1: FValue, v2: FValue, ans: Seq<NAnswer>) -> TermRun {
    let other = (FResult::Val(FValue::Unt), Seq::<NQuery>::empty(), ans);
    match k {
        BinKind::Pair => (FResult::Val(FValue::Pair(Box::new(v1), Box::new(v2))), Seq::empty(), ans),
        BinKind::Cons => match v2 {
            FValue::List(l) => (FResult::Val(FValue::List(FList::Cons(Box::new(v1), Box::new(l)))), Seq::empty(), ans),
            _ => other,
        },
        BinKind::Plus | BinKind::Times | BinKind::EqInt => match (v1, v2) {
            (FValue::NumInt(n1), FValue::NumInt(n2)) => match k {
                BinKind::Plus => (FResult::Val(FValue::NumInt(n1.wrapping_add(n2))), Seq::empty(), ans),
                BinKind::Times => (FResult::Val(FValue::NumInt(n1.wrapping_mul(n2))), Seq::empty(), ans),
                _ => (FResult::Val(FValue::Bool(n1 == n2)), Seq::empty(), ans),
            },
            _ => other,
        },
        BinKind::PlusF | BinKind::TimesF | BinKind::DivF | BinKind::LTFloat | BinKind::GTFloat => match (v1, v2) {
            (FValue::NumFloat(x1), FValue::NumFloat(x2)) => match k {
                BinKind::PlusF => ask_float(NQuery::Add(x1, x2), ans),
                BinKind::TimesF => ask_float(NQuery::Mul(x1, x2), ans),
                BinKind::DivF => ask_float(NQuery::Div(x1, x2), ans),
                BinKind::LTFloat => ask_truth(NQuery::Lt(x1, x2), ans),
                _ => ask_truth(NQuery::Gt(x1, x2), ans),
            },
            _ => other,
        },
        BinKind::MatVectMul => match (v1, v2) {
            (FValue::Mat(m), FValue::Vect(v)) => if m.len() == 0 && v.len() == 0 {
                (FResult::Val(FValue::Vect(Seq::empty())), Seq::empty(), ans)
            } else if m.len() == 0 || m[0].len() != v.len() || !rows_at_least(m, v.len()) {
                (wrong(dimension_error()), Seq::empty(), ans)
            } else {
                let r = mat_vec_run(m, v, m.len(), ans);
                (FResult::Val(FValue::Vect(r.0)), r.1, r.2)
            },
            _ => other,
        },
        BinKind::ProdVecVec => match (v1, v2) {
            (FValue::Vect(a), FValue::Vect(b)) => {
                let r = grid_run(Grid::Outer(a, b), a.len(), ans);
                (FResult::Val(FValue::Mat(r.0)), r.1, r.2)
            },
            _ => other,
        },
        BinKind::VectPlus | BinKind::VectMinus | BinKind::VectTimes => match (v1, v2) {
            (FValue::Vect(a), FValue::Vect(b)) => if a.len() != b.len() {
                (wrong(vect_length_error(k)), Seq::empty(), ans)
            } else {
                let r = row_run(Grid::Pairwise(vect_op(k), seq![a], seq![b]), 0, ans);
                (FResult::Val(FValue::Vect(r.0)), r.1, r.2)
            },
            _ => other,
        },
        BinKind::ScalarVect => match (v1, v2) {
            (FValue::NumFloat(c), FValue::Vect(v)) => {
                let r = row_run(Grid::Scaled(c, seq![v]), 0, ans);
                (FResult::Val(FValue::Vect(r.0)), r.1, r.2)
            },
            _ => other,
        },
        BinKind::MatPlus | BinKind::MatMinus => match (v1, v2) {
            (FValue::Mat(m1), FValue::Mat(m2)) => if m1.len() != m2.len() || (m1.len() > 0 && m1[0].len()
                != m2[0].len()) || !rows_cover(m1, m2) {
                (wrong(mat_shape_error(k)), Seq::empty(), ans)
            } else {
                let r = grid_run(Grid::Pairwise(vect_op(k), m1, m2), m1.len(), ans);
                (FResult::Val(FValue::Mat(r.0)), r.1, r.2)
            },
            _ => other,
        },
        BinKind::ScalarMat => match (v1, v2) {
            (FValue::NumFloat(c), FValue::Mat(m)) => {
                let r = grid_run(Grid::Scaled(c, m), m.len(), ans);
                (FResult::Val(FValue::Mat(r.0)), r.1, r.2)
            },
            _ => other,
        },
    }
}

// ---------------------------------------------------------------------
// Built-in functions
// ---------------------------------------------------------------------

/// The values that `App` applies.
pub open spec fn applicable(v: FValue) -> bool {
    v is ClosureFunc || v is Exp || v is VectZero || v is VectSize || v is MatZero || v is MatSize || v is Transpose
}

/// `n` zero entries.
pub open spec fn zero_seq(n: nat) -> Seq<u32> {
    Seq::new(n, |i: int| 0u32)
}

/// `m` rows of `n` zero entries.
pub open spec fn zero_mat(m: nat, n: nat) -> Seq<Seq<u32>> {
    Seq::new(m, |i: int| zero_seq(n))
}

pub open spec fn i32_max() -> int {
    0x7fff_ffff
}

/// A built-in function applied to its argument.
pub open spec fn apply_builtin(f: FValue, v: FValue, ans: Seq<NAnswer>) -> TermRun {
    match f {
        FValue::Exp => match v {
            FValue::NumFloat(x) => ask_float(NQuery::Exp(x), ans),
            _ => (wrong(type_error(v)), Seq::empty(), ans),
        },
        FValue::VectZero => match v {
            FValue::NumInt(n) => if n < 0 {
                (wrong("Execution error: negative vector size"@), Seq::empty(), ans)
            } else {
                (FResult::Val(FValue::Vect(zero_seq(n as nat))), Seq::empty(), ans)
            },
            _ => (wrong(type_error(v)), Seq::empty(), ans),
        },
        FValue::VectSize => match v {
            FValue::Vect(x) => if x.len() > i32_max() {
                (wrong("Execution error: vector too long"@), Seq::empty(), ans)
            } else {
                (FResult::Val(FValue::NumInt(x.len() as i32)), Seq::empty(), ans)
            },
            _ => (wrong(type_error(v)), Seq::empty(), ans),
        },
        FValue::MatZero => match v {
            FValue::Pair(a, b) => match (*a, *b) {
                (FValue::NumInt(m), FValue::NumInt(n)) => if m < 0 || n < 0 {
                    (wrong("Execution error: negative matrix size"@), Seq::empty(), ans)
                } else {
(FResult::Val(FValue::Mat(zero_mat(m as nat, n as nat))), Seq::empty(), ans)
                },
                _ => (wrong(type_error(v)), Seq::empty(), ans),
            },
            _ => (wrong(type_error(v)), Seq::empty(), ans),
        },
        FValue::MatSize => match v {
            FValue::Mat(m) => if m.len() == 0 {
                (wrong("Execution error: size of an empty matrix"@), Seq::empty(), ans)
            } else if m.len() > i32_max() || m[0].len() > i32_max() {
                (wrong("Execution error: matrix too large"@), Seq::empty(), ans)
            } else {
                (
                    FResult::Val(
                        FValue::Pair(
                            Box::new(FValue::NumInt(m.len() as i32)),
                            Box::new(FValue::NumInt(m[0].len() as i32)),
                        ),
                    ),
                    Seq::empty(),
                    ans,
                )
            },
            _ => (wrong(type_error(v)), Seq::empty(), ans),
        },
        _ => match v {
            FValue::Mat(m) => if m.len() == 0 {
                (wrong("Execution error: transpose of an empty matrix"@), Seq::empty(), ans)
            } else if !rows_at_least(m, m[0].len()) {
                (wrong("Execution error: transpose of a matrix with short rows"@), Seq::empty(), ans)
            } else {
                (FResult::Val(FValue::Mat(transpose(m))), Seq::empty(), ans)
            },
            _ => (wrong(type_error(v)), Seq::empty(), ans),
        },
    }
}

/// The name that `$>` binds each entry to: the closure's variable, or an
/// unused name when its pattern is not a single variable.
pub open spec fn entry_name(vp: FVarProd) -> Seq<char> {
    match vp {
        FVarProd::V(x) => x,
        _ => ""@,
    }
}

// ---------------------------------------------------------------------
// Terms
// ---------------------------------------------------------------------

/// Evaluating a term.
pub open spec fn eval_term(
    t: FTerm,
    env: FEnv,
    fs: Seq<TopLevelTerm>,
    ars: Seq<TopLevelCommand>,
    fuel: nat,
    ans: Seq<NAnswer>,
) -> TermRun
    decreases fuel, 0nat, 0nat,
{
    if fuel == 0 {
        (wrong(exhausted_text()), Seq::empty(), ans)
    } else {
        let f = (fuel - 1) as nat;
        match t {
            FTerm::NumInt(n) => (FResult::Val(FValue::NumInt(n)), Seq::empty(), ans),
            FTerm::NumFloat(x) => (FResult::Val(FValue::NumFloat(x)), Seq::empty(), ans),
            FTerm::Bool(b) => (FResult::Val(FValue::Bool(b)), Seq::empty(), ans),
            FTerm::Unt => (FResult::Val(FValue::Unt), Seq::empty(), ans),
            FTerm::Vect(v) => (FResult::Val(FValue::Vect(v)), Seq::empty(), ans),
            FTerm::Mat(m) => (FResult::Val(FValue::Mat(m)), Seq::empty(), ans),
            FTerm::Exp => (FResult::Val(FValue::Exp), Seq::empty(), ans),
            FTerm::VectZero => (FResult::Val(FValue::VectZero), Seq::empty(), ans),
            FTerm::VectSize => (FResult::Val(FValue::VectSize), Seq::empty(), ans),
            FTerm::MatZero => (FResult::Val(FValue::MatZero), Seq::empty(), ans),
            FTerm::MatSize => (FResult::Val(FValue::MatSize), Seq::empty(), ans),
            FTerm::Transpose => (FResult::Val(FValue::Transpose), Seq::empty(), ans),
            FTerm::Nil(ty) => (FResult::Val(FValue::List(FList::Nil(ty))), Seq::empty(), ans),
            FTerm::Var(x) => (eval_var(x, env, fs, ars), Seq::empty(), ans),
            FTerm::Lam(b, body) => (FResult::Val(FValue::ClosureFunc(env, b.var, *body)), Seq::empty(), ans),
            FTerm::CLam(b, c) => (FResult::Val(FValue::ClosureArr(env, b.var, *c)), Seq::empty(), ans),
            FTerm::Head(s) => {
                let r = eval_term(*s, env, fs, ars, f, ans);
                match r.0 {
                    FResult::Val(FValue::List(FList::Nil(_))) => (
                        wrong("Execution error: head of empty list"@),
                        r.1,
                        r.2,
                    ),
                    FResult::Val(FValue::List(FList::Cons(h, _))) => (FResult::Val(*h), r.1, r.2),
                    FResult::Val(w) => (wrong(type_error(w) + " is not a list"@), r.1, r.2),
                    _ => r,
                }
            },
            FTerm::Tail(s) => {
                let r = eval_term(*s, env, fs, ars, f, ans);
                match r.0 {
                    FResult::Val(FValue::List(FList::Nil(_))) => (
                        wrong("Execution error: tail of empty list"@),
                        r.1,
                        r.2,
                    ),
                    FResult::Val(FValue::List(FList::Cons(_, tl))) => (FResult::Val(FValue::List(*tl)), r.1, r.2),
                    FResult::Val(w) => (wrong(type_error(w) + " is not a list"@), r.1, r.2),
                    _ => r,
                }
            },
            FTerm::Fst(s) => {
                let r = eval_term(*s, env, fs, ars, f, ans);
                match r.0 {
                    FResult::Val(FValue::Pair(v1, _)) => (FResult::Val(*v1), r.1, r.2),
                    FResult::Val(w) => (wrong(type_error(w)), r.1, r.2),
                    _ => r,
                }
            },
            FTerm::Snd(s) => {
                let r = eval_term(*s, env, fs, ars, f, ans);
                match r.0 {
                    FResult::Val(FValue::Pair(_, v2)) => (FResult::Val(*v2), r.1, r.2),
                    FResult::Val(w) => (wrong(type_error(w)), r.1, r.2),
                    _ => r,
                }
            },
            FTerm::If(c, a, b) => {
                let r = eval_term(*c, env, fs, ars, f, ans);
                match r.0 {
                    FResult::Val(FValue::Bool(true)) => {
                        let r2 = eval_term(*a, env, fs, ars, f, r.2);
                        (r2.0, r.1 + r2.1, r2.2)
                    },
                    FResult::Val(FValue::Bool(false)) => {
                        let r2 = eval_term(*b, env, fs, ars, f, r.2);
                        (r2.0, r.1 + r2.1, r2.2)
                    },
                    FResult::Val(w) => (wrong(type_error(w)), r.1, r.2),
                    _ => r,
                }
            },
            FTerm::App(t1, t2) => eval_app(*t1, *t2, env, fs, ars, f, ans),
            FTerm::ApplicationVectEntrywise(t1, t2) => eval_entrywise(*t1, *t2, env, fs, ars, f, ans),
            FTerm::Pair(a, b) => eval_bin(BinKind::Pair, *a, *b, env, fs, ars, f, ans),
            FTerm::Cons(a, b) => eval_bin(BinKind::Cons, *a, *b, env, fs, ars, f, ans),
            FTerm::Plus(a, b) => eval_bin(BinKind::Plus, *a, *b, env, fs, ars, f, ans),
            FTerm::Times(a, b) => eval_bin(BinKind::Times, *a, *b, env, fs, ars, f, ans),
            FTerm::PlusF(a, b) => eval_bin(BinKind::PlusF, *a, *b, env, fs, ars, f, ans),
            FTerm::TimesF(a, b) => eval_bin(BinKind::TimesF, *a, *b, env, fs, ars, f, ans),
            FTerm::DivF(a, b) => eval_bin(BinKind::DivF, *a, *b, env, fs, ars, f, ans),
            FTerm::MatVectMul(a, b) => eval_bin(BinKind::MatVectMul, *a, *b, env, fs, ars, f, ans),
            FTerm::EqInt(a, b) => eval_bin(BinKind::EqInt, *a, *b, env, fs, ars, f, ans),
            FTerm::LTFloat(a, b) => eval_bin(BinKind::LTFloat, *a, *b, env, fs, ars, f, ans),
            FTerm::GTFloat(a, b) => eval_bin(BinKind::GTFloat, *a, *b, env, fs, ars, f, ans),
            FTerm::ProdVecVec(a, b) => eval_bin(BinKind::ProdVecVec, *a, *b, env, fs, ars, f, ans),
            FTerm::VectEntrywisePlus(a, b) => eval_bin(BinKind::VectPlus, *a, *b, env, fs, ars, f, ans),
            FTerm::VectEntrywiseMinus(a, b) => eval_bin(BinKind::VectMinus, *a, *b, env, fs, ars, f, ans),
            FTerm::VectEntrywiseTimes(a, b) => eval_bin(BinKind::VectTimes, *a, *b, env, fs, ars, f, ans),
            FTerm::ScalarVect(a, b) => eval_bin(BinKind::ScalarVect, *a, *b, env, fs, ars, f, ans),
            FTerm::MatEntrywisePlus(a, b) => eval_bin(BinKind::MatPlus, *a, *b, env, fs, ars, f, ans),
            FTerm::MatEntrywiseMinus(a, b) => eval_bin(BinKind::MatMinus, *a, *b, env, fs, ars, f, ans),
            FTerm::ScalarMat(a, b) => eval_bin(BinKind::ScalarMat, *a, *b, env, fs, ars, f, ans),
        }
    }
}

/// An operator on two operands: the left operand is evaluated and checked
/// first, then the right one.
pub open spec fn eval_bin(
    k: BinKind,
    t1: FTerm,
    t2: FTerm,
    env: FEnv,
    fs: Seq<TopLevelTerm>,
    ars: Seq<TopLevelCommand>,
    f: nat,
    ans: Seq<NAnswer>,
) -> TermRun
    decreases f, 2nat, 0nat,
{
    let r1 = eval_term(t1, env, fs, ars, f, ans);
    match r1.0 {
        FResult::Val(v1) => if !left_ok(k, v1) {
            (wrong(left_error(k, v1)), r1.1, r1.2)
        } else {
            let r2 = eval_term(t2, env, fs, ars, f, r1.2);
            match r2.0 {
                FResult::Val(v2) => if !right_ok(k, v2) {
                    (wrong(right_error(k, v2)), r1.1 + r2.1, r2.2)
                } else {
                    let r3 = combine(k, v1, v2, r2.2);
                    (r3.0, r1.1 + r2.1 + r3.1, r3.2)
                },
                _ => (r2.0, r1.1 + r2.1, r2.2),
            }
        },
        _ => r1,
    }
}

/// Application: a closure runs its body with its pattern bound to the
/// argument; a built-in function computes; anything else is an error, found
/// before the argument is evaluated.
pub open spec fn eval_app(
    t1: FTerm,
    t2: FTerm,
    env: FEnv,
    fs: Seq<TopLevelTerm>,
    ars: Seq<TopLevelCommand>,
    f: nat,
    ans: Seq<NAnswer>,
) -> TermRun
    decreases f, 2nat, 0nat,
{
    let r1 = eval_term(t1, env, fs, ars, f, ans);
    match r1.0 {
        FResult::Val(v1) => if !applicable(v1) {
            (wrong(type_error(v1)), r1.1, r1.2)
        } else {
            let r2 = eval_term(t2, env, fs, ars, f, r1.2);
            match r2.0 {
                FResult::Val(v2) => match v1 {
                    FValue::ClosureFunc(env1, vp, body) => {
                        let b = bind_pattern(vp, v2);
                        if !b.0 {
                            (wrong("failed binding product var"@), r1.1 + r2.1, r2.2)
                        } else {
                            let r3 = eval_term(body, env1 + b.1, fs, ars, f, r2.2);
                            (r3.0, r1.1 + r2.1 + r3.1, r3.2)
                        }
                    },
                    _ => {
                        let r3 = apply_builtin(v1, v2, r2.2);
                        (r3.0, r1.1 + r2.1 + r3.1, r3.2)
                    },
                },
                _ => (r2.0, r1.1 + r2.1, r2.2),
            }
        },
        _ => r1,
    }
}

/// `f $> v`: the closure applied to each entry of the vector, left to
/// right; each application must give a float.
pub open spec fn eval_entrywise(
    t1: FTerm,
    t2: FTerm,
    env: FEnv,
    fs: Seq<TopLevelTerm>,
    ars: Seq<TopLevelCommand>,
    f: nat,
    ans: Seq<NAnswer>,
) -> TermRun
    decreases f, 2nat, 0nat,
{
    let r1 = eval_term(t1, env, fs, ars, f, ans);
    match r1.0 {
        FResult::Val(FValue::ClosureFunc(env1, vp, body)) => {
            let r2 = eval_term(t2, env, fs, ars, f, r1.2);
            match r2.0 {
                FResult::Val(FValue::Vect(v)) => {
                    let r3 = apply_each(body, env1, entry_name(vp), v, v.len(), fs, ars, f, r2.2);
                    match r3.0 {
                        Ok(res) => (FResult::Val(FValue::Vect(res)), r1.1 + r2.1 + r3.1, r3.2),
                        Err(e) => (wrong(e), r1.1 + r2.1 + r3.1, r3.2),
                    }
                },
                FResult::Val(w) => (wrong(type_error(w)), r1.1 + r2.1, r2.2),
                _ => (r2.0, r1.1 + r2.1, r2.2),
            }
        },
        FResult::Val(w) => (wrong(type_error(w)), r1.1, r1.2),
        _ => r1,
    }
}

/// The body run with `x` bound to each of the first `n` entries of `v`.
pub open spec fn apply_each(
    body: FTerm,
    env1: FEnv,
    x: Seq<char>,
    v: Seq<u32>,
    n: nat,
    fs: Seq<TopLevelTerm>,
    ars: Seq<TopLevelCommand>,
    f: nat,
    ans: Seq<NAnswer>,
) -> (Result<Seq<u32>, Seq<char>>, Seq<NQuery>, Seq<NAnswer>)
    decreases f, 1nat, n,
{
    if n == 0 {
        (Ok(Seq::empty()), Seq::empty(), ans)
    } else {
        let p = apply_each(body, env1, x, v, (n - 1) as nat, fs, ars, f, ans);
        match p.0 {
            Ok(acc) => {
                let r = eval_term(body, env1.push((x, FValue::NumFloat(v[n - 1]))), fs, ars, f, p.2);
                match r.0 {
                    FResult::Val(FValue::NumFloat(y)) => (Ok(acc.push(y)), p.1 + r.1, r.2),
                    FResult::Val(_) => (Err("Type error: expected float"@), p.1 + r.1, r.2),
                    FResult::Wrong(e) => (Err(e), p.1 + r.1, r.2),
                }
            },
            Err(e) => p,
        }
    }
}

// ---------------------------------------------------------------------
// Commands
// ---------------------------------------------------------------------

/// The first clause for operation `op` among `clauses[j..]`.
pub open spec fn find_clause_from(op: Seq<char>, clauses: Seq<FClause>, j: int) -> Option<FClause>
    decreases clauses.len() - j,
{
    if j < 0 || j >= clauses.len() {
        None
    } else if clauses[j].op == op {
        Some(clauses[j])
    } else {
        find_clause_from(op, clauses, j + 1)
    }
}

pub open spec fn bind_error(vp: FVarProd, v: FValue) -> Seq<char> {
    "cannot bind "@ + var_prod_debug(vp) + " to "@ + value_debug(v)
}

/// Hands a result to the innermost continuation, or returns it when the
/// stack is empty.
pub open spec fn continue_with(
    val: FValue,
    env: FEnv,
    env_com: FEnv,
    resume: Option<FValue>,
    fs: Seq<TopLevelTerm>,
    ars: Seq<TopLevelCommand>,
    stack: Seq<FCont>,
    f: nat,
    ans: Seq<NAnswer>,
) -> CommandRun
    decreases f, 1nat,
{
    if stack.len() == 0 {
        (FResult::Val(val), Seq::empty(), Seq::empty(), ans)
    } else {
        eval_command(
            fill(stack.last(), FCommand::Return(FVtr::V(Box::new(val)))),
            env,
            env_com,
            resume,
            fs,
            ars,
            stack.drop_last(),
            f,
            ans,
        )
    }
}

/// Running a command in a term environment and a command environment, with
/// the value to resume with (if any) and the stack of continuations around
/// it, innermost last.
pub open spec fn eval_command(
    c: FCommand,
    env: FEnv,
    env_com: FEnv,
    resume: Option<FValue>,
    fs: Seq<TopLevelTerm>,
    ars: Seq<TopLevelCommand>,
    stack: Seq<FCont>,
    fuel: nat,
    ans: Seq<NAnswer>,
) -> CommandRun
    decreases fuel, 0nat,
{
    if fuel == 0 {
        (wrong(exhausted_text()), Seq::empty(), Seq::empty(), ans)
    } else {
        let f = (fuel - 1) as nat;
        match c {
            FCommand::Return(FVtr::Resume) => match resume {
                Some(val) => continue_with(val, env, env_com, None, fs, ars, stack, f, ans),
                None => (wrong("resume value is None"@), Seq::empty(), Seq::empty(), ans),
            },
            FCommand::Return(FVtr::V(v)) => (FResult::Val(*v), Seq::empty(), Seq::empty(), ans),
            FCommand::Return(FVtr::T(t)) => {
                let r = eval_term(*t, env + env_com, fs, ars, f, ans);
                match r.0 {
                    FResult::Val(val) => {
                        let o = continue_with(val, env, env_com, resume, fs, ars, stack, f, r.2);
                        (o.0, o.1, r.1 + o.2, o.3)
                    },
                    _ => (r.0, Seq::empty(), r.1, r.2),
                }
            },
            FCommand::Let(b, c1, c2, envs) => {
                let e = match envs {
                    Some((e1, _)) => e1,
                    None => env,
                };
                let ec = match envs {
                    Some((_, e2)) => e2,
                    None => env_com,
                };
                match *c1 {
                    FCommand::Return(FVtr::V(val1)) => {
                        let bp = bind_pattern(b.var, *val1);
                        if !bp.0 {
                            (wrong(bind_error(b.var, *val1)), Seq::empty(), Seq::empty(), ans)
                        } else {
                            eval_command(*c2, e, ec + bp.1, resume, fs, ars, stack, f, ans)
                        }
                    },
                    _ => eval_command(*c1, e, ec, resume, fs, ars, stack.push(FCont::Let(b, *c2, e, ec)), f, ans),
                }
            },
            FCommand::CApp(t1, t2) => {
                let r1 = eval_term(*t1, env, fs, ars, f, ans);
                match r1.0 {
                    FResult::Val(FValue::ClosureArr(env1, vp, body)) => {
                        let r2 = eval_term(*t2, env + env_com, fs, ars, f, r1.2);
                        match r2.0 {
                            FResult::Val(v2) => {
                                let bp = bind_pattern(vp, v2);
                                if !bp.0 {
                                    (wrong(bind_error(vp, v2)), Seq::empty(), r1.1 + r2.1, r2.2)
                                } else {
                                    let o = eval_command(body, env1, bp.1, resume, fs, ars, stack, f, r2.2);
                                    (o.0, o.1, r1.1 + r2.1 + o.2, o.3)
                                }
                            },
                            _ => (r2.0, Seq::empty(), r1.1 + r2.1, r2.2),
                        }
                    },
                    FResult::Val(FValue::ClosureContArr(env1, body)) => {
                        let r2 = eval_term(*t2, env + env_com, fs, ars, f, r1.2);
                        match r2.0 {
                            FResult::Val(v2) => {
                                let o = eval_command(body, env1, Seq::empty(), Some(v2), fs, ars, stack, f, r2.2);
                                (o.0, o.1, r1.1 + r2.1 + o.2, o.3)
                            },
                            _ => (r2.0, Seq::empty(), r1.1 + r2.1, r2.2),
                        }
                    },
                    FResult::Val(v1) => (
                        wrong("interp_command: CApp: val1="@ + value_debug(v1) + " is not an arrow closure"@),
                        Seq::empty(),
                        r1.1,
                        r1.2,
                    ),
                    _ => (r1.0, Seq::empty(), r1.1, r1.2),
                }
            },
            FCommand::DoOp(op, t) => {
                let r = eval_term(*t, env + env_com, fs, ars, f, ans);
                match r.0 {
                    FResult::Val(val) => {
                        let o = unwind(op, val, FCommand::Return(FVtr::Resume), stack, env, resume, fs, ars, f, r.2);
                        (o.0, o.1, r.1 + o.2, o.3)
                    },
                    _ => (r.0, Seq::empty(), r.1, r.2),
                }
            },
            FCommand::Handle(c1, h, _) => match *c1 {
                FCommand::Return(FVtr::V(val1)) => match h {
                    FHandler::H(b, c_ret, _) => {
                        let bp = bind_pattern(b.var, *val1);
                        if !bp.0 {
                            (wrong(bind_error(b.var, *val1)), Seq::empty(), Seq::empty(), ans)
                        } else {
                            eval_command(*c_ret, env, bp.1, resume, fs, ars, stack, f, ans)
                        }
                    },
                },
                _ => eval_command(*c1, env, env_com, resume, fs, ars, stack.push(FCont::Handle(h, env)), f, ans),
            },
        }
    }
}

/// Performing operation `op` with argument `val`: `command` is the part of
/// the computation already captured (innermost continuations filled in);
/// `stack` holds the continuations still to be searched for a handler.  The
/// first clause for `op` of the innermost handler that has one runs, with
/// its `k` bound to the captured computation and its `z` to `val`.
pub open spec fn unwind(
    op: Seq<char>,
    val: FValue,
    command: FCommand,
    stack: Seq<FCont>,
    env: FEnv,
    resume: Option<FValue>,
    fs: Seq<TopLevelTerm>,
    ars: Seq<TopLevelCommand>,
    f: nat,
    ans: Seq<NAnswer>,
) -> CommandRun
    decreases f, stack.len() + 3,
{
    if stack.len() == 0 {
        outermost(op, val, command, env, fs, ars, f, ans)
    } else {
        let k = stack.last();
        let rest = stack.drop_last();
        let cmd = fill(k, command);
        match k {
            FCont::Handle(FHandler::H(_, _, clauses), henv) => match find_clause_from(op, clauses, 0) {
                Some(cl) => {
                    let kb = bind_pattern(cl.k.var, FValue::ClosureContArr(henv, cmd));
                    if !kb.0 {
                        (
                            wrong("cannot bind "@ + var_prod_debug(cl.k.var) + " to the continuation closure"@),
                            Seq::empty(),
                            Seq::empty(),
                            ans,
                        )
                    } else {
                        let zb = bind_pattern(cl.z.var, val);
                        if !zb.0 {
                            (wrong(bind_error(cl.z.var, val)), Seq::empty(), Seq::empty(), ans)
                        } else {
                            eval_command(cl.body, henv + kb.1, zb.1, resume, fs, ars, rest, f, ans)
                        }
                    }
                },
                None => unwind(op, val, cmd, rest, env, resume, fs, ars, f, ans),
            },
            _ => unwind(op, val, cmd, rest, env, resume, fs, ars, f, ans),
        }
    }
}

/// Resuming the captured computation with a value, after printing `printed`
/// and asking `asked`.
pub open spec fn resume_with(
    printed: Seq<FPrinted>,
    asked: Seq<NQuery>,
    v: FValue,
    command: FCommand,
    env: FEnv,
    fs: Seq<TopLevelTerm>,
    ars: Seq<TopLevelCommand>,
    f: nat,
    ans: Seq<NAnswer>,
) -> CommandRun
    decreases f, 1nat,
{
    let o = eval_command(command, env, Seq::empty(), Some(v), fs, ars, Seq::empty(), f, ans);
    (o.0, printed + o.1, asked + o.2, o.3)
}

pub open spec fn invalid_normal_text() -> Seq<char> {
    "Execution error: invalid parameters of a normal distribution"@
}

/// An operation that no handler takes: the printing operations print their
/// argument and resume with the unit value; the sampling operations draw
/// from a normal distribution and resume with the draws; any other
/// operation is an error.
pub open spec fn outermost(
    op: Seq<char>,
    val: FValue,
    command: FCommand,
    env: FEnv,
    fs: Seq<TopLevelTerm>,
    ars: Seq<TopLevelCommand>,
    f: nat,
    ans: Seq<NAnswer>,
) -> CommandRun
    decreases f, 2nat,
{
    let none = Seq::<FPrinted>::empty();
    let no_q = Seq::<NQuery>::empty();
    if op == "PrintInt"@ {
        match val {
            FValue::NumInt(n) => resume_with(seq![FPrinted::Int(n)], no_q, FValue::Unt, command, env, fs, ars, f, ans),
            _ => (wrong("interp_command: DoOp: PrintInt: val="@ + value_debug(val) + " is not an integer"@), none, no_q, ans),
        }
    } else if op == "PrintFloat"@ {
        match val {
            FValue::NumFloat(x) => resume_with(seq![FPrinted::Float(x)], no_q, FValue::Unt, command, env, fs, ars, f, ans),
            _ => (wrong(value_debug(val) + " is not a float"@), none, no_q, ans),
        }
    } else if op == "PrintVec"@ {
        match val {
            FValue::Vect(v) => resume_with(seq![FPrinted::Vect(v)], no_q, FValue::Unt, command, env, fs, ars, f, ans),
            _ => (wrong(value_debug(val) + " is not a vector"@), none, no_q, ans),
        }
    } else if op == "PrintMat"@ {
        match val {
            FValue::Mat(m) => resume_with(seq![FPrinted::Mat(m)], no_q, FValue::Unt, command, env, fs, ars, f, ans),
            _ => (wrong(value_debug(val) + " is not a matrix"@), none, no_q, ans),
        }
    } else if op == "SampleNormal"@ {
        match val {
            FValue::Pair(a, b) => match (*a, *b) {
                (FValue::NumFloat(mean), FValue::NumFloat(sd)) => {
                    let q_ok = NQuery::NormalOk(mean, sd);
                    if !truth_of(ans[0]) {
                        (wrong(invalid_normal_text()), none, seq![q_ok], ans.drop_first())
                    } else {
                        let rest = ans.drop_first();
                        resume_with(
                            none,
                            seq![q_ok, NQuery::Sample(mean, sd)],
                            FValue::NumFloat(float_of(rest[0])),
                            command,
                            env,
                            fs,
                            ars,
                            f,
                            rest.drop_first(),
                        )
                    }
                },
                _ => (wrong(value_debug(val) + " is not a pair of floats"@), none, no_q, ans),
            },
            _ => (wrong(value_debug(val) + " is not a pair"@), none, no_q, ans),
        }
    } else if op == "MatInitNormal"@ {
        match val {
            FValue::Pair(a, r1) => match *r1 {
                FValue::Pair(b, r2) => match *r2 {
                    FValue::Pair(c, d) => match (*a, *b, *c, *d) {
                        (FValue::NumInt(m), FValue::NumInt(n), FValue::NumFloat(mean), FValue::NumFloat(sd)) => {
                            let q_ok = NQuery::NormalOk(mean, sd);
                            if !truth_of(ans[0]) {
                                (wrong(invalid_normal_text()), none, seq![q_ok], ans.drop_first())
                            } else if m < 0 || n < 0 {
                                (wrong("Execution error: negative matrix size"@), none, seq![q_ok], ans.drop_first())
                            } else {
                                let g = grid_run(Grid::Normal(mean, sd, n as nat), m as nat, ans.drop_first());
                                resume_with(none, seq![q_ok] + g.1, FValue::Mat(g.0), command, env, fs, ars, f, g.2)
                            }
                        },
                        _ => (
                            wrong(value_debug(val) + " is not a tuple of type Int * Int * Float * Float"@),
                            none,
                            no_q,
                            ans,
                        ),
                    },
                    _ => (wrong(value_debug(val) + " is not a tuple"@), none, no_q, ans),
                },
                _ => (wrong(value_debug(val) + " is not a tuple"@), none, no_q, ans),
            },
            _ => (wrong(value_debug(val) + " is not a tuple"@), none, no_q, ans),
        }
    } else if op == "VecInitNormal"@ {
        match val {
            FValue::Pair(a, r1) => match *r1 {
                FValue::Pair(b, c) => match (*a, *b, *c) {
                    (FValue::NumInt(m), FValue::NumFloat(mean), FValue::NumFloat(sd)) => {
                        let q_ok = NQuery::NormalOk(mean, sd);
                        if !truth_of(ans[0]) {
                            (wrong(invalid_normal_text()), none, seq![q_ok], ans.drop_first())
                        } else if m < 0 {
                            (wrong("Execution error: negative vector size"@), none, seq![q_ok], ans.drop_first())
                        } else {
                            let r = row_run(Grid::Normal(mean, sd, m as nat), 0, ans.drop_first());
                            resume_with(none, seq![q_ok] + r.1, FValue::Vect(r.0), command, env, fs, ars, f, r.2)
                        }
                    },
                    _ => (
                        wrong(value_debug(val) + " is not a tuple of type Int * Float * Float"@),
                        none,
                        no_q,
                        ans,
                    ),
                },
                _ => (wrong(value_debug(val) + " is not a tuple"@), none, no_q, ans),
            },
            _ => (wrong(value_debug(val) + " is not a tuple"@), none, no_q, ans),
        }
    } else {
        (wrong("interp_command: DoOp: Unhandled operation: Op("@ + str_debug(op) + ")"@), none, no_q, ans)
    }
}

/// Running the program from the arrows at index `i` on: the first arrow
/// named `main` runs, with its argument and command argument bound to the
/// unit value in its term environment.
pub open spec fn run_main_from(
    fs: Seq<TopLevelTerm>,
    ars: Seq<TopLevelCommand>,
    i: int,
    fuel: nat,
    ans: Seq<NAnswer>,
) -> CommandRun
    decreases ars.len() - i,
{
    if i < 0 || i >= ars.len() {
        (wrong("main not found"@), Seq::empty(), Seq::empty(), ans)
    } else if ars[i].0.name() == "main"@ {
        let bx = bind_pattern(var_prod_model(ars[i].1.var()), FValue::Unt);
        let bz = bind_pattern(var_prod_model(ars[i].2.var()), FValue::Unt);
        if !bx.0 {
            (wrong("main: failed argument binding"@), Seq::empty(), Seq::empty(), ans)
        } else if !bz.0 {
            (wrong("main: failed command argument binding"@), Seq::empty(), Seq::empty(), ans)
        } else {
            eval_command(command_model(ars[i].4), bx.1 + bz.1, Seq::empty(), None, fs, ars, Seq::empty(), fuel, ans)
        }
    } else {
        run_main_from(fs, ars, i + 1, fuel, ans)
    }
}

// ---------------------------------------------------------------------
// A larger budget changes nothing
// ---------------------------------------------------------------------

pub open spec fn exhausted(r: FResult) -> bool {
    r == wrong(exhausted_text())
}

/// A larger budget changes nothing: when evaluating a term within budget
/// `n` does not run out of budget, evaluating it within any budget `m >= n`
/// with the same answers gives the same result, asks the same questions
/// and leaves the same answers.
pub proof fn lemma_term_budget(
    t: FTerm,
    env: FEnv,
    fs: Seq<TopLevelTerm>,
    ars: Seq<TopLevelCommand>,
    n: nat,
    m: nat,
    ans: Seq<NAnswer>,
)
    requires
        n <= m,
        !exhausted(eval_term(t, env, fs, ars, n, ans).0),
    ensures
        eval_term(t, env, fs, ars, m, ans) == eval_term(t, env, fs, ars, n, ans),
    decreases n, 0nat, 0nat,
{
    if n > 0 {
        let f = (n - 1) as nat;
        let g = (m - 1) as nat;
        match t {
            FTerm::Head(s) | FTerm::Tail(s) | FTerm::Fst(s) | FTerm::Snd(s) => {
                if !exhausted(eval_term(*s, env, fs, ars, f, ans).0) {
                    lemma_term_budget(*s, env, fs, ars, f, g, ans);
                }
            },
            FTerm::If(c, a, b) => {
                let r = eval_term(*c, env, fs, ars, f, ans);
                if !exhausted(r.0) {
                    lemma_term_budget(*c, env, fs, ars, f, g, ans);
                    if !exhausted(eval_term(*a, env, fs, ars, f, r.2).0) {
                        lemma_term_budget(*a, env, fs, ars, f, g, r.2);
                    }
                    if !exhausted(eval_term(*b, env, fs, ars, f, r.2).0) {
                        lemma_term_budget(*b, env, fs, ars, f, g, r.2);
                    }
                }
            },
            FTerm::App(a, b) => {
                lemma_app_budget(*a, *b, env, fs, ars, f, g, ans);
            },
            FTerm::ApplicationVectEntrywise(a, b) => {
                lemma_entrywise_budget(*a, *b, env, fs, ars, f, g, ans);
            },
            FTerm::Pair(a, b) => lemma_bin_budget(BinKind::Pair, *a, *b, env, fs, ars, f, g, ans),
            FTerm::Cons(a, b) => lemma_bin_budget(BinKind::Cons, *a, *b, env, fs, ars, f, g, ans),
            FTerm::Plus(a, b) => lemma_bin_budget(BinKind::Plus, *a, *b, env, fs, ars, f, g, ans),
            FTerm::Times(a, b) => lemma_bin_budget(BinKind::Times, *a, *b, env, fs, ars, f, g, ans),
            FTerm::PlusF(a, b) => lemma_bin_budget(BinKind::PlusF, *a, *b, env, fs, ars, f, g, ans),
            FTerm::TimesF(a, b) => lemma_bin_budget(BinKind::TimesF, *a, *b, env, fs, ars, f, g, ans),
            FTerm::DivF(a, b) => lemma_bin_budget(BinKind::DivF, *a, *b, env, fs, ars, f, g, ans),
            FTerm::MatVectMul(a, b) => lemma_bin_budget(BinKind::MatVectMul, *a, *b, env, fs, ars, f, g, ans),
            FTerm::EqInt(a, b) => lemma_bin_budget(BinKind::EqInt, *a, *b, env, fs, ars, f, g, ans),
            FTerm::LTFloat(a, b) => lemma_bin_budget(BinKind::LTFloat, *a, *b, env, fs, ars, f, g, ans),
            FTerm::GTFloat(a, b) => lemma_bin_budget(BinKind::GTFloat, *a, *b, env, fs, ars, f, g, ans),
            FTerm::ProdVecVec(a, b) => lemma_bin_budget(BinKind::ProdVecVec, *a, *b, env, fs, ars, f, g, ans),
            FTerm::VectEntrywisePlus(a, b) => lemma_bin_budget(BinKind::VectPlus, *a, *b, env, fs, ars, f, g, ans),
            FTerm::VectEntrywiseMinus(a, b) => lemma_bin_budget(BinKind::VectMinus, *a, *b, env, fs, ars, f, g, ans),
            FTerm::VectEntrywiseTimes(a, b) => lemma_bin_budget(BinKind::VectTimes, *a, *b, env, fs, ars, f, g, ans),
            FTerm::ScalarVect(a, b) => lemma_bin_budget(BinKind::ScalarVect, *a, *b, env, fs, ars, f, g, ans),
            FTerm::MatEntrywisePlus(a, b) => lemma_bin_budget(BinKind::MatPlus, *a, *b, env, fs, ars, f, g, ans),
            FTerm::MatEntrywiseMinus(a, b) => lemma_bin_budget(BinKind::MatMinus, *a, *b, env, fs, ars, f, g, ans),
            FTerm::ScalarMat(a, b) => lemma_bin_budget(BinKind::ScalarMat, *a, *b, env, fs, ars, f, g, ans),
            _ => {},
        }
    }
}

/// A larger budget changes nothing for an operator on two operands.
pub proof fn lemma_bin_budget(
    k: BinKind,
    t1: FTerm,
    t2: FTerm,
    env: FEnv,
    fs: Seq<TopLevelTerm>,
    ars: Seq<TopLevelCommand>,
    f: nat,
    g: nat,
    ans: Seq<NAnswer>,
)
    requires
        f <= g,
        !exhausted(eval_bin(k, t1, t2, env, fs, ars, f, ans).0),
    ensures
        eval_bin(k, t1, t2, env, fs, ars, g, ans) == eval_bin(k, t1, t2, env, fs, ars, f, ans),
    decreases f, 2nat, 0nat,
{
    let r1 = eval_term(t1, env, fs, ars, f, ans);
    if !exhausted(r1.0) {
        lemma_term_budget(t1, env, fs, ars, f, g, ans);
        if !exhausted(eval_term(t2, env, fs, ars, f, r1.2).0) {
            lemma_term_budget(t2, env, fs, ars, f, g, r1.2);
        }
    }
}

/// A larger budget changes nothing for an application.
pub proof fn lemma_app_budget(
    t1: FTerm,
    t2: FTerm,
    env: FEnv,
    fs: Seq<TopLevelTerm>,
    ars: Seq<TopLevelCommand>,
    f: nat,
    g: nat,
    ans: Seq<NAnswer>,
)
    requires
        f <= g,
        !exhausted(eval_app(t1, t2, env, fs, ars, f, ans).0),
    ensures
        eval_app(t1, t2, env, fs, ars, g, ans) == eval_app(t1, t2, env, fs, ars, f, ans),
    decreases f, 2nat, 0nat,
{
    let r1 = eval_term(t1, env, fs, ars, f, ans);
    if !exhausted(r1.0) {
        lemma_term_budget(t1, env, fs, ars, f, g, ans);
        let r2 = eval_term(t2, env, fs, ars, f, r1.2);
        if !exhausted(r2.0) {
            lemma_term_budget(t2, env, fs, ars, f, g, r1.2);
            match (r1.0, r2.0) {
                (FResult::Val(FValue::ClosureFunc(env1, vp, body)), FResult::Val(v2)) => {
                    let b = bind_pattern(vp, v2);
                    if b.0 && !exhausted(eval_term(body, env1 + b.1, fs, ars, f, r2.2).0) {
                        lemma_term_budget(body, env1 + b.1, fs, ars, f, g, r2.2);
                    }
                },
                _ => {},
            }
        }
    }
}

/// A larger budget changes nothing for `$>`.
pub proof fn lemma_entrywise_budget(
    t1: FTerm,
    t2: FTerm,
    env: FEnv,
    fs: Seq<TopLevelTerm>,
    ars: Seq<TopLevelCommand>,
    f: nat,
    g: nat,
    ans: Seq<NAnswer>,
)
    requires
        f <= g,
        !exhausted(eval_entrywise(t1, t2, env, fs, ars, f, ans).0),
    ensures
        eval_entrywise(t1, t2, env, fs, ars, g, ans) == eval_entrywise(t1, t2, env, fs, ars, f, ans),
    decreases f, 2nat, 0nat,
{
    let r1 = eval_term(t1, env, fs, ars, f, ans);
    if !exhausted(r1.0) {
        lemma_term_budget(t1, env, fs, ars, f, g, ans);
        let r2 = eval_term(t2, env, fs, ars, f, r1.2);
        if !exhausted(r2.0) {
            lemma_term_budget(t2, env, fs, ars, f, g, r1.2);
            match (r1.0, r2.0) {
                (FResult::Val(FValue::ClosureFunc(env1, vp, body)), FResult::Val(FValue::Vect(v))) => {
                    lemma_apply_each_budget(body, env1, entry_name(vp), v, v.len(), fs, ars, f, g, r2.2);
                },
                _ => {},
            }
        }
    }
}

/// A larger budget changes nothing for the entries of `$>`.
pub proof fn lemma_apply_each_budget(
    body: FTerm,
    env1: FEnv,
    x: Seq<char>,
    v: Seq<u32>,
    n: nat,
    fs: Seq<TopLevelTerm>,
    ars: Seq<TopLevelCommand>,
    f: nat,
    g: nat,
    ans: Seq<NAnswer>,
)
    requires
        f <= g,
        apply_each(body, env1, x, v, n, fs, ars, f, ans).0 != Err::<Seq<u32>, Seq<char>>(exhausted_text()),
    ensures
        apply_each(body, env1, x, v, n, fs, ars, g, ans) == apply_each(body, env1, x, v, n, fs, ars, f, ans),
    decreases f, 1nat, n,
{
    if n > 0 {
        let p = apply_each(body, env1, x, v, (n - 1) as nat, fs, ars, f, ans);
        if p.0 != Err::<Seq<u32>, Seq<char>>(exhausted_text()) {
            lemma_apply_each_budget(body, env1, x, v, (n - 1) as nat, fs, ars, f, g, ans);
            let e = env1.push((x, FValue::NumFloat(v[n - 1])));
            if p.0 is Ok && !exhausted(eval_term(body, e, fs, ars, f, p.2).0) {
                lemma_term_budget(body, e, fs, ars, f, g, p.2);
            }
        }
    }
}

/// A larger budget changes nothing when handing a result to the innermost
/// continuation.
pub proof fn lemma_continue_budget(
    val: FValue,
    env: FEnv,
    env_com: FEnv,
    resume: Option<FValue>,
    fs: Seq<TopLevelTerm>,
    ars: Seq<TopLevelCommand>,
    stack: Seq<FCont>,
    f: nat,
    g: nat,
    ans: Seq<NAnswer>,
)
    requires
        f <= g,
        !exhausted(continue_with(val, env, env_com, resume, fs, ars, stack, f, ans).0),
    ensures
        continue_with(val, env, env_com, resume, fs, ars, stack, g, ans) == continue_with(
            val,
            env,
            env_com,
            resume,
            fs,
            ars,
            stack,
            f,
            ans,
        ),
    decreases f, 1nat,
{
    if stack.len() > 0 {
        lemma_command_budget(
            fill(stack.last(), FCommand::Return(FVtr::V(Box::new(val)))),
            env,
            env_com,
            resume,
            fs,
            ars,
            stack.drop_last(),
            f,
            g,
            ans,
        );
    }
}

/// A larger budget changes nothing: when running a command within budget
/// `n` does not run out of budget, running it within any budget `m >= n`
/// with the same answers gives the same result, prints the same, asks the
/// same questions and leaves the same answers.
pub proof fn lemma_command_budget(
    c: FCommand,
    env: FEnv,
    env_com: FEnv,
    resume: Option<FValue>,
    fs: Seq<TopLevelTerm>,
    ars: Seq<TopLevelCommand>,
    stack: Seq<FCont>,
    n: nat,
    m: nat,
    ans: Seq<NAnswer>,
)
    requires
        n <= m,
        !exhausted(eval_command(c, env, env_com, resume, fs, ars, stack, n, ans).0),
    ensures
        eval_command(c, env, env_com, resume, fs, ars, stack, m, ans) == eval_command(
            c,
            env,
            env_com,
            resume,
            fs,
            ars,
            stack,
            n,
            ans,
        ),
    decreases n, 0nat,
{
    if n > 0 {
        let f = (n - 1) as nat;
        let g = (m - 1) as nat;
        match c {
            FCommand::Return(FVtr::Resume) => {
                if let Some(val) = resume {
                    lemma_continue_budget(val, env, env_com, None, fs, ars, stack, f, g, ans);
                }
            },
            FCommand::Return(FVtr::T(t)) => {
                let r = eval_term(*t, env + env_com, fs, ars, f, ans);
                if !exhausted(r.0) {
                    lemma_term_budget(*t, env + env_com, fs, ars, f, g, ans);
                    if let FResult::Val(val) = r.0 {
                        lemma_continue_budget(val, env, env_com, resume, fs, ars, stack, f, g, r.2);
                    }
                }
            },
            FCommand::Let(b, c1, c2, envs) => {
                let e = match envs {
                    Some((e1, _)) => e1,
                    None => env,
                };
                let ec = match envs {
                    Some((_, e2)) => e2,
                    None => env_com,
                };
                match *c1 {
                    FCommand::Return(FVtr::V(val1)) => {
                        let bp = bind_pattern(b.var, *val1);
                        if bp.0 {
                            lemma_command_budget(*c2, e, ec + bp.1, resume, fs, ars, stack, f, g, ans);
                        }
                    },
                    _ => {
                        lemma_command_budget(
                            *c1,
                            e,
                            ec,
                            resume,
                            fs,
                            ars,
                            stack.push(FCont::Let(b, *c2, e, ec)),
                            f,
                            g,
                            ans,
                        );
                    },
                }
            },
            FCommand::CApp(t1, t2) => {
                let r1 = eval_term(*t1, env, fs, ars, f, ans);
                if !exhausted(r1.0) {
                    lemma_term_budget(*t1, env, fs, ars, f, g, ans);
                    let r2 = eval_term(*t2, env + env_com, fs, ars, f, r1.2);
                    if (r1.0 is Val && (r1.0->Val_0 is ClosureArr || r1.0->Val_0 is ClosureContArr)) && !exhausted(
                        r2.0,
                    ) {
                        lemma_term_budget(*t2, env + env_com, fs, ars, f, g, r1.2);
                        match (r1.0, r2.0) {
                            (FResult::Val(FValue::ClosureArr(env1, vp, body)), FResult::Val(v2)) => {
                                let bp = bind_pattern(vp, v2);
                                if bp.0 {
                                    lemma_command_budget(body, env1, bp.1, resume, fs, ars, stack, f, g, r2.2);
                                }
                            },
                            (FResult::Val(FValue::ClosureContArr(env1, body)), FResult::Val(v2)) => {
                                lemma_command_budget(body, env1, Seq::empty(), Some(v2), fs, ars, stack, f, g, r2.2);
                            },
                            _ => {},
                        }
                    }
                }
            },
            FCommand::DoOp(op, t) => {
                let r = eval_term(*t, env + env_com, fs, ars, f, ans);
                if !exhausted(r.0) {
                    lemma_term_budget(*t, env + env_com, fs, ars, f, g, ans);
                    if let FResult::Val(val) = r.0 {
                        lemma_unwind_budget(op, val, FCommand::Return(FVtr::Resume), stack, env, resume, fs, ars, f, g, r.2);
                    }
                }
            },
            FCommand::Handle(c1, h, _) => match *c1 {
                FCommand::Return(FVtr::V(val1)) => match h {
                    FHandler::H(b, c_ret, _) => {
                        let bp = bind_pattern(b.var, *val1);
                        if bp.0 {
                            lemma_command_budget(*c_ret, env, bp.1, resume, fs, ars, stack, f, g, ans);
                        }
                    },
                },
                _ => {
                    lemma_command_budget(*c1, env, env_com, resume, fs, ars, stack.push(FCont::Handle(h, env)), f, g, ans);
                },
            },
            _ => {},
        }
    }
}

/// A larger budget changes nothing while an operation looks for its handler.
pub proof fn lemma_unwind_budget(
    op: Seq<char>,
    val: FValue,
    command: FCommand,
    stack: Seq<FCont>,
    env: FEnv,
    resume: Option<FValue>,
    fs: Seq<TopLevelTerm>,
    ars: Seq<TopLevelCommand>,
    f: nat,
    g: nat,
    ans: Seq<NAnswer>,
)
    requires
        f <= g,
        !exhausted(unwind(op, val, command, stack, env, resume, fs, ars, f, ans).0),
    ensures
        unwind(op, val, command, stack, env, resume, fs, ars, g, ans) == unwind(
            op,
            val,
            command,
            stack,
            env,
            resume,
            fs,
            ars,
            f,
            ans,
        ),
    decreases f, stack.len() + 3,
{
    if stack.len() == 0 {
        lemma_outermost_budget(op, val, command, env, fs, ars, f, g, ans);
    } else {
        let k = stack.last();
        let rest = stack.drop_last();
        let cmd = fill(k, command);
        match k {
            FCont::Handle(FHandler::H(_, _, clauses), henv) => match find_clause_from(op, clauses, 0) {
                Some(cl) => {
                    let kb = bind_pattern(cl.k.var, FValue::ClosureContArr(henv, cmd));
                    let zb = bind_pattern(cl.z.var, val);
                    if kb.0 && zb.0 {
                        lemma_command_budget(cl.body, henv + kb.1, zb.1, resume, fs, ars, rest, f, g, ans);
                    }
                },
                None => {
                    lemma_unwind_budget(op, val, cmd, rest, env, resume, fs, ars, f, g, ans);
                },
            },
            _ => {
                lemma_unwind_budget(op, val, cmd, rest, env, resume, fs, ars, f, g, ans);
            },
        }
    }
}

/// A larger budget changes nothing when resuming a captured computation.
pub proof fn lemma_resume_budget(
    printed: Seq<FPrinted>,
    asked: Seq<NQuery>,
    v: FValue,
    command: FCommand,
    env: FEnv,
    fs: Seq<TopLevelTerm>,
    ars: Seq<TopLevelCommand>,
    f: nat,
    g: nat,
    ans: Seq<NAnswer>,
)
    requires
        f <= g,
        !exhausted(resume_with(printed, asked, v, command, env, fs, ars, f, ans).0),
    ensures
        resume_with(printed, asked, v, command, env, fs, ars, g, ans) == resume_with(
            printed,
            asked,
            v,
            command,
            env,
            fs,
            ars,
            f,
            ans,
        ),
    decreases f, 1nat,
{
    lemma_command_budget(command, env, Seq::empty(), Some(v), fs, ars, Seq::empty(), f, g, ans);
}

/// A larger budget changes nothing for an operation that no handler takes.
pub proof fn lemma_outermost_budget(
    op: Seq<char>,
    val: FValue,
    command: FCommand,
    env: FEnv,
    fs: Seq<TopLevelTerm>,
    ars: Seq<TopLevelCommand>,
    f: nat,
    g: nat,
    ans: Seq<NAnswer>,
)
    requires
        f <= g,
        !exhausted(outermost(op, val, command, env, fs, ars, f, ans).0),
    ensures
        outermost(op, val, command, env, fs, ars, g, ans) == outermost(op, val, command, env, fs, ars, f, ans),
    decreases f, 2nat,
{
    let none = Seq::<FPrinted>::empty();
    let no_q = Seq::<NQuery>::empty();
    if op == "PrintInt"@ {
        if let FValue::NumInt(n) = val {
            lemma_resume_budget(seq![FPrinted::Int(n)], no_q, FValue::Unt, command, env, fs, ars, f, g, ans);
        }
    } else if op == "PrintFloat"@ {
        if let FValue::NumFloat(x) = val {
            lemma_resume_budget(seq![FPrinted::Float(x)], no_q, FValue::Unt, command, env, fs, ars, f, g, ans);
        }
    } else if op == "PrintVec"@ {
        if let FValue::Vect(v) = val {
            lemma_resume_budget(seq![FPrinted::Vect(v)], no_q, FValue::Unt, command, env, fs, ars, f, g, ans);
        }
    } else if op == "PrintMat"@ {
        if let FValue::Mat(mm) = val {
            lemma_resume_budget(seq![FPrinted::Mat(mm)], no_q, FValue::Unt, command, env, fs, ars, f, g, ans);
        }
    } else if op == "SampleNormal"@ {
        if let FValue::Pair(a, b) = val {
            if let (FValue::NumFloat(mean), FValue::NumFloat(sd)) = (*a, *b) {
                let rest = ans.drop_first();
                if truth_of(ans[0]) {
                    lemma_resume_budget(
                        none,
                        seq![NQuery::NormalOk(mean, sd), NQuery::Sample(mean, sd)],
                        FValue::NumFloat(float_of(rest[0])),
                        command,
                        env,
                        fs,
                        ars,
                        f,
                        g,
                        rest.drop_first(),
                    );
                }
            }
        }
    } else if op == "MatInitNormal"@ {
        if let FValue::Pair(a, r1) = val {
            if let FValue::Pair(b, r2) = *r1 {
                if let FValue::Pair(c, d) = *r2 {
                    if let (FValue::NumInt(mi), FValue::NumInt(ni), FValue::NumFloat(mean), FValue::NumFloat(sd)) = (
                        *a,
                        *b,
                        *c,
                        *d,
                    ) {
                        if truth_of(ans[0]) && mi >= 0 && ni >= 0 {
                            let gr = grid_run(Grid::Normal(mean, sd, ni as nat), mi as nat, ans.drop_first());
                            lemma_resume_budget(
                                none,
                                seq![NQuery::NormalOk(mean, sd)] + gr.1,
                                FValue::Mat(gr.0),
                                command,
                                env,
                                fs,
                                ars,
                                f,
                                g,
                                gr.2,
                            );
                        }
                    }
                }
            }
        }
    } else if op == "VecInitNormal"@ {
        if let FValue::Pair(a, r1) = val {
            if let FValue::Pair(b, c) = *r1 {
                if let (FValue::NumInt(mi), FValue::NumFloat(mean), FValue::NumFloat(sd)) = (*a, *b, *c) {
                    if truth_of(ans[0]) && mi >= 0 {
                        let r = row_run(Grid::Normal(mean, sd, mi as nat), 0, ans.drop_first());
                        lemma_resume_budget(
                            none,
                            seq![NQuery::NormalOk(mean, sd)] + r.1,
                            FValue::Vect(r.0),
                            command,
                            env,
                            fs,
                            ars,
                            f,
                            g,
                            r.2,
                        );
                    }
                }
            }
        }
    }
}

/// A larger budget changes nothing for a whole program: when running it
/// within budget `n` does not run out of budget, running it within any
/// budget `m >= n` gives the same outcome.
pub proof fn lemma_program_budget(
    fs: Seq<TopLevelTerm>,
    ars: Seq<TopLevelCommand>,
    i: int,
    n: nat,
    m: nat,
    ans: Seq<NAnswer>,
)
    requires
        n <= m,
        !exhausted(run_main_from(fs, ars, i, n, ans).0),
    ensures
        run_main_from(fs, ars, i, m, ans) == run_main_from(fs, ars, i, n, ans),
    decreases ars.len() - i,
{
    if 0 <= i < ars.len() {
        if ars[i].0.name() == "main"@ {
            let bx = bind_pattern(var_prod_model(ars[i].1.var()), FValue::Unt);
            let bz = bind_pattern(var_prod_model(ars[i].2.var()), FValue::Unt);
            if bx.0 && bz.0 {
                lemma_command_budget(
                    command_model(ars[i].4),
                    bx.1 + bz.1,
                    Seq::empty(),
                    None,
                    fs,
                    ars,
                    Seq::empty(),
                    n,
                    m,
                    ans,
                );
            }
        } else {
            lemma_program_budget(fs, ars, i + 1, n, m, ans);
        }
    }
}

// ---------------------------------------------------------------------
// A run that asks no question does not depend on the answers
// ---------------------------------------------------------------------

pub proof fn lemma_concat_empty<A>(a: Seq<A>, b: Seq<A>)
    requires
        a + b == Seq::<A>::empty(),
    ensures
        a == Seq::<A>::empty(),
        b == Seq::<A>::empty(),
{
    assert((a + b).len() == 0);
    assert(a =~= Seq::<A>::empty());
    assert(b =~= Seq::<A>::empty());
}

/// A row with no entries asks nothing, gives nothing and reads nothing.
pub proof fn lemma_row_asks_nothing(g: Grid, i: int, a1: Seq<NAnswer>, a2: Seq<NAnswer>)
    requires
        row_run(g, i, a1).1 == Seq::<NQuery>::empty(),
    ensures
        row_run(g, i, a1).2 == a1,
        row_run(g, i, a2) == (row_run(g, i, a1).0, Seq::<NQuery>::empty(), a2),
{
    assert(row_run(g, i, a1).1.len() == grid_cols(g, i));
    assert(floats(a1, 0) =~= floats(a2, 0));
    assert(a1.skip(0) =~= a1);
    assert(a2.skip(0) =~= a2);
}

/// Rows that ask nothing give the same rows whatever the answers.
pub proof fn lemma_grid_asks_nothing(g: Grid, rows: nat, a1: Seq<NAnswer>, a2: Seq<NAnswer>)
    requires
        grid_run(g, rows, a1).1 == Seq::<NQuery>::empty(),
    ensures
        grid_run(g, rows, a1).2 == a1,
        grid_run(g, rows, a2) == (grid_run(g, rows, a1).0, Seq::<NQuery>::empty(), a2),
    decreases rows,
{
    if rows > 0 {
        let p = grid_run(g, (rows - 1) as nat, a1);
        let r = row_run(g, rows - 1, p.2);
        lemma_concat_empty(p.1, r.1);
        lemma_grid_asks_nothing(g, (rows - 1) as nat, a1, a2);
        lemma_row_asks_nothing(g, rows - 1, p.2, a2);
        lemma_no_queries_left(r.1);
    }
}

pub proof fn lemma_no_queries_left(q: Seq<NQuery>)
    ensures
        Seq::<NQuery>::empty() + q == q,
        q + Seq::<NQuery>::empty() == q,
{
    assert(Seq::<NQuery>::empty() + q =~= q);
    assert(q + Seq::<NQuery>::empty() =~= q);
}

/// A dot product of `n` entries asks two questions per entry.
pub proof fn lemma_dot_questions(row: Seq<u32>, v: Seq<u32>, n: nat, a: Seq<NAnswer>)
    ensures
        dot_run(row, v, n, a).1.len() == 2 * n,
    decreases n,
{
    if n > 0 {
        lemma_dot_questions(row, v, (n - 1) as nat, a);
    }
}

/// A product that asks nothing gives the same vector whatever the answers.
pub proof fn lemma_mat_vec_asks_nothing(m: Seq<Seq<u32>>, v: Seq<u32>, rows: nat, a1: Seq<NAnswer>, a2: Seq<NAnswer>)
    requires
        mat_vec_run(m, v, rows, a1).1 == Seq::<NQuery>::empty(),
    ensures
        mat_vec_run(m, v, rows, a1).2 == a1,
        mat_vec_run(m, v, rows, a2) == (mat_vec_run(m, v, rows, a1).0, Seq::<NQuery>::empty(), a2),
    decreases rows,
{
    if rows > 0 {
        let p = mat_vec_run(m, v, (rows - 1) as nat, a1);
        let d = dot_run(m[rows - 1], v, v.len(), p.2);
        lemma_concat_empty(p.1, d.1);
        lemma_mat_vec_asks_nothing(m, v, (rows - 1) as nat, a1, a2);
        lemma_dot_questions(m[rows - 1], v, v.len(), p.2);
        assert(v.len() == 0);
        lemma_no_queries_left(d.1);
    }
}

/// An operator that asks nothing gives the same result whatever the answers.
pub proof fn lemma_combine_asks_nothing(k: BinKind, v1: FValue, v2: FValue, a1: Seq<NAnswer>, a2: Seq<NAnswer>)
    requires
        combine(k, v1, v2, a1).1 == Seq::<NQuery>::empty(),
    ensures
        combine(k, v1, v2, a1).2 == a1,
        combine(k, v1, v2, a2) == (combine(k, v1, v2, a1).0, Seq::<NQuery>::empty(), a2),
{
    match k {
        BinKind::PlusF | BinKind::TimesF | BinKind::DivF | BinKind::LTFloat | BinKind::GTFloat => {
            match (v1, v2) {
                (FValue::NumFloat(x1), FValue::NumFloat(x2)) => {
                    assert(combine(k, v1, v2, a1).1.len() == 1);
                },
                _ => {},
            }
        },
        BinKind::MatVectMul => match (v1, v2) {
            (FValue::Mat(m), FValue::Vect(v)) => {
                if !(m.len() == 0 && v.len() == 0) && !(m.len() == 0 || m[0].len() != v.len() || !rows_at_least(
                    m,
                    v.len(),
                )) {
                    lemma_mat_vec_asks_nothing(m, v, m.len(), a1, a2);
                }
            },
            _ => {},
        },
        BinKind::ProdVecVec => match (v1, v2) {
            (FValue::Vect(a), FValue::Vect(b)) => {
                lemma_grid_asks_nothing(Grid::Outer(a, b), a.len(), a1, a2);
            },
            _ => {},
        },
        BinKind::VectPlus | BinKind::VectMinus | BinKind::VectTimes => match (v1, v2) {
            (FValue::Vect(a), FValue::Vect(b)) => {
                if a.len() == b.len() {
                    lemma_row_asks_nothing(Grid::Pairwise(vect_op(k), seq![a], seq![b]), 0, a1, a2);
                }
            },
            _ => {},
        },
        BinKind::ScalarVect => match (v1, v2) {
            (FValue::NumFloat(c), FValue::Vect(v)) => {
                lemma_row_asks_nothing(Grid::Scaled(c, seq![v]), 0, a1, a2);
            },
            _ => {},
        },
        BinKind::MatPlus | BinKind::MatMinus => match (v1, v2) {
            (FValue::Mat(m1), FValue::Mat(m2)) => {
                if !(m1.len() != m2.len() || (m1.len() > 0 && m1[0].len() != m2[0].len()) || !rows_cover(m1, m2)) {
                    lemma_grid_asks_nothing(Grid::Pairwise(vect_op(k), m1, m2), m1.len(), a1, a2);
                }
            },
            _ => {},
        },
        BinKind::ScalarMat => match (v1, v2) {
            (FValue::NumFloat(c), FValue::Mat(m)) => {
                lemma_grid_asks_nothing(Grid::Scaled(c, m), m.len(), a1, a2);
            },
            _ => {},
        },
        _ => {},
    }
}

/// A built-in function that asks nothing gives the same result whatever the
/// answers.
pub proof fn lemma_builtin_asks_nothing(fv: FValue, v: FValue, a1: Seq<NAnswer>, a2: Seq<NAnswer>)
    requires
        apply_builtin(fv, v, a1).1 == Seq::<NQuery>::empty(),
    ensures
        apply_builtin(fv, v, a1).2 == a1,
        apply_builtin(fv, v, a2) == (apply_builtin(fv, v, a1).0, Seq::<NQuery>::empty(), a2),
{
    if fv is Exp && v is NumFloat {
        assert(apply_builtin(fv, v, a1).1.len() == 1);
    }
}

/// A term whose evaluation asks no question does not depend on the
/// provider's answers: it leaves the answers untouched, and with any other
/// answers it gives the same result.
pub proof fn lemma_term_asks_nothing(
    t: FTerm,
    env: FEnv,
    fs: Seq<TopLevelTerm>,
    ars: Seq<TopLevelCommand>,
    n: nat,
    a1: Seq<NAnswer>,
    a2: Seq<NAnswer>,
)
    requires
        eval_term(t, env, fs, ars, n, a1).1 == Seq::<NQuery>::empty(),
    ensures
        eval_term(t, env, fs, ars, n, a1).2 == a1,
        eval_term(t, env, fs, ars, n, a2) == (eval_term(t, env, fs, ars, n, a1).0, Seq::<NQuery>::empty(), a2),
    decreases n, 0nat, 0nat,
{
    if n > 0 {
        let f = (n - 1) as nat;
        match t {
            FTerm::Head(s) | FTerm::Tail(s) | FTerm::Fst(s) | FTerm::Snd(s) => {
                lemma_term_asks_nothing(*s, env, fs, ars, f, a1, a2);
            },
            FTerm::If(c, a, b) => {
                let r = eval_term(*c, env, fs, ars, f, a1);
                match r.0 {
                    FResult::Val(FValue::Bool(cond)) => {
                        let branch = if cond {
                            *a
                        } else {
                            *b
                        };
                        let r2 = eval_term(branch, env, fs, ars, f, r.2);
                        lemma_concat_empty(r.1, r2.1);
                        lemma_term_asks_nothing(*c, env, fs, ars, f, a1, a2);
                        lemma_term_asks_nothing(branch, env, fs, ars, f, a1, a2);
                        lemma_no_queries_left(r2.1);
                    },
                    _ => {
                        lemma_term_asks_nothing(*c, env, fs, ars, f, a1, a2);
                    },
                }
            },
            FTerm::App(a, b) => lemma_app_asks_nothing(*a, *b, env, fs, ars, f, a1, a2),
            FTerm::ApplicationVectEntrywise(a, b) => lemma_entrywise_asks_nothing(*a, *b, env, fs, ars, f, a1, a2),
            FTerm::Pair(a, b) => lemma_bin_asks_nothing(BinKind::Pair, *a, *b, env, fs, ars, f, a1, a2),
            FTerm::Cons(a, b) => lemma_bin_asks_nothing(BinKind::Cons, *a, *b, env, fs, ars, f, a1, a2),
            FTerm::Plus(a, b) => lemma_bin_asks_nothing(BinKind::Plus, *a, *b, env, fs, ars, f, a1, a2),
            FTerm::Times(a, b) => lemma_bin_asks_nothing(BinKind::Times, *a, *b, env, fs, ars, f, a1, a2),
            FTerm::PlusF(a, b) => lemma_bin_asks_nothing(BinKind::PlusF, *a, *b, env, fs, ars, f, a1, a2),
            FTerm::TimesF(a, b) => lemma_bin_asks_nothing(BinKind::TimesF, *a, *b, env, fs, ars, f, a1, a2),
            FTerm::DivF(a, b) => lemma_bin_asks_nothing(BinKind::DivF, *a, *b, env, fs, ars, f, a1, a2),
            FTerm::MatVectMul(a, b) => lemma_bin_asks_nothing(BinKind::MatVectMul, *a, *b, env, fs, ars, f, a1, a2),
            FTerm::EqInt(a, b) => lemma_bin_asks_nothing(BinKind::EqInt, *a, *b, env, fs, ars, f, a1, a2),
            FTerm::LTFloat(a, b) => lemma_bin_asks_nothing(BinKind::LTFloat, *a, *b, env, fs, ars, f, a1, a2),
            FTerm::GTFloat(a, b) => lemma_bin_asks_nothing(BinKind::GTFloat, *a, *b, env, fs, ars, f, a1, a2),
            FTerm::ProdVecVec(a, b) => lemma_bin_asks_nothing(BinKind::ProdVecVec, *a, *b, env, fs, ars, f, a1, a2),
            FTerm::VectEntrywisePlus(a, b) => lemma_bin_asks_nothing(BinKind::VectPlus, *a, *b, env, fs, ars, f, a1, a2),
            FTerm::VectEntrywiseMinus(a, b) => lemma_bin_asks_nothing(BinKind::VectMinus, *a, *b, env, fs, ars, f, a1, a2),
            FTerm::VectEntrywiseTimes(a, b) => lemma_bin_asks_nothing(BinKind::VectTimes, *a, *b, env, fs, ars, f, a1, a2),
            FTerm::ScalarVect(a, b) => lemma_bin_asks_nothing(BinKind::ScalarVect, *a, *b, env, fs, ars, f, a1, a2),
            FTerm::MatEntrywisePlus(a, b) => lemma_bin_asks_nothing(BinKind::MatPlus, *a, *b, env, fs, ars, f, a1, a2),
            FTerm::MatEntrywiseMinus(a, b) => lemma_bin_asks_nothing(BinKind::MatMinus, *a, *b, env, fs, ars, f, a1, a2),
            FTerm::ScalarMat(a, b) => lemma_bin_asks_nothing(BinKind::ScalarMat, *a, *b, env, fs, ars, f, a1, a2),
            _ => {},
        }
    }
}

/// An operator on two operands that asks nothing does not depend on the answers.
pub proof fn lemma_bin_asks_nothing(
    k: BinKind,
    t1: FTerm,
    t2: FTerm,
    env: FEnv,
    fs: Seq<TopLevelTerm>,
    ars: Seq<TopLevelCommand>,
    f: nat,
    a1: Seq<NAnswer>,
    a2: Seq<NAnswer>,
)
    requires
        eval_bin(k, t1, t2, env, fs, ars, f, a1).1 == Seq::<NQuery>::empty(),
    ensures
        eval_bin(k, t1, t2, env, fs, ars, f, a1).2 == a1,
        eval_bin(k, t1, t2, env, fs, ars, f, a2) == (
            eval_bin(k, t1, t2, env, fs, ars, f, a1).0,
            Seq::<NQuery>::empty(),
            a2,
        ),
    decreases f, 2nat, 0nat,
{
    let r1 = eval_term(t1, env, fs, ars, f, a1);
    match r1.0 {
        FResult::Val(v1) => {
            if left_ok(k, v1) {
                let r2 = eval_term(t2, env, fs, ars, f, r1.2);
                match r2.0 {
                    FResult::Val(v2) => {
                        if right_ok(k, v2) {
                            let r3 = combine(k, v1, v2, r2.2);
                            lemma_concat_empty(r1.1 + r2.1, r3.1);
                            lemma_concat_empty(r1.1, r2.1);
                            lemma_term_asks_nothing(t1, env, fs, ars, f, a1, a2);
                            lemma_term_asks_nothing(t2, env, fs, ars, f, a1, a2);
                            lemma_combine_asks_nothing(k, v1, v2, a1, a2);
                            lemma_no_queries_left(Seq::<NQuery>::empty());
                        } else {
                            lemma_concat_empty(r1.1, r2.1);
                            lemma_term_asks_nothing(t1, env, fs, ars, f, a1, a2);
                            lemma_term_asks_nothing(t2, env, fs, ars, f, a1, a2);
                            lemma_no_queries_left(Seq::<NQuery>::empty());
                        }
                    },
                    _ => {
                        lemma_concat_empty(r1.1, r2.1);
                        lemma_term_asks_nothing(t1, env, fs, ars, f, a1, a2);
                        lemma_term_asks_nothing(t2, env, fs, ars, f, a1, a2);
                        lemma_no_queries_left(Seq::<NQuery>::empty());
                    },
                }
            } else {
                lemma_term_asks_nothing(t1, env, fs, ars, f, a1, a2);
            }
        },
        _ => {
            lemma_term_asks_nothing(t1, env, fs, ars, f, a1, a2);
        },
    }
}

/// An application that asks nothing does not depend on the answers.
pub proof fn lemma_app_asks_nothing(
    t1: FTerm,
    t2: FTerm,
    env: FEnv,
    fs: Seq<TopLevelTerm>,
    ars: Seq<TopLevelCommand>,
    f: nat,
    a1: Seq<NAnswer>,
    a2: Seq<NAnswer>,
)
    requires
        eval_app(t1, t2, env, fs, ars, f, a1).1 == Seq::<NQuery>::empty(),
    ensures
        eval_app(t1, t2, env, fs, ars, f, a1).2 == a1,
        eval_app(t1, t2, env, fs, ars, f, a2) == (eval_app(t1, t2, env, fs, ars, f, a1).0, Seq::<NQuery>::empty(), a2),
    decreases f, 2nat, 0nat,
{
    let r1 = eval_term(t1, env, fs, ars, f, a1);
    match r1.0 {
        FResult::Val(v1) => {
            if applicable(v1) {
                let r2 = eval_term(t2, env, fs, ars, f, r1.2);
                match r2.0 {
                    FResult::Val(v2) => {
                        match v1 {
                            FValue::ClosureFunc(env1, vp, body) => {
                                let b = bind_pattern(vp, v2);
                                if b.0 {
                                    let r3 = eval_term(body, env1 + b.1, fs, ars, f, r2.2);
                                    lemma_concat_empty(r1.1 + r2.1, r3.1);
                                    lemma_concat_empty(r1.1, r2.1);
                                    lemma_term_asks_nothing(t1, env, fs, ars, f, a1, a2);
                                    lemma_term_asks_nothing(t2, env, fs, ars, f, a1, a2);
                                    lemma_term_asks_nothing(body, env1 + b.1, fs, ars, f, a1, a2);
                                } else {
                                    lemma_concat_empty(r1.1, r2.1);
                                }
                            },
                            _ => {
                                let r3 = apply_builtin(v1, v2, r2.2);
                                lemma_concat_empty(r1.1 + r2.1, r3.1);
                                lemma_concat_empty(r1.1, r2.1);
                                lemma_term_asks_nothing(t1, env, fs, ars, f, a1, a2);
                                lemma_term_asks_nothing(t2, env, fs, ars, f, a1, a2);
                                lemma_builtin_asks_nothing(v1, v2, a1, a2);
                            },
                        }
                    },
                    _ => {
                        lemma_concat_empty(r1.1, r2.1);
                    },
                }
                lemma_term_asks_nothing(t1, env, fs, ars, f, a1, a2);
                lemma_term_asks_nothing(t2, env, fs, ars, f, a1, a2);
                lemma_no_queries_left(Seq::<NQuery>::empty());
            } else {
                lemma_term_asks_nothing(t1, env, fs, ars, f, a1, a2);
            }
        },
        _ => {
            lemma_term_asks_nothing(t1, env, fs, ars, f, a1, a2);
        },
    }
}

/// `$>` that asks nothing does not depend on the answers.
pub proof fn lemma_entrywise_asks_nothing(
    t1: FTerm,
    t2: FTerm,
    env: FEnv,
    fs: Seq<TopLevelTerm>,
    ars: Seq<TopLevelCommand>,
    f: nat,
    a1: Seq<NAnswer>,
    a2: Seq<NAnswer>,
)
    requires
        eval_entrywise(t1, t2, env, fs, ars, f, a1).1 == Seq::<NQuery>::empty(),
    ensures
        eval_entrywise(t1, t2, env, fs, ars, f, a1).2 == a1,
        eval_entrywise(t1, t2, env, fs, ars, f, a2) == (
            eval_entrywise(t1, t2, env, fs, ars, f, a1).0,
            Seq::<NQuery>::empty(),
            a2,
        ),
    decreases f, 2nat, 0nat,
{
    let r1 = eval_term(t1, env, fs, ars, f, a1);
    lemma_no_queries_left(Seq::<NQuery>::empty());
    match r1.0 {
        FResult::Val(FValue::ClosureFunc(env1, vp, body)) => {
            let r2 = eval_term(t2, env, fs, ars, f, r1.2);
            match r2.0 {
                FResult::Val(FValue::Vect(v)) => {
                    let r3 = apply_each(body, env1, entry_name(vp), v, v.len(), fs, ars, f, r2.2);
                    lemma_concat_empty(r1.1 + r2.1, r3.1);
                    lemma_concat_empty(r1.1, r2.1);
                    lemma_term_asks_nothing(t1, env, fs, ars, f, a1, a2);
                    lemma_term_asks_nothing(t2, env, fs, ars, f, a1, a2);
                    lemma_apply_each_asks_nothing(body, env1, entry_name(vp), v, v.len(), fs, ars, f, a1, a2);
                },
                _ => {
                    lemma_concat_empty(r1.1, r2.1);
                    lemma_term_asks_nothing(t1, env, fs, ars, f, a1, a2);
                    lemma_term_asks_nothing(t2, env, fs, ars, f, a1, a2);
                },
            }
        },
        _ => {
            lemma_term_asks_nothing(t1, env, fs, ars, f, a1, a2);
        },
    }
}

/// The entries of `$>`, when they ask nothing, do not depend on the answers.
pub proof fn lemma_apply_each_asks_nothing(
    body: FTerm,
    env1: FEnv,
    x: Seq<char>,
    v: Seq<u32>,
    n: nat,
    fs: Seq<TopLevelTerm>,
    ars: Seq<TopLevelCommand>,
    f: nat,
    a1: Seq<NAnswer>,
    a2: Seq<NAnswer>,
)
    requires
        apply_each(body, env1, x, v, n, fs, ars, f, a1).1 == Seq::<NQuery>::empty(),
    ensures
        apply_each(body, env1, x, v, n, fs, ars, f, a1).2 == a1,
        apply_each(body, env1, x, v, n, fs, ars, f, a2) == (
            apply_each(body, env1, x, v, n, fs, ars, f, a1).0,
            Seq::<NQuery>::empty(),
            a2,
        ),
    decreases f, 1nat, n,
{
    if n > 0 {
        let p = apply_each(body, env1, x, v, (n - 1) as nat, fs, ars, f, a1);
        let e = env1.push((x, FValue::NumFloat(v[n - 1])));
        match p.0 {
            Ok(acc) => {
                let r = eval_term(body, e, fs, ars, f, p.2);
                lemma_concat_empty(p.1, r.1);
                lemma_apply_each_asks_nothing(body, env1, x, v, (n - 1) as nat, fs, ars, f, a1, a2);
                lemma_term_asks_nothing(body, e, fs, ars, f, a1, a2);
                lemma_no_queries_left(Seq::<NQuery>::empty());
            },
            Err(_) => {
                lemma_apply_each_asks_nothing(body, env1, x, v, (n - 1) as nat, fs, ars, f, a1, a2);
            },
        }
    }
}

/// Resuming that asks nothing does not depend on the answers.
pub proof fn lemma_resume_asks_nothing(
    printed: Seq<FPrinted>,
    asked: Seq<NQuery>,
    v: FValue,
    command: FCommand,
    env: FEnv,
    fs: Seq<TopLevelTerm>,
    ars: Seq<TopLevelCommand>,
    f: nat,
    a1: Seq<NAnswer>,
    a2: Seq<NAnswer>,
)
    requires
        resume_with(printed, asked, v, command, env, fs, ars, f, a1).2 == Seq::<NQuery>::empty(),
    ensures
        resume_with(printed, asked, v, command, env, fs, ars, f, a1).3 == a1,
        resume_with(printed, asked, v, command, env, fs, ars, f, a2) == (
            resume_with(printed, asked, v, command, env, fs, ars, f, a1).0,
            resume_with(printed, asked, v, command, env, fs, ars, f, a1).1,
            Seq::<NQuery>::empty(),
            a2,
        ),
    decreases f, 1nat,
{
    let o = eval_command(command, env, Seq::empty(), Some(v), fs, ars, Seq::empty(), f, a1);
    lemma_concat_empty(asked, o.2);
    lemma_command_asks_nothing(command, env, Seq::empty(), Some(v), fs, ars, Seq::empty(), f, a1, a2);
    lemma_no_queries_left(Seq::<NQuery>::empty());
}

/// Handing a result on, when it asks nothing, does not depend on the answers.
pub proof fn lemma_continue_asks_nothing(
    val: FValue,
    env: FEnv,
    env_com: FEnv,
    resume: Option<FValue>,
    fs: Seq<TopLevelTerm>,
    ars: Seq<TopLevelCommand>,
    stack: Seq<FCont>,
    f: nat,
    a1: Seq<NAnswer>,
    a2: Seq<NAnswer>,
)
    requires
        continue_with(val, env, env_com, resume, fs, ars, stack, f, a1).2 == Seq::<NQuery>::empty(),
    ensures
        continue_with(val, env, env_com, resume, fs, ars, stack, f, a1).3 == a1,
        continue_with(val, env, env_com, resume, fs, ars, stack, f, a2) == (
            continue_with(val, env, env_com, resume, fs, ars, stack, f, a1).0,
            continue_with(val, env, env_com, resume, fs, ars, stack, f, a1).1,
            Seq::<NQuery>::empty(),
            a2,
        ),
    decreases f, 1nat,
{
    if stack.len() > 0 {
        lemma_command_asks_nothing(
            fill(stack.last(), FCommand::Return(FVtr::V(Box::new(val)))),
            env,
            env_com,
            resume,
            fs,
            ars,
            stack.drop_last(),
            f,
            a1,
            a2,
        );
    }
}

/// A command whose run asks no question does not depend on the provider's
/// answers: it leaves the answers untouched, and with any other answers it
/// gives the same result and prints the same.
pub proof fn lemma_command_asks_nothing(
    c: FCommand,
    env: FEnv,
    env_com: FEnv,
    resume: Option<FValue>,
    fs: Seq<TopLevelTerm>,
    ars: Seq<TopLevelCommand>,
    stack: Seq<FCont>,
    n: nat,
    a1: Seq<NAnswer>,
    a2: Seq<NAnswer>,
)
    requires
        eval_command(c, env, env_com, resume, fs, ars, stack, n, a1).2 == Seq::<NQuery>::empty(),
    ensures
        eval_command(c, env, env_com, resume, fs, ars, stack, n, a1).3 == a1,
        eval_command(c, env, env_com, resume, fs, ars, stack, n, a2) == (
            eval_command(c, env, env_com, resume, fs, ars, stack, n, a1).0,
            eval_command(c, env, env_com, resume, fs, ars, stack, n, a1).1,
            Seq::<NQuery>::empty(),
            a2,
        ),
    decreases n, 0nat,
{
    lemma_no_queries_left(Seq::<NQuery>::empty());
    if n > 0 {
        let f = (n - 1) as nat;
        match c {
            FCommand::Return(FVtr::Resume) => {
                if let Some(val) = resume {
                    lemma_continue_asks_nothing(val, env, env_com, None, fs, ars, stack, f, a1, a2);
                }
            },
            FCommand::Return(FVtr::T(t)) => {
                let r = eval_term(*t, env + env_com, fs, ars, f, a1);
                match r.0 {
                    FResult::Val(val) => {
                        let o = continue_with(val, env, env_com, resume, fs, ars, stack, f, r.2);
                        lemma_concat_empty(r.1, o.2);
                        lemma_term_asks_nothing(*t, env + env_com, fs, ars, f, a1, a2);
                        lemma_continue_asks_nothing(val, env, env_com, resume, fs, ars, stack, f, a1, a2);
                    },
                    _ => {
                        lemma_term_asks_nothing(*t, env + env_com, fs, ars, f, a1, a2);
                    },
                }
            },
            FCommand::Let(b, c1, c2, envs) => {
                let e = match envs {
                    Some((e1, _)) => e1,
                    None => env,
                };
                let ec = match envs {
                    Some((_, e2)) => e2,
                    None => env_com,
                };
                match *c1 {
                    FCommand::Return(FVtr::V(val1)) => {
                        let bp = bind_pattern(b.var, *val1);
                        if bp.0 {
                            lemma_command_asks_nothing(*c2, e, ec + bp.1, resume, fs, ars, stack, f, a1, a2);
                        }
                    },
                    _ => {
                        lemma_command_asks_nothing(
                            *c1,
                            e,
                            ec,
                            resume,
                            fs,
                            ars,
                            stack.push(FCont::Let(b, *c2, e, ec)),
                            f,
                            a1,
                            a2,
                        );
                    },
                }
            },
            FCommand::CApp(t1, t2) => {
                let r1 = eval_term(*t1, env, fs, ars, f, a1);
                match r1.0 {
                    FResult::Val(FValue::ClosureArr(env1, vp, body)) => {
                        let r2 = eval_term(*t2, env + env_com, fs, ars, f, r1.2);
                        match r2.0 {
                            FResult::Val(v2) => {
                                let bp = bind_pattern(vp, v2);
                                if bp.0 {
                                    let o = eval_command(body, env1, bp.1, resume, fs, ars, stack, f, r2.2);
                                    lemma_concat_empty(r1.1 + r2.1, o.2);
                                    lemma_concat_empty(r1.1, r2.1);
                                    lemma_term_asks_nothing(*t1, env, fs, ars, f, a1, a2);
                                    lemma_term_asks_nothing(*t2, env + env_com, fs, ars, f, a1, a2);
                                    lemma_command_asks_nothing(body, env1, bp.1, resume, fs, ars, stack, f, a1, a2);
                                } else {
                                    lemma_concat_empty(r1.1, r2.1);
                                    lemma_term_asks_nothing(*t1, env, fs, ars, f, a1, a2);
                                    lemma_term_asks_nothing(*t2, env + env_com, fs, ars, f, a1, a2);
                                }
                            },
                            _ => {
                                lemma_concat_empty(r1.1, r2.1);
                                lemma_term_asks_nothing(*t1, env, fs, ars, f, a1, a2);
                                lemma_term_asks_nothing(*t2, env + env_com, fs, ars, f, a1, a2);
                            },
                        }
                    },
                    FResult::Val(FValue::ClosureContArr(env1, body)) => {
                        let r2 = eval_term(*t2, env + env_com, fs, ars, f, r1.2);
                        match r2.0 {
                            FResult::Val(v2) => {
                                let o = eval_command(body, env1, Seq::empty(), Some(v2), fs, ars, stack, f, r2.2);
                                lemma_concat_empty(r1.1 + r2.1, o.2);
                                lemma_concat_empty(r1.1, r2.1);
                                lemma_term_asks_nothing(*t1, env, fs, ars, f, a1, a2);
                                lemma_term_asks_nothing(*t2, env + env_com, fs, ars, f, a1, a2);
                                lemma_command_asks_nothing(body, env1, Seq::empty(), Some(v2), fs, ars, stack, f, a1, a2);
                            },
                            _ => {
                                lemma_concat_empty(r1.1, r2.1);
                                lemma_term_asks_nothing(*t1, env, fs, ars, f, a1, a2);
                                lemma_term_asks_nothing(*t2, env + env_com, fs, ars, f, a1, a2);
                            },
                        }
                    },
                    _ => {
                        lemma_term_asks_nothing(*t1, env, fs, ars, f, a1, a2);
                    },
                }
            },
            FCommand::DoOp(op, t) => {
                let r = eval_term(*t, env + env_com, fs, ars, f, a1);
                match r.0 {
                    FResult::Val(val) => {
                        let o = unwind(op, val, FCommand::Return(FVtr::Resume), stack, env, resume, fs, ars, f, r.2);
                        lemma_concat_empty(r.1, o.2);
                        lemma_term_asks_nothing(*t, env + env_com, fs, ars, f, a1, a2);
                        lemma_unwind_asks_nothing(op, val, FCommand::Return(FVtr::Resume), stack, env, resume, fs, ars, f, a1, a2);
                    },
                    _ => {
                        lemma_term_asks_nothing(*t, env + env_com, fs, ars, f, a1, a2);
                    },
                }
            },
            FCommand::Handle(c1, h, _) => match *c1 {
                FCommand::Return(FVtr::V(val1)) => match h {
                    FHandler::H(b, c_ret, _) => {
                        let bp = bind_pattern(b.var, *val1);
                        if bp.0 {
                            lemma_command_asks_nothing(*c_ret, env, bp.1, resume, fs, ars, stack, f, a1, a2);
                        }
                    },
                },
                _ => {
                    lemma_command_asks_nothing(*c1, env, env_com, resume, fs, ars, stack.push(FCont::Handle(h, env)), f, a1, a2);
                },
            },
            _ => {},
        }
    }
}

/// Looking for a handler, when it asks nothing, does not depend on the answers.
pub proof fn lemma_unwind_asks_nothing(
    op: Seq<char>,
    val: FValue,
    command: FCommand,
    stack: Seq<FCont>,
    env: FEnv,
    resume: Option<FValue>,
    fs: Seq<TopLevelTerm>,
    ars: Seq<TopLevelCommand>,
    f: nat,
    a1: Seq<NAnswer>,
    a2: Seq<NAnswer>,
)
    requires
        unwind(op, val, command, stack, env, resume, fs, ars, f, a1).2 == Seq::<NQuery>::empty(),
    ensures
        unwind(op, val, command, stack, env, resume, fs, ars, f, a1).3 == a1,
        unwind(op, val, command, stack, env, resume, fs, ars, f, a2) == (
            unwind(op, val, command, stack, env, resume, fs, ars, f, a1).0,
            unwind(op, val, command, stack, env, resume, fs, ars, f, a1).1,
            Seq::<NQuery>::empty(),
            a2,
        ),
    decreases f, stack.len() + 3,
{
    if stack.len() == 0 {
        lemma_outermost_asks_nothing(op, val, command, env, fs, ars, f, a1, a2);
    } else {
        let k = stack.last();
        let rest = stack.drop_last();
        let cmd = fill(k, command);
        match k {
            FCont::Handle(FHandler::H(_, _, clauses), henv) => match find_clause_from(op, clauses, 0) {
                Some(cl) => {
                    let kb = bind_pattern(cl.k.var, FValue::ClosureContArr(henv, cmd));
                    let zb = bind_pattern(cl.z.var, val);
                    if kb.0 && zb.0 {
                        lemma_command_asks_nothing(cl.body, henv + kb.1, zb.1, resume, fs, ars, rest, f, a1, a2);
                    }
                },
                None => {
                    lemma_unwind_asks_nothing(op, val, cmd, rest, env, resume, fs, ars, f, a1, a2);
                },
            },
            _ => {
                lemma_unwind_asks_nothing(op, val, cmd, rest, env, resume, fs, ars, f, a1, a2);
            },
        }
    }
}

/// The outermost handler, when it asks nothing, does not depend on the
/// answers: it prints or fails, but draws nothing.
pub proof fn lemma_outermost_asks_nothing(
    op: Seq<char>,
    val: FValue,
    command: FCommand,
    env: FEnv,
    fs: Seq<TopLevelTerm>,
    ars: Seq<TopLevelCommand>,
    f: nat,
    a1: Seq<NAnswer>,
    a2: Seq<NAnswer>,
)
    requires
        outermost(op, val, command, env, fs, ars, f, a1).2 == Seq::<NQuery>::empty(),
    ensures
        outermost(op, val, command, env, fs, ars, f, a1).3 == a1,
        outermost(op, val, command, env, fs, ars, f, a2) == (
            outermost(op, val, command, env, fs, ars, f, a1).0,
            outermost(op, val, command, env, fs, ars, f, a1).1,
            Seq::<NQuery>::empty(),
            a2,
        ),
    decreases f, 2nat,
{
    let no_q = Seq::<NQuery>::empty();
    if op == "PrintInt"@ {
        if let FValue::NumInt(i) = val {
            lemma_resume_asks_nothing(seq![FPrinted::Int(i)], no_q, FValue::Unt, command, env, fs, ars, f, a1, a2);
        }
    } else if op == "PrintFloat"@ {
        if let FValue::NumFloat(x) = val {
            lemma_resume_asks_nothing(seq![FPrinted::Float(x)], no_q, FValue::Unt, command, env, fs, ars, f, a1, a2);
        }
    } else if op == "PrintVec"@ {
        if let FValue::Vect(v) = val {
            lemma_resume_asks_nothing(seq![FPrinted::Vect(v)], no_q, FValue::Unt, command, env, fs, ars, f, a1, a2);
        }
    } else if op == "PrintMat"@ {
        if let FValue::Mat(m) = val {
            lemma_resume_asks_nothing(seq![FPrinted::Mat(m)], no_q, FValue::Unt, command, env, fs, ars, f, a1, a2);
        }
    } else if op == "SampleNormal"@ || op == "MatInitNormal"@ || op == "VecInitNormal"@ {
        let o = outermost(op, val, command, env, fs, ars, f, a1);
        if o.2.len() > 0 {
            assert(false);
        }
    }
}

/// A whole program whose run asks no question does not depend on the
/// provider's answers: with any answers it gives the same result and prints
/// the same.
pub proof fn lemma_program_asks_nothing(
    fs: Seq<TopLevelTerm>,
    ars: Seq<TopLevelCommand>,
    i: int,
    fuel: nat,
    a1: Seq<NAnswer>,
    a2: Seq<NAnswer>,
)
    requires
        run_main_from(fs, ars, i, fuel, a1).2 == Seq::<NQuery>::empty(),
    ensures
        run_main_from(fs, ars, i, fuel, a1).3 == a1,
        run_main_from(fs, ars, i, fuel, a2) == (
            run_main_from(fs, ars, i, fuel, a1).0,
            run_main_from(fs, ars, i, fuel, a1).1,
            Seq::<NQuery>::empty(),
            a2,
        ),
    decreases ars.len() - i,
{
    if 0 <= i < ars.len() {
        if ars[i].0.name() == "main"@ {
            let bx = bind_pattern(var_prod_model(ars[i].1.var()), FValue::Unt);
            let bz = bind_pattern(var_prod_model(ars[i].2.var()), FValue::Unt);
            if bx.0 && bz.0 {
                lemma_command_asks_nothing(
                    command_model(ars[i].4),
                    bx.1 + bz.1,
                    Seq::empty(),
                    None,
                    fs,
                    ars,
                    Seq::empty(),
                    fuel,
                    a1,
                    a2,
                );
            }
        } else {
            lemma_program_asks_nothing(fs, ars, i + 1, fuel, a1, a2);
        }
    }
}


/// The operand a term evaluates first: the left operand of an operator, of
/// an application or of an entrywise application, the argument of a
/// projection or of `head` and `tail`, and the condition of `if`.
pub open spec fn first_operand(t: FTerm) -> Option<FTerm> {
    match t {
        FTerm::Pair(a, _) => Some(*a),
        FTerm::Cons(a, _) => Some(*a),
        FTerm::Plus(a, _) => Some(*a),
        FTerm::Times(a, _) => Some(*a),
        FTerm::PlusF(a, _) => Some(*a),
        FTerm::TimesF(a, _) => Some(*a),
        FTerm::DivF(a, _) => Some(*a),
        FTerm::MatVectMul(a, _) => Some(*a),
        FTerm::EqInt(a, _) => Some(*a),
        FTerm::LTFloat(a, _) => Some(*a),
        FTerm::GTFloat(a, _) => Some(*a),
        FTerm::ProdVecVec(a, _) => Some(*a),
        FTerm::ApplicationVectEntrywise(a, _) => Some(*a),
        FTerm::VectEntrywisePlus(a, _) => Some(*a),
        FTerm::VectEntrywiseMinus(a, _) => Some(*a),
        FTerm::VectEntrywiseTimes(a, _) => Some(*a),
        FTerm::ScalarVect(a, _) => Some(*a),
        FTerm::MatEntrywisePlus(a, _) => Some(*a),
        FTerm::MatEntrywiseMinus(a, _) => Some(*a),
        FTerm::ScalarMat(a, _) => Some(*a),
        FTerm::App(a, _) => Some(*a),
        FTerm::Fst(a) => Some(*a),
        FTerm::Snd(a) => Some(*a),
        FTerm::Head(a) => Some(*a),
        FTerm::Tail(a) => Some(*a),
        FTerm::If(c, _, _) => Some(*c),
        _ => None,
    }
}

/// An error in the operand evaluated first is the error of the whole term:
/// the term fails with the same message, having asked the same questions
/// and left the same answers.
pub proof fn lemma_first_operand_error(
    t: FTerm,
    env: FEnv,
    fs: Seq<TopLevelTerm>,
    ars: Seq<TopLevelCommand>,
    fuel: nat,
    ans: Seq<NAnswer>,
)
    requires
        first_operand(t) is Some,
        eval_term(first_operand(t)->0, env, fs, ars, fuel, ans).0 is Wrong,
    ensures
        eval_term(t, env, fs, ars, fuel + 1, ans) == eval_term(first_operand(t)->0, env, fs, ars, fuel, ans),
{
    match t {
        FTerm::Pair(a, b) => {
            assert(eval_bin(BinKind::Pair, *a, *b, env, fs, ars, fuel, ans) == eval_term(*a, env, fs, ars, fuel, ans));
        },
        FTerm::Cons(a, b) => {
            assert(eval_bin(BinKind::Cons, *a, *b, env, fs, ars, fuel, ans) == eval_term(*a, env, fs, ars, fuel, ans));
        },
        FTerm::Plus(a, b) => {
            assert(eval_bin(BinKind::Plus, *a, *b, env, fs, ars, fuel, ans) == eval_term(*a, env, fs, ars, fuel, ans));
        },
        FTerm::Times(a, b) => {
            assert(eval_bin(BinKind::Times, *a, *b, env, fs, ars, fuel, ans) == eval_term(*a, env, fs, ars, fuel, ans));
        },
        FTerm::PlusF(a, b) => {
            assert(eval_bin(BinKind::PlusF, *a, *b, env, fs, ars, fuel, ans) == eval_term(*a, env, fs, ars, fuel, ans));
        },
        FTerm::TimesF(a, b) => {
            assert(eval_bin(BinKind::TimesF, *a, *b, env, fs, ars, fuel, ans) == eval_term(*a, env, fs, ars, fuel, ans));
        },
        FTerm::DivF(a, b) => {
            assert(eval_bin(BinKind::DivF, *a, *b, env, fs, ars, fuel, ans) == eval_term(*a, env, fs, ars, fuel, ans));
        },
        FTerm::MatVectMul(a, b) => {
            assert(eval_bin(BinKind::MatVectMul, *a, *b, env, fs, ars, fuel, ans) == eval_term(*a, env, fs, ars, fuel, ans));
        },
        FTerm::EqInt(a, b) => {
            assert(eval_bin(BinKind::EqInt, *a, *b, env, fs, ars, fuel, ans) == eval_term(*a, env, fs, ars, fuel, ans));
        },
        FTerm::LTFloat(a, b) => {
            assert(eval_bin(BinKind::LTFloat, *a, *b, env, fs, ars, fuel, ans) == eval_term(*a, env, fs, ars, fuel, ans));
        },
        FTerm::GTFloat(a, b) => {
            assert(eval_bin(BinKind::GTFloat, *a, *b, env, fs, ars, fuel, ans) == eval_term(*a, env, fs, ars, fuel, ans));
        },
        FTerm::ProdVecVec(a, b) => {
            assert(eval_bin(BinKind::ProdVecVec, *a, *b, env, fs, ars, fuel, ans) == eval_term(*a, env, fs, ars, fuel, ans));
        },
        FTerm::VectEntrywisePlus(a, b) => {
            assert(eval_bin(BinKind::VectPlus, *a, *b, env, fs, ars, fuel, ans) == eval_term(*a, env, fs, ars, fuel, ans));
        },
        FTerm::VectEntrywiseMinus(a, b) => {
            assert(eval_bin(BinKind::VectMinus, *a, *b, env, fs, ars, fuel, ans) == eval_term(*a, env, fs, ars, fuel, ans));
        },
        FTerm::VectEntrywiseTimes(a, b) => {
            assert(eval_bin(BinKind::VectTimes, *a, *b, env, fs, ars, fuel, ans) == eval_term(*a, env, fs, ars, fuel, ans));
        },
        FTerm::ScalarVect(a, b) => {
            assert(eval_bin(BinKind::ScalarVect, *a, *b, env, fs, ars, fuel, ans) == eval_term(*a, env, fs, ars, fuel, ans));
        },
        FTerm::MatEntrywisePlus(a, b) => {
            assert(eval_bin(BinKind::MatPlus, *a, *b, env, fs, ars, fuel, ans) == eval_term(*a, env, fs, ars, fuel, ans));
        },
        FTerm::MatEntrywiseMinus(a, b) => {
            assert(eval_bin(BinKind::MatMinus, *a, *b, env, fs, ars, fuel, ans) == eval_term(*a, env, fs, ars, fuel, ans));
        },
        FTerm::ScalarMat(a, b) => {
            assert(eval_bin(BinKind::ScalarMat, *a, *b, env, fs, ars, fuel, ans) == eval_term(*a, env, fs, ars, fuel, ans));
        },
        FTerm::App(a, b) => {
            assert(eval_app(*a, *b, env, fs, ars, fuel, ans) == eval_term(*a, env, fs, ars, fuel, ans));
        },
        FTerm::ApplicationVectEntrywise(a, b) => {
            assert(eval_entrywise(*a, *b, env, fs, ars, fuel, ans) == eval_term(*a, env, fs, ars, fuel, ans));
        },
        _ => {},
    }
}


/// What printing `val` gives, when `val` has the kind the printing
/// operation `op` takes.
pub open spec fn print_item(op: Seq<char>, val: FValue) -> Option<FPrinted> {
    if op == "PrintInt"@ {
        match val {
            FValue::NumInt(n) => Some(FPrinted::Int(n)),
            _ => None,
        }
    } else if op == "PrintFloat"@ {
        match val {
            FValue::NumFloat(x) => Some(FPrinted::Float(x)),
            _ => None,
        }
    } else if op == "PrintVec"@ {
        match val {
            FValue::Vect(v) => Some(FPrinted::Vect(v)),
            _ => None,
        }
    } else if op == "PrintMat"@ {
        match val {
            FValue::Mat(m) => Some(FPrinted::Mat(m)),
            _ => None,
        }
    } else {
        None
    }
}

/// The printing built-ins are implemented by the outermost handler: an
/// unhandled `PrintInt`, `PrintFloat`, `PrintVec` or `PrintMat` of a value
/// of its kind prints that value, resumes with the unit value, and asks the
/// numerics provider nothing.
pub proof fn lemma_print_builtin(
    op: Seq<char>,
    val: FValue,
    env: FEnv,
    fs: Seq<TopLevelTerm>,
    ars: Seq<TopLevelCommand>,
    f: nat,
    ans: Seq<NAnswer>,
)
    requires
        print_item(op, val) is Some,
        f > 0,
    ensures
        outermost(op, val, FCommand::Return(FVtr::Resume), env, fs, ars, f, ans) == (
            FResult::Val(FValue::Unt),
            seq![print_item(op, val)->0],
            Seq::<NQuery>::empty(),
            ans,
        ),
{
    let o = eval_command(FCommand::Return(FVtr::Resume), env, Seq::empty(), Some(FValue::Unt), fs, ars, Seq::empty(), f, ans);
    assert(continue_with(FValue::Unt, env, Seq::empty(), None, fs, ars, Seq::empty(), (f - 1) as nat, ans) == (
        FResult::Val(FValue::Unt),
        Seq::<FPrinted>::empty(),
        Seq::<NQuery>::empty(),
        ans,
    ));
    assert(o == (FResult::Val(FValue::Unt), Seq::<FPrinted>::empty(), Seq::<NQuery>::empty(), ans));
    assert(seq![print_item(op, val)->0] + Seq::<FPrinted>::empty() =~= seq![print_item(op, val)->0]);
    assert(Seq::<NQuery>::empty() + Seq::<NQuery>::empty() =~= Seq::<NQuery>::empty());
}

/// The program runs the first arrow named `main`, whatever comes after it.
proof fn lemma_run_main_skip(fs: Seq<TopLevelTerm>, ars: Seq<TopLevelCommand>, k: int, i: int, fuel: nat, ans: Seq<NAnswer>)
    requires
        0 <= k <= i < ars.len(),
        forall|j: int| 0 <= j < i ==> #[trigger] ars[j].0.name() != "main"@,
    ensures
        run_main_from(fs, ars, k, fuel, ans) == run_main_from(fs, ars, i, fuel, ans),
    decreases i - k,
{
    if k < i {
        lemma_run_main_skip(fs, ars, k + 1, i, fuel, ans);
    }
}

/// Running a program is running the body of its first arrow named `main`
/// with its argument and its command argument bound to the unit value.
pub proof fn lemma_execute_runs_main(fs: Seq<TopLevelTerm>, ars: Seq<TopLevelCommand>, i: int, fuel: nat, ans: Seq<NAnswer>)
    requires
        0 <= i < ars.len(),
        ars[i].0.name() == "main"@,
        forall|j: int| 0 <= j < i ==> #[trigger] ars[j].0.name() != "main"@,
        bind_pattern(var_prod_model(ars[i].1.var()), FValue::Unt).0,
        bind_pattern(var_prod_model(ars[i].2.var()), FValue::Unt).0,
    ensures
        run_main_from(fs, ars, 0, fuel, ans) == eval_command(
            command_model(ars[i].4),
            bind_pattern(var_prod_model(ars[i].1.var()), FValue::Unt).1 + bind_pattern(
                var_prod_model(ars[i].2.var()),
                FValue::Unt,
            ).1,
            Seq::empty(),
            None,
            fs,
            ars,
            Seq::empty(),
            fuel,
            ans,
        ),
{
    lemma_run_main_skip(fs, ars, 0, i, fuel, ans);
}


// ---------------------------------------------------------------------
// What the operators compute
// ---------------------------------------------------------------------

proof fn lemma_index_bounds(i: int, j: int, c: int, rows: int)
    by (nonlinear_arith)
    requires
        0 <= i < rows,
        0 <= j < c,
    ensures
        0 <= i * c + j < rows * c,
        i < rows - 1 ==> i * c + j < (rows - 1) * c,
        i == rows - 1 ==> i * c + j == (rows - 1) * c + j,
        (rows - 1) * c + c == rows * c,
        0 <= (rows - 1) * c,
{
}

proof fn lemma_rows_mul(rows: int, c: int)
    by (nonlinear_arith)
    requires
        rows > 0,
        c >= 0,
    ensures
        (rows - 1) * c + c == rows * c,
        0 <= (rows - 1) * c <= rows * c,
{
}

/// A grid whose first `rows` rows all have `c` entries, run on at least
/// `rows * c` answers: entry `(i, j)` is the answer at `i * c + j`, which
/// answers the question for entry `(i, j)`; the grid reads exactly
/// `rows * c` answers.
pub proof fn lemma_grid_entries(g: Grid, rows: nat, c: nat, ans: Seq<NAnswer>)
    requires
        forall|i: int| 0 <= i < rows ==> #[trigger] grid_cols(g, i) == c,
        ans.len() >= rows * c,
    ensures
        ({
            let r = grid_run(g, rows, ans);
            &&& r.0.len() == rows
            &&& r.1.len() == rows * c
            &&& r.2 == ans.skip((rows * c) as int)
            &&& forall|i: int| 0 <= i < rows ==> (#[trigger] r.0[i]).len() == c
            &&& forall|i: int, j: int|
                #![trigger r.0[i][j]]
                0 <= i < rows && 0 <= j < c ==> r.0[i][j] == float_of(ans[i * c + j]) && r.1[i * c + j]
                    == grid_query(g, i, j)
        }),
    decreases rows,
{
    if rows == 0 {
        assert(rows * c == 0) by (nonlinear_arith)
            requires
                rows == 0,
        ;
        assert(ans.skip(0) =~= ans);
    } else {
        lemma_rows_mul(rows as int, c as int);
        lemma_grid_entries(g, (rows - 1) as nat, c, ans);
        let p = grid_run(g, (rows - 1) as nat, ans);
        let row = row_run(g, rows - 1, p.2);
        let r = grid_run(g, rows, ans);
        let off = (rows - 1) * c;
        assert(grid_cols(g, rows - 1) == c);
        assert(p.2.skip(c as int) =~= ans.skip((rows * c) as int));
        assert(r.0 == p.0.push(row.0));
        assert(r.1 == p.1 + row.1);
        assert(r.2 == row.2);
        assert(row.1.len() == c);
        assert(r.1.len() == rows * c);
        assert forall|i: int| 0 <= i < rows implies (#[trigger] r.0[i]).len() == c by {
            if i < rows - 1 {
                assert(r.0[i] == p.0[i]);
            }
        }
        assert forall|i: int, j: int|
            #![trigger r.0[i][j]]
            0 <= i < rows && 0 <= j < c implies r.0[i][j] == float_of(ans[i * c + j]) && r.1[i * c + j]
                == grid_query(g, i, j) by {
            lemma_index_bounds(i, j, c as int, rows as int);
            if i < rows - 1 {
                assert(r.0[i] == p.0[i]);
                assert(p.0[i][j] == float_of(ans[i * c + j]));
            } else {
                assert(r.0[i] == row.0);
                assert(p.2[j] == ans[off + j]);
            }
        }
    }
}


/// Integer operators on the values of their operands, evaluated left then
/// right: `+` is the sum and `*` the product, wrapping around on overflow
/// (and exact when the exact result fits), and `==` is `true` exactly when
/// the two integers are equal.  They ask the provider nothing more.
pub proof fn lemma_int_operators(
    a: FTerm, b: FTerm, n1: i32, n2: i32, q1: Seq<NQuery>, rest1: Seq<NAnswer>, q2: Seq<NQuery>, rest2: Seq<NAnswer>,
    env: FEnv, fs: Seq<TopLevelTerm>, ars: Seq<TopLevelCommand>, f: nat, ans: Seq<NAnswer>,
)
    requires
        eval_term(a, env, fs, ars, f, ans) == (FResult::Val(FValue::NumInt(n1)), q1, rest1),
        eval_term(b, env, fs, ars, f, rest1) == (FResult::Val(FValue::NumInt(n2)), q2, rest2),
    ensures
        eval_term(FTerm::Plus(Box::new(a), Box::new(b)), env, fs, ars, f + 1, ans) == (FResult::Val(FValue::NumInt(n1.wrapping_add(n2))), q1 + q2, rest2),
        eval_term(FTerm::Times(Box::new(a), Box::new(b)), env, fs, ars, f + 1, ans) == (FResult::Val(FValue::NumInt(n1.wrapping_mul(n2))), q1 + q2, rest2),
        eval_term(FTerm::EqInt(Box::new(a), Box::new(b)), env, fs, ars, f + 1, ans) == (FResult::Val(FValue::Bool(n1 == n2)), q1 + q2, rest2),
        eval_term(FTerm::EqInt(Box::new(a), Box::new(b)), env, fs, ars, f + 1, ans).0 == FResult::Val(FValue::Bool(true)) <==> n1 == n2,
        i32::MIN <= n1 + n2 <= i32::MAX ==> eval_term(FTerm::Plus(Box::new(a), Box::new(b)), env, fs, ars, f + 1, ans).0 == FResult::Val(
            FValue::NumInt((n1 + n2) as i32),
        ),
        i32::MIN <= n1 * n2 <= i32::MAX ==> eval_term(FTerm::Times(Box::new(a), Box::new(b)), env, fs, ars, f + 1, ans).0 == FResult::Val(
            FValue::NumInt((n1 * n2) as i32),
        ),
{
    assert(q1 + q2 + Seq::<NQuery>::empty() =~= q1 + q2);
    assert(eval_bin(BinKind::Plus, a, b, env, fs, ars, f, ans).0 == FResult::Val(FValue::NumInt(n1.wrapping_add(n2))));
    assert(eval_bin(BinKind::Times, a, b, env, fs, ars, f, ans).0 == FResult::Val(FValue::NumInt(n1.wrapping_mul(n2))));
    assert(eval_bin(BinKind::EqInt, a, b, env, fs, ars, f, ans).0 == FResult::Val(FValue::Bool(n1 == n2)));
}

/// Float operators on the values of their operands: each asks the
/// provider one question about the two floats, in operand order (`+.` an
/// addition, `*.` a multiplication, `/.` a division, `<.` and `>.` the
/// comparisons), after the operands' own questions, and gives its answer.
pub proof fn lemma_float_operators(
    a: FTerm, b: FTerm, x1: u32, x2: u32, q1: Seq<NQuery>, rest1: Seq<NAnswer>, q2: Seq<NQuery>, rest2: Seq<NAnswer>,
    env: FEnv, fs: Seq<TopLevelTerm>, ars: Seq<TopLevelCommand>, f: nat, ans: Seq<NAnswer>,
)
    requires
        eval_term(a, env, fs, ars, f, ans) == (FResult::Val(FValue::NumFloat(x1)), q1, rest1),
        eval_term(b, env, fs, ars, f, rest1) == (FResult::Val(FValue::NumFloat(x2)), q2, rest2),
        rest2.len() > 0,
    ensures
        eval_term(FTerm::PlusF(Box::new(a), Box::new(b)), env, fs, ars, f + 1, ans) == (FResult::Val(FValue::NumFloat(float_of(rest2[0]))), q1 + q2
            + seq![NQuery::Add(x1, x2)], rest2.drop_first()),
        eval_term(FTerm::TimesF(Box::new(a), Box::new(b)), env, fs, ars, f + 1, ans) == (FResult::Val(FValue::NumFloat(float_of(rest2[0]))), q1 + q2
            + seq![NQuery::Mul(x1, x2)], rest2.drop_first()),
        eval_term(FTerm::DivF(Box::new(a), Box::new(b)), env, fs, ars, f + 1, ans) == (FResult::Val(FValue::NumFloat(float_of(rest2[0]))), q1 + q2
            + seq![NQuery::Div(x1, x2)], rest2.drop_first()),
        eval_term(FTerm::LTFloat(Box::new(a), Box::new(b)), env, fs, ars, f + 1, ans) == (FResult::Val(FValue::Bool(truth_of(rest2[0]))), q1 + q2
            + seq![NQuery::Lt(x1, x2)], rest2.drop_first()),
        eval_term(FTerm::GTFloat(Box::new(a), Box::new(b)), env, fs, ars, f + 1, ans) == (FResult::Val(FValue::Bool(truth_of(rest2[0]))), q1 + q2
            + seq![NQuery::Gt(x1, x2)], rest2.drop_first()),
{
    let r3a = ask_float(NQuery::Add(x1, x2), rest2);
    assert(eval_bin(BinKind::PlusF, a, b, env, fs, ars, f, ans) == (r3a.0, q1 + q2 + r3a.1, r3a.2));
    let r3m = ask_float(NQuery::Mul(x1, x2), rest2);
    assert(eval_bin(BinKind::TimesF, a, b, env, fs, ars, f, ans) == (r3m.0, q1 + q2 + r3m.1, r3m.2));
    let r3d = ask_float(NQuery::Div(x1, x2), rest2);
    assert(eval_bin(BinKind::DivF, a, b, env, fs, ars, f, ans) == (r3d.0, q1 + q2 + r3d.1, r3d.2));
    let r3l = ask_truth(NQuery::Lt(x1, x2), rest2);
    assert(eval_bin(BinKind::LTFloat, a, b, env, fs, ars, f, ans) == (r3l.0, q1 + q2 + r3l.1, r3l.2));
    let r3g = ask_truth(NQuery::Gt(x1, x2), rest2);
    assert(eval_bin(BinKind::GTFloat, a, b, env, fs, ars, f, ans) == (r3g.0, q1 + q2 + r3g.1, r3g.2));
}

/// Pairs and their projections: `(a, b)` is the pair of the operands'
/// values, left then right; `proj1` of a pair is its first component and
/// `proj2` its second.
pub proof fn lemma_pairs(
    a: FTerm, b: FTerm, v1: FValue, v2: FValue, q1: Seq<NQuery>, rest1: Seq<NAnswer>, q2: Seq<NQuery>, rest2: Seq<NAnswer>,
    env: FEnv, fs: Seq<TopLevelTerm>, ars: Seq<TopLevelCommand>, f: nat, ans: Seq<NAnswer>,
)
    requires
        eval_term(a, env, fs, ars, f, ans) == (FResult::Val(v1), q1, rest1),
        eval_term(b, env, fs, ars, f, rest1) == (FResult::Val(v2), q2, rest2),
    ensures
        eval_term(FTerm::Pair(Box::new(a), Box::new(b)), env, fs, ars, f + 1, ans) == (FResult::Val(FValue::Pair(Box::new(v1), Box::new(v2))), q1 + q2, rest2),
        eval_term(FTerm::Fst(Box::new(FTerm::Pair(Box::new(a), Box::new(b)))), env, fs, ars, f + 2, ans) == (FResult::Val(v1), q1 + q2, rest2),
        eval_term(FTerm::Snd(Box::new(FTerm::Pair(Box::new(a), Box::new(b)))), env, fs, ars, f + 2, ans) == (FResult::Val(v2), q1 + q2, rest2),
{
    assert(q1 + q2 + Seq::<NQuery>::empty() =~= q1 + q2);
    assert(eval_bin(BinKind::Pair, a, b, env, fs, ars, f, ans) == (
        FResult::Val(FValue::Pair(Box::new(v1), Box::new(v2))),
        q1 + q2 + Seq::<NQuery>::empty(),
        rest2,
    ));
    assert(eval_term(FTerm::Pair(Box::new(a), Box::new(b)), env, fs, ars, f + 1, ans) == (FResult::Val(FValue::Pair(Box::new(v1), Box::new(v2))), q1 + q2, rest2));
}

/// Lists: `cons a l` puts the value of `a` in front of the list `l`;
/// `head` of a non-empty list is its first element and `tail` the rest.
pub proof fn lemma_lists(
    a: FTerm, b: FTerm, v1: FValue, l: FList, q1: Seq<NQuery>, rest1: Seq<NAnswer>, q2: Seq<NQuery>, rest2: Seq<NAnswer>,
    env: FEnv, fs: Seq<TopLevelTerm>, ars: Seq<TopLevelCommand>, f: nat, ans: Seq<NAnswer>,
)
    requires
        eval_term(a, env, fs, ars, f, ans) == (FResult::Val(v1), q1, rest1),
        eval_term(b, env, fs, ars, f, rest1) == (FResult::Val(FValue::List(l)), q2, rest2),
    ensures
        eval_term(FTerm::Cons(Box::new(a), Box::new(b)), env, fs, ars, f + 1, ans) == (FResult::Val(
            FValue::List(FList::Cons(Box::new(v1), Box::new(l))),
        ), q1 + q2, rest2),
        eval_term(FTerm::Head(Box::new(FTerm::Cons(Box::new(a), Box::new(b)))), env, fs, ars, f + 2, ans) == (FResult::Val(v1), q1 + q2, rest2),
        eval_term(FTerm::Tail(Box::new(FTerm::Cons(Box::new(a), Box::new(b)))), env, fs, ars, f + 2, ans) == (FResult::Val(FValue::List(l)), q1 + q2, rest2),
{
    assert(q1 + q2 + Seq::<NQuery>::empty() =~= q1 + q2);
    assert(eval_bin(BinKind::Cons, a, b, env, fs, ars, f, ans) == (
        FResult::Val(FValue::List(FList::Cons(Box::new(v1), Box::new(l)))),
        q1 + q2 + Seq::<NQuery>::empty(),
        rest2,
    ));
    assert(eval_term(FTerm::Cons(Box::new(a), Box::new(b)), env, fs, ars, f + 1, ans) == (FResult::Val(
        FValue::List(FList::Cons(Box::new(v1), Box::new(l))),
    ), q1 + q2, rest2));
}

/// `if c then a else b` runs `a` when `c` is true and `b` when it is false.
pub proof fn lemma_if(
    c: FTerm, a: FTerm, b: FTerm, cond: bool, q1: Seq<NQuery>, rest1: Seq<NAnswer>,
    env: FEnv, fs: Seq<TopLevelTerm>, ars: Seq<TopLevelCommand>, f: nat, ans: Seq<NAnswer>,
)
    requires
        eval_term(c, env, fs, ars, f, ans) == (FResult::Val(FValue::Bool(cond)), q1, rest1),
    ensures
        ({
            let r = eval_term(if cond { a } else { b }, env, fs, ars, f, rest1);
            eval_term(FTerm::If(Box::new(c), Box::new(a), Box::new(b)), env, fs, ars, f + 1, ans) == (r.0, q1 + r.1, r.2)
        }),
{
}


/// `r` is a vector of `n` entries, entry `i` being the answer at position
/// `i` of `rest`, where the questions are `pre` and then `qs`, one per
/// entry in order; the `n` answers are read.
pub open spec fn is_vector_result(r: TermRun, pre: Seq<NQuery>, n: nat, rest: Seq<NAnswer>, qs: Seq<NQuery>) -> bool {
    &&& r.0 == FResult::Val(FValue::Vect(Seq::new(n, |i: int| float_of(rest[i]))))
    &&& r.1 == pre + qs
    &&& r.2 == rest.skip(n as int)
}

/// `r` is a `rows` by `c` matrix, entry `(i, j)` being the answer at
/// position `i * c + j` of `rest`, where the questions are `pre` and then,
/// row by row, the question `op` on the entries `(i, j)` of `m1` and `m2`;
/// the `rows * c` answers are read.
pub open spec fn is_matrix_result(
    r: TermRun,
    pre: Seq<NQuery>,
    rows: nat,
    c: nat,
    rest: Seq<NAnswer>,
    op: FOp,
    m1: Seq<Seq<u32>>,
    m2: Seq<Seq<u32>>,
) -> bool {
    &&& r.0 is Val && r.0->Val_0 is Mat
    &&& r.0->Val_0->Mat_0.len() == rows
    &&& forall|i: int| 0 <= i < rows ==> (#[trigger] r.0->Val_0->Mat_0[i]).len() == c
    &&& forall|i: int, j: int|
        #![trigger r.0->Val_0->Mat_0[i][j]]
        0 <= i < rows && 0 <= j < c ==> r.0->Val_0->Mat_0[i][j] == float_of(rest[i * c + j]) && r.1[pre.len() + i * c
            + j] == op_query(op, m1[i][j], m2[i][j])
    &&& r.1.len() == pre.len() + rows * c
    &&& r.1.subrange(0, pre.len() as int) == pre
    &&& r.2 == rest.skip((rows * c) as int)
}

/// The entrywise vector operators on two vectors of the same length ask,
/// entry by entry, the sum (`<+>`), the difference (`<->`) or the product
/// (`<*>`) of the entries at the same position, left operand first, and
/// give the vector of the answers; `.>` asks the product of the scalar with
/// each entry.
pub proof fn lemma_vector_operators(
    a: FTerm, b: FTerm, va: Seq<u32>, vb: Seq<u32>, q1: Seq<NQuery>, rest1: Seq<NAnswer>, q2: Seq<NQuery>,
    rest2: Seq<NAnswer>,
    env: FEnv, fs: Seq<TopLevelTerm>, ars: Seq<TopLevelCommand>, f: nat, ans: Seq<NAnswer>,
)
    requires
        eval_term(a, env, fs, ars, f, ans) == (FResult::Val(FValue::Vect(va)), q1, rest1),
        eval_term(b, env, fs, ars, f, rest1) == (FResult::Val(FValue::Vect(vb)), q2, rest2),
        va.len() == vb.len(),
        rest2.len() >= va.len(),
    ensures
        is_vector_result(
            eval_term(FTerm::VectEntrywisePlus(Box::new(a), Box::new(b)), env, fs, ars, f + 1, ans),
            q1 + q2,
            va.len(),
            rest2,
            Seq::new(va.len(), |i: int| NQuery::Add(va[i], vb[i])),
        ),
        is_vector_result(
            eval_term(FTerm::VectEntrywiseMinus(Box::new(a), Box::new(b)), env, fs, ars, f + 1, ans),
            q1 + q2,
            va.len(),
            rest2,
            Seq::new(va.len(), |i: int| NQuery::Sub(va[i], vb[i])),
        ),
        is_vector_result(
            eval_term(FTerm::VectEntrywiseTimes(Box::new(a), Box::new(b)), env, fs, ars, f + 1, ans),
            q1 + q2,
            va.len(),
            rest2,
            Seq::new(va.len(), |i: int| NQuery::Mul(va[i], vb[i])),
        ),
{
    let n = va.len();
    let ga = Grid::Pairwise(FOp::Add, seq![va], seq![vb]);
    let gs = Grid::Pairwise(FOp::Sub, seq![va], seq![vb]);
    let gm = Grid::Pairwise(FOp::Mul, seq![va], seq![vb]);
    assert(Seq::new(n, |j: int| grid_query(ga, 0, j)) =~= Seq::new(n, |i: int| NQuery::Add(va[i], vb[i])));
    assert(Seq::new(n, |j: int| grid_query(gs, 0, j)) =~= Seq::new(n, |i: int| NQuery::Sub(va[i], vb[i])));
    assert(Seq::new(n, |j: int| grid_query(gm, 0, j)) =~= Seq::new(n, |i: int| NQuery::Mul(va[i], vb[i])));
    assert(floats(rest2, n) =~= Seq::new(n, |i: int| float_of(rest2[i])));
    let ra = row_run(ga, 0, rest2);
    let rs = row_run(gs, 0, rest2);
    let rm = row_run(gm, 0, rest2);
    assert(eval_bin(BinKind::VectPlus, a, b, env, fs, ars, f, ans) == (FResult::Val(FValue::Vect(ra.0)), q1 + q2 + ra.1, ra.2));
    assert(eval_bin(BinKind::VectMinus, a, b, env, fs, ars, f, ans) == (FResult::Val(FValue::Vect(rs.0)), q1 + q2 + rs.1, rs.2));
    assert(eval_bin(BinKind::VectTimes, a, b, env, fs, ars, f, ans) == (FResult::Val(FValue::Vect(rm.0)), q1 + q2 + rm.1, rm.2));
}

/// The entrywise matrix operators on two matrices of the same shape ask,
/// row by row and entry by entry, the sum (`#+#`, `FOp::Add`) or the
/// difference (`#-#`, `FOp::Sub`) of the entries at the same position,
/// left operand first, and give the matrix of the answers.
pub proof fn lemma_matrix_operators(
    a: FTerm, b: FTerm, m1: Seq<Seq<u32>>, m2: Seq<Seq<u32>>, rows: nat, c: nat, q1: Seq<NQuery>, rest1: Seq<NAnswer>,
    q2: Seq<NQuery>, rest2: Seq<NAnswer>,
    env: FEnv, fs: Seq<TopLevelTerm>, ars: Seq<TopLevelCommand>, f: nat, ans: Seq<NAnswer>,
)
    requires
        eval_term(a, env, fs, ars, f, ans) == (FResult::Val(FValue::Mat(m1)), q1, rest1),
        eval_term(b, env, fs, ars, f, rest1) == (FResult::Val(FValue::Mat(m2)), q2, rest2),
        m1.len() == rows,
        m2.len() == rows,
        forall|i: int| 0 <= i < rows ==> #[trigger] m1[i].len() == c && m2[i].len() == c,
        rest2.len() >= rows * c,
    ensures
        is_matrix_result(
            eval_term(FTerm::MatEntrywisePlus(Box::new(a), Box::new(b)), env, fs, ars, f + 1, ans),
            q1 + q2,
            rows,
            c,
            rest2,
            FOp::Add,
            m1,
            m2,
        ),
        is_matrix_result(
            eval_term(FTerm::MatEntrywiseMinus(Box::new(a), Box::new(b)), env, fs, ars, f + 1, ans),
            q1 + q2,
            rows,
            c,
            rest2,
            FOp::Sub,
            m1,
            m2,
        ),
{
    assert(rows_cover(m1, m2));
    if rows > 0 {
        assert(m1[0].len() == m2[0].len());
    }
    lemma_grid_matrix(BinKind::MatPlus, FOp::Add, a, b, m1, m2, rows, c, q1, rest1, q2, rest2, env, fs, ars, f, ans);
    lemma_grid_matrix(BinKind::MatMinus, FOp::Sub, a, b, m1, m2, rows, c, q1, rest1, q2, rest2, env, fs, ars, f, ans);
    assert(eval_term(FTerm::MatEntrywisePlus(Box::new(a), Box::new(b)), env, fs, ars, f + 1, ans) == eval_bin(BinKind::MatPlus, a, b, env, fs, ars, f, ans));
    assert(eval_term(FTerm::MatEntrywiseMinus(Box::new(a), Box::new(b)), env, fs, ars, f + 1, ans) == eval_bin(BinKind::MatMinus, a, b, env, fs, ars, f, ans));
}

proof fn lemma_grid_matrix(
    k: BinKind, op: FOp, a: FTerm, b: FTerm, m1: Seq<Seq<u32>>, m2: Seq<Seq<u32>>, rows: nat, c: nat, q1: Seq<NQuery>,
    rest1: Seq<NAnswer>, q2: Seq<NQuery>, rest2: Seq<NAnswer>,
    env: FEnv, fs: Seq<TopLevelTerm>, ars: Seq<TopLevelCommand>, f: nat, ans: Seq<NAnswer>,
)
    requires
        k == BinKind::MatPlus || k == BinKind::MatMinus,
        op == vect_op(k),
        eval_term(a, env, fs, ars, f, ans) == (FResult::Val(FValue::Mat(m1)), q1, rest1),
        eval_term(b, env, fs, ars, f, rest1) == (FResult::Val(FValue::Mat(m2)), q2, rest2),
        m1.len() == rows,
        m2.len() == rows,
        forall|i: int| 0 <= i < rows ==> #[trigger] m1[i].len() == c && m2[i].len() == c,
        rest2.len() >= rows * c,
    ensures
        is_matrix_result(
            eval_bin(k, a, b, env, fs, ars, f, ans),
            q1 + q2,
            rows,
            c,
            rest2,
            op,
            m1,
            m2,
        ),
{
    let g = Grid::Pairwise(op, m1, m2);
    assert(rows_cover(m1, m2));
    if rows > 0 {
        assert(m1[0].len() == m2[0].len());
    }
    assert forall|i: int| 0 <= i < rows implies #[trigger] grid_cols(g, i) == c by {
        assert(m1[i].len() == c);
    }
    lemma_grid_entries(g, rows, c, rest2);
    let gr = grid_run(g, rows, rest2);
    let r = eval_bin(k, a, b, env, fs, ars, f, ans);
    assert(r == (FResult::Val(FValue::Mat(gr.0)), q1 + q2 + gr.1, gr.2));
    let pre = q1 + q2;
    assert((pre + gr.1).subrange(0, pre.len() as int) =~= pre);
    assert forall|i: int, j: int|
        #![trigger r.0->Val_0->Mat_0[i][j]]
        0 <= i < rows && 0 <= j < c implies r.0->Val_0->Mat_0[i][j] == float_of(rest2[i * c + j]) && r.1[pre.len()
            + i * c + j] == op_query(op, m1[i][j], m2[i][j]) by {
        lemma_index_bounds(i, j, c as int, rows as int);
        assert(gr.0[i][j] == float_of(rest2[i * c + j]));
        assert(gr.1[i * c + j] == grid_query(g, i, j));
    }
}


/// The outer product `><` of two vectors is a matrix with a row per entry
/// of the left vector and a column per entry of the right one: entry
/// `(i, j)` is the answer to the product of the left vector's entry `i`
/// with the right vector's entry `j`, asked row by row.
pub proof fn lemma_outer_product(
    a: FTerm, b: FTerm, va: Seq<u32>, vb: Seq<u32>, q1: Seq<NQuery>, rest1: Seq<NAnswer>, q2: Seq<NQuery>,
    rest2: Seq<NAnswer>,
    env: FEnv, fs: Seq<TopLevelTerm>, ars: Seq<TopLevelCommand>, f: nat, ans: Seq<NAnswer>,
)
    requires
        eval_term(a, env, fs, ars, f, ans) == (FResult::Val(FValue::Vect(va)), q1, rest1),
        eval_term(b, env, fs, ars, f, rest1) == (FResult::Val(FValue::Vect(vb)), q2, rest2),
        rest2.len() >= va.len() * vb.len(),
    ensures
        ({
            let r = eval_term(FTerm::ProdVecVec(Box::new(a), Box::new(b)), env, fs, ars, f + 1, ans);
            let rows = va.len();
            let c = vb.len();
            &&& r.0 is Val && r.0->Val_0 is Mat
            &&& r.0->Val_0->Mat_0.len() == rows
            &&& forall|i: int| 0 <= i < rows ==> (#[trigger] r.0->Val_0->Mat_0[i]).len() == c
            &&& forall|i: int, j: int|
                #![trigger r.0->Val_0->Mat_0[i][j]]
                0 <= i < rows && 0 <= j < c ==> r.0->Val_0->Mat_0[i][j] == float_of(rest2[i * c + j]) && r.1[(q1
                    + q2).len() + i * c + j] == NQuery::Mul(va[i], vb[j])
            &&& r.1.len() == (q1 + q2).len() + rows * c
            &&& r.2 == rest2.skip((rows * c) as int)
        }),
{
    let g = Grid::Outer(va, vb);
    let rows = va.len();
    let c = vb.len();
    assert forall|i: int| 0 <= i < rows implies #[trigger] grid_cols(g, i) == c by {}
    lemma_grid_entries(g, rows, c, rest2);
    let gr = grid_run(g, rows, rest2);
    let r = eval_term(FTerm::ProdVecVec(Box::new(a), Box::new(b)), env, fs, ars, f + 1, ans);
    assert(eval_bin(BinKind::ProdVecVec, a, b, env, fs, ars, f, ans) == (FResult::Val(FValue::Mat(gr.0)), q1 + q2 + gr.1, gr.2));
    assert(r == (FResult::Val(FValue::Mat(gr.0)), q1 + q2 + gr.1, gr.2));
    let pre = q1 + q2;
    assert forall|i: int, j: int|
        #![trigger r.0->Val_0->Mat_0[i][j]]
        0 <= i < rows && 0 <= j < c implies r.0->Val_0->Mat_0[i][j] == float_of(rest2[i * c + j]) && r.1[pre.len()
            + i * c + j] == NQuery::Mul(va[i], vb[j]) by {
        lemma_index_bounds(i, j, c as int, rows as int);
        assert(gr.0[i][j] == float_of(rest2[i * c + j]));
        assert(gr.1[i * c + j] == grid_query(g, i, j));
    }
}

/// Scaling `c .> v` asks, entry by entry, the product of the scalar with
/// the entry, and gives the vector of the answers.
pub proof fn lemma_scale_vector(
    a: FTerm, b: FTerm, x: u32, v: Seq<u32>, q1: Seq<NQuery>, rest1: Seq<NAnswer>, q2: Seq<NQuery>, rest2: Seq<NAnswer>,
    env: FEnv, fs: Seq<TopLevelTerm>, ars: Seq<TopLevelCommand>, f: nat, ans: Seq<NAnswer>,
)
    requires
        eval_term(a, env, fs, ars, f, ans) == (FResult::Val(FValue::NumFloat(x)), q1, rest1),
        eval_term(b, env, fs, ars, f, rest1) == (FResult::Val(FValue::Vect(v)), q2, rest2),
        rest2.len() >= v.len(),
    ensures
        is_vector_result(
            eval_term(FTerm::ScalarVect(Box::new(a), Box::new(b)), env, fs, ars, f + 1, ans),
            q1 + q2,
            v.len(),
            rest2,
            Seq::new(v.len(), |i: int| NQuery::Mul(x, v[i])),
        ),
{
    let n = v.len();
    let g = Grid::Scaled(x, seq![v]);
    assert(Seq::new(n, |j: int| grid_query(g, 0, j)) =~= Seq::new(n, |i: int| NQuery::Mul(x, v[i])));
    assert(floats(rest2, n) =~= Seq::new(n, |i: int| float_of(rest2[i])));
    let r = row_run(g, 0, rest2);
    assert(eval_bin(BinKind::ScalarVect, a, b, env, fs, ars, f, ans) == (FResult::Val(FValue::Vect(r.0)), q1 + q2 + r.1, r.2));
}


/// A variable is its innermost binding: bound last to `v`, `x` is `v`, and
/// a later binding of another name leaves `x` as it was.
pub proof fn lemma_variables(x: Seq<char>, y: Seq<char>, v: FValue, w: FValue, env: FEnv, fs: Seq<TopLevelTerm>, ars: Seq<TopLevelCommand>, f: nat, ans: Seq<NAnswer>)
    ensures
        eval_term(FTerm::Var(x), env.push((x, v)), fs, ars, f + 1, ans) == (FResult::Val(v), Seq::<NQuery>::empty(), ans),
        x != y ==> eval_term(FTerm::Var(x), env.push((y, w)), fs, ars, f + 1, ans) == eval_term(
            FTerm::Var(x),
            env,
            fs,
            ars,
            f + 1,
            ans,
        ) || lookup_env(x, env) is None,
{
    assert(env.push((x, v)).last() == (x, v));
    assert(env.push((y, w)).last() == (y, w));
    assert(env.push((y, w)).drop_last() =~= env);
}

/// Applying a closure runs its body in the closure's environment extended
/// with the binding of its pattern to the argument's value, after the
/// function's and the argument's own questions.
pub proof fn lemma_apply_closure(
    a: FTerm, b: FTerm, env1: FEnv, vp: FVarProd, body: FTerm, v: FValue, bound: FEnv, q1: Seq<NQuery>, rest1: Seq<NAnswer>, q2: Seq<NQuery>, rest2: Seq<NAnswer>, env: FEnv, fs: Seq<TopLevelTerm>, ars: Seq<TopLevelCommand>, f: nat, ans: Seq<NAnswer>,
)
    requires
        eval_term(a, env, fs, ars, f, ans) == (FResult::Val(FValue::ClosureFunc(env1, vp, body)), q1, rest1),
        eval_term(b, env, fs, ars, f, rest1) == (FResult::Val(v), q2, rest2),
        bind_pattern(vp, v) == (true, bound),
    ensures
        ({
            let r3 = eval_term(body, env1 + bound, fs, ars, f, rest2);
            eval_term(FTerm::App(Box::new(a), Box::new(b)), env, fs, ars, f + 1, ans) == (r3.0, q1 + q2 + r3.1, r3.2)
        }),
{
    assert(eval_term(FTerm::App(Box::new(a), Box::new(b)), env, fs, ars, f + 1, ans) == eval_app(a, b, env, fs, ars, f, ans));
}

/// The built-in functions: `exp x` asks the provider for the exponential
/// of `x` and gives its answer; `vec_size v` is the length of `v`;
/// `vec_zero n` is `n` zeros; `mat_zero (m, n)` is `m` rows of `n` zeros;
/// `mat_size m` is its number of rows and the length of its first row;
/// `transpose m` has entry `(j, i)` equal to entry `(i, j)` of `m`.
pub proof fn lemma_exp(a: FTerm, b: FTerm, x: u32, q1: Seq<NQuery>, rest1: Seq<NAnswer>, q2: Seq<NQuery>, rest2: Seq<NAnswer>, env: FEnv, fs: Seq<TopLevelTerm>, ars: Seq<TopLevelCommand>, f: nat, ans: Seq<NAnswer>)
    requires
        eval_term(a, env, fs, ars, f, ans) == (FResult::Val(FValue::Exp), q1, rest1),
        eval_term(b, env, fs, ars, f, rest1) == (FResult::Val(FValue::NumFloat(x)), q2, rest2),
        rest2.len() > 0,
    ensures
        eval_term(FTerm::App(Box::new(a), Box::new(b)), env, fs, ars, f + 1, ans) == (FResult::Val(FValue::NumFloat(float_of(rest2[0]))), q1 + q2 + seq![NQuery::Exp(x)], rest2.drop_first()),
{
    assert(eval_term(FTerm::App(Box::new(a), Box::new(b)), env, fs, ars, f + 1, ans) == eval_app(a, b, env, fs, ars, f, ans));
    let r3 = apply_builtin(FValue::Exp, FValue::NumFloat(x), rest2);
    assert(eval_app(a, b, env, fs, ars, f, ans) == (r3.0, q1 + q2 + r3.1, r3.2));
}

pub proof fn lemma_vec_size(a: FTerm, b: FTerm, v: Seq<u32>, q1: Seq<NQuery>, rest1: Seq<NAnswer>, q2: Seq<NQuery>, rest2: Seq<NAnswer>, env: FEnv, fs: Seq<TopLevelTerm>, ars: Seq<TopLevelCommand>, f: nat, ans: Seq<NAnswer>)
    requires
        eval_term(a, env, fs, ars, f, ans) == (FResult::Val(FValue::VectSize), q1, rest1),
        eval_term(b, env, fs, ars, f, rest1) == (FResult::Val(FValue::Vect(v)), q2, rest2),
        v.len() <= i32::MAX,
    ensures
        eval_term(FTerm::App(Box::new(a), Box::new(b)), env, fs, ars, f + 1, ans) == (FResult::Val(FValue::NumInt(v.len() as i32)), q1 + q2, rest2),
{
    assert(eval_term(FTerm::App(Box::new(a), Box::new(b)), env, fs, ars, f + 1, ans) == eval_app(a, b, env, fs, ars, f, ans));
    let r3 = apply_builtin(FValue::VectSize, FValue::Vect(v), rest2);
    assert(eval_app(a, b, env, fs, ars, f, ans) == (r3.0, q1 + q2 + r3.1, r3.2));
    assert(q1 + q2 + Seq::<NQuery>::empty() =~= q1 + q2);
}

pub proof fn lemma_vec_zero(a: FTerm, b: FTerm, n: i32, q1: Seq<NQuery>, rest1: Seq<NAnswer>, q2: Seq<NQuery>, rest2: Seq<NAnswer>, env: FEnv, fs: Seq<TopLevelTerm>, ars: Seq<TopLevelCommand>, f: nat, ans: Seq<NAnswer>)
    requires
        eval_term(a, env, fs, ars, f, ans) == (FResult::Val(FValue::VectZero), q1, rest1),
        eval_term(b, env, fs, ars, f, rest1) == (FResult::Val(FValue::NumInt(n)), q2, rest2),
        n >= 0,
    ensures
        ({
            let r = eval_term(FTerm::App(Box::new(a), Box::new(b)), env, fs, ars, f + 1, ans);
            &&& r.1 == q1 + q2
            &&& r.2 == rest2
            &&& r.0 is Val && r.0->Val_0 is Vect
            &&& r.0->Val_0->Vect_0.len() == n
            &&& forall|i: int| 0 <= i < n ==> #[trigger] r.0->Val_0->Vect_0[i] == 0
        }),
{
    assert(eval_term(FTerm::App(Box::new(a), Box::new(b)), env, fs, ars, f + 1, ans) == eval_app(a, b, env, fs, ars, f, ans));
    let r3 = apply_builtin(FValue::VectZero, FValue::NumInt(n), rest2);
    assert(eval_app(a, b, env, fs, ars, f, ans) == (r3.0, q1 + q2 + r3.1, r3.2));
    assert(q1 + q2 + Seq::<NQuery>::empty() =~= q1 + q2);
}

pub proof fn lemma_mat_zero(a: FTerm, b: FTerm, m: i32, n: i32, q1: Seq<NQuery>, rest1: Seq<NAnswer>, q2: Seq<NQuery>, rest2: Seq<NAnswer>, env: FEnv, fs: Seq<TopLevelTerm>, ars: Seq<TopLevelCommand>, f: nat, ans: Seq<NAnswer>)
    requires
        eval_term(a, env, fs, ars, f, ans) == (FResult::Val(FValue::MatZero), q1, rest1),
        eval_term(b, env, fs, ars, f, rest1) == (FResult::Val(FValue::Pair(Box::new(FValue::NumInt(m)), Box::new(FValue::NumInt(n)))), q2, rest2),
        m >= 0,
        n >= 0,
    ensures
        ({
            let r = eval_term(FTerm::App(Box::new(a), Box::new(b)), env, fs, ars, f + 1, ans);
            &&& r.1 == q1 + q2
            &&& r.2 == rest2
            &&& r.0 is Val && r.0->Val_0 is Mat
            &&& r.0->Val_0->Mat_0.len() == m
            &&& forall|i: int| 0 <= i < m ==> (#[trigger] r.0->Val_0->Mat_0[i]).len() == n
            &&& forall|i: int, j: int| 0 <= i < m && 0 <= j < n ==> #[trigger] r.0->Val_0->Mat_0[i][j] == 0
        }),
{
    assert(eval_term(FTerm::App(Box::new(a), Box::new(b)), env, fs, ars, f + 1, ans) == eval_app(a, b, env, fs, ars, f, ans));
    let r3 = apply_builtin(FValue::MatZero, FValue::Pair(Box::new(FValue::NumInt(m)), Box::new(FValue::NumInt(n))), rest2);
    assert(eval_app(a, b, env, fs, ars, f, ans) == (r3.0, q1 + q2 + r3.1, r3.2));
    assert(q1 + q2 + Seq::<NQuery>::empty() =~= q1 + q2);
}

pub proof fn lemma_mat_size(a: FTerm, b: FTerm, m: Seq<Seq<u32>>, q1: Seq<NQuery>, rest1: Seq<NAnswer>, q2: Seq<NQuery>, rest2: Seq<NAnswer>, env: FEnv, fs: Seq<TopLevelTerm>, ars: Seq<TopLevelCommand>, f: nat, ans: Seq<NAnswer>)
    requires
        eval_term(a, env, fs, ars, f, ans) == (FResult::Val(FValue::MatSize), q1, rest1),
        eval_term(b, env, fs, ars, f, rest1) == (FResult::Val(FValue::Mat(m)), q2, rest2),
        m.len() > 0,
        m.len() <= i32::MAX,
        m[0].len() <= i32::MAX,
    ensures
        eval_term(FTerm::App(Box::new(a), Box::new(b)), env, fs, ars, f + 1, ans) == (FResult::Val(
            FValue::Pair(Box::new(FValue::NumInt(m.len() as i32)), Box::new(FValue::NumInt(m[0].len() as i32))),
        ), q1 + q2, rest2),
{
    assert(eval_term(FTerm::App(Box::new(a), Box::new(b)), env, fs, ars, f + 1, ans) == eval_app(a, b, env, fs, ars, f, ans));
    let r3 = apply_builtin(FValue::MatSize, FValue::Mat(m), rest2);
    assert(eval_app(a, b, env, fs, ars, f, ans) == (r3.0, q1 + q2 + r3.1, r3.2));
    assert(q1 + q2 + Seq::<NQuery>::empty() =~= q1 + q2);
}

pub proof fn lemma_transpose(a: FTerm, b: FTerm, m: Seq<Seq<u32>>, q1: Seq<NQuery>, rest1: Seq<NAnswer>, q2: Seq<NQuery>, rest2: Seq<NAnswer>, env: FEnv, fs: Seq<TopLevelTerm>, ars: Seq<TopLevelCommand>, f: nat, ans: Seq<NAnswer>)
    requires
        eval_term(a, env, fs, ars, f, ans) == (FResult::Val(FValue::Transpose), q1, rest1),
        eval_term(b, env, fs, ars, f, rest1) == (FResult::Val(FValue::Mat(m)), q2, rest2),
        m.len() > 0,
        forall|i: int| 0 <= i < m.len() ==> #[trigger] m[i].len() >= m[0].len(),
    ensures
        ({
            let r = eval_term(FTerm::App(Box::new(a), Box::new(b)), env, fs, ars, f + 1, ans);
            &&& r.1 == q1 + q2
            &&& r.2 == rest2
            &&& r.0 is Val && r.0->Val_0 is Mat
            &&& r.0->Val_0->Mat_0.len() == m[0].len()
            &&& forall|j: int| 0 <= j < m[0].len() ==> (#[trigger] r.0->Val_0->Mat_0[j]).len() == m.len()
            &&& forall|i: int, j: int|
                0 <= i < m.len() && 0 <= j < m[0].len() ==> #[trigger] r.0->Val_0->Mat_0[j][i] == m[i][j]
        }),
{
    assert(eval_term(FTerm::App(Box::new(a), Box::new(b)), env, fs, ars, f + 1, ans) == eval_app(a, b, env, fs, ars, f, ans));
    let r3 = apply_builtin(FValue::Transpose, FValue::Mat(m), rest2);
    assert(eval_app(a, b, env, fs, ars, f, ans) == (r3.0, q1 + q2 + r3.1, r3.2));
    assert(q1 + q2 + Seq::<NQuery>::empty() =~= q1 + q2);
}


/// `let p <~ return t in c2`: the value of `t` (in the term and command
/// environments) is bound to the pattern `p`, and `c2` runs with those
/// bindings added to the command environment, after `t`'s questions.
pub proof fn lemma_let_return(
    b: FBinder, t: FTerm, c2: FCommand, v: FValue, q: Seq<NQuery>, rest: Seq<NAnswer>, bound: FEnv, env: FEnv,
    ec: FEnv, resume: Option<FValue>, fs: Seq<TopLevelTerm>, ars: Seq<TopLevelCommand>, stack: Seq<FCont>, f: nat,
    ans: Seq<NAnswer>,
)
    requires
        eval_term(t, env + ec, fs, ars, f + 1, ans) == (FResult::Val(v), q, rest),
        bind_pattern(b.var, v) == (true, bound),
    ensures
        ({
            let o = eval_command(c2, env, ec + bound, resume, fs, ars, stack, f, rest);
            eval_command(
                FCommand::Let(b, Box::new(FCommand::Return(FVtr::T(Box::new(t)))), Box::new(c2), None),
                env,
                ec,
                resume,
                fs,
                ars,
                stack,
                f + 3,
                ans,
            ) == (o.0, o.1, q + o.2, o.3)
        }),
{
    let st = stack.push(FCont::Let(b, c2, env, ec));
    assert(st.last() == FCont::Let(b, c2, env, ec));
    assert(st.drop_last() =~= stack);
    let inner = FCommand::Let(b, Box::new(FCommand::Return(FVtr::V(Box::new(v)))), Box::new(c2), Some((env, ec)));
    assert(fill(st.last(), FCommand::Return(FVtr::V(Box::new(v)))) == inner);
    let o = eval_command(c2, env, ec + bound, resume, fs, ars, stack, f, rest);
    assert(eval_command(inner, env, ec, resume, fs, ars, stack, f + 1, rest) == o);
    assert(continue_with(v, env, ec, resume, fs, ars, st, f + 1, rest) == o);
    let ret = FCommand::Return(FVtr::T(Box::new(t)));
    assert(eval_command(ret, env, ec, resume, fs, ars, st, f + 2, ans) == (o.0, o.1, q + o.2, o.3));
    assert(eval_command(
        FCommand::Let(b, Box::new(ret), Box::new(c2), None),
        env,
        ec,
        resume,
        fs,
        ars,
        stack,
        f + 3,
        ans,
    ) == eval_command(ret, env, ec, resume, fs, ars, st, f + 2, ans));
}

/// A handled command that returns a value runs the handler's return
/// clause with its pattern bound to that value.
pub proof fn lemma_handle_return(
    v: FValue, b: FBinder, c_ret: FCommand, cs: Seq<FClause>, he: Option<FEnv>, bound: FEnv, env: FEnv, ec: FEnv,
    resume: Option<FValue>, fs: Seq<TopLevelTerm>, ars: Seq<TopLevelCommand>, stack: Seq<FCont>, f: nat,
    ans: Seq<NAnswer>,
)
    requires
        bind_pattern(b.var, v) == (true, bound),
    ensures
        eval_command(
            FCommand::Handle(Box::new(FCommand::Return(FVtr::V(Box::new(v)))), FHandler::H(b, Box::new(c_ret), cs), he),
            env,
            ec,
            resume,
            fs,
            ars,
            stack,
            f + 1,
            ans,
        ) == eval_command(c_ret, env, bound, resume, fs, ars, stack, f, ans),
{
}


/// The running sum before entry `k` of a dot product whose answers start at
/// `ans`: `0.0` before the first entry, then the answer to the previous sum.
pub open spec fn partial_sum(ans: Seq<NAnswer>, k: int) -> u32 {
    if k == 0 {
        0u32
    } else {
        float_of(ans[2 * k - 1])
    }
}

/// The dot product of the first `n` entries of `row` and `v`, left to
/// right: for entry `k` it asks the product of the two entries (answer at
/// `2k`), then the sum of the running sum and that product (answer at
/// `2k + 1`); the result is the last sum (`0.0` for no entries).
pub proof fn lemma_dot_product(row: Seq<u32>, v: Seq<u32>, n: nat, ans: Seq<NAnswer>)
    requires
        ans.len() >= 2 * n,
    ensures
        ({
            let d = dot_run(row, v, n, ans);
            &&& d.0 == partial_sum(ans, n as int)
            &&& d.1.len() == 2 * n
            &&& d.2 == ans.skip((2 * n) as int)
            &&& forall|k: int|
                0 <= k < n ==> #[trigger] d.1[2 * k] == NQuery::Mul(row[k], v[k]) && d.1[2 * k + 1] == NQuery::Add(
                    partial_sum(ans, k),
                    float_of(ans[2 * k]),
                )
        }),
    decreases n,
{
    if n == 0 {
        assert(ans.skip(0) =~= ans);
    } else {
        lemma_dot_product(row, v, (n - 1) as nat, ans);
        let p = dot_run(row, v, (n - 1) as nat, ans);
        let d = dot_run(row, v, n, ans);
        assert(p.2[0] == ans[2 * (n - 1)]);
        assert(p.2[1] == ans[2 * (n - 1) + 1]);
        assert(p.2.skip(2) =~= ans.skip((2 * n) as int));
        assert forall|k: int| 0 <= k < n implies #[trigger] d.1[2 * k] == NQuery::Mul(row[k], v[k]) && d.1[2 * k + 1]
            == NQuery::Add(partial_sum(ans, k), float_of(ans[2 * k])) by {
            if k < n - 1 {
                assert(d.1[2 * k] == p.1[2 * k]);
                assert(d.1[2 * k + 1] == p.1[2 * k + 1]);
            }
        }
    }
}

/// The product of an `r` by `c` matrix with a vector of `c` entries is a
/// vector of `r` entries, entry `i` being the dot product of row `i` with
/// the vector; the dot products are asked row by row, each on `2 * c`
/// answers.
pub proof fn lemma_mat_vec_entries(m: Seq<Seq<u32>>, v: Seq<u32>, rows: nat, ans: Seq<NAnswer>)
    requires
        rows <= m.len(),
        forall|i: int| 0 <= i < rows ==> #[trigger] m[i].len() >= v.len(),
        ans.len() >= rows * (2 * v.len()),
    ensures
        ({
            let r = mat_vec_run(m, v, rows, ans);
            let w = 2 * v.len();
            &&& r.0.len() == rows
            &&& r.1.len() == rows * w
            &&& r.2 == ans.skip((rows * w) as int)
            &&& forall|i: int|
                0 <= i < rows ==> #[trigger] r.0[i] == partial_sum(ans.skip(i * w), v.len() as int) && forall|k: int|
                    0 <= k < v.len() ==> r.1[i * w + 2 * k] == NQuery::Mul(m[i][k], v[k]) && r.1[i * w + 2 * k + 1]
                        == NQuery::Add(partial_sum(ans.skip(i * w), k), float_of(ans[i * w + 2 * k]))
        }),
    decreases rows,
{
    let w = 2 * v.len();
    if rows == 0 {
        assert(rows * w == 0) by (nonlinear_arith)
            requires
                rows == 0,
        ;
        assert(ans.skip(0) =~= ans);
    } else {
        lemma_rows_mul(rows as int, w as int);
        lemma_mat_vec_entries(m, v, (rows - 1) as nat, ans);
        let p = mat_vec_run(m, v, (rows - 1) as nat, ans);
        let off = (rows - 1) * w;
        lemma_dot_product(m[rows - 1], v, v.len(), p.2);
        let d = dot_run(m[rows - 1], v, v.len(), p.2);
        let r = mat_vec_run(m, v, rows, ans);
        assert(r.0 == p.0.push(d.0));
        assert(r.1 == p.1 + d.1);
        assert(d.2 =~= ans.skip((rows * w) as int));
        assert(p.2 == ans.skip(off));
        assert forall|i: int|
            0 <= i < rows implies #[trigger] r.0[i] == partial_sum(ans.skip(i * w), v.len() as int) && forall|k: int|
                0 <= k < v.len() ==> r.1[i * w + 2 * k] == NQuery::Mul(m[i][k], v[k]) && r.1[i * w + 2 * k + 1]
                    == NQuery::Add(partial_sum(ans.skip(i * w), k), float_of(ans[i * w + 2 * k])) by {
            if i < rows - 1 {
                assert(r.0[i] == p.0[i]);
                assert forall|k: int| 0 <= k < v.len() implies r.1[i * w + 2 * k] == NQuery::Mul(m[i][k], v[k])
                    && r.1[i * w + 2 * k + 1] == NQuery::Add(partial_sum(ans.skip(i * w), k), float_of(ans[i * w + 2 * k])) by {
                    lemma_index_bounds(i, 2 * k, w as int, rows as int);
                    lemma_index_bounds(i, 2 * k + 1, w as int, rows as int);
                }
            } else {
                assert(i * w == off);
                assert forall|k: int| 0 <= k < v.len() implies r.1[i * w + 2 * k] == NQuery::Mul(m[i][k], v[k])
                    && r.1[i * w + 2 * k + 1] == NQuery::Add(partial_sum(ans.skip(i * w), k), float_of(ans[i * w + 2 * k])) by {
                    assert(d.1[2 * k] == NQuery::Mul(m[i][k], v[k]));
                    assert(p.2[2 * k] == ans[off + 2 * k]);
                }
            }
        }
    }
}

} // verus!
