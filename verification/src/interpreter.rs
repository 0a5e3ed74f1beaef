//! The interpreter of the full language.  Each function computes what
//! `semantics` gives for the models of its arguments: floating-point work
//! goes to the `Numerics` provider, and each function is correct for every
//! sequence of answers the provider may give; what the program prints is
//! appended to `out`.
use vstd::prelude::*;
use crate::ast::{
    Command, Continuation, Env, Value, VarProd, Var, EvalResult, L, Term, VarWithType, TopLevelTerm, TopLevelCommand,
    VTR, Operation, Handler, HandlerRet, HandlerOp, Printed,
};
use crate::model::{
    FVarProd, FValue, FEnv, FCommand, FCont, var_prod_model, value_model, env_model, command_model,
    cont_model, clone_env, lemma_env_model_push, rows_model, clone_row, result_model, FResult, FList,
    list_model, FTerm, term_model, clone_rows, lemma_env_model, binder_model, FPrinted, FVtr, FHandler,
    output_model, printed_model, stack_model, opt_value_model, handler_model, clauses_model, clause_model,
    lemma_clauses_model,
};
use crate::numerics::{Numerics, NQuery, NAnswer, FOp, op_query, floats, ask_op, float_of, Provider, grew, lemma_grew_none, lemma_grew_then, lemma_grew_push, lemma_grew_one};
use crate::semantics::{
    Grid, grid_cols, grid_query, row_run, grid_run, dot_run, mat_vec_run, rows_at_least, rows_cover, transpose,
    BinKind, combine, left_ok, right_ok, vect_op, vect_length_error, mat_shape_error, dimension_error,
    value_debug, type_error, debug_value, ask_float, ask_truth, apply_builtin, applicable, eval_var,
    lookup_env, lookup_function, lookup_arrow, debug_env, eval_term, eval_bin, eval_app, eval_entrywise,
    apply_each, entry_name, left_error, right_error, var_debug, env_debug, zero_seq, zero_mat,
    eval_command, continue_with, unwind, outermost, resume_with, run_main_from, find_clause_from, bind_error,
    var_prod_debug, debug_var_prod, invalid_normal_text,
};
use crate::show::{string_of, debug_str};

verus! {

/// Binding the pattern `vp` to the value `val`: whether the pattern fits,
/// and the bindings made, in order.  A name binds the whole value, `_`
/// binds nothing, a pair pattern needs a pair; when the left part of a pair
/// pattern fails, the bindings it made are kept and the right part is not
/// tried.
pub open spec fn bind_pattern(vp: FVarProd, val: FValue) -> (bool, FEnv)
    decreases vp,
{
    match vp {
        FVarProd::Unused => (true, Seq::empty()),
        FVarProd::V(name) => (true, seq![(name, val)]),
        FVarProd::P(v1, v2) => match val {
            FValue::Pair(a, b) => {
                let r1 = bind_pattern(*v1, *a);
                if !r1.0 {
                    r1
                } else {
                    let r2 = bind_pattern(*v2, *b);
                    (r2.0, r1.1 + r2.1)
                }
            },
            _ => (false, Seq::empty()),
        },
    }
}

/// `cont[c]`: the command `c` put in the hole of the continuation.
pub open spec fn fill(k: FCont, c: FCommand) -> FCommand {
    match k {
        FCont::Let(b, c2, e1, e2) => FCommand::Let(b, Box::new(c), Box::new(c2), Some((e1, e2))),
        FCont::Handle(h, env) => FCommand::Handle(Box::new(c), h, Some(env)),
    }
}

/// Binds the pattern `vp` to `val`, pushing the bindings onto `env`.
/// Fails when a pair pattern meets a value that is not a pair; bindings
/// made before the failure stay.
pub fn bind_var_prod(env: &mut Env, vp: &VarProd, val: &Value) -> (res: Result<(), ()>)
    ensures
        (res is Ok) == bind_pattern(var_prod_model(*vp), value_model(*val)).0,
        env_model(final(env)@) == env_model(old(env)@) + bind_pattern(
            var_prod_model(*vp),
            value_model(*val),
        ).1,
    decreases vp,
{
    let ghost e0 = env@;
    match (vp, val) {
        (VarProd::Unused, _) => {
            assert(env_model(env@) + Seq::<(Seq<char>, FValue)>::empty() =~= env_model(env@));
            Ok(())
        },
        (VarProd::P(var1, var2), Value::Pair(val1, val2)) => {
            let r1 = bind_var_prod(env, var1, val1);
            if r1.is_err() {
                return Err(());
            }
            let ghost e1 = env@;
            let r2 = bind_var_prod(env, var2, val2);
            proof {
                let b1 = bind_pattern(var_prod_model(**var1), value_model(**val1));
                let b2 = bind_pattern(var_prod_model(**var2), value_model(**val2));
                assert(env_model(env@) =~= env_model(e0) + (b1.1 + b2.1));
            }
            if r2.is_err() {
                return Err(());
            }
            Ok(())
        },
        (VarProd::P(_, _), _) => {
            assert(env_model(env@) + Seq::<(Seq<char>, FValue)>::empty() =~= env_model(env@));
            Err(())
        },
        (VarProd::V(varname), _) => {
            let entry = (Var::V(varname.clone()), val.clone());
            env.push(entry);
            proof {
                lemma_env_model_push(e0, entry);
                assert(env_model(env@) =~= env_model(e0) + seq![(varname@, value_model(*val))]);
            }
            Ok(())
        },
    }
}

/// `cont[c]`: the command `c` put in the hole of continuation `cont`.
pub fn replace_hole_command(cont: &Continuation, c: &Command) -> (res: Command)
    ensures
        command_model(res) == fill(cont_model(*cont), command_model(*c)),
{
    match cont {
        Continuation::Let(x, c2, envs) => Command::Let(
            x.clone(),
            Box::new(c.clone()),
            Box::new((**c2).clone()),
            Some((clone_env(&envs.0), clone_env(&envs.1))),
        ),
        Continuation::Handle(h, env) => Command::Handle(Box::new(c.clone()), h.clone(), Some(clone_env(env))),
    }
}

// ---------------------------------------------------------------------
// Answers of the numerics provider
// ---------------------------------------------------------------------

/// The answers received and the questions asked so far.
pub type Log = (Seq<NQuery>, Seq<NAnswer>);

pub proof fn lemma_append_assoc(a: Seq<NAnswer>, b: Seq<NAnswer>, c: Seq<NAnswer>)
    ensures
        (a + b) + c == a + (b + c),
{
    assert((a + b) + c =~= a + (b + c));
}

pub proof fn lemma_no_answers()
    ensures
        forall|rest: Seq<NAnswer>| #[trigger] (Seq::<NAnswer>::empty() + rest) == rest,
{
    assert forall|rest: Seq<NAnswer>| #[trigger] (Seq::<NAnswer>::empty() + rest) == rest by {
        assert(Seq::<NAnswer>::empty() + rest =~= rest);
    }
}

/// A row computed from the answers `a`: the first `a.len()` of any longer
/// sequence of answers give the same row, and the rest is left unread.
pub proof fn lemma_row_run(g: Grid, i: int, row: Seq<u32>, q: Seq<NQuery>, a: Seq<NAnswer>, rest: Seq<NAnswer>)
    requires
        a.len() == grid_cols(g, i),
        q == Seq::new(grid_cols(g, i), |j: int| grid_query(g, i, j)),
        row == floats(a, a.len()),
    ensures
        row_run(g, i, a + rest) == (row, q, rest),
{
    assert(floats(a + rest, a.len()) =~= floats(a, a.len()));
    assert((a + rest).skip(a.len() as int) =~= rest);
}

/// `op` of the entries of `xs` with those of `ys`, left to right.
fn pairwise_row<N: Numerics>(op: FOp, xs: &Vec<u32>, ys: &Vec<u32>, num: &mut Provider<N>) -> (res: (Vec<u32>, Ghost<Log>))
    requires
        ys@.len() >= xs@.len(),
    ensures
        res.1@.1.len() == xs@.len(),
        res.1@.0 == Seq::new(xs@.len(), |j: int| op_query(op, xs@[j], ys@[j])),
        res.0@ == floats(res.1@.1, xs@.len()),
        grew(*old(num), *final(num), res.1@),
{
    let mut row: Vec<u32> = Vec::new();
    let ghost mut q: Seq<NQuery> = Seq::empty();
    let ghost mut a: Seq<NAnswer> = Seq::empty();
    let mut j: usize = 0;
    let ghost p0 = *num;
    proof {
        lemma_grew_none(p0);
    }
    while j < xs.len()
        invariant
            j <= xs@.len(),
            ys@.len() >= xs@.len(),
            grew(p0, *num, (q, a)),
            a.len() == j,
            q == Seq::new(j as nat, |k: int| op_query(op, xs@[k], ys@[k])),
            row@ == floats(a, j as nat),
        decreases xs.len() - j,
    {
        let ghost prev = *num;
        let (x, gq, ga) = ask_op(num, op, xs[j], ys[j]);
        row.push(x);
        proof {
            lemma_grew_push(p0, prev, *num, (q, a), gq@, ga@);
            q = q.push(gq@);
            a = a.push(ga@);
        }
        j = j + 1;
        assert(q =~= Seq::new(j as nat, |k: int| op_query(op, xs@[k], ys@[k])));
        assert(row@ =~= floats(a, j as nat));
    }
    (row, Ghost((q, a)))
}

/// The scalar `c` times each entry of `xs`, left to right.
fn scaled_row<N: Numerics>(c: u32, xs: &Vec<u32>, num: &mut Provider<N>) -> (res: (Vec<u32>, Ghost<Log>))
    ensures
        res.1@.1.len() == xs@.len(),
        res.1@.0 == Seq::new(xs@.len(), |j: int| NQuery::Mul(c, xs@[j])),
        res.0@ == floats(res.1@.1, xs@.len()),
        grew(*old(num), *final(num), res.1@),
{
    let mut row: Vec<u32> = Vec::new();
    let ghost mut q: Seq<NQuery> = Seq::empty();
    let ghost mut a: Seq<NAnswer> = Seq::empty();
    let mut j: usize = 0;
    let ghost p0 = *num;
    proof {
        lemma_grew_none(p0);
    }
    while j < xs.len()
        invariant
            j <= xs@.len(),
            a.len() == j,
            grew(p0, *num, (q, a)),
            q == Seq::new(j as nat, |k: int| NQuery::Mul(c, xs@[k])),
            row@ == floats(a, j as nat),
        decreases xs.len() - j,
    {
        let ghost prev = *num;
        let x = num.fmul(c, xs[j]);
        row.push(x);
        proof {
            lemma_grew_push(p0, prev, *num, (q, a), NQuery::Mul(c, xs@[j as int]), NAnswer::Float(x));
            q = q.push(NQuery::Mul(c, xs@[j as int]));
            a = a.push(NAnswer::Float(x));
        }
        j = j + 1;
        assert(q =~= Seq::new(j as nat, |k: int| NQuery::Mul(c, xs@[k])));
        assert(row@ =~= floats(a, j as nat));
    }
    (row, Ghost((q, a)))
}

/// `n` draws from the normal distribution with this mean and deviation.
fn sample_row<N: Numerics>(mean: u32, sd: u32, n: usize, num: &mut Provider<N>) -> (res: (Vec<u32>, Ghost<Log>))
    ensures
        res.1@.1.len() == n,
        res.1@.0 == Seq::new(n as nat, |j: int| NQuery::Sample(mean, sd)),
        res.0@ == floats(res.1@.1, n as nat),
        grew(*old(num), *final(num), res.1@),
{
    let mut row: Vec<u32> = Vec::new();
    let ghost mut q: Seq<NQuery> = Seq::empty();
    let ghost mut a: Seq<NAnswer> = Seq::empty();
    let mut j: usize = 0;
    let ghost p0 = *num;
    proof {
        lemma_grew_none(p0);
    }
    while j < n
        invariant
            j <= n,
            grew(p0, *num, (q, a)),
            a.len() == j,
            q == Seq::new(j as nat, |k: int| NQuery::Sample(mean, sd)),
            row@ == floats(a, j as nat),
        decreases n - j,
    {
        let ghost prev = *num;
        let x = num.sample_normal(mean, sd);
        row.push(x);
        proof {
            lemma_grew_push(p0, prev, *num, (q, a), NQuery::Sample(mean, sd), NAnswer::Float(x));
            q = q.push(NQuery::Sample(mean, sd));
            a = a.push(NAnswer::Float(x));
        }
        j = j + 1;
        assert(q =~= Seq::new(j as nat, |k: int| NQuery::Sample(mean, sd)));
        assert(row@ =~= floats(a, j as nat));
    }
    (row, Ghost((q, a)))
}

/// Where the rows of a grid of float questions come from.
pub(crate) enum GridSource<'a> {
    Pairwise(FOp, &'a Vec<Vec<u32>>, &'a Vec<Vec<u32>>),
    Scaled(u32, &'a Vec<Vec<u32>>),
    Outer(&'a Vec<u32>, &'a Vec<u32>),
    Normal(u32, u32, usize),
}

pub(crate) open spec fn grid_of(g: GridSource) -> Grid {
    match g {
        GridSource::Pairwise(op, m1, m2) => Grid::Pairwise(op, rows_model(m1@), rows_model(m2@)),
        GridSource::Scaled(c, m) => Grid::Scaled(c, rows_model(m@)),
        GridSource::Outer(v1, v2) => Grid::Outer(v1@, v2@),
        GridSource::Normal(mean, sd, n) => Grid::Normal(mean, sd, n as nat),
    }
}

/// The grid has at least `rows` rows, and each row can be computed.
pub(crate) open spec fn grid_ready(g: GridSource, rows: nat) -> bool {
    match g {
        GridSource::Pairwise(_, m1, m2) => rows <= m1@.len() && rows <= m2@.len() && forall|i: int|
            0 <= i < rows ==> #[trigger] m2@[i].len() >= m1@[i].len(),
        GridSource::Scaled(_, m) => rows <= m@.len(),
        GridSource::Outer(v1, _) => rows <= v1@.len(),
        GridSource::Normal(_, _, _) => true,
    }
}

/// Row `i` of the grid.
fn grid_row<N: Numerics>(g: &GridSource, i: usize, num: &mut Provider<N>) -> (res: (Vec<u32>, Ghost<Log>))
    requires
        grid_ready(*g, i as nat + 1),
    ensures
        forall|rest: Seq<NAnswer>| #[trigger] row_run(grid_of(*g), i as int, res.1@.1 + rest) == (res.0@, res.1@.0, rest),
        grew(*old(num), *final(num), res.1@),
{
    let ghost gg = grid_of(*g);
    let res = match g {
        GridSource::Pairwise(op, m1, m2) => {
            assert(m2@[i as int].len() >= m1@[i as int].len());
            pairwise_row(*op, &m1[i], &m2[i], num)
        },
        GridSource::Scaled(c, m) => scaled_row(*c, &m[i], num),
        GridSource::Outer(v1, v2) => scaled_row(v1[i], v2, num),
        GridSource::Normal(mean, sd, n) => sample_row(*mean, *sd, *n, num),
    };
    proof {
        assert(res.1@.0 =~= Seq::new(grid_cols(gg, i as int), |j: int| grid_query(gg, i as int, j)));
        assert forall|rest: Seq<NAnswer>| #[trigger] row_run(gg, i as int, res.1@.1 + rest) == (res.0@, res.1@.0, rest) by {
            lemma_row_run(gg, i as int, res.0@, res.1@.0, res.1@.1, rest);
        }
    }
    res
}

/// The first `rows` rows of the grid, top to bottom.
fn grid_exec<N: Numerics>(g: &GridSource, rows: usize, num: &mut Provider<N>) -> (res: (Vec<Vec<u32>>, Ghost<Log>))
    requires
        grid_ready(*g, rows as nat),
    ensures
        forall|rest: Seq<NAnswer>| #[trigger] grid_run(grid_of(*g), rows as nat, res.1@.1 + rest) == (
            rows_model(res.0@),
            res.1@.0,
            rest,
        ),
        grew(*old(num), *final(num), res.1@),
{
    let ghost gg = grid_of(*g);
    let ghost p0 = *num;
    let mut m: Vec<Vec<u32>> = Vec::new();
    let ghost mut q: Seq<NQuery> = Seq::empty();
    let ghost mut a: Seq<NAnswer> = Seq::empty();
    let mut i: usize = 0;
    proof {
        lemma_no_answers();
        lemma_grew_none(p0);
        assert(rows_model(m@) =~= Seq::<Seq<u32>>::empty());
    }
    while i < rows
        invariant
            i <= rows,
            gg == grid_of(*g),
            grid_ready(*g, rows as nat),
            forall|rest: Seq<NAnswer>| #[trigger] grid_run(gg, i as nat, a + rest) == (rows_model(m@), q, rest),
            grew(p0, *num, (q, a)),
        decreases rows - i,
    {
        let ghost prev = *num;
        let (row, log) = grid_row(g, i, num);
        let ghost m_old = m@;
        let ghost a_old = a;
        let ghost q_old = q;
        let ghost row_v = row@;
        m.push(row);
        i = i + 1;
        proof {
            lemma_grew_then(p0, prev, *num, (q_old, a_old), log@);
            q = q_old + log@.0;
            a = a_old + log@.1;
            assert(rows_model(m@) =~= rows_model(m_old).push(row_v));
            assert forall|rest: Seq<NAnswer>| #[trigger] grid_run(gg, i as nat, a + rest) == (rows_model(m@), q, rest) by {
                lemma_append_assoc(a_old, log@.1, rest);
                assert(grid_run(gg, (i - 1) as nat, a_old + (log@.1 + rest)) == (rows_model(m_old), q_old, log@.1 + rest));
                assert(row_run(gg, i - 1, log@.1 + rest) == (row_v, log@.0, rest));
            }
        }
    }
    (m, Ghost((q, a)))
}

/// The dot product of `row` and `v` over the entries of `v`, summed from
/// the left starting at `0.0`.
fn dot_exec<N: Numerics>(row: &Vec<u32>, v: &Vec<u32>, num: &mut Provider<N>) -> (res: (u32, Ghost<Log>))
    requires
        row@.len() >= v@.len(),
    ensures
        forall|rest: Seq<NAnswer>| #[trigger] dot_run(row@, v@, v@.len(), res.1@.1 + rest) == (res.0, res.1@.0, rest),
        grew(*old(num), *final(num), res.1@),
{
    let mut sum: u32 = 0;
    let ghost mut q: Seq<NQuery> = Seq::empty();
    let ghost mut a: Seq<NAnswer> = Seq::empty();
    let mut j: usize = 0;
    let ghost p0 = *num;
    proof {
        lemma_no_answers();
        lemma_grew_none(p0);
    }
    while j < v.len()
        invariant
            j <= v@.len(),
            row@.len() >= v@.len(),
            grew(p0, *num, (q, a)),
            forall|rest: Seq<NAnswer>| #[trigger] dot_run(row@, v@, j as nat, a + rest) == (sum, q, rest),
        decreases v.len() - j,
    {
        let ghost prev = *num;
        let p = num.fmul(row[j], v[j]);
        let ghost mid = *num;
        let s2 = num.fadd(sum, p);
        let ghost a_old = a;
        let ghost q_old = q;
        let ghost sum_old = sum;
        proof {
            lemma_grew_one(prev, mid, NQuery::Mul(row@[j as int], v@[j as int]), NAnswer::Float(p));
            lemma_grew_one(mid, *num, NQuery::Add(sum_old, p), NAnswer::Float(s2));
            lemma_grew_then(prev, mid, *num, (seq![NQuery::Mul(row@[j as int], v@[j as int])], seq![NAnswer::Float(p)]), (seq![NQuery::Add(sum_old, p)], seq![NAnswer::Float(s2)]));
            assert(seq![NQuery::Mul(row@[j as int], v@[j as int])] + seq![NQuery::Add(sum_old, p)] =~= seq![NQuery::Mul(row@[j as int], v@[j as int]), NQuery::Add(sum_old, p)]);
            assert(seq![NAnswer::Float(p)] + seq![NAnswer::Float(s2)] =~= seq![NAnswer::Float(p), NAnswer::Float(s2)]);
            lemma_grew_then(p0, prev, *num, (q_old, a_old), (seq![NQuery::Mul(row@[j as int], v@[j as int]), NQuery::Add(sum_old, p)], seq![NAnswer::Float(p), NAnswer::Float(s2)]));
            q = q_old + seq![NQuery::Mul(row@[j as int], v@[j as int]), NQuery::Add(sum_old, p)];
            a = a_old + seq![NAnswer::Float(p), NAnswer::Float(s2)];
        }
        sum = s2;
        j = j + 1;
        proof {
            assert forall|rest: Seq<NAnswer>| #[trigger] dot_run(row@, v@, j as nat, a + rest) == (sum, q, rest) by {
                let r2 = seq![NAnswer::Float(p), NAnswer::Float(s2)] + rest;
                lemma_append_assoc(a_old, seq![NAnswer::Float(p), NAnswer::Float(s2)], rest);
                assert(dot_run(row@, v@, (j - 1) as nat, a_old + r2) == (sum_old, q_old, r2));
                assert(r2[0] == NAnswer::Float(p));
                assert(r2[1] == NAnswer::Float(s2));
                assert(r2.skip(2) =~= rest);
            }
        }
    }
    (sum, Ghost((q, a)))
}

/// Whether every row of `m` has at least `n` entries.
fn rows_at_least_exec(m: &Vec<Vec<u32>>, n: usize) -> (res: bool)
    ensures
        res == rows_at_least(rows_model(m@), n as nat),
{
    let mut i: usize = 0;
    while i < m.len()
        invariant
            i <= m@.len(),
            forall|k: int| 0 <= k < i ==> #[trigger] m@[k]@.len() >= n,
        decreases m.len() - i,
    {
        if m[i].len() < n {
            assert(rows_model(m@)[i as int].len() < n);
            return false;
        }
        i = i + 1;
    }
    assert forall|k: int| 0 <= k < rows_model(m@).len() implies #[trigger] rows_model(m@)[k].len() >= n by {
        assert(m@[k]@.len() >= n);
    }
    true
}

/// Whether every row of `m2` is at least as long as the same row of `m1`.
fn rows_cover_exec(m1: &Vec<Vec<u32>>, m2: &Vec<Vec<u32>>) -> (res: bool)
    requires
        m1@.len() == m2@.len(),
    ensures
        res == rows_cover(rows_model(m1@), rows_model(m2@)),
{
    let mut i: usize = 0;
    while i < m1.len()
        invariant
            i <= m1@.len(),
            m1@.len() == m2@.len(),
            forall|k: int| 0 <= k < i ==> #[trigger] m2@[k]@.len() >= m1@[k]@.len(),
        decreases m1.len() - i,
    {
        if m2[i].len() < m1[i].len() {
            assert(rows_model(m2@)[i as int].len() < rows_model(m1@)[i as int].len());
            return false;
        }
        i = i + 1;
    }
    assert forall|k: int| 0 <= k < rows_model(m1@).len() implies #[trigger] rows_model(m2@)[k].len() >= rows_model(
        m1@,
    )[k].len() by {
        assert(m2@[k]@.len() >= m1@[k]@.len());
    }
    true
}

/// The product of the rows of `m` with `v`, one dot product per row.
fn mat_vec_exec<N: Numerics>(m: &Vec<Vec<u32>>, v: &Vec<u32>, num: &mut Provider<N>) -> (res: (Vec<u32>, Ghost<Log>))
    requires
        rows_at_least(rows_model(m@), v@.len()),
    ensures
        forall|rest: Seq<NAnswer>| #[trigger] mat_vec_run(rows_model(m@), v@, m@.len(), res.1@.1 + rest) == (
            res.0@,
            res.1@.0,
            rest,
        ),
        grew(*old(num), *final(num), res.1@),
{
    let ghost mm = rows_model(m@);
    let ghost p0 = *num;
    let mut out: Vec<u32> = Vec::new();
    let ghost mut q: Seq<NQuery> = Seq::empty();
    let ghost mut a: Seq<NAnswer> = Seq::empty();
    let mut i: usize = 0;
    proof {
        lemma_no_answers();
        lemma_grew_none(p0);
    }
    while i < m.len()
        invariant
            i <= m@.len(),
            mm == rows_model(m@),
            rows_at_least(mm, v@.len()),
            forall|rest: Seq<NAnswer>| #[trigger] mat_vec_run(mm, v@, i as nat, a + rest) == (out@, q, rest),
            grew(p0, *num, (q, a)),
        decreases m.len() - i,
    {
        assert(mm[i as int].len() >= v@.len());
        let ghost prev = *num;
        let (d, log) = dot_exec(&m[i], v, num);
        let ghost out_old = out@;
        let ghost a_old = a;
        let ghost q_old = q;
        out.push(d);
        i = i + 1;
        proof {
            lemma_grew_then(p0, prev, *num, (q_old, a_old), log@);
            q = q_old + log@.0;
            a = a_old + log@.1;
            assert forall|rest: Seq<NAnswer>| #[trigger] mat_vec_run(mm, v@, i as nat, a + rest) == (out@, q, rest) by {
                lemma_append_assoc(a_old, log@.1, rest);
                assert(mat_vec_run(mm, v@, (i - 1) as nat, a_old + (log@.1 + rest)) == (out_old, q_old, log@.1 + rest));
                assert(mm[i - 1] == m@[i - 1]@);
                assert(dot_run(m@[i - 1]@, v@, v@.len(), log@.1 + rest) == (d, log@.0, rest));
            }
        }
    }
    (out, Ghost((q, a)))
}

/// `n` zero entries.
fn zeros(n: usize) -> (res: Vec<u32>)
    ensures
        res@ == zero_seq(n as nat),
{
    let mut v: Vec<u32> = Vec::new();
    let mut i: usize = 0;
    while i < n
        invariant
            i <= n,
            v@ == Seq::new(i as nat, |k: int| 0u32),
        decreases n - i,
    {
        v.push(0);
        i = i + 1;
        assert(v@ =~= Seq::new(i as nat, |k: int| 0u32));
    }
    assert(v@ =~= zero_seq(n as nat));
    v
}

/// An `m` by `n` matrix of zeros.
fn zero_rows(m: usize, n: usize) -> (res: Vec<Vec<u32>>)
    ensures
        rows_model(res@) == zero_mat(m as nat, n as nat),
{
    let mut rows: Vec<Vec<u32>> = Vec::new();
    let mut i: usize = 0;
    while i < m
        invariant
            i <= m,
            rows@.len() == i,
            forall|k: int| 0 <= k < i ==> #[trigger] rows@[k]@ == zero_seq(n as nat),
        decreases m - i,
    {
        rows.push(zeros(n));
        i = i + 1;
    }
    assert(rows_model(rows@) =~= zero_mat(m as nat, n as nat));
    rows
}

/// The transpose of the first `m[0].len()` columns of `m`.
fn transpose_exec(m: &Vec<Vec<u32>>) -> (res: Vec<Vec<u32>>)
    requires
        m@.len() > 0,
        rows_at_least(rows_model(m@), m@[0]@.len()),
    ensures
        rows_model(res@) == transpose(rows_model(m@)),
{
    let ghost mm = rows_model(m@);
    let cols = m[0].len();
    let mut t: Vec<Vec<u32>> = Vec::new();
    let mut j: usize = 0;
    while j < cols
        invariant
            j <= cols,
            cols == m@[0]@.len(),
            mm == rows_model(m@),
            rows_at_least(mm, cols as nat),
            t@.len() == j,
            forall|k: int| 0 <= k < j ==> #[trigger] t@[k]@ == Seq::new(m@.len(), |i: int| mm[i][k]),
        decreases cols - j,
    {
        let mut row: Vec<u32> = Vec::new();
        let mut i: usize = 0;
        while i < m.len()
            invariant
                i <= m@.len(),
                j < cols,
                mm == rows_model(m@),
                rows_at_least(mm, cols as nat),
                row@ == Seq::new(i as nat, |k: int| mm[k][j as int]),
            decreases m.len() - i,
        {
            assert(mm[i as int].len() >= cols);
            row.push(m[i][j]);
            i = i + 1;
            assert(row@ =~= Seq::new(i as nat, |k: int| mm[k][j as int]));
        }
        t.push(row);
        j = j + 1;
    }
    assert(rows_model(t@) =~= transpose(mm));
    t
}

/// `prefix`, then `{:?}` of the value, then `suffix`.
fn value_msg(prefix: &str, v: &Value, suffix: &str) -> (res: String)
    ensures
        res@ == prefix@ + value_debug(value_model(*v)) + suffix@,
{
    let mut m = string_of(prefix);
    let d = debug_value(v);
    m.append(d.as_str());
    m.append(suffix);
    m
}

/// `Type error: {:?}` of the value.
fn type_error_msg(v: &Value) -> (res: String)
    ensures
        res@ == type_error(value_model(*v)),
{
    let mut m = string_of("Type error: ");
    let d = debug_value(v);
    m.append(d.as_str());
    m
}

/// The result of a step that asks nothing.
fn no_questions(r: EvalResult) -> (res: (EvalResult, Ghost<Log>))
    ensures
        res.0 == r,
        res.1@.0 == Seq::<NQuery>::empty(),
        res.1@.1 == Seq::<NAnswer>::empty(),
{
    (r, Ghost((Seq::empty(), Seq::empty())))
}

pub proof fn lemma_one_answer(x: NAnswer, rest: Seq<NAnswer>)
    ensures
        (seq![x] + rest)[0] == x,
        (seq![x] + rest).drop_first() == rest,
{
    assert((seq![x] + rest).drop_first() =~= rest);
}

fn vect_op_exec(k: BinKind) -> (res: FOp)
    ensures
        res == vect_op(k),
{
    match k {
        BinKind::VectPlus | BinKind::MatPlus => FOp::Add,
        BinKind::VectMinus | BinKind::MatMinus => FOp::Sub,
        _ => FOp::Mul,
    }
}

fn vect_length_msg(k: BinKind) -> (res: String)
    ensures
        res@ == vect_length_error(k),
{
    match k {
        BinKind::VectPlus => string_of("(<+>): Vectors have different lengths"),
        BinKind::VectMinus => string_of("(<->): Vectors have different lengths"),
        _ => string_of("(<*>): Vectors have different lengths"),
    }
}

fn mat_shape_msg(k: BinKind) -> (res: String)
    ensures
        res@ == mat_shape_error(k),
{
    match k {
        BinKind::MatPlus => string_of("(#+#): Matrices have different shape"),
        _ => string_of("(#-#): Matrices have different shape"),
    }
}

/// The operator `k` applied to two operands of the kinds it takes.
fn combine_exec<N: Numerics>(k: BinKind, v1: Value, v2: Value, num: &mut Provider<N>) -> (res: (EvalResult, Ghost<Log>))
    requires
        left_ok(k, value_model(v1)),
        right_ok(k, value_model(v2)),
    ensures
        forall|rest: Seq<NAnswer>| #[trigger] combine(k, value_model(v1), value_model(v2), res.1@.1 + rest) == (
            result_model(res.0),
            res.1@.0,
            rest,
        ),
        grew(*old(num), *final(num), res.1@),
{
    let ghost fv1 = value_model(v1);
    let ghost fv2 = value_model(v2);
    proof {
        lemma_no_answers();
        lemma_grew_none(*num);
    }
    match k {
        BinKind::Pair => no_questions(EvalResult::Val(Value::Pair(Box::new(v1), Box::new(v2)))),
        BinKind::Cons => match v2 {
            Value::List(l) => {
                let ghost fl = list_model(l);
                assert(fv2 == FValue::List(fl));
                let r = Value::List(L::Cons(Box::new(v1), Box::new(l)));
                assert(list_model(L::Cons(Box::new(v1), Box::new(l))) == FList::Cons(Box::new(fv1), Box::new(fl)));
                assert(value_model(r) == FValue::List(FList::Cons(Box::new(fv1), Box::new(fl))));
                no_questions(EvalResult::Val(r))
            },
            _ => {
                proof {
                    assert(false);
                }
                no_questions(EvalResult::Val(Value::Unt))
            },
        },
        BinKind::Plus | BinKind::Times | BinKind::EqInt => match (v1, v2) {
            (Value::NumInt(n1), Value::NumInt(n2)) => {
                let r = match k {
                    BinKind::Plus => Value::NumInt(n1.wrapping_add(n2)),
                    BinKind::Times => Value::NumInt(n1.wrapping_mul(n2)),
                    _ => Value::Bool(n1 == n2),
                };
                no_questions(EvalResult::Val(r))
            },
            _ => {
                proof {
                    assert(false);
                }
                no_questions(EvalResult::Val(Value::Unt))
            },
        },
        BinKind::PlusF | BinKind::TimesF | BinKind::DivF | BinKind::LTFloat | BinKind::GTFloat => match (v1, v2) {
            (Value::NumFloat(x1), Value::NumFloat(x2)) => {
                let ghost prev = *num;
                let (r, q, a) = match k {
                    BinKind::PlusF => {
                        let x = num.fadd(x1, x2);
                        (Value::NumFloat(x), Ghost(NQuery::Add(x1, x2)), Ghost(NAnswer::Float(x)))
                    },
                    BinKind::TimesF => {
                        let x = num.fmul(x1, x2);
                        (Value::NumFloat(x), Ghost(NQuery::Mul(x1, x2)), Ghost(NAnswer::Float(x)))
                    },
                    BinKind::DivF => {
                        let x = num.fdiv(x1, x2);
                        (Value::NumFloat(x), Ghost(NQuery::Div(x1, x2)), Ghost(NAnswer::Float(x)))
                    },
                    BinKind::LTFloat => {
                        let b = num.flt(x1, x2);
                        (Value::Bool(b), Ghost(NQuery::Lt(x1, x2)), Ghost(NAnswer::Truth(b)))
                    },
                    _ => {
                        let b = num.fgt(x1, x2);
                        (Value::Bool(b), Ghost(NQuery::Gt(x1, x2)), Ghost(NAnswer::Truth(b)))
                    },
                };
                proof {
                    lemma_grew_one(prev, *num, q@, a@);
                    assert forall|rest: Seq<NAnswer>| #[trigger] combine(k, fv1, fv2, seq![a@] + rest) == (
                        FResult::Val(value_model(r)),
                        seq![q@],
                        rest,
                    ) by {
                        lemma_one_answer(a@, rest);
                    }
                }
                (EvalResult::Val(r), Ghost((seq![q@], seq![a@])))
            },
            _ => {
                proof {
                    assert(false);
                }
                no_questions(EvalResult::Val(Value::Unt))
            },
        },
        BinKind::MatVectMul => match (v1, v2) {
            (Value::Mat(m), Value::Vect(v)) => {
                let ghost mm = rows_model(m@);
                if m.len() == 0 && v.len() == 0 {
                    no_questions(EvalResult::Val(Value::Vect(Vec::new())))
                } else if m.len() == 0 || m[0].len() != v.len() || !rows_at_least_exec(&m, v.len()) {
                    proof {
                        if m@.len() > 0 {
                            assert(mm[0] == m@[0]@);
                        }
                    }
                    no_questions(EvalResult::Wrong(string_of("Matrix and vector dimensions do not match")))
                } else {
                    assert(mm[0] == m@[0]@);
                    let (r, log) = mat_vec_exec(&m, &v, num);
                    (EvalResult::Val(Value::Vect(r)), log)
                }
            },
            _ => {
                proof {
                    assert(false);
                }
                no_questions(EvalResult::Val(Value::Unt))
            },
        },
        BinKind::ProdVecVec => match (v1, v2) {
            (Value::Vect(a), Value::Vect(b)) => {
                let g = GridSource::Outer(&a, &b);
                let (r, log) = grid_exec(&g, a.len(), num);
                (EvalResult::Val(Value::Mat(r)), log)
            },
            _ => {
                proof {
                    assert(false);
                }
                no_questions(EvalResult::Val(Value::Unt))
            },
        },
        BinKind::VectPlus | BinKind::VectMinus | BinKind::VectTimes => match (v1, v2) {
            (Value::Vect(a), Value::Vect(b)) => {
                if a.len() != b.len() {
                    no_questions(EvalResult::Wrong(vect_length_msg(k)))
                } else {
                    let op = vect_op_exec(k);
                    let (r, log) = pairwise_row(op, &a, &b, num);
                    proof {
                        let g = Grid::Pairwise(op, seq![a@], seq![b@]);
                        assert(log@.0 =~= Seq::new(grid_cols(g, 0), |j: int| grid_query(g, 0, j)));
                        assert forall|rest: Seq<NAnswer>| #[trigger] row_run(g, 0, log@.1 + rest) == (r@, log@.0, rest) by {
                            lemma_row_run(g, 0, r@, log@.0, log@.1, rest);
                        }
                    }
                    (EvalResult::Val(Value::Vect(r)), log)
                }
            },
            _ => {
                proof {
                    assert(false);
                }
                no_questions(EvalResult::Val(Value::Unt))
            },
        },
        BinKind::ScalarVect => match (v1, v2) {
            (Value::NumFloat(c), Value::Vect(v)) => {
                let (r, log) = scaled_row(c, &v, num);
                proof {
                    let g = Grid::Scaled(c, seq![v@]);
                    assert(log@.0 =~= Seq::new(grid_cols(g, 0), |j: int| grid_query(g, 0, j)));
                    assert forall|rest: Seq<NAnswer>| #[trigger] row_run(g, 0, log@.1 + rest) == (r@, log@.0, rest) by {
                        lemma_row_run(g, 0, r@, log@.0, log@.1, rest);
                    }
                }
                (EvalResult::Val(Value::Vect(r)), log)
            },
            _ => {
                proof {
                    assert(false);
                }
                no_questions(EvalResult::Val(Value::Unt))
            },
        },
        BinKind::MatPlus | BinKind::MatMinus => match (v1, v2) {
            (Value::Mat(m1), Value::Mat(m2)) => {
                let ghost mm1 = rows_model(m1@);
                let ghost mm2 = rows_model(m2@);
                if m1.len() != m2.len() || (m1.len() > 0 && m1[0].len() != m2[0].len()) || !rows_cover_exec(&m1, &m2) {
                    proof {
                        if m1@.len() > 0 && m2@.len() > 0 {
                            assert(mm1[0] == m1@[0]@);
                            assert(mm2[0] == m2@[0]@);
                        }
                    }
                    no_questions(EvalResult::Wrong(mat_shape_msg(k)))
                } else {
                    proof {
                        if m1@.len() > 0 {
                            assert(mm1[0] == m1@[0]@);
                            assert(mm2[0] == m2@[0]@);
                        }
                        assert forall|i: int| 0 <= i < m1@.len() implies #[trigger] m2@[i].len() >= m1@[i].len() by {
                            assert(mm2[i].len() >= mm1[i].len());
                        }
                    }
                    let op = vect_op_exec(k);
                    let g = GridSource::Pairwise(op, &m1, &m2);
                    let (r, log) = grid_exec(&g, m1.len(), num);
                    (EvalResult::Val(Value::Mat(r)), log)
                }
            },
            _ => {
                proof {
                    assert(false);
                }
                no_questions(EvalResult::Val(Value::Unt))
            },
        },
        BinKind::ScalarMat => match (v1, v2) {
            (Value::NumFloat(c), Value::Mat(m)) => {
                let g = GridSource::Scaled(c, &m);
                let (r, log) = grid_exec(&g, m.len(), num);
                (EvalResult::Val(Value::Mat(r)), log)
            },
            _ => {
                proof {
                    assert(false);
                }
                no_questions(EvalResult::Val(Value::Unt))
            },
        },
    }
}

/// A built-in function applied to its argument.
fn builtin_exec<N: Numerics>(fv: &Value, v: &Value, num: &mut Provider<N>) -> (res: (EvalResult, Ghost<Log>))
    requires
        applicable(value_model(*fv)),
        !(*fv is ClosureFunc),
    ensures
        forall|rest: Seq<NAnswer>| #[trigger] apply_builtin(value_model(*fv), value_model(*v), res.1@.1 + rest) == (
            result_model(res.0),
            res.1@.0,
            rest,
        ),
        grew(*old(num), *final(num), res.1@),
{
    proof {
        lemma_no_answers();
        lemma_grew_none(*num);
    }
    match fv {
        Value::Exp => match v {
            Value::NumFloat(x) => {
                let ghost prev = *num;
                let y = num.fexp(*x);
                proof {
                    lemma_grew_one(prev, *num, NQuery::Exp(*x), NAnswer::Float(y));
                    assert forall|rest: Seq<NAnswer>| #[trigger] apply_builtin(
                        value_model(*fv),
                        value_model(*v),
                        seq![NAnswer::Float(y)] + rest,
                    ) == (FResult::Val(FValue::NumFloat(y)), seq![NQuery::Exp(*x)], rest) by {
                        lemma_one_answer(NAnswer::Float(y), rest);
                    }
                }
                (EvalResult::Val(Value::NumFloat(y)), Ghost((seq![NQuery::Exp(*x)], seq![NAnswer::Float(y)])))
            },
            _ => no_questions(EvalResult::Wrong(type_error_msg(v))),
        },
        Value::VectZero => match v {
            Value::NumInt(n) => {
                if *n < 0 {
                    no_questions(EvalResult::Wrong(string_of("Execution error: negative vector size")))
                } else {
                    let z = zeros(*n as usize);
                    assert((*n as usize) as nat == *n as nat);
                    no_questions(EvalResult::Val(Value::Vect(z)))
                }
            },
            _ => no_questions(EvalResult::Wrong(type_error_msg(v))),
        },
        Value::VectSize => match v {
            Value::Vect(x) => {
                if x.len() > 0x7fff_ffff {
                    no_questions(EvalResult::Wrong(string_of("Execution error: vector too long")))
                } else {
                    no_questions(EvalResult::Val(Value::NumInt(x.len() as i32)))
                }
            },
            _ => no_questions(EvalResult::Wrong(type_error_msg(v))),
        },
        Value::MatZero => match v {
            Value::Pair(a, b) => {
                assert(value_model(*v) == FValue::Pair(Box::new(value_model(**a)), Box::new(value_model(**b))));
                match (&**a, &**b) {
                (Value::NumInt(m), Value::NumInt(n)) => {
                    if *m < 0 || *n < 0 {
                        no_questions(EvalResult::Wrong(string_of("Execution error: negative matrix size")))
                    } else {
                        let z = zero_rows(*m as usize, *n as usize);
                        assert((*m as usize) as nat == *m as nat);
                        assert((*n as usize) as nat == *n as nat);
                        no_questions(EvalResult::Val(Value::Mat(z)))
                    }
                },
                _ => no_questions(EvalResult::Wrong(type_error_msg(v))),
                }
            },
            _ => no_questions(EvalResult::Wrong(type_error_msg(v))),
        },
        Value::MatSize => match v {
            Value::Mat(m) => {
                if m.len() == 0 {
                    no_questions(EvalResult::Wrong(string_of("Execution error: size of an empty matrix")))
                } else if m.len() > 0x7fff_ffff || m[0].len() > 0x7fff_ffff {
                    assert(rows_model(m@)[0] == m@[0]@);
                    no_questions(EvalResult::Wrong(string_of("Execution error: matrix too large")))
                } else {
                    assert(rows_model(m@)[0] == m@[0]@);
                    assert((m.len() as i32) as int == m@.len());
                    assert((m[0].len() as i32) as int == m@[0]@.len());
                    assert((rows_model(m@).len() as i32) as int == m@.len());
                    assert((rows_model(m@)[0].len() as i32) as int == m@[0]@.len());
                    let rows = m.len() as i32;
                    let cols = m[0].len() as i32;
                    let r = Value::Pair(Box::new(Value::NumInt(rows)), Box::new(Value::NumInt(cols)));
                    assert(value_model(Value::NumInt(rows)) == FValue::NumInt(rows));
                    assert(value_model(Value::NumInt(cols)) == FValue::NumInt(cols));
                    assert(value_model(r) == FValue::Pair(
                        Box::new(FValue::NumInt(rows)),
                        Box::new(FValue::NumInt(cols)),
                    ));
                    no_questions(EvalResult::Val(r))
                }
            },
            _ => no_questions(EvalResult::Wrong(type_error_msg(v))),
        },
        _ => match v {
            Value::Mat(m) => {
                if m.len() == 0 {
                    no_questions(EvalResult::Wrong(string_of("Execution error: transpose of an empty matrix")))
                } else {
                    assert(rows_model(m@)[0] == m@[0]@);
                    if !rows_at_least_exec(m, m[0].len()) {
                        no_questions(
                            EvalResult::Wrong(string_of("Execution error: transpose of a matrix with short rows")),
                        )
                    } else {
                        let t = transpose_exec(m);
                        no_questions(EvalResult::Val(Value::Mat(t)))
                    }
                }
            },
            _ => no_questions(EvalResult::Wrong(type_error_msg(v))),
        },
    }
}

/// The value of variable `var`: from the environment (innermost binding
/// first), else a top-level function, else a top-level arrow.
fn eval_var_exec(var: &String, env: &Env, tl: (&Vec<TopLevelTerm>, &Vec<TopLevelCommand>)) -> (res: EvalResult)
    ensures
        result_model(res) == eval_var(var@, env_model(env@), tl.0@, tl.1@),
{
    let functions = tl.0;
    let arrows = tl.1;
    let mut i = env.len();
    assert(env@.subrange(0, i as int) =~= env@);
    while i > 0
        invariant
            i <= env@.len(),
            lookup_env(var@, env_model(env@)) == lookup_env(var@, env_model(env@.subrange(0, i as int))),
        decreases i,
    {
        proof {
            let sub = env@.subrange(0, i as int);
            assert(sub.drop_last() =~= env@.subrange(0, i - 1));
            assert(env_model(sub).drop_last() =~= env_model(sub.drop_last()));
        }
        let (v, val) = &env[i - 1];
        match v {
            Var::V(y) => {
                if *var == *y {
                    return EvalResult::Val(val.clone());
                }
            },
        }
        i = i - 1;
    }
    assert(env@.subrange(0, 0) =~= Seq::<(Var, Value)>::empty());
    let mut j: usize = 0;
    assert(functions@.subrange(0, functions@.len() as int) =~= functions@);
    while j < functions.len()
        invariant
            j <= functions@.len(),
            functions == tl.0,
            lookup_env(var@, env_model(env@)) is None,
            lookup_function(var@, functions@) == lookup_function(
                var@,
                functions@.subrange(j as int, functions@.len() as int),
            ),
        decreases functions.len() - j,
    {
        proof {
            let sub = functions@.subrange(j as int, functions@.len() as int);
            assert(sub.drop_first() =~= functions@.subrange(j + 1, functions@.len() as int));
            assert(sub[0] == functions@[j as int]);
        }
        let f = &functions[j];
        match (&f.0, &f.1) {
            (Var::V(fvar), VarWithType::VT(x, _)) => {
                if *var == *fvar {
                    let empty: Env = Vec::new();
                    assert(env_model(empty@) =~= Seq::<(Seq<char>, FValue)>::empty());
                    return EvalResult::Val(Value::ClosureFunc(empty, x.clone(), f.3.clone()));
                }
            },
        }
        j = j + 1;
    }
    assert(functions@.subrange(functions@.len() as int, functions@.len() as int) =~= Seq::<TopLevelTerm>::empty());
    let mut j: usize = 0;
    assert(arrows@.subrange(0, arrows@.len() as int) =~= arrows@);
    while j < arrows.len()
        invariant
            j <= arrows@.len(),
            functions == tl.0,
            arrows == tl.1,
            lookup_env(var@, env_model(env@)) is None,
            lookup_function(var@, functions@) is None,
            lookup_arrow(var@, arrows@) == lookup_arrow(var@, arrows@.subrange(j as int, arrows@.len() as int)),
        decreases arrows.len() - j,
    {
        proof {
            let sub = arrows@.subrange(j as int, arrows@.len() as int);
            assert(sub.drop_first() =~= arrows@.subrange(j + 1, arrows@.len() as int));
            assert(sub[0] == arrows@[j as int]);
        }
        let a = &arrows[j];
        match (&a.0, &a.1) {
            (Var::V(avar), VarWithType::VT(x, _)) => {
                if *var == *avar {
                    let empty: Env = Vec::new();
                    assert(env_model(empty@) =~= Seq::<(Seq<char>, FValue)>::empty());
                    let body = Term::CLam(a.2.clone(), Box::new(a.4.clone()));
                    assert(term_model(body) == FTerm::CLam(binder_model(a.2), Box::new(command_model(a.4))));
                    return EvalResult::Val(Value::ClosureFunc(empty, x.clone(), body));
                }
            },
        }
        j = j + 1;
    }
    assert(arrows@.subrange(arrows@.len() as int, arrows@.len() as int) =~= Seq::<TopLevelCommand>::empty());
    let mut m = string_of("Unbound variable: ");
    m.append("V(");
    let d = debug_str(var.as_str());
    m.append(d.as_str());
    m.append(")");
    m.append(", environment ");
    let de = debug_env(env);
    m.append(de.as_str());
    assert(m@ =~= "Unbound variable: "@ + var_debug(var@) + ", environment "@ + env_debug(env_model(env@)));
    EvalResult::Wrong(m)
}

fn left_ok_exec(k: BinKind, v: &Value) -> (res: bool)
    ensures
        res == left_ok(k, value_model(*v)),
{
    match k {
        BinKind::Pair | BinKind::Cons => true,
        BinKind::Plus | BinKind::Times | BinKind::EqInt => matches!(*v, Value::NumInt(..)),
        BinKind::PlusF | BinKind::TimesF | BinKind::DivF | BinKind::LTFloat | BinKind::GTFloat
        | BinKind::ScalarVect | BinKind::ScalarMat => matches!(*v, Value::NumFloat(..)),
        BinKind::MatVectMul | BinKind::MatPlus | BinKind::MatMinus => matches!(*v, Value::Mat(..)),
        BinKind::ProdVecVec | BinKind::VectPlus | BinKind::VectMinus | BinKind::VectTimes => matches!(*v, Value::Vect(..)),
    }
}

fn right_ok_exec(k: BinKind, v: &Value) -> (res: bool)
    ensures
        res == right_ok(k, value_model(*v)),
{
    match k {
        BinKind::Pair => true,
        BinKind::Cons => matches!(*v, Value::List(..)),
        BinKind::Plus | BinKind::Times | BinKind::EqInt => matches!(*v, Value::NumInt(..)),
        BinKind::PlusF | BinKind::TimesF | BinKind::DivF | BinKind::LTFloat | BinKind::GTFloat => matches!(*v, Value::NumFloat(..)),
        BinKind::MatVectMul | BinKind::ProdVecVec | BinKind::VectPlus | BinKind::VectMinus | BinKind::VectTimes
        | BinKind::ScalarVect => matches!(*v, Value::Vect(..)),
        BinKind::MatPlus | BinKind::MatMinus | BinKind::ScalarMat => matches!(*v, Value::Mat(..)),
    }
}

fn left_error_msg(k: BinKind, v: &Value) -> (res: String)
    ensures
        res@ == left_error(k, value_model(*v)),
{
    match k {
        BinKind::MatVectMul => value_msg("Type error: ", v, ", expected matrix"),
        _ => type_error_msg(v),
    }
}

fn right_error_msg(k: BinKind, v: &Value) -> (res: String)
    ensures
        res@ == right_error(k, value_model(*v)),
{
    match k {
        BinKind::Cons => value_msg("Type error: ", v, " is not a list"),
        _ => type_error_msg(v),
    }
}

fn applicable_exec(v: &Value) -> (res: bool)
    ensures
        res == applicable(value_model(*v)),
{
    match v {
        Value::ClosureFunc(..) | Value::Exp | Value::VectZero | Value::VectSize | Value::MatZero | Value::MatSize
        | Value::Transpose => true,
        _ => false,
    }
}

/// Two runs one after the other: the questions and answers of the first,
/// then those of the second.
pub open spec fn then(l1: Log, l2: Log) -> Log {
    (l1.0 + l2.0, l1.1 + l2.1)
}

/// The run of term `t` with the answers of `log` gives `r`, asking the
/// questions of `log`, whatever answers follow.
pub open spec fn term_run_ok(
    t: FTerm,
    env: FEnv,
    fs: Seq<TopLevelTerm>,
    ars: Seq<TopLevelCommand>,
    fuel: nat,
    r: FResult,
    log: Log,
) -> bool {
    forall|rest: Seq<NAnswer>| #[trigger] eval_term(t, env, fs, ars, fuel, log.1 + rest) == (r, log.0, rest)
}

/// Evaluates term `t` in environment `env` within the budget `fuel`.
fn term_logged<N: Numerics>(
    t: &Term,
    env: &Env,
    tl: (&Vec<TopLevelTerm>, &Vec<TopLevelCommand>),
    fuel: usize,
    num: &mut Provider<N>,
) -> (res: (EvalResult, Ghost<Log>))
    ensures
        grew(*old(num), *final(num), res.1@),
        term_run_ok(term_model(*t), env_model(env@), tl.0@, tl.1@, fuel as nat, result_model(res.0), res.1@),
    decreases fuel, 0nat,
{
    proof {
        lemma_grew_none(*num);
    }
    proof {
        lemma_no_answers();
    }
    if fuel == 0 {
        return no_questions(EvalResult::Wrong(string_of("evaluation budget exhausted")));
    }
    let f = fuel - 1;
    let ghost em = env_model(env@);
    let ghost fs = tl.0@;
    let ghost ars = tl.1@;
    match t {
        Term::Head(_) => proj_logged(t, env, tl, f, num),
        Term::Tail(_) => proj_logged(t, env, tl, f, num),
        Term::Fst(_) => proj_logged(t, env, tl, f, num),
        Term::Snd(_) => proj_logged(t, env, tl, f, num),
        Term::If(..) => if_logged(t, env, tl, f, num),
        Term::App(t1, t2) => {
            let res = app_logged(t1, t2, env, tl, f, num);
            proof {
                assert forall|rest: Seq<NAnswer>| #[trigger] eval_term(term_model(*t), em, fs, ars, fuel as nat, res.1@.1 + rest)
                    == (result_model(res.0), res.1@.0, rest) by {
                    assert(eval_app(term_model(**t1), term_model(**t2), em, fs, ars, f as nat, res.1@.1 + rest) == (
                        result_model(res.0),
                        res.1@.0,
                        rest,
                    ));
                }
            }
            res
        },
        Term::ApplicationVectEntrywise(t1, t2) => {
            let res = entrywise_logged(t1, t2, env, tl, f, num);
            proof {
                assert forall|rest: Seq<NAnswer>| #[trigger] eval_term(term_model(*t), em, fs, ars, fuel as nat, res.1@.1 + rest)
                    == (result_model(res.0), res.1@.0, rest) by {
                    assert(eval_entrywise(term_model(**t1), term_model(**t2), em, fs, ars, f as nat, res.1@.1 + rest) == (
                        result_model(res.0),
                        res.1@.0,
                        rest,
                    ));
                }
            }
            res
        },
        _ => {
            match bin_parts(t) {
                Some((k, a, b)) => {
                    let res = bin_logged(k, a, b, env, tl, f, num);
                    proof {
                        assert forall|rest: Seq<NAnswer>| #[trigger] eval_term(
                            term_model(*t),
                            em,
                            fs,
                            ars,
                            fuel as nat,
                            res.1@.1 + rest,
                        ) == (result_model(res.0), res.1@.0, rest) by {
                            lemma_eval_bin_term(k, term_model(*a), term_model(*b), em, fs, ars, fuel as nat, res.1@.1 + rest);
                            assert(eval_bin(k, term_model(*a), term_model(*b), em, fs, ars, f as nat, res.1@.1 + rest) == (
                                result_model(res.0),
                                res.1@.0,
                                rest,
                            ));
                        }
                    }
                    res
                },
                None => no_questions(leaf_value(t, env, tl, fuel)),
            }
        },
    }
}

/// The term former of an operator on two operands.
pub open spec fn bin_term(k: BinKind, a: FTerm, b: FTerm) -> FTerm {
    match k {
        BinKind::Pair => FTerm::Pair(Box::new(a), Box::new(b)),
        BinKind::Cons => FTerm::Cons(Box::new(a), Box::new(b)),
        BinKind::Plus => FTerm::Plus(Box::new(a), Box::new(b)),
        BinKind::Times => FTerm::Times(Box::new(a), Box::new(b)),
        BinKind::PlusF => FTerm::PlusF(Box::new(a), Box::new(b)),
        BinKind::TimesF => FTerm::TimesF(Box::new(a), Box::new(b)),
        BinKind::DivF => FTerm::DivF(Box::new(a), Box::new(b)),
        BinKind::MatVectMul => FTerm::MatVectMul(Box::new(a), Box::new(b)),
        BinKind::EqInt => FTerm::EqInt(Box::new(a), Box::new(b)),
        BinKind::LTFloat => FTerm::LTFloat(Box::new(a), Box::new(b)),
        BinKind::GTFloat => FTerm::GTFloat(Box::new(a), Box::new(b)),
        BinKind::ProdVecVec => FTerm::ProdVecVec(Box::new(a), Box::new(b)),
        BinKind::VectPlus => FTerm::VectEntrywisePlus(Box::new(a), Box::new(b)),
        BinKind::VectMinus => FTerm::VectEntrywiseMinus(Box::new(a), Box::new(b)),
        BinKind::VectTimes => FTerm::VectEntrywiseTimes(Box::new(a), Box::new(b)),
        BinKind::ScalarVect => FTerm::ScalarVect(Box::new(a), Box::new(b)),
        BinKind::MatPlus => FTerm::MatEntrywisePlus(Box::new(a), Box::new(b)),
        BinKind::MatMinus => FTerm::MatEntrywiseMinus(Box::new(a), Box::new(b)),
        BinKind::ScalarMat => FTerm::ScalarMat(Box::new(a), Box::new(b)),
    }
}

/// A term built by an operator on two operands evaluates them by `eval_bin`.
proof fn lemma_eval_bin_term(
    k: BinKind,
    a: FTerm,
    b: FTerm,
    env: FEnv,
    fs: Seq<TopLevelTerm>,
    ars: Seq<TopLevelCommand>,
    fuel: nat,
    ans: Seq<NAnswer>,
)
    requires
        fuel > 0,
    ensures
        eval_term(bin_term(k, a, b), env, fs, ars, fuel, ans) == eval_bin(k, a, b, env, fs, ars, (fuel - 1) as nat, ans),
{
}

/// The operator and operands of a term built by an operator on two operands.
fn bin_parts(t: &Term) -> (res: Option<(BinKind, &Term, &Term)>)
    ensures
        match res {
            Some((k, a, b)) => term_model(*t) == bin_term(k, term_model(*a), term_model(*b)),
            None => !(*t is Pair || *t is Cons || *t is Plus || *t is Times || *t is PlusF || *t is TimesF
                || *t is DivF || *t is MatVectMul || *t is EqInt || *t is LTFloat || *t is GTFloat
                || *t is ProdVecVec || *t is VectEntrywisePlus || *t is VectEntrywiseMinus
                || *t is VectEntrywiseTimes || *t is ScalarVect || *t is MatEntrywisePlus
                || *t is MatEntrywiseMinus || *t is ScalarMat),
        },
{
    match t {
        Term::Pair(a, b) => Some((BinKind::Pair, &**a, &**b)),
        Term::Cons(a, b) => Some((BinKind::Cons, &**a, &**b)),
        Term::Plus(a, b) => Some((BinKind::Plus, &**a, &**b)),
        Term::Times(a, b) => Some((BinKind::Times, &**a, &**b)),
        Term::PlusF(a, b) => Some((BinKind::PlusF, &**a, &**b)),
        Term::TimesF(a, b) => Some((BinKind::TimesF, &**a, &**b)),
        Term::DivF(a, b) => Some((BinKind::DivF, &**a, &**b)),
        Term::MatVectMul(a, b) => Some((BinKind::MatVectMul, &**a, &**b)),
        Term::EqInt(a, b) => Some((BinKind::EqInt, &**a, &**b)),
        Term::LTFloat(a, b) => Some((BinKind::LTFloat, &**a, &**b)),
        Term::GTFloat(a, b) => Some((BinKind::GTFloat, &**a, &**b)),
        Term::ProdVecVec(a, b) => Some((BinKind::ProdVecVec, &**a, &**b)),
        Term::VectEntrywisePlus(a, b) => Some((BinKind::VectPlus, &**a, &**b)),
        Term::VectEntrywiseMinus(a, b) => Some((BinKind::VectMinus, &**a, &**b)),
        Term::VectEntrywiseTimes(a, b) => Some((BinKind::VectTimes, &**a, &**b)),
        Term::ScalarVect(a, b) => Some((BinKind::ScalarVect, &**a, &**b)),
        Term::MatEntrywisePlus(a, b) => Some((BinKind::MatPlus, &**a, &**b)),
        Term::MatEntrywiseMinus(a, b) => Some((BinKind::MatMinus, &**a, &**b)),
        Term::ScalarMat(a, b) => Some((BinKind::ScalarMat, &**a, &**b)),
        _ => None,
    }
}

/// The terms whose value needs no evaluation of a subterm.
pub open spec fn is_leaf(t: Term) -> bool {
    t is NumInt || t is NumFloat || t is Bool || t is Unt || t is Vect || t is Mat || t is Exp || t is VectZero
        || t is VectSize || t is MatZero || t is MatSize || t is Transpose || t is Nil || t is Var || t is Lam
        || t is CLam
}

/// The value of a term that evaluates no subterm.
fn leaf_value(t: &Term, env: &Env, tl: (&Vec<TopLevelTerm>, &Vec<TopLevelCommand>), fuel: usize) -> (res: EvalResult)
    requires
        fuel > 0,
        !(*t is Head || *t is Tail || *t is Fst || *t is Snd || *t is If || *t is App || *t is ApplicationVectEntrywise
            || *t is Pair || *t is Cons || *t is Plus || *t is Times || *t is PlusF || *t is TimesF || *t is DivF
            || *t is MatVectMul || *t is EqInt || *t is LTFloat || *t is GTFloat || *t is ProdVecVec
            || *t is VectEntrywisePlus || *t is VectEntrywiseMinus || *t is VectEntrywiseTimes || *t is ScalarVect
            || *t is MatEntrywisePlus || *t is MatEntrywiseMinus || *t is ScalarMat),
    ensures
        forall|ans: Seq<NAnswer>| #[trigger] eval_term(term_model(*t), env_model(env@), tl.0@, tl.1@, fuel as nat, ans)
            == (result_model(res), Seq::<NQuery>::empty(), ans),
{
    match t {
        Term::NumInt(n) => EvalResult::Val(Value::NumInt(*n)),
        Term::NumFloat(x) => EvalResult::Val(Value::NumFloat(*x)),
        Term::Bool(b) => EvalResult::Val(Value::Bool(*b)),
        Term::Unt => EvalResult::Val(Value::Unt),
        Term::Vect(v) => EvalResult::Val(Value::Vect(clone_row(v))),
        Term::Mat(m) => EvalResult::Val(Value::Mat(clone_rows(m))),
        Term::Exp => EvalResult::Val(Value::Exp),
        Term::VectZero => EvalResult::Val(Value::VectZero),
        Term::VectSize => EvalResult::Val(Value::VectSize),
        Term::MatZero => EvalResult::Val(Value::MatZero),
        Term::MatSize => EvalResult::Val(Value::MatSize),
        Term::Transpose => EvalResult::Val(Value::Transpose),
        Term::Nil(ty) => {
            let l: L<Box<Value>> = L::Nil(ty.clone());
            assert(list_model(l) == FList::Nil(*ty));
            EvalResult::Val(Value::List(l))
        },
        Term::Var(Var::V(x)) => eval_var_exec(x, env, tl),
        Term::Lam(VarWithType::VT(vp, _), body) => EvalResult::Val(
            Value::ClosureFunc(clone_env(env), vp.clone(), (**body).clone()),
        ),
        Term::CLam(VarWithType::VT(vp, _), c) => EvalResult::Val(
            Value::ClosureArr(clone_env(env), vp.clone(), (**c).clone()),
        ),
        _ => {
            proof {
                assert(false);
            }
            EvalResult::Val(Value::Unt)
        },
    }
}

/// `head`, `tail`, `proj1` and `proj2`: one subterm, then a look at its value.
fn proj_logged<N: Numerics>(
    t: &Term,
    env: &Env,
    tl: (&Vec<TopLevelTerm>, &Vec<TopLevelCommand>),
    f: usize,
    num: &mut Provider<N>,
) -> (res: (EvalResult, Ghost<Log>))
    requires
        *t is Head || *t is Tail || *t is Fst || *t is Snd,
        f < usize::MAX,
    ensures
        grew(*old(num), *final(num), res.1@),
        term_run_ok(term_model(*t), env_model(env@), tl.0@, tl.1@, (f + 1) as nat, result_model(res.0), res.1@),
    decreases f, 2nat,
{
    proof {
        lemma_grew_none(*num);
    }
    let ghost em = env_model(env@);
    let ghost fs = tl.0@;
    let ghost ars = tl.1@;
    match t {
        Term::Head(s) => {
            let (r, log) = term_logged(s, env, tl, f, num);
            let ghost rm = result_model(r);
            let r2 = match r {
                EvalResult::Val(Value::List(L::Nil(ty))) => {
                    assert(list_model(L::Nil(ty)) == FList::Nil(ty));
                    EvalResult::Wrong(string_of("Execution error: head of empty list"))
                },
                EvalResult::Val(Value::List(L::Cons(h, tail))) => {
                    assert(list_model(L::Cons(h, tail)) == FList::Cons(Box::new(value_model(*h)), Box::new(list_model(*tail))));
                    EvalResult::Val(*h)
                },
                EvalResult::Val(w) => EvalResult::Wrong(value_msg("Type error: ", &w, " is not a list")),
                wrong => wrong,
            };
            proof {
                assert forall|rest: Seq<NAnswer>| #[trigger] eval_term(term_model(*t), em, fs, ars, (f + 1) as nat, log@.1 + rest)
                    == (result_model(r2), log@.0, rest) by {
                    assert(eval_term(term_model(**s), em, fs, ars, f as nat, log@.1 + rest) == (rm, log@.0, rest));
                }
            }
            (r2, log)
        },
        Term::Tail(s) => {
            let (r, log) = term_logged(s, env, tl, f, num);
            let ghost rm = result_model(r);
            let r2 = match r {
                EvalResult::Val(Value::List(L::Nil(ty))) => {
                    assert(list_model(L::Nil(ty)) == FList::Nil(ty));
                    EvalResult::Wrong(string_of("Execution error: tail of empty list"))
                },
                EvalResult::Val(Value::List(L::Cons(h, tail))) => {
                    assert(list_model(L::Cons(h, tail)) == FList::Cons(Box::new(value_model(*h)), Box::new(list_model(*tail))));
                    EvalResult::Val(Value::List(*tail))
                },
                EvalResult::Val(w) => EvalResult::Wrong(value_msg("Type error: ", &w, " is not a list")),
                wrong => wrong,
            };
            proof {
                assert forall|rest: Seq<NAnswer>| #[trigger] eval_term(term_model(*t), em, fs, ars, (f + 1) as nat, log@.1 + rest)
                    == (result_model(r2), log@.0, rest) by {
                    assert(eval_term(term_model(**s), em, fs, ars, f as nat, log@.1 + rest) == (rm, log@.0, rest));
                }
            }
            (r2, log)
        },
        Term::Fst(s) => {
            let (r, log) = term_logged(s, env, tl, f, num);
            let ghost rm = result_model(r);
            let r2 = match r {
                EvalResult::Val(Value::Pair(v1, _)) => EvalResult::Val(*v1),
                EvalResult::Val(w) => EvalResult::Wrong(type_error_msg(&w)),
                wrong => wrong,
            };
            proof {
                assert forall|rest: Seq<NAnswer>| #[trigger] eval_term(term_model(*t), em, fs, ars, (f + 1) as nat, log@.1 + rest)
                    == (result_model(r2), log@.0, rest) by {
                    assert(eval_term(term_model(**s), em, fs, ars, f as nat, log@.1 + rest) == (rm, log@.0, rest));
                }
            }
            (r2, log)
        },
        Term::Snd(s) => {
            let (r, log) = term_logged(s, env, tl, f, num);
            let ghost rm = result_model(r);
            let r2 = match r {
                EvalResult::Val(Value::Pair(_, v2)) => EvalResult::Val(*v2),
                EvalResult::Val(w) => EvalResult::Wrong(type_error_msg(&w)),
                wrong => wrong,
            };
            proof {
                assert forall|rest: Seq<NAnswer>| #[trigger] eval_term(term_model(*t), em, fs, ars, (f + 1) as nat, log@.1 + rest)
                    == (result_model(r2), log@.0, rest) by {
                    assert(eval_term(term_model(**s), em, fs, ars, f as nat, log@.1 + rest) == (rm, log@.0, rest));
                }
            }
            (r2, log)
        },
        _ => {
            proof {
                assert(false);
            }
            no_questions(EvalResult::Val(Value::Unt))
        },
    }
}

/// `if c then a else b`.
fn if_logged<N: Numerics>(
    t: &Term,
    env: &Env,
    tl: (&Vec<TopLevelTerm>, &Vec<TopLevelCommand>),
    f: usize,
    num: &mut Provider<N>,
) -> (res: (EvalResult, Ghost<Log>))
    requires
        *t is If,
        f < usize::MAX,
    ensures
        grew(*old(num), *final(num), res.1@),
        term_run_ok(term_model(*t), env_model(env@), tl.0@, tl.1@, (f + 1) as nat, result_model(res.0), res.1@),
    decreases f, 2nat,
{
    proof {
        lemma_grew_none(*num);
    }
    let ghost em = env_model(env@);
    let ghost fs = tl.0@;
    let ghost ars = tl.1@;
    let (c, a, b) = match t {
        Term::If(c, a, b) => (c, a, b),
        _ => {
            proof {
                assert(false);
            }
            return no_questions(EvalResult::Val(Value::Unt));
        },
    };
    let (r, log) = term_logged(c, env, tl, f, num);
    let ghost p1 = *num;
    let ghost rm = result_model(r);
    match r {
        EvalResult::Val(Value::Bool(cond)) => {
            let branch = if cond {
                a
            } else {
                b
            };
            let (r2, log2) = term_logged(branch, env, tl, f, num);
            proof {
                assert forall|rest: Seq<NAnswer>| #[trigger] eval_term(
                    term_model(*t),
                    em,
                    fs,
                    ars,
                    (f + 1) as nat,
                    then(log@, log2@).1 + rest,
                ) == (result_model(r2), then(log@, log2@).0, rest) by {
                    lemma_append_assoc(log@.1, log2@.1, rest);
                    assert(eval_term(term_model(**c), em, fs, ars, f as nat, log@.1 + (log2@.1 + rest)) == (
                        rm,
                        log@.0,
                        log2@.1 + rest,
                    ));
                    assert(eval_term(term_model(**branch), em, fs, ars, f as nat, log2@.1 + rest) == (
                        result_model(r2),
                        log2@.0,
                        rest,
                    ));
                }
            }
            proof {
                lemma_grew_then(*old(num), p1, *num, log@, log2@);
            }
            (r2, Ghost(then(log@, log2@)))
        },
        r => {
            let r2 = match r {
                EvalResult::Val(w) => EvalResult::Wrong(type_error_msg(&w)),
                wrong => wrong,
            };
            proof {
                assert forall|rest: Seq<NAnswer>| #[trigger] eval_term(term_model(*t), em, fs, ars, (f + 1) as nat, log@.1 + rest)
                    == (result_model(r2), log@.0, rest) by {
                    assert(eval_term(term_model(**c), em, fs, ars, f as nat, log@.1 + rest) == (rm, log@.0, rest));
                }
            }
            (r2, log)
        },
    }
}

/// An operator on two operands: the left one is evaluated and checked
/// first, then the right one.
fn bin_logged<N: Numerics>(
    k: BinKind,
    t1: &Term,
    t2: &Term,
    env: &Env,
    tl: (&Vec<TopLevelTerm>, &Vec<TopLevelCommand>),
    f: usize,
    num: &mut Provider<N>,
) -> (res: (EvalResult, Ghost<Log>))
    ensures
        grew(*old(num), *final(num), res.1@),
        forall|rest: Seq<NAnswer>| #[trigger] eval_bin(
            k,
            term_model(*t1),
            term_model(*t2),
            env_model(env@),
            tl.0@,
            tl.1@,
            f as nat,
            res.1@.1 + rest,
        ) == (result_model(res.0), res.1@.0, rest),
    decreases f, 2nat,
{
    proof {
        lemma_grew_none(*num);
    }
    let ghost em = env_model(env@);
    let ghost fs = tl.0@;
    let ghost ars = tl.1@;
    let ghost m1 = term_model(*t1);
    let ghost m2 = term_model(*t2);
    let (r1, log1) = term_logged(t1, env, tl, f, num);
    let ghost p1 = *num;
    let ghost rm1 = result_model(r1);
    let v1 = match r1 {
        EvalResult::Val(v1) => v1,
        wrong => {
            proof {
                assert forall|rest: Seq<NAnswer>| #[trigger] eval_bin(k, m1, m2, em, fs, ars, f as nat, log1@.1 + rest)
                    == (rm1, log1@.0, rest) by {
                    assert(eval_term(m1, em, fs, ars, f as nat, log1@.1 + rest) == (rm1, log1@.0, rest));
                }
            }
            return (wrong, log1);
        },
    };
    let ghost fv1 = value_model(v1);
    if !left_ok_exec(k, &v1) {
        let r = EvalResult::Wrong(left_error_msg(k, &v1));
        proof {
            assert forall|rest: Seq<NAnswer>| #[trigger] eval_bin(k, m1, m2, em, fs, ars, f as nat, log1@.1 + rest) == (
                result_model(r),
                log1@.0,
                rest,
            ) by {
                assert(eval_term(m1, em, fs, ars, f as nat, log1@.1 + rest) == (FResult::Val(fv1), log1@.0, rest));
            }
        }
        return (r, log1);
    }
    let (r2, log2) = term_logged(t2, env, tl, f, num);
    let ghost rm2 = result_model(r2);
    let ghost two = then(log1@, log2@);
    let ghost p2 = *num;
    proof {
        lemma_grew_then(*old(num), p1, p2, log1@, log2@);
        lemma_grew_none(p2);
    }
    let v2 = match r2 {
        EvalResult::Val(v2) => v2,
        wrong => {
            proof {
                assert forall|rest: Seq<NAnswer>| #[trigger] eval_bin(k, m1, m2, em, fs, ars, f as nat, two.1 + rest)
                    == (rm2, two.0, rest) by {
                    lemma_append_assoc(log1@.1, log2@.1, rest);
                    assert(eval_term(m1, em, fs, ars, f as nat, log1@.1 + (log2@.1 + rest)) == (
                        FResult::Val(fv1),
                        log1@.0,
                        log2@.1 + rest,
                    ));
                    assert(eval_term(m2, em, fs, ars, f as nat, log2@.1 + rest) == (rm2, log2@.0, rest));
                }
            }
            return (wrong, Ghost(two));
        },
    };
    let ghost fv2 = value_model(v2);
    if !right_ok_exec(k, &v2) {
        let r = EvalResult::Wrong(right_error_msg(k, &v2));
        proof {
            assert forall|rest: Seq<NAnswer>| #[trigger] eval_bin(k, m1, m2, em, fs, ars, f as nat, two.1 + rest) == (
                result_model(r),
                two.0,
                rest,
            ) by {
                lemma_append_assoc(log1@.1, log2@.1, rest);
                assert(eval_term(m1, em, fs, ars, f as nat, log1@.1 + (log2@.1 + rest)) == (
                    FResult::Val(fv1),
                    log1@.0,
                    log2@.1 + rest,
                ));
                assert(eval_term(m2, em, fs, ars, f as nat, log2@.1 + rest) == (FResult::Val(fv2), log2@.0, rest));
            }
        }
        return (r, Ghost(two));
    }
    let (r3, log3) = combine_exec(k, v1, v2, num);
    let ghost total = then(two, log3@);
    proof {
        lemma_grew_then(*old(num), p2, *num, two, log3@);
    }
    proof {
        assert forall|rest: Seq<NAnswer>| #[trigger] eval_bin(k, m1, m2, em, fs, ars, f as nat, total.1 + rest) == (
            result_model(r3),
            total.0,
            rest,
        ) by {
            lemma_append_assoc(log1@.1, log2@.1, log3@.1 + rest);
            lemma_append_assoc(log1@.1 + log2@.1, log3@.1, rest);
            assert(eval_term(m1, em, fs, ars, f as nat, log1@.1 + (log2@.1 + (log3@.1 + rest))) == (
                FResult::Val(fv1),
                log1@.0,
                log2@.1 + (log3@.1 + rest),
            ));
            assert(eval_term(m2, em, fs, ars, f as nat, log2@.1 + (log3@.1 + rest)) == (
                FResult::Val(fv2),
                log2@.0,
                log3@.1 + rest,
            ));
            assert(combine(k, fv1, fv2, log3@.1 + rest) == (result_model(r3), log3@.0, rest));
        }
    }
    (r3, Ghost(total))
}

/// Application: a closure runs its body with its pattern bound to the
/// argument; a built-in function computes; anything else is an error.
fn app_logged<N: Numerics>(
    t1: &Term,
    t2: &Term,
    env: &Env,
    tl: (&Vec<TopLevelTerm>, &Vec<TopLevelCommand>),
    f: usize,
    num: &mut Provider<N>,
) -> (res: (EvalResult, Ghost<Log>))
    ensures
        grew(*old(num), *final(num), res.1@),
        forall|rest: Seq<NAnswer>| #[trigger] eval_app(
            term_model(*t1),
            term_model(*t2),
            env_model(env@),
            tl.0@,
            tl.1@,
            f as nat,
            res.1@.1 + rest,
        ) == (result_model(res.0), res.1@.0, rest),
    decreases f, 2nat,
{
    proof {
        lemma_grew_none(*num);
    }
    let ghost em = env_model(env@);
    let ghost fs = tl.0@;
    let ghost ars = tl.1@;
    let ghost m1 = term_model(*t1);
    let ghost m2 = term_model(*t2);
    let (r1, log1) = term_logged(t1, env, tl, f, num);
    let ghost p1 = *num;
    let ghost rm1 = result_model(r1);
    let v1 = match r1 {
        EvalResult::Val(v1) => v1,
        wrong => {
            proof {
                assert forall|rest: Seq<NAnswer>| #[trigger] eval_app(m1, m2, em, fs, ars, f as nat, log1@.1 + rest) == (
                    rm1,
                    log1@.0,
                    rest,
                ) by {
                    assert(eval_term(m1, em, fs, ars, f as nat, log1@.1 + rest) == (rm1, log1@.0, rest));
                }
            }
            return (wrong, log1);
        },
    };
    let ghost fv1 = value_model(v1);
    if !applicable_exec(&v1) {
        let r = EvalResult::Wrong(type_error_msg(&v1));
        proof {
            assert forall|rest: Seq<NAnswer>| #[trigger] eval_app(m1, m2, em, fs, ars, f as nat, log1@.1 + rest) == (
                result_model(r),
                log1@.0,
                rest,
            ) by {
                assert(eval_term(m1, em, fs, ars, f as nat, log1@.1 + rest) == (FResult::Val(fv1), log1@.0, rest));
            }
        }
        return (r, log1);
    }
    let (r2, log2) = term_logged(t2, env, tl, f, num);
    let ghost rm2 = result_model(r2);
    let ghost two = then(log1@, log2@);
    let ghost p2 = *num;
    proof {
        lemma_grew_then(*old(num), p1, p2, log1@, log2@);
        lemma_grew_none(p2);
    }
    let v2 = match r2 {
        EvalResult::Val(v2) => v2,
        wrong => {
            proof {
                assert forall|rest: Seq<NAnswer>| #[trigger] eval_app(m1, m2, em, fs, ars, f as nat, two.1 + rest) == (
                    rm2,
                    two.0,
                    rest,
                ) by {
                    lemma_append_assoc(log1@.1, log2@.1, rest);
                    assert(eval_term(m1, em, fs, ars, f as nat, log1@.1 + (log2@.1 + rest)) == (
                        FResult::Val(fv1),
                        log1@.0,
                        log2@.1 + rest,
                    ));
                    assert(eval_term(m2, em, fs, ars, f as nat, log2@.1 + rest) == (rm2, log2@.0, rest));
                }
            }
            return (wrong, Ghost(two));
        },
    };
    let ghost fv2 = value_model(v2);
    let (r3, log3) = match v1 {
        Value::ClosureFunc(env1, vp, body) => {
            let ghost e1m = env_model(env1@);
            let ghost bm = term_model(body);
            let ghost b = crate::interpreter::bind_pattern(var_prod_model(vp), fv2);
            let mut env1 = env1;
            match bind_var_prod(&mut env1, &vp, &v2) {
                Ok(()) => {
                    let (r3, log3) = term_logged(&body, &env1, tl, f, num);
                    proof {
                        assert forall|rest: Seq<NAnswer>| #[trigger] eval_term(bm, e1m + b.1, fs, ars, f as nat, log3@.1 + rest)
                            == (result_model(r3), log3@.0, rest) by {
                            assert(eval_term(bm, env_model(env1@), fs, ars, f as nat, log3@.1 + rest) == (
                                result_model(r3),
                                log3@.0,
                                rest,
                            ));
                        }
                    }
                    (r3, log3)
                },
                Err(()) => no_questions(EvalResult::Wrong(string_of("failed binding product var"))),
            }
        },
        other => builtin_exec(&other, &v2, num),
    };
    let ghost total = then(two, log3@);
    proof {
        lemma_grew_then(*old(num), p2, *num, two, log3@);
    }
    proof {
        assert forall|rest: Seq<NAnswer>| #[trigger] eval_app(m1, m2, em, fs, ars, f as nat, total.1 + rest) == (
            result_model(r3),
            total.0,
            rest,
        ) by {
            lemma_append_assoc(log1@.1, log2@.1, log3@.1 + rest);
            lemma_append_assoc(log1@.1 + log2@.1, log3@.1, rest);
            assert(eval_term(m1, em, fs, ars, f as nat, log1@.1 + (log2@.1 + (log3@.1 + rest))) == (
                FResult::Val(fv1),
                log1@.0,
                log2@.1 + (log3@.1 + rest),
            ));
            assert(eval_term(m2, em, fs, ars, f as nat, log2@.1 + (log3@.1 + rest)) == (
                FResult::Val(fv2),
                log2@.0,
                log3@.1 + rest,
            ));
            match fv1 {
                FValue::ClosureFunc(e1m, vpm, bm) => {
                    let b = crate::interpreter::bind_pattern(vpm, fv2);
                    if b.0 {
                        assert(eval_term(bm, e1m + b.1, fs, ars, f as nat, log3@.1 + rest) == (
                            result_model(r3),
                            log3@.0,
                            rest,
                        ));
                    }
                },
                _ => {
                    assert(apply_builtin(fv1, fv2, log3@.1 + rest) == (result_model(r3), log3@.0, rest));
                },
            }
        }
    }
    (r3, Ghost(total))
}

/// The model of the outcome of `$>`: the entries computed, or an error.
pub open spec fn entries_model(r: Result<Vec<u32>, String>) -> Result<Seq<u32>, Seq<char>> {
    match r {
        Ok(v) => Ok(v@),
        Err(e) => Err(e@),
    }
}

/// The closure body run with `x` bound to each entry of `v`, left to
/// right; each run must give a float.
fn each_logged<N: Numerics>(
    body: &Term,
    env1: &Env,
    x: &String,
    v: &Vec<u32>,
    tl: (&Vec<TopLevelTerm>, &Vec<TopLevelCommand>),
    f: usize,
    num: &mut Provider<N>,
) -> (res: (Result<Vec<u32>, String>, Ghost<Log>))
    ensures
        grew(*old(num), *final(num), res.1@),
        forall|rest: Seq<NAnswer>| #[trigger] apply_each(
            term_model(*body),
            env_model(env1@),
            x@,
            v@,
            v@.len(),
            tl.0@,
            tl.1@,
            f as nat,
            res.1@.1 + rest,
        ) == (entries_model(res.0), res.1@.0, rest),
    decreases f, 1nat,
{
    proof {
        lemma_grew_none(*num);
    }
    let ghost bm = term_model(*body);
    let ghost e1m = env_model(env1@);
    let ghost fs = tl.0@;
    let ghost ars = tl.1@;
    let mut out: Vec<u32> = Vec::new();
    let mut env_i = clone_env(env1);
    let ghost mut q: Seq<NQuery> = Seq::empty();
    let ghost mut a: Seq<NAnswer> = Seq::empty();
    proof {
        lemma_no_answers();
    }
    let mut i: usize = 0;
    while i < v.len()
        invariant
            i <= v@.len(),
            bm == term_model(*body),
            e1m == env_model(env1@),
            fs == tl.0@,
            ars == tl.1@,
            env_model(env_i@) == e1m,
            forall|rest: Seq<NAnswer>| #[trigger] apply_each(bm, e1m, x@, v@, i as nat, fs, ars, f as nat, a + rest)
                == (Ok::<Seq<u32>, Seq<char>>(out@), q, rest),
            grew(*old(num), *num, (q, a)),
        decreases v.len() - i,
    {
        let ghost before = env_i@;
        let entry = (Var::V(x.clone()), Value::NumFloat(v[i]));
        env_i.push(entry);
        proof {
            lemma_env_model_push(before, entry);
        }
        let ghost bound = env_model(env_i@);
        assert(bound == e1m.push((x@, FValue::NumFloat(v@[i as int]))));
        let ghost prev = *num;
        let (r, log) = term_logged(body, &env_i, tl, f, num);
        env_i.pop();
        assert(env_i@ =~= before);
        let ghost q_old = q;
        let ghost a_old = a;
        let ghost out_old = out@;
        proof {
            lemma_grew_then(*old(num), prev, *num, (q_old, a_old), log@);
            q = q_old + log@.0;
            a = a_old + log@.1;
        }
        match r {
            EvalResult::Val(Value::NumFloat(y)) => {
                out.push(y);
                i = i + 1;
                proof {
                    assert forall|rest: Seq<NAnswer>| #[trigger] apply_each(
                        bm,
                        e1m,
                        x@,
                        v@,
                        i as nat,
                        fs,
                        ars,
                        f as nat,
                        a + rest,
                    ) == (Ok::<Seq<u32>, Seq<char>>(out@), q, rest) by {
                        lemma_append_assoc(a_old, log@.1, rest);
                        assert(apply_each(bm, e1m, x@, v@, (i - 1) as nat, fs, ars, f as nat, a_old + (log@.1 + rest))
                            == (Ok::<Seq<u32>, Seq<char>>(out_old), q_old, log@.1 + rest));
                        assert(eval_term(bm, bound, fs, ars, f as nat, log@.1 + rest) == (
                            FResult::Val(FValue::NumFloat(y)),
                            log@.0,
                            rest,
                        ));
                    }
                }
            },
            EvalResult::Val(_) => {
                let e: Result<Vec<u32>, String> = Err(string_of("Type error: expected float"));
                proof {
                    assert forall|rest: Seq<NAnswer>| #[trigger] apply_each(
                        bm,
                        e1m,
                        x@,
                        v@,
                        (i + 1) as nat,
                        fs,
                        ars,
                        f as nat,
                        a + rest,
                    ) == (entries_model(e), q, rest) by {
                        lemma_append_assoc(a_old, log@.1, rest);
                        assert(apply_each(bm, e1m, x@, v@, i as nat, fs, ars, f as nat, a_old + (log@.1 + rest))
                            == (Ok::<Seq<u32>, Seq<char>>(out_old), q_old, log@.1 + rest));
                        assert(eval_term(bm, bound, fs, ars, f as nat, log@.1 + rest) == (result_model(r), log@.0, rest));
                    }
                    lemma_apply_each_stops(bm, e1m, x@, v@, (i + 1) as nat, fs, ars, f as nat, q, a);
                }
                return (e, Ghost((q, a)));
            },
            EvalResult::Wrong(msg) => {
                let e: Result<Vec<u32>, String> = Err(msg);
                proof {
                    assert forall|rest: Seq<NAnswer>| #[trigger] apply_each(
                        bm,
                        e1m,
                        x@,
                        v@,
                        (i + 1) as nat,
                        fs,
                        ars,
                        f as nat,
                        a + rest,
                    ) == (entries_model(e), q, rest) by {
                        lemma_append_assoc(a_old, log@.1, rest);
                        assert(apply_each(bm, e1m, x@, v@, i as nat, fs, ars, f as nat, a_old + (log@.1 + rest))
                            == (Ok::<Seq<u32>, Seq<char>>(out_old), q_old, log@.1 + rest));
                        assert(eval_term(bm, bound, fs, ars, f as nat, log@.1 + rest) == (
                            FResult::Wrong(msg@),
                            log@.0,
                            rest,
                        ));
                    }
                    lemma_apply_each_stops(bm, e1m, x@, v@, (i + 1) as nat, fs, ars, f as nat, q, a);
                }
                return (e, Ghost((q, a)));
            },
        }
    }
    (Ok(out), Ghost((q, a)))
}

/// Once an application of `$>` fails, the later entries are not run: the
/// failure of the first `n` entries is the failure of all of them.
proof fn lemma_apply_each_stops(
    body: FTerm,
    env1: FEnv,
    x: Seq<char>,
    v: Seq<u32>,
    n: nat,
    fs: Seq<TopLevelTerm>,
    ars: Seq<TopLevelCommand>,
    f: nat,
    q: Seq<NQuery>,
    a: Seq<NAnswer>,
)
    requires
        n <= v.len(),
        forall|rest: Seq<NAnswer>| #[trigger] apply_each(body, env1, x, v, n, fs, ars, f, a + rest).0 is Err
            && apply_each(body, env1, x, v, n, fs, ars, f, a + rest).1 == q
            && apply_each(body, env1, x, v, n, fs, ars, f, a + rest).2 == rest,
    ensures
        forall|rest: Seq<NAnswer>| #[trigger] apply_each(body, env1, x, v, v.len(), fs, ars, f, a + rest) == apply_each(
            body,
            env1,
            x,
            v,
            n,
            fs,
            ars,
            f,
            a + rest,
        ),
    decreases v.len() - n,
{
    if n < v.len() {
        assert forall|rest: Seq<NAnswer>| #[trigger] apply_each(body, env1, x, v, n + 1, fs, ars, f, a + rest).0 is Err
            && apply_each(body, env1, x, v, n + 1, fs, ars, f, a + rest).1 == q
            && apply_each(body, env1, x, v, n + 1, fs, ars, f, a + rest).2 == rest by {
            assert(apply_each(body, env1, x, v, n + 1, fs, ars, f, a + rest) == apply_each(
                body,
                env1,
                x,
                v,
                n,
                fs,
                ars,
                f,
                a + rest,
            ));
        }
        lemma_apply_each_stops(body, env1, x, v, n + 1, fs, ars, f, q, a);
        assert forall|rest: Seq<NAnswer>| #[trigger] apply_each(body, env1, x, v, v.len(), fs, ars, f, a + rest)
            == apply_each(body, env1, x, v, n, fs, ars, f, a + rest) by {
            assert(apply_each(body, env1, x, v, n + 1, fs, ars, f, a + rest) == apply_each(
                body,
                env1,
                x,
                v,
                n,
                fs,
                ars,
                f,
                a + rest,
            ));
        }
    }
}

/// `f $> v`: the closure applied to each entry of the vector.
fn entrywise_logged<N: Numerics>(
    t1: &Term,
    t2: &Term,
    env: &Env,
    tl: (&Vec<TopLevelTerm>, &Vec<TopLevelCommand>),
    f: usize,
    num: &mut Provider<N>,
) -> (res: (EvalResult, Ghost<Log>))
    ensures
        grew(*old(num), *final(num), res.1@),
        forall|rest: Seq<NAnswer>| #[trigger] eval_entrywise(
            term_model(*t1),
            term_model(*t2),
            env_model(env@),
            tl.0@,
            tl.1@,
            f as nat,
            res.1@.1 + rest,
        ) == (result_model(res.0), res.1@.0, rest),
    decreases f, 2nat,
{
    proof {
        lemma_grew_none(*num);
    }
    let ghost em = env_model(env@);
    let ghost fs = tl.0@;
    let ghost ars = tl.1@;
    let ghost m1 = term_model(*t1);
    let ghost m2 = term_model(*t2);
    let (r1, log1) = term_logged(t1, env, tl, f, num);
    let ghost p1 = *num;
    let ghost rm1 = result_model(r1);
    let (env1, vp, body) = match r1 {
        EvalResult::Val(Value::ClosureFunc(env1, vp, body)) => (env1, vp, body),
        r1 => {
            let r = match r1 {
                EvalResult::Val(w) => EvalResult::Wrong(type_error_msg(&w)),
                wrong => wrong,
            };
            proof {
                assert forall|rest: Seq<NAnswer>| #[trigger] eval_entrywise(m1, m2, em, fs, ars, f as nat, log1@.1 + rest)
                    == (result_model(r), log1@.0, rest) by {
                    assert(eval_term(m1, em, fs, ars, f as nat, log1@.1 + rest) == (rm1, log1@.0, rest));
                }
            }
            return (r, log1);
        },
    };
    let ghost fv1 = FValue::ClosureFunc(env_model(env1@), var_prod_model(vp), term_model(body));
    assert(rm1 == FResult::Val(fv1));
    let (r2, log2) = term_logged(t2, env, tl, f, num);
    let ghost rm2 = result_model(r2);
    let ghost two = then(log1@, log2@);
    let ghost p2 = *num;
    proof {
        lemma_grew_then(*old(num), p1, p2, log1@, log2@);
        lemma_grew_none(p2);
    }
    let v = match r2 {
        EvalResult::Val(Value::Vect(v)) => v,
        r2 => {
            let r = match r2 {
                EvalResult::Val(w) => EvalResult::Wrong(type_error_msg(&w)),
                wrong => wrong,
            };
            proof {
                assert forall|rest: Seq<NAnswer>| #[trigger] eval_entrywise(m1, m2, em, fs, ars, f as nat, two.1 + rest) == (
                    result_model(r),
                    two.0,
                    rest,
                ) by {
                    lemma_append_assoc(log1@.1, log2@.1, rest);
                    assert(eval_term(m1, em, fs, ars, f as nat, log1@.1 + (log2@.1 + rest)) == (
                        FResult::Val(fv1),
                        log1@.0,
                        log2@.1 + rest,
                    ));
                    assert(eval_term(m2, em, fs, ars, f as nat, log2@.1 + rest) == (rm2, log2@.0, rest));
                }
            }
            return (r, Ghost(two));
        },
    };
    let x = match &vp {
        VarProd::V(name) => name.clone(),
        _ => string_of(""),
    };
    assert(x@ == crate::semantics::entry_name(var_prod_model(vp)));
    let (r3, log3) = each_logged(&body, &env1, &x, &v, tl, f, num);
    let ghost em3 = entries_model(r3);
    let r = match r3 {
        Ok(entries) => EvalResult::Val(Value::Vect(entries)),
        Err(e) => EvalResult::Wrong(e),
    };
    let ghost total = then(two, log3@);
    proof {
        lemma_grew_then(*old(num), p2, *num, two, log3@);
    }
    proof {
        assert forall|rest: Seq<NAnswer>| #[trigger] eval_entrywise(m1, m2, em, fs, ars, f as nat, total.1 + rest) == (
            result_model(r),
            total.0,
            rest,
        ) by {
            lemma_append_assoc(log1@.1, log2@.1, log3@.1 + rest);
            lemma_append_assoc(log1@.1 + log2@.1, log3@.1, rest);
            assert(eval_term(m1, em, fs, ars, f as nat, log1@.1 + (log2@.1 + (log3@.1 + rest))) == (
                FResult::Val(fv1),
                log1@.0,
                log2@.1 + (log3@.1 + rest),
            ));
            assert(eval_term(m2, em, fs, ars, f as nat, log2@.1 + (log3@.1 + rest)) == (
                FResult::Val(FValue::Vect(v@)),
                log2@.0,
                log3@.1 + rest,
            ));
            assert(apply_each(
                term_model(body),
                env_model(env1@),
                x@,
                v@,
                v@.len(),
                fs,
                ars,
                f as nat,
                log3@.1 + rest,
            ) == (em3, log3@.0, rest));
        }
    }
    (r, Ghost(total))
}

// ---------------------------------------------------------------------
// Commands
// ---------------------------------------------------------------------

/// `env` followed by `env_com`.
fn concat_env(env: &Env, env_com: &Env) -> (res: Env)
    ensures
        env_model(res@) == env_model(env@) + env_model(env_com@),
{
    let mut concat = clone_env(env);
    let mut i: usize = 0;
    assert(env_model(env@) + env_model(env_com@.subrange(0, 0)) =~= env_model(env@)) by {
        assert(env_com@.subrange(0, 0) =~= Seq::<(Var, Value)>::empty());
    }
    while i < env_com.len()
        invariant
            i <= env_com@.len(),
            env_model(concat@) == env_model(env@) + env_model(env_com@.subrange(0, i as int)),
        decreases env_com.len() - i,
    {
        let x = env_com[i].0.clone();
        let v = env_com[i].1.clone();
        let ghost before = concat@;
        concat.push((x, v));
        proof {
            lemma_env_model_push(before, (x, v));
            let sub = env_com@.subrange(0, i as int + 1);
            assert(sub.drop_last() =~= env_com@.subrange(0, i as int));
            assert(env_model(concat@) =~= env_model(env@) + env_model(sub));
        }
        i = i + 1;
    }
    assert(env_com@.subrange(0, env_com@.len() as int) =~= env_com@);
    concat
}

proof fn lemma_stack_pop(cs: Seq<&Continuation>)
    requires
        cs.len() > 0,
    ensures
        stack_model(cs.drop_last()) == stack_model(cs).drop_last(),
        stack_model(cs).last() == cont_model(*cs.last()),
        stack_model(cs).len() == cs.len(),
{
    assert(stack_model(cs.drop_last()) =~= stack_model(cs).drop_last());
}

proof fn lemma_stack_push(cs: Seq<&Continuation>, k: &Continuation)
    ensures
        stack_model(cs.push(k)) == stack_model(cs).push(cont_model(*k)),
{
    assert(stack_model(cs.push(k)) =~= stack_model(cs).push(cont_model(*k)));
}

proof fn lemma_stack_empty(cs: Seq<&Continuation>)
    requires
        cs.len() == 0,
    ensures
        stack_model(cs) == Seq::<FCont>::empty(),
{
    assert(stack_model(cs) =~= Seq::<FCont>::empty());
}

proof fn lemma_output_push(out: Seq<Printed>, p: Printed)
    ensures
        output_model(out.push(p)) == output_model(out) + seq![printed_model(p)],
{
    assert(output_model(out.push(p)) =~= output_model(out) + seq![printed_model(p)]);
}

proof fn lemma_no_output(o: Seq<FPrinted>)
    ensures
        o + Seq::<FPrinted>::empty() == o,
        Seq::<FPrinted>::empty() + o == o,
{
    assert(o + Seq::<FPrinted>::empty() =~= o);
    assert(Seq::<FPrinted>::empty() + o =~= o);
}

fn copy_stack<'a>(cont_stack: &Vec<&'a Continuation>) -> (res: Vec<&'a Continuation>)
    ensures
        res@ == cont_stack@,
{
    let res = cont_stack.clone();
    assert(res@ =~= cont_stack@);
    res
}

/// A command's run: its result, what it printed, and its questions and answers.
pub type CommandLogged = (EvalResult, Ghost<Log>, Ghost<Seq<FPrinted>>);

/// The run of command `c` with the answers of `log` gives `r` and prints
/// `printed`, asking the questions of `log`, whatever answers follow.
pub open spec fn command_run_ok(
    c: FCommand,
    env: FEnv,
    env_com: FEnv,
    resume: Option<FValue>,
    fs: Seq<TopLevelTerm>,
    ars: Seq<TopLevelCommand>,
    stack: Seq<FCont>,
    fuel: nat,
    r: FResult,
    printed: Seq<FPrinted>,
    log: Log,
) -> bool {
    forall|rest: Seq<NAnswer>| #[trigger] eval_command(c, env, env_com, resume, fs, ars, stack, fuel, log.1 + rest) == (
        r,
        printed,
        log.0,
        rest,
    )
}

/// Evaluates `t` in the environment `env` followed by `env_com`.
fn concat_term<N: Numerics>(
    t: &Term,
    env: &Env,
    env_com: &Env,
    tl: (&Vec<TopLevelTerm>, &Vec<TopLevelCommand>),
    fuel: usize,
    num: &mut Provider<N>,
) -> (res: (EvalResult, Ghost<Log>))
    ensures
        grew(*old(num), *final(num), res.1@),
        term_run_ok(
            term_model(*t),
            env_model(env@) + env_model(env_com@),
            tl.0@,
            tl.1@,
            fuel as nat,
            result_model(res.0),
            res.1@,
        ),
{
    proof {
        lemma_grew_none(*num);
    }
    let concat = concat_env(env, env_com);
    term_logged(t, &concat, tl, fuel, num)
}

/// Hands `val` to the innermost continuation of `cont_stack`, or returns it
/// when the stack is empty.
fn continue_logged<N: Numerics>(
    val: Value,
    env: &Env,
    env_com: &Env,
    resume_val: Option<Value>,
    tl: (&Vec<TopLevelTerm>, &Vec<TopLevelCommand>),
    cont_stack: &Vec<&Continuation>,
    f: usize,
    num: &mut Provider<N>,
    out: &mut Vec<Printed>,
) -> (res: CommandLogged)
    ensures
        grew(*old(num), *final(num), res.1@),
        output_model(final(out)@) == output_model(old(out)@) + res.2@,
        forall|rest: Seq<NAnswer>| #[trigger] continue_with(
            value_model(val),
            env_model(env@),
            env_model(env_com@),
            opt_value_model(resume_val),
            tl.0@,
            tl.1@,
            stack_model(cont_stack@),
            f as nat,
            res.1@.1 + rest,
        ) == (result_model(res.0), res.2@, res.1@.0, rest),
    decreases f, 1nat,
{
    proof {
        lemma_grew_none(*num);
    }
    proof {
        lemma_no_answers();
        lemma_no_output(output_model(out@));
    }
    let ghost vm = value_model(val);
    let mut cs = copy_stack(cont_stack);
    if cs.len() == 0 {
        proof {
            lemma_stack_empty(cs@);
        }
        return (EvalResult::Val(val), Ghost((Seq::empty(), Seq::empty())), Ghost(Seq::empty()));
    }
    proof {
        lemma_stack_pop(cs@);
    }
    let cont = cs.pop().unwrap();
    let ret = Command::Return(VTR::V(Box::new(val)));
    assert(command_model(ret) == FCommand::Return(FVtr::V(Box::new(vm))));
    let c = replace_hole_command(cont, &ret);
    let res = command_logged(&c, env, env_com, resume_val, tl, &cs, f, num, out);
    proof {
        assert forall|rest: Seq<NAnswer>| #[trigger] continue_with(
            vm,
            env_model(env@),
            env_model(env_com@),
            opt_value_model(resume_val),
            tl.0@,
            tl.1@,
            stack_model(cont_stack@),
            f as nat,
            res.1@.1 + rest,
        ) == (result_model(res.0), res.2@, res.1@.0, rest) by {
            assert(eval_command(
                command_model(c),
                env_model(env@),
                env_model(env_com@),
                opt_value_model(resume_val),
                tl.0@,
                tl.1@,
                stack_model(cs@),
                f as nat,
                res.1@.1 + rest,
            ) == (result_model(res.0), res.2@, res.1@.0, rest));
        }
    }
    res
}

fn exhausted_run() -> (res: CommandLogged)
    ensures
        res.0 == EvalResult::Wrong(res.0->Wrong_0),
        res.0->Wrong_0@ == crate::semantics::exhausted_text(),
        res.1@.0 == Seq::<NQuery>::empty(),
        res.1@.1 == Seq::<NAnswer>::empty(),
        res.2@ == Seq::<FPrinted>::empty(),
{
    (EvalResult::Wrong(string_of("evaluation budget exhausted")), Ghost((Seq::empty(), Seq::empty())), Ghost(Seq::empty()))
}

/// A run that prints nothing and asks nothing.
fn quiet(r: EvalResult) -> (res: CommandLogged)
    ensures
        res.0 == r,
        res.1@.0 == Seq::<NQuery>::empty(),
        res.1@.1 == Seq::<NAnswer>::empty(),
        res.2@ == Seq::<FPrinted>::empty(),
{
    (r, Ghost((Seq::empty(), Seq::empty())), Ghost(Seq::empty()))
}

/// `cannot bind {:?} to {:?}`.
fn bind_msg(vp: &VarProd, v: &Value) -> (res: String)
    ensures
        res@ == bind_error(var_prod_model(*vp), value_model(*v)),
{
    let mut m = string_of("cannot bind ");
    let d = debug_var_prod(vp);
    m.append(d.as_str());
    m.append(" to ");
    let dv = debug_value(v);
    m.append(dv.as_str());
    m
}

/// Runs command `c` with term environment `env`, command environment
/// `env_com`, the value to resume with, and the stack of continuations
/// around it, within the budget `fuel`.
fn command_logged<N: Numerics>(
    c: &Command,
    env: &Env,
    env_com: &Env,
    resume_val: Option<Value>,
    tl: (&Vec<TopLevelTerm>, &Vec<TopLevelCommand>),
    cont_stack: &Vec<&Continuation>,
    fuel: usize,
    num: &mut Provider<N>,
    out: &mut Vec<Printed>,
) -> (res: CommandLogged)
    ensures
        grew(*old(num), *final(num), res.1@),
        output_model(final(out)@) == output_model(old(out)@) + res.2@,
        command_run_ok(
            command_model(*c),
            env_model(env@),
            env_model(env_com@),
            opt_value_model(resume_val),
            tl.0@,
            tl.1@,
            stack_model(cont_stack@),
            fuel as nat,
            result_model(res.0),
            res.2@,
            res.1@,
        ),
    decreases fuel, 0nat,
{
    proof {
        lemma_grew_none(*num);
    }
    proof {
        lemma_no_answers();
        lemma_no_output(output_model(out@));
    }
    let ghost cm = command_model(*c);
    let ghost em = env_model(env@);
    let ghost ecm = env_model(env_com@);
    let ghost rvm = opt_value_model(resume_val);
    let ghost fs = tl.0@;
    let ghost ars = tl.1@;
    let ghost sm = stack_model(cont_stack@);
    if fuel == 0 {
        return exhausted_run();
    }
    let f = fuel - 1;
    match c {
        Command::Return(VTR::Resume) => match resume_val {
            Some(val) => {
                let ghost vm = value_model(val);
                let res = continue_logged(val, env, env_com, None, tl, cont_stack, f, num, out);
                proof {
                    assert forall|rest: Seq<NAnswer>| #[trigger] eval_command(cm, em, ecm, rvm, fs, ars, sm, fuel as nat, res.1@.1 + rest)
                        == (result_model(res.0), res.2@, res.1@.0, rest) by {
                        assert(continue_with(vm, em, ecm, None, fs, ars, sm, f as nat, res.1@.1 + rest) == (
                            result_model(res.0),
                            res.2@,
                            res.1@.0,
                            rest,
                        ));
                    }
                }
                res
            },
            None => quiet(EvalResult::Wrong(string_of("resume value is None"))),
        },
        Command::Return(VTR::V(v)) => quiet(EvalResult::Val((**v).clone())),
        Command::Return(VTR::T(t)) => {
            let (r1, log1) = concat_term(t, env, env_com, tl, f, num);
            let ghost p1 = *num;
            let ghost rm1 = result_model(r1);
            let ghost tm = term_model(**t);
            match r1 {
                EvalResult::Val(val) => {
                    let ghost vm = value_model(val);
                    let res = continue_logged(val, env, env_com, resume_val, tl, cont_stack, f, num, out);
                    let ghost total = then(log1@, res.1@);
                    proof {
                        lemma_grew_then(*old(num), p1, *num, log1@, res.1@);
                    }
                    proof {
                        assert forall|rest: Seq<NAnswer>| #[trigger] eval_command(cm, em, ecm, rvm, fs, ars, sm, fuel as nat, total.1 + rest)
                            == (result_model(res.0), res.2@, total.0, rest) by {
                            lemma_append_assoc(log1@.1, res.1@.1, rest);
                            assert(eval_term(tm, em + ecm, fs, ars, f as nat, log1@.1 + (res.1@.1 + rest)) == (
                                FResult::Val(vm),
                                log1@.0,
                                res.1@.1 + rest,
                            ));
                            assert(continue_with(vm, em, ecm, rvm, fs, ars, sm, f as nat, res.1@.1 + rest) == (
                                result_model(res.0),
                                res.2@,
                                res.1@.0,
                                rest,
                            ));
                        }
                    }
                    (res.0, Ghost(total), res.2)
                },
                wrong => {
                    proof {
                        assert forall|rest: Seq<NAnswer>| #[trigger] eval_command(cm, em, ecm, rvm, fs, ars, sm, fuel as nat, log1@.1 + rest)
                            == (rm1, Seq::<FPrinted>::empty(), log1@.0, rest) by {
                            assert(eval_term(tm, em + ecm, fs, ars, f as nat, log1@.1 + rest) == (rm1, log1@.0, rest));
                        }
                    }
                    (wrong, log1, Ghost(Seq::empty()))
                },
            }
        },
        Command::Let(var, c1, c2, envs) => {
            let (env2, env_com2) = match envs {
                Some((e, ec)) => (clone_env(e), clone_env(ec)),
                None => (clone_env(env), clone_env(env_com)),
            };
            let vp = match var {
                VarWithType::VT(vp, _) => vp,
            };
            match &**c1 {
                Command::Return(VTR::V(val1)) => {
                    assert(command_model(**c1) == FCommand::Return(FVtr::V(Box::new(value_model(**val1)))));
                    let mut env_com3 = env_com2;
                    match bind_var_prod(&mut env_com3, vp, &**val1) {
                        Err(()) => quiet(EvalResult::Wrong(bind_msg(vp, &**val1))),
                        Ok(()) => {
                            let res = command_logged(c2, &env2, &env_com3, resume_val, tl, cont_stack, f, num, out);
                            proof {
                                assert forall|rest: Seq<NAnswer>| #[trigger] eval_command(
                                    cm,
                                    em,
                                    ecm,
                                    rvm,
                                    fs,
                                    ars,
                                    sm,
                                    fuel as nat,
                                    res.1@.1 + rest,
                                ) == (result_model(res.0), res.2@, res.1@.0, rest) by {
                                    assert(eval_command(
                                        command_model(**c2),
                                        env_model(env2@),
                                        env_model(env_com3@),
                                        rvm,
                                        fs,
                                        ars,
                                        sm,
                                        f as nat,
                                        res.1@.1 + rest,
                                    ) == (result_model(res.0), res.2@, res.1@.0, rest));
                                }
                            }
                            res
                        },
                    }
                },
                _ => {
                    assert(!(command_model(**c1) is Return && command_model(**c1)->Return_0 is V));
                    let cont = Continuation::Let(
                        var.clone(),
                        Box::new((**c2).clone()),
                        (clone_env(&env2), clone_env(&env_com2)),
                    );
                    let mut cs = copy_stack(cont_stack);
                    let ghost before = cs@;
                    cs.push(&cont);
                    proof {
                        lemma_stack_push(before, &cont);
                    }
                    let res = command_logged(c1, &env2, &env_com2, resume_val, tl, &cs, f, num, out);
                    proof {
                        assert forall|rest: Seq<NAnswer>| #[trigger] eval_command(cm, em, ecm, rvm, fs, ars, sm, fuel as nat, res.1@.1 + rest)
                            == (result_model(res.0), res.2@, res.1@.0, rest) by {
                            assert(eval_command(
                                command_model(**c1),
                                env_model(env2@),
                                env_model(env_com2@),
                                rvm,
                                fs,
                                ars,
                                stack_model(cs@),
                                f as nat,
                                res.1@.1 + rest,
                            ) == (result_model(res.0), res.2@, res.1@.0, rest));
                        }
                    }
                    res
                },
            }
        },
        Command::CApp(t1, t2) => capp_logged(c, env, env_com, resume_val, tl, cont_stack, f, num, out),
        Command::DoOp(op, t) => {
            let (r1, log1) = concat_term(t, env, env_com, tl, f, num);
            let ghost p1 = *num;
            let ghost rm1 = result_model(r1);
            let ghost tm = term_model(**t);
            match r1 {
                EvalResult::Val(val) => {
                    let ghost vm = value_model(val);
                    let res = perform_logged(op, val, env, resume_val, tl, cont_stack, f, num, out);
                    let ghost total = then(log1@, res.1@);
                    proof {
                        lemma_grew_then(*old(num), p1, *num, log1@, res.1@);
                    }
                    proof {
                        assert forall|rest: Seq<NAnswer>| #[trigger] eval_command(cm, em, ecm, rvm, fs, ars, sm, fuel as nat, total.1 + rest)
                            == (result_model(res.0), res.2@, total.0, rest) by {
                            lemma_append_assoc(log1@.1, res.1@.1, rest);
                            assert(eval_term(tm, em + ecm, fs, ars, f as nat, log1@.1 + (res.1@.1 + rest)) == (
                                FResult::Val(vm),
                                log1@.0,
                                res.1@.1 + rest,
                            ));
                            assert(unwind(
                                op.name(),
                                vm,
                                FCommand::Return(FVtr::Resume),
                                sm,
                                em,
                                rvm,
                                fs,
                                ars,
                                f as nat,
                                res.1@.1 + rest,
                            ) == (result_model(res.0), res.2@, res.1@.0, rest));
                        }
                    }
                    (res.0, Ghost(total), res.2)
                },
                wrong => {
                    proof {
                        assert forall|rest: Seq<NAnswer>| #[trigger] eval_command(cm, em, ecm, rvm, fs, ars, sm, fuel as nat, log1@.1 + rest)
                            == (rm1, Seq::<FPrinted>::empty(), log1@.0, rest) by {
                            assert(eval_term(tm, em + ecm, fs, ars, f as nat, log1@.1 + rest) == (rm1, log1@.0, rest));
                        }
                    }
                    (wrong, log1, Ghost(Seq::empty()))
                },
            }
        },
        Command::Handle(c1, h, _h_env) => {
            match h {
                Handler::H(HandlerRet::HRet(x, c_ret), ops) => {
                    assert(handler_model(*h) == FHandler::H(
                        binder_model(*x),
                        Box::new(command_model(**c_ret)),
                        clauses_model(ops@),
                    ));
                    match &**c1 {
                        Command::Return(VTR::V(val1)) => {
                            assert(command_model(**c1) == FCommand::Return(FVtr::V(Box::new(value_model(**val1)))));
                            let xp = match x {
                                VarWithType::VT(xp, _) => xp,
                            };
                            let mut env_com_ret: Env = Vec::new();
                            assert(env_model(env_com_ret@) =~= Seq::<(Seq<char>, FValue)>::empty());
                            match bind_var_prod(&mut env_com_ret, xp, &**val1) {
                                Err(()) => quiet(EvalResult::Wrong(bind_msg(xp, &**val1))),
                                Ok(()) => {
                                    let res = command_logged(
                                        c_ret,
                                        env,
                                        &env_com_ret,
                                        resume_val,
                                        tl,
                                        cont_stack,
                                        f,
                                        num,
                                        out,
                                    );
                                    proof {
                                        assert forall|rest: Seq<NAnswer>| #[trigger] eval_command(
                                            cm,
                                            em,
                                            ecm,
                                            rvm,
                                            fs,
                                            ars,
                                            sm,
                                            fuel as nat,
                                            res.1@.1 + rest,
                                        ) == (result_model(res.0), res.2@, res.1@.0, rest) by {
                                            assert(eval_command(
                                                command_model(**c_ret),
                                                em,
                                                env_model(env_com_ret@),
                                                rvm,
                                                fs,
                                                ars,
                                                sm,
                                                f as nat,
                                                res.1@.1 + rest,
                                            ) == (result_model(res.0), res.2@, res.1@.0, rest));
                                        }
                                    }
                                    res
                                },
                            }
                        },
                        _ => {
                            assert(!(command_model(**c1) is Return && command_model(**c1)->Return_0 is V));
                            let cont = Continuation::Handle(h.clone(), clone_env(env));
                            let mut cs = copy_stack(cont_stack);
                            let ghost before = cs@;
                            cs.push(&cont);
                            proof {
                                lemma_stack_push(before, &cont);
                            }
                            let res = command_logged(c1, env, env_com, resume_val, tl, &cs, f, num, out);
                            proof {
                                assert forall|rest: Seq<NAnswer>| #[trigger] eval_command(
                                    cm,
                                    em,
                                    ecm,
                                    rvm,
                                    fs,
                                    ars,
                                    sm,
                                    fuel as nat,
                                    res.1@.1 + rest,
                                ) == (result_model(res.0), res.2@, res.1@.0, rest) by {
                                    assert(eval_command(
                                        command_model(**c1),
                                        em,
                                        ecm,
                                        rvm,
                                        fs,
                                        ars,
                                        stack_model(cs@),
                                        f as nat,
                                        res.1@.1 + rest,
                                    ) == (result_model(res.0), res.2@, res.1@.0, rest));
                                }
                            }
                            res
                        },
                    }
                },
            }
        },
    }
}

/// `t1 @ t2`: an arrow closure runs its body with its pattern bound to the
/// argument; a captured continuation resumes with the argument.
fn capp_logged<N: Numerics>(
    c: &Command,
    env: &Env,
    env_com: &Env,
    resume_val: Option<Value>,
    tl: (&Vec<TopLevelTerm>, &Vec<TopLevelCommand>),
    cont_stack: &Vec<&Continuation>,
    f: usize,
    num: &mut Provider<N>,
    out: &mut Vec<Printed>,
) -> (res: CommandLogged)
    requires
        *c is CApp,
        f < usize::MAX,
    ensures
        grew(*old(num), *final(num), res.1@),
        output_model(final(out)@) == output_model(old(out)@) + res.2@,
        command_run_ok(
            command_model(*c),
            env_model(env@),
            env_model(env_com@),
            opt_value_model(resume_val),
            tl.0@,
            tl.1@,
            stack_model(cont_stack@),
            (f + 1) as nat,
            result_model(res.0),
            res.2@,
            res.1@,
        ),
    decreases f, 2nat,
{
    proof {
        lemma_grew_none(*num);
    }
    proof {
        lemma_no_answers();
        lemma_no_output(output_model(out@));
    }
    let ghost cm = command_model(*c);
    let ghost em = env_model(env@);
    let ghost ecm = env_model(env_com@);
    let ghost rvm = opt_value_model(resume_val);
    let ghost fs = tl.0@;
    let ghost ars = tl.1@;
    let ghost sm = stack_model(cont_stack@);
    let ghost fuel = (f + 1) as nat;
    let (t1, t2) = match c {
        Command::CApp(t1, t2) => (t1, t2),
        _ => {
            proof {
                assert(false);
            }
            return quiet(EvalResult::Val(Value::Unt));
        },
    };
    let ghost m1 = term_model(**t1);
    let ghost m2 = term_model(**t2);
    let (r1, log1) = term_logged(t1, env, tl, f, num);
    let ghost p1 = *num;
    let ghost rm1 = result_model(r1);
    let (env1, vp, body, arrow) = match r1 {
        EvalResult::Val(Value::ClosureArr(env1, vp, body)) => (env1, vp, body, true),
        EvalResult::Val(Value::ClosureContArr(env1, body)) => (env1, VarProd::Unused, body, false),
        r1 => {
            let r = match r1 {
                EvalResult::Val(v1) => EvalResult::Wrong(
                    value_msg("interp_command: CApp: val1=", &v1, " is not an arrow closure"),
                ),
                wrong => wrong,
            };
            proof {
                assert forall|rest: Seq<NAnswer>| #[trigger] eval_command(cm, em, ecm, rvm, fs, ars, sm, fuel, log1@.1 + rest)
                    == (result_model(r), Seq::<FPrinted>::empty(), log1@.0, rest) by {
                    assert(eval_term(m1, em, fs, ars, f as nat, log1@.1 + rest) == (rm1, log1@.0, rest));
                }
            }
            return (r, log1, Ghost(Seq::empty()));
        },
    };
    let ghost e1m = env_model(env1@);
    let ghost bm = command_model(body);
    assert(arrow ==> rm1 == FResult::Val(FValue::ClosureArr(e1m, var_prod_model(vp), bm)));
    assert(!arrow ==> rm1 == FResult::Val(FValue::ClosureContArr(e1m, bm)));
    let (r2, log2) = concat_term(t2, env, env_com, tl, f, num);
    let ghost rm2 = result_model(r2);
    let ghost two = then(log1@, log2@);
    let ghost p2 = *num;
    proof {
        lemma_grew_then(*old(num), p1, p2, log1@, log2@);
        lemma_grew_none(p2);
    }
    let v2 = match r2 {
        EvalResult::Val(v2) => v2,
        wrong => {
            proof {
                assert forall|rest: Seq<NAnswer>| #[trigger] eval_command(cm, em, ecm, rvm, fs, ars, sm, fuel, two.1 + rest)
                    == (rm2, Seq::<FPrinted>::empty(), two.0, rest) by {
                    lemma_append_assoc(log1@.1, log2@.1, rest);
                    assert(eval_term(m1, em, fs, ars, f as nat, log1@.1 + (log2@.1 + rest)) == (
                        rm1,
                        log1@.0,
                        log2@.1 + rest,
                    ));
                    assert(eval_term(m2, em + ecm, fs, ars, f as nat, log2@.1 + rest) == (rm2, log2@.0, rest));
                }
            }
            return (wrong, Ghost(two), Ghost(Seq::empty()));
        },
    };
    let ghost vm2 = value_model(v2);
    if arrow {
        let mut ec: Env = Vec::new();
        assert(env_model(ec@) =~= Seq::<(Seq<char>, FValue)>::empty());
        let ghost bp = bind_pattern(var_prod_model(vp), vm2);
        match bind_var_prod(&mut ec, &vp, &v2) {
            Err(()) => {
                let r = EvalResult::Wrong(bind_msg(&vp, &v2));
                proof {
                    assert forall|rest: Seq<NAnswer>| #[trigger] eval_command(cm, em, ecm, rvm, fs, ars, sm, fuel, two.1 + rest)
                        == (result_model(r), Seq::<FPrinted>::empty(), two.0, rest) by {
                        lemma_append_assoc(log1@.1, log2@.1, rest);
                        assert(eval_term(m1, em, fs, ars, f as nat, log1@.1 + (log2@.1 + rest)) == (
                            rm1,
                            log1@.0,
                            log2@.1 + rest,
                        ));
                        assert(eval_term(m2, em + ecm, fs, ars, f as nat, log2@.1 + rest) == (
                            FResult::Val(vm2),
                            log2@.0,
                            rest,
                        ));
                    }
                }
                (r, Ghost(two), Ghost(Seq::empty()))
            },
            Ok(()) => {
                assert(env_model(ec@) =~= bp.1);
                let res = command_logged(&body, &env1, &ec, resume_val, tl, cont_stack, f, num, out);
                let ghost total = then(two, res.1@);
                proof {
                    lemma_grew_then(*old(num), p2, *num, two, res.1@);
                }
                proof {
                    assert forall|rest: Seq<NAnswer>| #[trigger] eval_command(cm, em, ecm, rvm, fs, ars, sm, fuel, total.1 + rest)
                        == (result_model(res.0), res.2@, total.0, rest) by {
                        lemma_append_assoc(log1@.1, log2@.1, res.1@.1 + rest);
                        lemma_append_assoc(log1@.1 + log2@.1, res.1@.1, rest);
                        assert(eval_term(m1, em, fs, ars, f as nat, log1@.1 + (log2@.1 + (res.1@.1 + rest))) == (
                            rm1,
                            log1@.0,
                            log2@.1 + (res.1@.1 + rest),
                        ));
                        assert(eval_term(m2, em + ecm, fs, ars, f as nat, log2@.1 + (res.1@.1 + rest)) == (
                            FResult::Val(vm2),
                            log2@.0,
                            res.1@.1 + rest,
                        ));
                        assert(eval_command(bm, e1m, bp.1, rvm, fs, ars, sm, f as nat, res.1@.1 + rest) == (
                            result_model(res.0),
                            res.2@,
                            res.1@.0,
                            rest,
                        ));
                    }
                }
                (res.0, Ghost(total), res.2)
            },
        }
    } else {
        let empty: Env = Vec::new();
        assert(env_model(empty@) =~= Seq::<(Seq<char>, FValue)>::empty());
        let res = command_logged(&body, &env1, &empty, Some(v2), tl, cont_stack, f, num, out);
        let ghost total = then(two, res.1@);
        proof {
            lemma_grew_then(*old(num), p2, *num, two, res.1@);
        }
        proof {
            assert forall|rest: Seq<NAnswer>| #[trigger] eval_command(cm, em, ecm, rvm, fs, ars, sm, fuel, total.1 + rest) == (
                result_model(res.0),
                res.2@,
                total.0,
                rest,
            ) by {
                lemma_append_assoc(log1@.1, log2@.1, res.1@.1 + rest);
                lemma_append_assoc(log1@.1 + log2@.1, res.1@.1, rest);
                assert(eval_term(m1, em, fs, ars, f as nat, log1@.1 + (log2@.1 + (res.1@.1 + rest))) == (
                    rm1,
                    log1@.0,
                    log2@.1 + (res.1@.1 + rest),
                ));
                assert(eval_term(m2, em + ecm, fs, ars, f as nat, log2@.1 + (res.1@.1 + rest)) == (
                    FResult::Val(vm2),
                    log2@.0,
                    res.1@.1 + rest,
                ));
                assert(eval_command(
                    bm,
                    e1m,
                    Seq::empty(),
                    Some(vm2),
                    fs,
                    ars,
                    sm,
                    f as nat,
                    res.1@.1 + rest,
                ) == (result_model(res.0), res.2@, res.1@.0, rest));
            }
        }
        (res.0, Ghost(total), res.2)
    }
}

fn same_op(a: &Operation, b: &Operation) -> (res: bool)
    ensures
        res == (a.name() == b.name()),
{
    match (a, b) {
        (Operation::Op(x), Operation::Op(y)) => *x == *y,
    }
}

/// The index of the first clause of `h_ops` for operation `op`.
fn find_clause_index(op: &Operation, h_ops: &Vec<HandlerOp>) -> (res: Option<usize>)
    ensures
        match res {
            Some(j) => j < h_ops@.len() && find_clause_from(op.name(), clauses_model(h_ops@), 0) == Some(
                clause_model(h_ops@[j as int]),
            ),
            None => find_clause_from(op.name(), clauses_model(h_ops@), 0) is None,
        },
{
    let ghost cv = clauses_model(h_ops@);
    proof {
        lemma_clauses_model(h_ops@);
    }
    let mut j: usize = 0;
    while j < h_ops.len()
        invariant
            j <= h_ops@.len(),
            cv == clauses_model(h_ops@),
            cv.len() == h_ops@.len(),
            forall|i: int| 0 <= i < h_ops@.len() ==> #[trigger] cv[i] == clause_model(h_ops@[i]),
            find_clause_from(op.name(), cv, 0) == find_clause_from(op.name(), cv, j as int),
        decreases h_ops.len() - j,
    {
        match &h_ops[j] {
            HandlerOp::HOp(h_op, _, _, _) => {
                if same_op(h_op, op) {
                    return Some(j);
                }
            },
        }
        j = j + 1;
    }
    None
}

/// Performs operation `op` with argument `val`: the continuations are
/// taken off the stack, innermost first, until a handler with a clause for
/// `op` is found; that clause runs with its `k` bound to the captured
/// computation and its `z` to `val`.  Without such a handler the operation
/// goes to the outermost handler.
fn perform_logged<N: Numerics>(
    op: &Operation,
    val: Value,
    env: &Env,
    resume_val: Option<Value>,
    tl: (&Vec<TopLevelTerm>, &Vec<TopLevelCommand>),
    cont_stack: &Vec<&Continuation>,
    f: usize,
    num: &mut Provider<N>,
    out: &mut Vec<Printed>,
) -> (res: CommandLogged)
    ensures
        grew(*old(num), *final(num), res.1@),
        output_model(final(out)@) == output_model(old(out)@) + res.2@,
        forall|rest: Seq<NAnswer>| #[trigger] unwind(
            op.name(),
            value_model(val),
            FCommand::Return(FVtr::Resume),
            stack_model(cont_stack@),
            env_model(env@),
            opt_value_model(resume_val),
            tl.0@,
            tl.1@,
            f as nat,
            res.1@.1 + rest,
        ) == (result_model(res.0), res.2@, res.1@.0, rest),
    decreases f, 4nat,
{
    proof {
        lemma_grew_none(*num);
    }
    proof {
        lemma_no_answers();
        lemma_no_output(output_model(out@));
    }
    let ghost opn = op.name();
    let ghost vm = value_model(val);
    let ghost em = env_model(env@);
    let ghost rvm = opt_value_model(resume_val);
    let ghost fs = tl.0@;
    let ghost ars = tl.1@;
    let ghost sm = stack_model(cont_stack@);
    let mut command = Command::Return(VTR::Resume);
    assert(command_model(command) == FCommand::Return(FVtr::Resume));
    let mut cs = copy_stack(cont_stack);
    while cs.len() > 0
        invariant
            out@ == old(out)@,
            *num == *old(num),
            opn == op.name(),
            vm == value_model(val),
            em == env_model(env@),
            rvm == opt_value_model(resume_val),
            fs == tl.0@,
            ars == tl.1@,
            sm == stack_model(cont_stack@),
            forall|ans: Seq<NAnswer>| #[trigger] unwind(opn, vm, FCommand::Return(FVtr::Resume), sm, em, rvm, fs, ars, f as nat, ans)
                == unwind(opn, vm, command_model(command), stack_model(cs@), em, rvm, fs, ars, f as nat, ans),
        decreases cs.len(),
    {
        proof {
            lemma_stack_pop(cs@);
        }
        let ghost cmd_before = command_model(command);
        let ghost cs_before = stack_model(cs@);
        let cont = cs.pop().unwrap();
        command = replace_hole_command(cont, &command);
        let ghost cmd_after = command_model(command);
        assert(cmd_after == fill(cs_before.last(), cmd_before));
        assert(stack_model(cs@) == cs_before.drop_last());
        match cont {
            Continuation::Handle(Handler::H(hret, h_ops), henv) => {
                assert(cont_model(*cont) == FCont::Handle(handler_model(Handler::H(*hret, *h_ops)), env_model(henv@)));
                let ghost hm = handler_model(Handler::H(*hret, *h_ops));
                assert(hm->H_2 == clauses_model(h_ops@)) by {
                    match *hret {
                        HandlerRet::HRet(_, _) => {},
                    }
                }
                match find_clause_index(op, h_ops) {
                    Some(j) => {
                        proof {
                            lemma_clauses_model(h_ops@);
                        }
                        match &h_ops[j] {
                            HandlerOp::HOp(_, VarWithType::VT(k, _), VarWithType::VT(z, _), c_op) => {
                                let ghost cl = clause_model(h_ops@[j as int]);
                                assert(cl.k.var == var_prod_model(*k));
                                assert(cl.z.var == var_prod_model(*z));
                                assert(cl.body == command_model(**c_op));
                                let ghost henvm = env_model(henv@);
                                let kval = Value::ClosureContArr(clone_env(henv), command.clone());
                                assert(value_model(kval) == FValue::ClosureContArr(henvm, cmd_after));
                                let mut env_hand = clone_env(henv);
                                let ghost kb = bind_pattern(var_prod_model(*k), value_model(kval));
                                match bind_var_prod(&mut env_hand, k, &kval) {
                                    Err(()) => {
                                        let mut m = string_of("cannot bind ");
                                        let d = debug_var_prod(k);
                                        m.append(d.as_str());
                                        m.append(" to the continuation closure");
                                        let r = EvalResult::Wrong(m);
                                        proof {
                                            assert forall|ans: Seq<NAnswer>| #[trigger] unwind(
                                                opn,
                                                vm,
                                                FCommand::Return(FVtr::Resume),
                                                sm,
                                                em,
                                                rvm,
                                                fs,
                                                ars,
                                                f as nat,
                                                Seq::<NAnswer>::empty() + ans,
                                            ) == (result_model(r), Seq::<FPrinted>::empty(), Seq::<NQuery>::empty(), ans) by {
                                                assert(unwind(opn, vm, cmd_before, cs_before, em, rvm, fs, ars, f as nat, ans)
                                                    == (result_model(r), Seq::<FPrinted>::empty(), Seq::<NQuery>::empty(), ans));
                                            }
                                        }
                                        return quiet(r);
                                    },
                                    Ok(()) => {},
                                }
                                let mut env_com_hand: Env = Vec::new();
                                assert(env_model(env_com_hand@) =~= Seq::<(Seq<char>, FValue)>::empty());
                                let ghost zb = bind_pattern(var_prod_model(*z), vm);
                                match bind_var_prod(&mut env_com_hand, z, &val) {
                                    Err(()) => {
                                        let r = EvalResult::Wrong(bind_msg(z, &val));
                                        proof {
                                            assert forall|ans: Seq<NAnswer>| #[trigger] unwind(
                                                opn,
                                                vm,
                                                FCommand::Return(FVtr::Resume),
                                                sm,
                                                em,
                                                rvm,
                                                fs,
                                                ars,
                                                f as nat,
                                                Seq::<NAnswer>::empty() + ans,
                                            ) == (result_model(r), Seq::<FPrinted>::empty(), Seq::<NQuery>::empty(), ans) by {
                                                assert(unwind(opn, vm, cmd_before, cs_before, em, rvm, fs, ars, f as nat, ans)
                                                    == (result_model(r), Seq::<FPrinted>::empty(), Seq::<NQuery>::empty(), ans));
                                            }
                                        }
                                        return quiet(r);
                                    },
                                    Ok(()) => {},
                                }
                                assert(env_model(env_com_hand@) =~= zb.1);
                                let res = command_logged(
                                    c_op,
                                    &env_hand,
                                    &env_com_hand,
                                    resume_val,
                                    tl,
                                    &cs,
                                    f,
                                    num,
                                    out,
                                );
                                proof {
                                    assert forall|rest: Seq<NAnswer>| #[trigger] unwind(
                                        opn,
                                        vm,
                                        FCommand::Return(FVtr::Resume),
                                        sm,
                                        em,
                                        rvm,
                                        fs,
                                        ars,
                                        f as nat,
                                        res.1@.1 + rest,
                                    ) == (result_model(res.0), res.2@, res.1@.0, rest) by {
                                        assert(unwind(opn, vm, cmd_before, cs_before, em, rvm, fs, ars, f as nat, res.1@.1 + rest)
                                            == eval_command(
                                            cl.body,
                                            henvm + kb.1,
                                            zb.1,
                                            rvm,
                                            fs,
                                            ars,
                                            cs_before.drop_last(),
                                            f as nat,
                                            res.1@.1 + rest,
                                        ));
                                        assert(eval_command(
                                            command_model(**c_op),
                                            env_model(env_hand@),
                                            env_model(env_com_hand@),
                                            rvm,
                                            fs,
                                            ars,
                                            stack_model(cs@),
                                            f as nat,
                                            res.1@.1 + rest,
                                        ) == (result_model(res.0), res.2@, res.1@.0, rest));
                                    }
                                }
                                return res;
                            },
                        }
                    },
                    None => {
                        assert forall|ans: Seq<NAnswer>| #[trigger] unwind(
                            opn,
                            vm,
                            FCommand::Return(FVtr::Resume),
                            sm,
                            em,
                            rvm,
                            fs,
                            ars,
                            f as nat,
                            ans,
                        ) == unwind(opn, vm, command_model(command), stack_model(cs@), em, rvm, fs, ars, f as nat, ans) by {
                            assert(unwind(opn, vm, cmd_before, cs_before, em, rvm, fs, ars, f as nat, ans) == unwind(
                                opn,
                                vm,
                                cmd_after,
                                cs_before.drop_last(),
                                em,
                                rvm,
                                fs,
                                ars,
                                f as nat,
                                ans,
                            ));
                        }
                    },
                }
            },
            _ => {
                assert forall|ans: Seq<NAnswer>| #[trigger] unwind(
                    opn,
                    vm,
                    FCommand::Return(FVtr::Resume),
                    sm,
                    em,
                    rvm,
                    fs,
                    ars,
                    f as nat,
                    ans,
                ) == unwind(opn, vm, command_model(command), stack_model(cs@), em, rvm, fs, ars, f as nat, ans) by {
                    assert(unwind(opn, vm, cmd_before, cs_before, em, rvm, fs, ars, f as nat, ans) == unwind(
                        opn,
                        vm,
                        cmd_after,
                        cs_before.drop_last(),
                        em,
                        rvm,
                        fs,
                        ars,
                        f as nat,
                        ans,
                    ));
                }
            },
        }
    }
    proof {
        lemma_stack_empty(cs@);
    }
    let ghost cmdm = command_model(command);
    let res = outermost_logged(op, val, &command, env, tl, f, num, out);
    proof {
        assert forall|rest: Seq<NAnswer>| #[trigger] unwind(
            opn,
            vm,
            FCommand::Return(FVtr::Resume),
            sm,
            em,
            rvm,
            fs,
            ars,
            f as nat,
            res.1@.1 + rest,
        ) == (result_model(res.0), res.2@, res.1@.0, rest) by {
            assert(unwind(opn, vm, cmdm, Seq::<FCont>::empty(), em, rvm, fs, ars, f as nat, res.1@.1 + rest) == outermost(
                opn,
                vm,
                cmdm,
                em,
                fs,
                ars,
                f as nat,
                res.1@.1 + rest,
            ));
            assert(outermost(opn, vm, cmdm, em, fs, ars, f as nat, res.1@.1 + rest) == (
                result_model(res.0),
                res.2@,
                res.1@.0,
                rest,
            ));
        }
    }
    res
}

proof fn lemma_no_queries(q: Seq<NQuery>)
    ensures
        Seq::<NQuery>::empty() + q == q,
{
    assert(Seq::<NQuery>::empty() + q =~= q);
}

/// Resumes the captured computation `command` with `v`, in a fresh command
/// environment and with an empty stack.
fn resume_exec<N: Numerics>(
    v: Value,
    command: &Command,
    env: &Env,
    tl: (&Vec<TopLevelTerm>, &Vec<TopLevelCommand>),
    f: usize,
    num: &mut Provider<N>,
    out: &mut Vec<Printed>,
) -> (res: CommandLogged)
    ensures
        grew(*old(num), *final(num), res.1@),
        output_model(final(out)@) == output_model(old(out)@) + res.2@,
        forall|rest: Seq<NAnswer>| #[trigger] eval_command(
            command_model(*command),
            env_model(env@),
            Seq::empty(),
            Some(value_model(v)),
            tl.0@,
            tl.1@,
            Seq::empty(),
            f as nat,
            res.1@.1 + rest,
        ) == (result_model(res.0), res.2@, res.1@.0, rest),
    decreases f, 1nat,
{
    proof {
        lemma_grew_none(*num);
    }
    let ghost vm = value_model(v);
    let empty_env: Env = Vec::new();
    assert(env_model(empty_env@) =~= Seq::<(Seq<char>, FValue)>::empty());
    let empty_stack: Vec<&Continuation> = Vec::new();
    proof {
        lemma_stack_empty(empty_stack@);
    }
    let res = command_logged(command, env, &empty_env, Some(v), tl, &empty_stack, f, num, out);
    proof {
        assert forall|rest: Seq<NAnswer>| #[trigger] eval_command(
            command_model(*command),
            env_model(env@),
            Seq::empty(),
            Some(vm),
            tl.0@,
            tl.1@,
            Seq::empty(),
            f as nat,
            res.1@.1 + rest,
        ) == (result_model(res.0), res.2@, res.1@.0, rest) by {
            assert(eval_command(
                command_model(*command),
                env_model(env@),
                env_model(empty_env@),
                Some(vm),
                tl.0@,
                tl.1@,
                stack_model(empty_stack@),
                f as nat,
                res.1@.1 + rest,
            ) == (result_model(res.0), res.2@, res.1@.0, rest));
        }
    }
    res
}

/// `{:?}` of the value, then `suffix`.
fn suffix_msg(v: &Value, suffix: &str) -> (res: String)
    ensures
        res@ == value_debug(value_model(*v)) + suffix@,
{
    let mut m = debug_value(v);
    m.append(suffix);
    m
}

/// Prints `p` and resumes with the unit value.
fn print_and_resume<N: Numerics>(
    p: Printed,
    command: &Command,
    env: &Env,
    tl: (&Vec<TopLevelTerm>, &Vec<TopLevelCommand>),
    f: usize,
    num: &mut Provider<N>,
    out: &mut Vec<Printed>,
) -> (res: CommandLogged)
    ensures
        grew(*old(num), *final(num), res.1@),
        output_model(final(out)@) == output_model(old(out)@) + res.2@,
        forall|rest: Seq<NAnswer>| #[trigger] resume_with(
            seq![printed_model(p)],
            Seq::empty(),
            FValue::Unt,
            command_model(*command),
            env_model(env@),
            tl.0@,
            tl.1@,
            f as nat,
            res.1@.1 + rest,
        ) == (result_model(res.0), res.2@, res.1@.0, rest),
    decreases f, 2nat,
{
    proof {
        lemma_grew_none(*num);
    }
    let ghost pm = printed_model(p);
    let ghost before = out@;
    out.push(p);
    proof {
        lemma_output_push(before, p);
    }
    let res = resume_exec(Value::Unt, command, env, tl, f, num, out);
    let ghost printed = seq![pm] + res.2@;
    proof {
        assert(output_model(out@) =~= output_model(old(out)@) + printed);
        lemma_no_queries(res.1@.0);
        assert forall|rest: Seq<NAnswer>| #[trigger] resume_with(
            seq![pm],
            Seq::empty(),
            FValue::Unt,
            command_model(*command),
            env_model(env@),
            tl.0@,
            tl.1@,
            f as nat,
            res.1@.1 + rest,
        ) == (result_model(res.0), printed, res.1@.0, rest) by {
            assert(eval_command(
                command_model(*command),
                env_model(env@),
                Seq::empty(),
                Some(FValue::Unt),
                tl.0@,
                tl.1@,
                Seq::empty(),
                f as nat,
                res.1@.1 + rest,
            ) == (result_model(res.0), res.2@, res.1@.0, rest));
        }
    }
    (res.0, res.1, Ghost(printed))
}

/// Draws one float from a normal distribution and resumes with it.
fn sample_and_resume<N: Numerics>(
    mean: u32,
    sd: u32,
    command: &Command,
    env: &Env,
    tl: (&Vec<TopLevelTerm>, &Vec<TopLevelCommand>),
    f: usize,
    num: &mut Provider<N>,
    out: &mut Vec<Printed>,
) -> (res: CommandLogged)
    ensures
        grew(*old(num), *final(num), res.1@),
        output_model(final(out)@) == output_model(old(out)@) + res.2@,
        forall|rest: Seq<NAnswer>| #[trigger] outermost(
            "SampleNormal"@,
            FValue::Pair(Box::new(FValue::NumFloat(mean)), Box::new(FValue::NumFloat(sd))),
            command_model(*command),
            env_model(env@),
            tl.0@,
            tl.1@,
            f as nat,
            res.1@.1 + rest,
        ) == (result_model(res.0), res.2@, res.1@.0, rest),
    decreases f, 2nat,
{
    proof {
        lemma_grew_none(*num);
    }
    proof {
        lemma_no_answers();
        lemma_no_output(output_model(out@));
    }
    let ghost vm = FValue::Pair(Box::new(FValue::NumFloat(mean)), Box::new(FValue::NumFloat(sd)));
    let ghost cm = command_model(*command);
    let ghost em = env_model(env@);
    let ghost fs = tl.0@;
    let ghost ars = tl.1@;
    let ghost q_ok = NQuery::NormalOk(mean, sd);
    proof {
        reveal_op_names();
    }
    let ghost p0 = *num;
    let ok = num.normal_ok(mean, sd);
    let ghost p1 = *num;
    proof {
        lemma_grew_one(p0, p1, q_ok, NAnswer::Truth(ok));
    }
    if !ok {
        let r = EvalResult::Wrong(string_of("Execution error: invalid parameters of a normal distribution"));
        assert(r->Wrong_0@ == invalid_normal_text());
        proof {
            assert forall|rest: Seq<NAnswer>| #[trigger] outermost(
                "SampleNormal"@,
                vm,
                cm,
                em,
                fs,
                ars,
                f as nat,
                seq![NAnswer::Truth(false)] + rest,
            ) == (result_model(r), Seq::<FPrinted>::empty(), seq![q_ok], rest) by {
                lemma_one_answer(NAnswer::Truth(false), rest);
            }
        }
        return (r, Ghost((seq![q_ok], seq![NAnswer::Truth(false)])), Ghost(Seq::empty()));
    }
    let x = num.sample_normal(mean, sd);
    let ghost p2 = *num;
    let res = resume_exec(Value::NumFloat(x), command, env, tl, f, num, out);
    let ghost asked = seq![q_ok, NQuery::Sample(mean, sd)] + res.1@.0;
    let ghost answers = seq![NAnswer::Truth(true), NAnswer::Float(x)] + res.1@.1;
    proof {
        lemma_grew_one(p1, p2, NQuery::Sample(mean, sd), NAnswer::Float(x));
        lemma_grew_then(p0, p1, p2, (seq![q_ok], seq![NAnswer::Truth(true)]), (seq![NQuery::Sample(mean, sd)], seq![NAnswer::Float(x)]));
        assert(seq![q_ok] + seq![NQuery::Sample(mean, sd)] =~= seq![q_ok, NQuery::Sample(mean, sd)]);
        assert(seq![NAnswer::Truth(true)] + seq![NAnswer::Float(x)] =~= seq![NAnswer::Truth(true), NAnswer::Float(x)]);
        lemma_grew_then(p0, p2, *num, (seq![q_ok, NQuery::Sample(mean, sd)], seq![NAnswer::Truth(true), NAnswer::Float(x)]), res.1@);
    }
    proof {
        assert forall|rest: Seq<NAnswer>| #[trigger] outermost("SampleNormal"@, vm, cm, em, fs, ars, f as nat, answers + rest)
            == (result_model(res.0), res.2@, asked, rest) by {
            let r3 = res.1@.1 + rest;
            assert(answers + rest =~= seq![NAnswer::Truth(true)] + (seq![NAnswer::Float(x)] + r3));
            lemma_one_answer(NAnswer::Truth(true), seq![NAnswer::Float(x)] + r3);
            lemma_one_answer(NAnswer::Float(x), r3);
            assert(eval_command(cm, em, Seq::empty(), Some(FValue::NumFloat(x)), fs, ars, Seq::empty(), f as nat, r3) == (
                result_model(res.0),
                res.2@,
                res.1@.0,
                rest,
            ));
            lemma_no_output(res.2@);
        }
    }
    (res.0, Ghost((asked, answers)), res.2)
}

/// The built-in operation names are distinct.
proof fn reveal_op_names()
    ensures
        "PrintFloat"@ != "PrintInt"@,
        "PrintVec"@ != "PrintInt"@,
        "PrintVec"@ != "PrintFloat"@,
        "PrintMat"@ != "PrintInt"@,
        "PrintMat"@ != "PrintFloat"@,
        "PrintMat"@ != "PrintVec"@,
        "SampleNormal"@ != "PrintInt"@,
        "SampleNormal"@ != "PrintFloat"@,
        "SampleNormal"@ != "PrintVec"@,
        "SampleNormal"@ != "PrintMat"@,
        "MatInitNormal"@ != "PrintInt"@,
        "MatInitNormal"@ != "PrintFloat"@,
        "MatInitNormal"@ != "PrintVec"@,
        "MatInitNormal"@ != "PrintMat"@,
        "MatInitNormal"@ != "SampleNormal"@,
        "VecInitNormal"@ != "PrintInt"@,
        "VecInitNormal"@ != "PrintFloat"@,
        "VecInitNormal"@ != "PrintVec"@,
        "VecInitNormal"@ != "PrintMat"@,
        "VecInitNormal"@ != "SampleNormal"@,
        "VecInitNormal"@ != "MatInitNormal"@,
{
    reveal_strlit("SampleNormal");
    reveal_strlit("PrintInt");
    reveal_strlit("PrintFloat");
    reveal_strlit("PrintVec");
    reveal_strlit("PrintMat");
    reveal_strlit("MatInitNormal");
    reveal_strlit("VecInitNormal");
    assert("PrintInt"@.len() == 8);
    assert("PrintFloat"@.len() == 10);
    assert("PrintVec"@.len() == 8);
    assert("PrintMat"@.len() == 8);
    assert("SampleNormal"@.len() == 12);
    assert("MatInitNormal"@.len() == 13);
    assert("VecInitNormal"@.len() == 13);
    assert("PrintVec"@[5] != "PrintInt"@[5]);
    assert("PrintMat"@[5] != "PrintInt"@[5]);
    assert("PrintMat"@[5] != "PrintVec"@[5]);
    assert("VecInitNormal"@[0] != "MatInitNormal"@[0]);
}

/// Draws an `m` by `n` matrix from a normal distribution and resumes with it.
fn mat_sample_and_resume<N: Numerics>(
    m: i32,
    n: i32,
    mean: u32,
    sd: u32,
    command: &Command,
    env: &Env,
    tl: (&Vec<TopLevelTerm>, &Vec<TopLevelCommand>),
    f: usize,
    num: &mut Provider<N>,
    out: &mut Vec<Printed>,
) -> (res: CommandLogged)
    ensures
        grew(*old(num), *final(num), res.1@),
        output_model(final(out)@) == output_model(old(out)@) + res.2@,
        forall|rest: Seq<NAnswer>| #[trigger] outermost(
            "MatInitNormal"@,
            FValue::Pair(
                Box::new(FValue::NumInt(m)),
                Box::new(
                    FValue::Pair(
                        Box::new(FValue::NumInt(n)),
                        Box::new(FValue::Pair(Box::new(FValue::NumFloat(mean)), Box::new(FValue::NumFloat(sd)))),
                    ),
                ),
            ),
            command_model(*command),
            env_model(env@),
            tl.0@,
            tl.1@,
            f as nat,
            res.1@.1 + rest,
        ) == (result_model(res.0), res.2@, res.1@.0, rest),
    decreases f, 2nat,
{
    proof {
        lemma_grew_none(*num);
    }
    proof {
        lemma_no_answers();
        lemma_no_output(output_model(out@));
        reveal_op_names();
    }
    let ghost vm = FValue::Pair(
        Box::new(FValue::NumInt(m)),
        Box::new(
            FValue::Pair(
                Box::new(FValue::NumInt(n)),
                Box::new(FValue::Pair(Box::new(FValue::NumFloat(mean)), Box::new(FValue::NumFloat(sd)))),
            ),
        ),
    );
    let ghost cm = command_model(*command);
    let ghost em = env_model(env@);
    let ghost fs = tl.0@;
    let ghost ars = tl.1@;
    let ghost q_ok = NQuery::NormalOk(mean, sd);
    let ghost p0 = *num;
    let ok = num.normal_ok(mean, sd);
    let ghost p1 = *num;
    proof {
        lemma_grew_one(p0, p1, q_ok, NAnswer::Truth(ok));
    }
    if !ok || m < 0 || n < 0 {
        let r = if !ok {
            EvalResult::Wrong(string_of("Execution error: invalid parameters of a normal distribution"))
        } else {
            EvalResult::Wrong(string_of("Execution error: negative matrix size"))
        };
        proof {
            assert forall|rest: Seq<NAnswer>| #[trigger] outermost(
                "MatInitNormal"@,
                vm,
                cm,
                em,
                fs,
                ars,
                f as nat,
                seq![NAnswer::Truth(ok)] + rest,
            ) == (result_model(r), Seq::<FPrinted>::empty(), seq![q_ok], rest) by {
                lemma_one_answer(NAnswer::Truth(ok), rest);
            }
        }
        return (r, Ghost((seq![q_ok], seq![NAnswer::Truth(ok)])), Ghost(Seq::empty()));
    }
    let g = GridSource::Normal(mean, sd, n as usize);
    assert((n as usize) as nat == n as nat);
    let (rows, glog) = grid_exec(&g, m as usize, num);
    let ghost p2 = *num;
    assert((m as usize) as nat == m as nat);
    let ghost rows_m = rows_model(rows@);
    let res = resume_exec(Value::Mat(rows), command, env, tl, f, num, out);
    let ghost asked = seq![q_ok] + glog@.0 + res.1@.0;
    let ghost answers = seq![NAnswer::Truth(true)] + glog@.1 + res.1@.1;
    proof {
        lemma_grew_then(p0, p1, p2, (seq![q_ok], seq![NAnswer::Truth(true)]), glog@);
        lemma_grew_then(p0, p2, *num, (seq![q_ok] + glog@.0, seq![NAnswer::Truth(true)] + glog@.1), res.1@);
    }
    proof {
        assert forall|rest: Seq<NAnswer>| #[trigger] outermost("MatInitNormal"@, vm, cm, em, fs, ars, f as nat, answers + rest)
            == (result_model(res.0), res.2@, asked, rest) by {
            let r3 = res.1@.1 + rest;
            assert(answers + rest =~= seq![NAnswer::Truth(true)] + (glog@.1 + r3));
            lemma_one_answer(NAnswer::Truth(true), glog@.1 + r3);
            assert(grid_run(Grid::Normal(mean, sd, n as nat), m as nat, glog@.1 + r3) == (rows_m, glog@.0, r3));
            assert(eval_command(cm, em, Seq::empty(), Some(FValue::Mat(rows_m)), fs, ars, Seq::empty(), f as nat, r3) == (
                result_model(res.0),
                res.2@,
                res.1@.0,
                rest,
            ));
            lemma_no_output(res.2@);
        }
    }
    (res.0, Ghost((asked, answers)), res.2)
}

/// Draws a vector of `m` floats from a normal distribution and resumes with it.
fn vec_sample_and_resume<N: Numerics>(
    m: i32,
    mean: u32,
    sd: u32,
    command: &Command,
    env: &Env,
    tl: (&Vec<TopLevelTerm>, &Vec<TopLevelCommand>),
    f: usize,
    num: &mut Provider<N>,
    out: &mut Vec<Printed>,
) -> (res: CommandLogged)
    ensures
        grew(*old(num), *final(num), res.1@),
        output_model(final(out)@) == output_model(old(out)@) + res.2@,
        forall|rest: Seq<NAnswer>| #[trigger] outermost(
            "VecInitNormal"@,
            FValue::Pair(
                Box::new(FValue::NumInt(m)),
                Box::new(FValue::Pair(Box::new(FValue::NumFloat(mean)), Box::new(FValue::NumFloat(sd)))),
            ),
            command_model(*command),
            env_model(env@),
            tl.0@,
            tl.1@,
            f as nat,
            res.1@.1 + rest,
        ) == (result_model(res.0), res.2@, res.1@.0, rest),
    decreases f, 2nat,
{
    proof {
        lemma_grew_none(*num);
    }
    proof {
        lemma_no_answers();
        lemma_no_output(output_model(out@));
        reveal_op_names();
    }
    let ghost vm = FValue::Pair(
        Box::new(FValue::NumInt(m)),
        Box::new(FValue::Pair(Box::new(FValue::NumFloat(mean)), Box::new(FValue::NumFloat(sd)))),
    );
    let ghost cm = command_model(*command);
    let ghost em = env_model(env@);
    let ghost fs = tl.0@;
    let ghost ars = tl.1@;
    let ghost q_ok = NQuery::NormalOk(mean, sd);
    let ghost p0 = *num;
    let ok = num.normal_ok(mean, sd);
    let ghost p1 = *num;
    proof {
        lemma_grew_one(p0, p1, q_ok, NAnswer::Truth(ok));
    }
    if !ok || m < 0 {
        let r = if !ok {
            EvalResult::Wrong(string_of("Execution error: invalid parameters of a normal distribution"))
        } else {
            EvalResult::Wrong(string_of("Execution error: negative vector size"))
        };
        proof {
            assert forall|rest: Seq<NAnswer>| #[trigger] outermost(
                "VecInitNormal"@,
                vm,
                cm,
                em,
                fs,
                ars,
                f as nat,
                seq![NAnswer::Truth(ok)] + rest,
            ) == (result_model(r), Seq::<FPrinted>::empty(), seq![q_ok], rest) by {
                lemma_one_answer(NAnswer::Truth(ok), rest);
            }
        }
        return (r, Ghost((seq![q_ok], seq![NAnswer::Truth(ok)])), Ghost(Seq::empty()));
    }
    let (row, rlog) = sample_row(mean, sd, m as usize, num);
    let ghost p2 = *num;
    assert((m as usize) as nat == m as nat);
    let ghost row_m = row@;
    let res = resume_exec(Value::Vect(row), command, env, tl, f, num, out);
    let ghost asked = seq![q_ok] + rlog@.0 + res.1@.0;
    let ghost answers = seq![NAnswer::Truth(true)] + rlog@.1 + res.1@.1;
    proof {
        lemma_grew_then(p0, p1, p2, (seq![q_ok], seq![NAnswer::Truth(true)]), rlog@);
        lemma_grew_then(p0, p2, *num, (seq![q_ok] + rlog@.0, seq![NAnswer::Truth(true)] + rlog@.1), res.1@);
    }
    proof {
        let g = Grid::Normal(mean, sd, m as nat);
        assert(rlog@.0 =~= Seq::new(grid_cols(g, 0), |j: int| grid_query(g, 0, j)));
        assert forall|rest: Seq<NAnswer>| #[trigger] outermost("VecInitNormal"@, vm, cm, em, fs, ars, f as nat, answers + rest)
            == (result_model(res.0), res.2@, asked, rest) by {
            let r3 = res.1@.1 + rest;
            assert(answers + rest =~= seq![NAnswer::Truth(true)] + (rlog@.1 + r3));
            lemma_one_answer(NAnswer::Truth(true), rlog@.1 + r3);
            lemma_row_run(g, 0, row_m, rlog@.0, rlog@.1, r3);
            assert(eval_command(cm, em, Seq::empty(), Some(FValue::Vect(row_m)), fs, ars, Seq::empty(), f as nat, r3) == (
                result_model(res.0),
                res.2@,
                res.1@.0,
                rest,
            ));
            lemma_no_output(res.2@);
        }
    }
    (res.0, Ghost((asked, answers)), res.2)
}

/// An operation that no handler takes: the printing operations append their
/// argument to `out` and resume with the unit value; the sampling
/// operations draw from a normal distribution and resume with the draws;
/// any other operation is an error.
#[verifier::spinoff_prover]
#[verifier::rlimit(40)]
fn outermost_logged<N: Numerics>(
    op: &Operation,
    val: Value,
    command: &Command,
    env: &Env,
    tl: (&Vec<TopLevelTerm>, &Vec<TopLevelCommand>),
    f: usize,
    num: &mut Provider<N>,
    out: &mut Vec<Printed>,
) -> (res: CommandLogged)
    ensures
        grew(*old(num), *final(num), res.1@),
        output_model(final(out)@) == output_model(old(out)@) + res.2@,
        forall|rest: Seq<NAnswer>| #[trigger] outermost(
            op.name(),
            value_model(val),
            command_model(*command),
            env_model(env@),
            tl.0@,
            tl.1@,
            f as nat,
            res.1@.1 + rest,
        ) == (result_model(res.0), res.2@, res.1@.0, rest),
    decreases f, 3nat,
{
    proof {
        lemma_grew_none(*num);
    }
    proof {
        lemma_no_answers();
        lemma_no_output(output_model(out@));
        reveal_op_names();
    }
    let ghost opn = op.name();
    let ghost vm = value_model(val);
    let ghost cm = command_model(*command);
    let ghost em = env_model(env@);
    let ghost fs = tl.0@;
    let ghost ars = tl.1@;
    let name = match op {
        Operation::Op(s) => s,
    };
    if *name == string_of("PrintInt") {
        match val {
            Value::NumInt(i) => {
                let ghost pm = FPrinted::Int(i);
                let res = print_and_resume(Printed::Int(i), command, env, tl, f, num, out);
                proof {
                    assert forall|rest: Seq<NAnswer>| #[trigger] outermost(opn, vm, cm, em, fs, ars, f as nat, res.1@.1 + rest) == (
                        result_model(res.0),
                        res.2@,
                        res.1@.0,
                        rest,
                    ) by {
                        assert(resume_with(seq![pm], Seq::empty(), FValue::Unt, cm, em, fs, ars, f as nat, res.1@.1 + rest) == (
                            result_model(res.0),
                            res.2@,
                            res.1@.0,
                            rest,
                        ));
                    }
                }
                return res;
            },
            _ => {
                return quiet(EvalResult::Wrong(value_msg("interp_command: DoOp: PrintInt: val=", &val, " is not an integer")));
            },
        }
    }
    if *name == string_of("PrintFloat") {
        match val {
            Value::NumFloat(x) => {
                let ghost pm = FPrinted::Float(x);
                let res = print_and_resume(Printed::Float(x), command, env, tl, f, num, out);
                proof {
                    assert forall|rest: Seq<NAnswer>| #[trigger] outermost(opn, vm, cm, em, fs, ars, f as nat, res.1@.1 + rest) == (
                        result_model(res.0),
                        res.2@,
                        res.1@.0,
                        rest,
                    ) by {
                        assert(resume_with(seq![pm], Seq::empty(), FValue::Unt, cm, em, fs, ars, f as nat, res.1@.1 + rest) == (
                            result_model(res.0),
                            res.2@,
                            res.1@.0,
                            rest,
                        ));
                    }
                }
                return res;
            },
            _ => {
                return quiet(EvalResult::Wrong(suffix_msg(&val, " is not a float")));
            },
        }
    }
    if *name == string_of("PrintVec") {
        match val {
            Value::Vect(v) => {
                let ghost pm = FPrinted::Vect(v@);
                let res = print_and_resume(Printed::Vect(v), command, env, tl, f, num, out);
                proof {
                    assert forall|rest: Seq<NAnswer>| #[trigger] outermost(opn, vm, cm, em, fs, ars, f as nat, res.1@.1 + rest) == (
                        result_model(res.0),
                        res.2@,
                        res.1@.0,
                        rest,
                    ) by {
                        assert(resume_with(seq![pm], Seq::empty(), FValue::Unt, cm, em, fs, ars, f as nat, res.1@.1 + rest) == (
                            result_model(res.0),
                            res.2@,
                            res.1@.0,
                            rest,
                        ));
                    }
                }
                return res;
            },
            _ => {
                return quiet(EvalResult::Wrong(suffix_msg(&val, " is not a vector")));
            },
        }
    }
    if *name == string_of("PrintMat") {
        match val {
            Value::Mat(m) => {
                let ghost pm = FPrinted::Mat(rows_model(m@));
                let res = print_and_resume(Printed::Mat(m), command, env, tl, f, num, out);
                proof {
                    assert forall|rest: Seq<NAnswer>| #[trigger] outermost(opn, vm, cm, em, fs, ars, f as nat, res.1@.1 + rest) == (
                        result_model(res.0),
                        res.2@,
                        res.1@.0,
                        rest,
                    ) by {
                        assert(resume_with(seq![pm], Seq::empty(), FValue::Unt, cm, em, fs, ars, f as nat, res.1@.1 + rest) == (
                            result_model(res.0),
                            res.2@,
                            res.1@.0,
                            rest,
                        ));
                    }
                }
                return res;
            },
            _ => {
                return quiet(EvalResult::Wrong(suffix_msg(&val, " is not a matrix")));
            },
        }
    }
    if *name == string_of("SampleNormal") {
        match &val {
            Value::Pair(a, b) => {
                assert(vm == FValue::Pair(Box::new(value_model(**a)), Box::new(value_model(**b))));
                match (&**a, &**b) {
                    (Value::NumFloat(mean), Value::NumFloat(sd)) => {
                        let res = sample_and_resume(*mean, *sd, command, env, tl, f, num, out);
                        proof {
                            assert forall|rest: Seq<NAnswer>| #[trigger] outermost(opn, vm, cm, em, fs, ars, f as nat, res.1@.1 + rest) == (
                                result_model(res.0),
                                res.2@,
                                res.1@.0,
                                rest,
                            ) by {
                                assert(outermost(
                                    "SampleNormal"@,
                                    FValue::Pair(Box::new(FValue::NumFloat(*mean)), Box::new(FValue::NumFloat(*sd))),
                                    cm,
                                    em,
                                    fs,
                                    ars,
                                    f as nat,
                                    res.1@.1 + rest,
                                ) == (result_model(res.0), res.2@, res.1@.0, rest));
                            }
                        }
                        return res;
                    },
                    _ => {
                        return quiet(EvalResult::Wrong(suffix_msg(&val, " is not a pair of floats")));
                    },
                }
            },
            _ => {
                return quiet(EvalResult::Wrong(suffix_msg(&val, " is not a pair")));
            },
        }
    }
    if *name == string_of("MatInitNormal") {
        match &val {
            Value::Pair(a, r1) => {
                assert(vm == FValue::Pair(Box::new(value_model(**a)), Box::new(value_model(**r1))));
                match &**r1 {
                    Value::Pair(b, r2) => {
                        assert(value_model(**r1) == FValue::Pair(Box::new(value_model(**b)), Box::new(value_model(**r2))));
                        match &**r2 {
                            Value::Pair(c, d) => {
                                assert(value_model(**r2) == FValue::Pair(Box::new(value_model(**c)), Box::new(value_model(**d))));
                                match (&**a, &**b, &**c, &**d) {
                                    (Value::NumInt(m), Value::NumInt(n), Value::NumFloat(mean), Value::NumFloat(sd)) => {
                                        let res = mat_sample_and_resume(*m, *n, *mean, *sd, command, env, tl, f, num, out);
                                        proof {
                                            assert forall|rest: Seq<NAnswer>| #[trigger] outermost(
                                                opn,
                                                vm,
                                                cm,
                                                em,
                                                fs,
                                                ars,
                                                f as nat,
                                                res.1@.1 + rest,
                                            ) == (result_model(res.0), res.2@, res.1@.0, rest) by {
                                                assert(outermost(
                                                    "MatInitNormal"@,
                                                    FValue::Pair(
                                                        Box::new(FValue::NumInt(*m)),
                                                        Box::new(
                                                            FValue::Pair(
                                                                Box::new(FValue::NumInt(*n)),
                                                                Box::new(
                                                                    FValue::Pair(
                                                                        Box::new(FValue::NumFloat(*mean)),
                                                                        Box::new(FValue::NumFloat(*sd)),
                                                                    ),
                                                                ),
                                                            ),
                                                        ),
                                                    ),
                                                    cm,
                                                    em,
                                                    fs,
                                                    ars,
                                                    f as nat,
                                                    res.1@.1 + rest,
                                                ) == (result_model(res.0), res.2@, res.1@.0, rest));
                                            }
                                        }
                                        return res;
                                    },
                                    _ => {
                                        return quiet(
                                            EvalResult::Wrong(
                                                suffix_msg(&val, " is not a tuple of type Int * Int * Float * Float"),
                                            ),
                                        );
                                    },
                                }
                            },
                            _ => {
                                return quiet(EvalResult::Wrong(suffix_msg(&val, " is not a tuple")));
                            },
                        }
                    },
                    _ => {
                        return quiet(EvalResult::Wrong(suffix_msg(&val, " is not a tuple")));
                    },
                }
            },
            _ => {
                return quiet(EvalResult::Wrong(suffix_msg(&val, " is not a tuple")));
            },
        }
    }
    if *name == string_of("VecInitNormal") {
        match &val {
            Value::Pair(a, r1) => {
                assert(vm == FValue::Pair(Box::new(value_model(**a)), Box::new(value_model(**r1))));
                match &**r1 {
                    Value::Pair(b, c) => {
                        assert(value_model(**r1) == FValue::Pair(Box::new(value_model(**b)), Box::new(value_model(**c))));
                        match (&**a, &**b, &**c) {
                            (Value::NumInt(m), Value::NumFloat(mean), Value::NumFloat(sd)) => {
                                let res = vec_sample_and_resume(*m, *mean, *sd, command, env, tl, f, num, out);
                                proof {
                                    assert forall|rest: Seq<NAnswer>| #[trigger] outermost(
                                        opn,
                                        vm,
                                        cm,
                                        em,
                                        fs,
                                        ars,
                                        f as nat,
                                        res.1@.1 + rest,
                                    ) == (result_model(res.0), res.2@, res.1@.0, rest) by {
                                        assert(outermost(
                                            "VecInitNormal"@,
                                            FValue::Pair(
                                                Box::new(FValue::NumInt(*m)),
                                                Box::new(
                                                    FValue::Pair(
                                                        Box::new(FValue::NumFloat(*mean)),
                                                        Box::new(FValue::NumFloat(*sd)),
                                                    ),
                                                ),
                                            ),
                                            cm,
                                            em,
                                            fs,
                                            ars,
                                            f as nat,
                                            res.1@.1 + rest,
                                        ) == (result_model(res.0), res.2@, res.1@.0, rest));
                                    }
                                }
                                return res;
                            },
                            _ => {
                                return quiet(
                                    EvalResult::Wrong(suffix_msg(&val, " is not a tuple of type Int * Float * Float")),
                                );
                            },
                        }
                    },
                    _ => {
                        return quiet(EvalResult::Wrong(suffix_msg(&val, " is not a tuple")));
                    },
                }
            },
            _ => {
                return quiet(EvalResult::Wrong(suffix_msg(&val, " is not a tuple")));
            },
        }
    }
    let mut m = string_of("interp_command: DoOp: Unhandled operation: Op(");
    let d = debug_str(name.as_str());
    m.append(d.as_str());
    m.append(")");
    quiet(EvalResult::Wrong(m))
}

// ---------------------------------------------------------------------
// The interpreter's entry points
// ---------------------------------------------------------------------

/// Evaluates term `t` in environment `env` within the budget `fuel`, with
/// the top-level functions and arrows in scope.  The result is what the
/// semantics gives for some sequence of answers of `num`: the answers that
/// `num` gave, to the questions the semantics asks.
pub fn interp_term<N: Numerics>(
    t: &Term,
    env: &Env,
    toplevels: (&Vec<TopLevelTerm>, &Vec<TopLevelCommand>),
    fuel: usize,
    num: &mut Provider<N>,
) -> (res: EvalResult)
    ensures
        exists|log: Log|
            grew(*old(num), *final(num), log) && #[trigger] term_run_ok(
                term_model(*t),
                env_model(env@),
                toplevels.0@,
                toplevels.1@,
                fuel as nat,
                result_model(res),
                log,
            ),
{
    let (r, log) = term_logged(t, env, toplevels, fuel, num);
    assert(term_run_ok(term_model(*t), env_model(env@), toplevels.0@, toplevels.1@, fuel as nat, result_model(r), log@));
    r
}

/// Evaluates `t` in the environment `env` followed by `env_com`.
pub fn concat_env_interp_term<N: Numerics>(
    t: &Term,
    env: &Env,
    env_com: &Env,
    toplevels: (&Vec<TopLevelTerm>, &Vec<TopLevelCommand>),
    fuel: usize,
    num: &mut Provider<N>,
) -> (res: EvalResult)
    ensures
        exists|log: Log|
            grew(*old(num), *final(num), log) && #[trigger] term_run_ok(
                term_model(*t),
                env_model(env@) + env_model(env_com@),
                toplevels.0@,
                toplevels.1@,
                fuel as nat,
                result_model(res),
                log,
            ),
{
    let (r, log) = concat_term(t, env, env_com, toplevels, fuel, num);
    assert(term_run_ok(
        term_model(*t),
        env_model(env@) + env_model(env_com@),
        toplevels.0@,
        toplevels.1@,
        fuel as nat,
        result_model(r),
        log@,
    ));
    r
}

/// Runs command `c` with term environment `env`, command environment
/// `env_com`, the value to resume with, and the stack of continuations
/// around it (innermost last), within the budget `fuel`; what the program
/// prints is appended to `out`.
pub fn interp_command<N: Numerics>(
    c: &Command,
    env: &Env,
    env_com: &Env,
    resume_val: Option<Value>,
    toplevels: (&Vec<TopLevelTerm>, &Vec<TopLevelCommand>),
    cont_stack: &Vec<&Continuation>,
    fuel: usize,
    num: &mut Provider<N>,
    out: &mut Vec<Printed>,
) -> (res: EvalResult)
    ensures
        exists|log: Log, printed: Seq<FPrinted>|
            grew(*old(num), *final(num), log) && output_model(final(out)@) == output_model(old(out)@) + printed
                && #[trigger] command_run_ok(
                command_model(*c),
                env_model(env@),
                env_model(env_com@),
                opt_value_model(resume_val),
                toplevels.0@,
                toplevels.1@,
                stack_model(cont_stack@),
                fuel as nat,
                result_model(res),
                printed,
                log,
            ),
{
    let ghost rvm = opt_value_model(resume_val);
    let (r, log, printed) = command_logged(c, env, env_com, resume_val, toplevels, cont_stack, fuel, num, out);
    assert(command_run_ok(
        command_model(*c),
        env_model(env@),
        env_model(env_com@),
        rvm,
        toplevels.0@,
        toplevels.1@,
        stack_model(cont_stack@),
        fuel as nat,
        result_model(r),
        printed@,
        log@,
    ));
    r
}

/// The outermost handler's run for operation `op` with the answers of
/// `log` gives `r` and prints `printed`, asking the questions of `log`.
pub open spec fn outermost_run_ok(
    op: Seq<char>,
    val: FValue,
    command: FCommand,
    env: FEnv,
    fs: Seq<TopLevelTerm>,
    ars: Seq<TopLevelCommand>,
    fuel: nat,
    r: FResult,
    printed: Seq<FPrinted>,
    log: Log,
) -> bool {
    forall|rest: Seq<NAnswer>| #[trigger] outermost(op, val, command, env, fs, ars, fuel, log.1 + rest) == (
        r,
        printed,
        log.0,
        rest,
    )
}

/// An operation that no handler takes, performed with argument `val`;
/// `command` is the computation it resumes.
pub fn outermost_handler<N: Numerics>(
    op: &Operation,
    val: Value,
    command: &Command,
    env: &Env,
    toplevels: (&Vec<TopLevelTerm>, &Vec<TopLevelCommand>),
    fuel: usize,
    num: &mut Provider<N>,
    out: &mut Vec<Printed>,
) -> (res: EvalResult)
    ensures
        exists|log: Log, printed: Seq<FPrinted>|
            grew(*old(num), *final(num), log) && output_model(final(out)@) == output_model(old(out)@) + printed
                && #[trigger] outermost_run_ok(
                op.name(),
                value_model(val),
                command_model(*command),
                env_model(env@),
                toplevels.0@,
                toplevels.1@,
                fuel as nat,
                result_model(res),
                printed,
                log,
            ),
{
    let ghost vm = value_model(val);
    let (r, log, printed) = outermost_logged(op, val, command, env, toplevels, fuel, num, out);
    assert(outermost_run_ok(
        op.name(),
        vm,
        command_model(*command),
        env_model(env@),
        toplevels.0@,
        toplevels.1@,
        fuel as nat,
        result_model(r),
        printed@,
        log@,
    ));
    r
}

/// The run of the whole program with the answers of `log` gives `r` and
/// prints `printed`, asking the questions of `log`, whatever answers follow.
pub open spec fn program_run_ok(
    fs: Seq<TopLevelTerm>,
    ars: Seq<TopLevelCommand>,
    r: FResult,
    printed: Seq<FPrinted>,
    log: Log,
) -> bool {
    forall|rest: Seq<NAnswer>| #[trigger] run_main_from(fs, ars, 0, usize::MAX as nat, log.1 + rest) == (
        r,
        printed,
        log.0,
        rest,
    )
}

/// Runs the program: the first arrow named `main`, with its argument and
/// command argument bound to the unit value; what it prints is appended to
/// `out`.
pub fn execute<N: Numerics>(
    functions: &Vec<TopLevelTerm>,
    arrows: &Vec<TopLevelCommand>,
    num: &mut Provider<N>,
    out: &mut Vec<Printed>,
) -> (res: EvalResult)
    ensures
        exists|log: Log, printed: Seq<FPrinted>|
            grew(*old(num), *final(num), log) && output_model(final(out)@) == output_model(old(out)@) + printed
                && #[trigger] program_run_ok(
                functions@,
                arrows@,
                result_model(res),
                printed,
                log,
            ),
{
    proof {
        lemma_no_answers();
        lemma_no_output(output_model(out@));
        lemma_grew_none(*num);
    }
    let ghost fs = functions@;
    let ghost ars = arrows@;
    let mut i: usize = 0;
    while i < arrows.len()
        invariant
            i <= arrows@.len(),
            out@ == old(out)@,
            *num == *old(num),
            fs == functions@,
            ars == arrows@,
            forall|ans: Seq<NAnswer>| #[trigger] run_main_from(fs, ars, 0, usize::MAX as nat, ans) == run_main_from(
                fs,
                ars,
                i as int,
                usize::MAX as nat,
                ans,
            ),
        decreases arrows.len() - i,
    {
        let a = &arrows[i];
        match (&a.0, &a.1, &a.2) {
            (Var::V(arr_name), VarWithType::VT(x, _), VarWithType::VT(z, _)) => {
                if *arr_name == string_of("main") {
                    let mut env: Env = Vec::new();
                    assert(env_model(env@) =~= Seq::<(Seq<char>, FValue)>::empty());
                    let ghost bx = bind_pattern(var_prod_model(*x), FValue::Unt);
                    let ghost bz = bind_pattern(var_prod_model(*z), FValue::Unt);
                    let unit = Value::Unt;
                    if bind_var_prod(&mut env, x, &unit).is_err() {
                        let r = EvalResult::Wrong(string_of("main: failed argument binding"));
                        proof {
                            assert forall|rest: Seq<NAnswer>| #[trigger] run_main_from(
                                fs,
                                ars,
                                0,
                                usize::MAX as nat,
                                Seq::<NAnswer>::empty() + rest,
                            ) == (result_model(r), Seq::<FPrinted>::empty(), Seq::<NQuery>::empty(), rest) by {
                                assert(run_main_from(fs, ars, i as int, usize::MAX as nat, rest) == (
                                    result_model(r),
                                    Seq::<FPrinted>::empty(),
                                    Seq::<NQuery>::empty(),
                                    rest,
                                ));
                            }
                            assert(program_run_ok(
                                fs,
                                ars,
                                result_model(r),
                                Seq::empty(),
                                (Seq::empty(), Seq::empty()),
                            ));
                        }
                        return r;
                    }
                    assert(env_model(env@) =~= bx.1);
                    if bind_var_prod(&mut env, z, &unit).is_err() {
                        let r = EvalResult::Wrong(string_of("main: failed command argument binding"));
                        proof {
                            assert forall|rest: Seq<NAnswer>| #[trigger] run_main_from(
                                fs,
                                ars,
                                0,
                                usize::MAX as nat,
                                Seq::<NAnswer>::empty() + rest,
                            ) == (result_model(r), Seq::<FPrinted>::empty(), Seq::<NQuery>::empty(), rest) by {
                                assert(run_main_from(fs, ars, i as int, usize::MAX as nat, rest) == (
                                    result_model(r),
                                    Seq::<FPrinted>::empty(),
                                    Seq::<NQuery>::empty(),
                                    rest,
                                ));
                            }
                            assert(program_run_ok(
                                fs,
                                ars,
                                result_model(r),
                                Seq::empty(),
                                (Seq::empty(), Seq::empty()),
                            ));
                        }
                        return r;
                    }
                    assert(env_model(env@) =~= bx.1 + bz.1);
                    let env_com: Env = Vec::new();
                    assert(env_model(env_com@) =~= Seq::<(Seq<char>, FValue)>::empty());
                    let empty_stack: Vec<&Continuation> = Vec::new();
                    proof {
                        lemma_stack_empty(empty_stack@);
                    }
                    let res = command_logged(&a.4, &env, &env_com, None, (functions, arrows), &empty_stack, usize::MAX, num, out);
                    proof {
                        assert forall|rest: Seq<NAnswer>| #[trigger] run_main_from(
                            fs,
                            ars,
                            0,
                            usize::MAX as nat,
                            res.1@.1 + rest,
                        ) == (result_model(res.0), res.2@, res.1@.0, rest) by {
                            assert(eval_command(
                                command_model(a.4),
                                env_model(env@),
                                env_model(env_com@),
                                None,
                                fs,
                                ars,
                                stack_model(empty_stack@),
                                usize::MAX as nat,
                                res.1@.1 + rest,
                            ) == (result_model(res.0), res.2@, res.1@.0, rest));
                            assert(run_main_from(fs, ars, i as int, usize::MAX as nat, res.1@.1 + rest) == (
                                result_model(res.0),
                                res.2@,
                                res.1@.0,
                                rest,
                            ));
                        }
                        assert(program_run_ok(fs, ars, result_model(res.0), res.2@, res.1@));
                    }
                    return res.0;
                }
            },
        }
        i = i + 1;
    }
    let r = EvalResult::Wrong(string_of("main not found"));
    proof {
        assert forall|rest: Seq<NAnswer>| #[trigger] run_main_from(
            fs,
            ars,
            0,
            usize::MAX as nat,
            Seq::<NAnswer>::empty() + rest,
        ) == (result_model(r), Seq::<FPrinted>::empty(), Seq::<NQuery>::empty(), rest) by {
            assert(run_main_from(fs, ars, i as int, usize::MAX as nat, rest) == (
                result_model(r),
                Seq::<FPrinted>::empty(),
                Seq::<NQuery>::empty(),
                rest,
            ));
        }
        assert(program_run_ok(fs, ars, result_model(r), Seq::empty(), (Seq::empty(), Seq::empty())));
    }
    r
}


/// Binding a pair pattern to a pair binds its left part to the left
/// component and its right part to the right component: for distinct
/// names `x` and `y`, `P(x, y)` bound to `(a, b)` gives `[(x, a), (y, b)]`,
/// and afterwards `x` is `a` and `y` is `b`.
pub proof fn lemma_bind_pair_names(x: Seq<char>, y: Seq<char>, a: FValue, b: FValue, env: FEnv)
    requires
        x != y,
    ensures
        bind_pattern(
            FVarProd::P(Box::new(FVarProd::V(x)), Box::new(FVarProd::V(y))),
            FValue::Pair(Box::new(a), Box::new(b)),
        ) == (true, seq![(x, a), (y, b)]),
        lookup_env(x, env + seq![(x, a), (y, b)]) == Some(a),
        lookup_env(y, env + seq![(x, a), (y, b)]) == Some(b),
{
    let e = env + seq![(x, a), (y, b)];
    assert(bind_pattern(FVarProd::V(x), a) == (true, seq![(x, a)]));
    assert(bind_pattern(FVarProd::V(y), b) == (true, seq![(y, b)]));
    assert(seq![(x, a)] + seq![(y, b)] =~= seq![(x, a), (y, b)]);
    assert(e.last() == (y, b));
    assert(e.drop_last() =~= env + seq![(x, a)]);
    assert((env + seq![(x, a)]).last() == (x, a));
    assert(lookup_env(x, env + seq![(x, a)]) == Some(a));
}

/// Binding a pair pattern to a pair succeeds exactly when both parts bind
/// to the corresponding components, and binds the names of the left part
/// (to parts of the left component) before those of the right part (to
/// parts of the right component); a pair pattern binds nothing else.
pub proof fn lemma_bind_pair(p1: FVarProd, p2: FVarProd, a: FValue, b: FValue)
    ensures
        bind_pattern(FVarProd::P(Box::new(p1), Box::new(p2)), FValue::Pair(Box::new(a), Box::new(b))).0 == (
            bind_pattern(p1, a).0 && bind_pattern(p2, b).0),
        bind_pattern(p1, a).0 && bind_pattern(p2, b).0 ==> bind_pattern(
            FVarProd::P(Box::new(p1), Box::new(p2)),
            FValue::Pair(Box::new(a), Box::new(b)),
        ).1 == bind_pattern(p1, a).1 + bind_pattern(p2, b).1,
        forall|w: FValue| !(w is Pair) ==> !#[trigger] bind_pattern(FVarProd::P(Box::new(p1), Box::new(p2)), w).0,
{
}

/// A name binds to the whole value; `_` binds nothing.
pub proof fn lemma_bind_name(x: Seq<char>, v: FValue)
    ensures
        bind_pattern(FVarProd::V(x), v) == (true, seq![(x, v)]),
        bind_pattern(FVarProd::Unused, v) == (true, Seq::<(Seq<char>, FValue)>::empty()),
{
}

} // verus!
