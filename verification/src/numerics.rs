//! The floating-point side of the full language.
//!
//! The interpreter holds every `f32` as its bit pattern and never computes
//! with one itself: each arithmetic step, comparison and random draw is a
//! question put to a `Numerics` provider.  Nothing is assumed of the
//! answers.  The provider is reached only through a `Provider`, which
//! records each question with the answer that came back; the interpreter's
//! contracts say that this record grew by exactly the questions and answers
//! under which the semantics gives the result.
use vstd::prelude::*;

verus! {

/// A question put to the numerics provider; floats are bit patterns.
pub enum NQuery {
    /// `a + b`
    Add(u32, u32),
    /// `a - b`
    Sub(u32, u32),
    /// `a * b`
    Mul(u32, u32),
    /// `a / b`
    Div(u32, u32),
    /// `exp(a)`
    Exp(u32),
    /// `a < b`
    Lt(u32, u32),
    /// `a > b`
    Gt(u32, u32),
    /// whether a normal distribution with this mean and standard deviation exists
    NormalOk(u32, u32),
    /// a draw from the normal distribution with this mean and standard deviation
    Sample(u32, u32),
}

/// An answer of the numerics provider.
pub enum NAnswer {
    Float(u32),
    Truth(bool),
}

/// The float carried by an answer (a truth value stands for no float).
pub open spec fn float_of(a: NAnswer) -> u32 {
    match a {
        NAnswer::Float(x) => x,
        NAnswer::Truth(_) => 0,
    }
}

/// The truth value carried by an answer.
pub open spec fn truth_of(a: NAnswer) -> bool {
    match a {
        NAnswer::Truth(b) => b,
        NAnswer::Float(_) => false,
    }
}

/// The floats carried by the first `n` answers.
pub open spec fn floats(ans: Seq<NAnswer>, n: nat) -> Seq<u32> {
    Seq::new(n, |i: int| float_of(ans[i]))
}

/// The provider of floating-point arithmetic and of random draws.  Its
/// methods promise nothing: the interpreter is correct for whatever they
/// return.
pub trait Numerics {
    fn fadd(&mut self, a: u32, b: u32) -> u32;

    fn fsub(&mut self, a: u32, b: u32) -> u32;

    fn fmul(&mut self, a: u32, b: u32) -> u32;

    fn fdiv(&mut self, a: u32, b: u32) -> u32;

    fn fexp(&mut self, a: u32) -> u32;

    fn flt(&mut self, a: u32, b: u32) -> bool;

    fn fgt(&mut self, a: u32, b: u32) -> bool;

    fn normal_ok(&mut self, mean: u32, std_dev: u32) -> bool;

    fn sample_normal(&mut self, mean: u32, std_dev: u32) -> u32;
}

/// The binary float operations applied entry by entry.
#[derive(Clone, Copy)]
pub enum FOp {
    Add,
    Sub,
    Mul,
}

/// The question that `op` asks of `a` and `b`.
pub open spec fn op_query(op: FOp, a: u32, b: u32) -> NQuery {
    match op {
        FOp::Add => NQuery::Add(a, b),
        FOp::Sub => NQuery::Sub(a, b),
        FOp::Mul => NQuery::Mul(a, b),
    }
}

/// A numerics provider together with the record of every question put to
/// it and every answer it gave, in order.  The interpreter reaches the
/// provider only through this record, so what it asked and what came back
/// are known to the proofs exactly.
pub struct Provider<N> {
    inner: N,
    asked: Ghost<Seq<NQuery>>,
    answered: Ghost<Seq<NAnswer>>,
}

impl<N: Numerics> Provider<N> {
    /// The questions put to the provider so far.
    pub closed spec fn asked(&self) -> Seq<NQuery> {
        self.asked@
    }

    /// The answers the provider gave so far.
    pub closed spec fn answered(&self) -> Seq<NAnswer> {
        self.answered@
    }

    /// A provider that has been asked nothing yet.
    pub fn new(inner: N) -> (p: Self)
        ensures
            p.asked() == Seq::<NQuery>::empty(),
            p.answered() == Seq::<NAnswer>::empty(),
    {
        Provider { inner, asked: Ghost(Seq::empty()), answered: Ghost(Seq::empty()) }
    }

    /// The provider itself.
    pub fn inner(&self) -> &N {
        &self.inner
    }

    /// Gives the provider back.
    pub fn into_inner(self) -> N {
        self.inner
    }

    fn record(&mut self, q: NQuery, a: NAnswer)
        ensures
            final(self).asked() == old(self).asked().push(q),
            final(self).answered() == old(self).answered().push(a),
    {
        self.asked = Ghost(self.asked@.push(q));
        self.answered = Ghost(self.answered@.push(a));
    }

    /// `a + b`
    pub fn fadd(&mut self, a: u32, b: u32) -> (r: u32)
        ensures
            final(self).asked() == old(self).asked().push(NQuery::Add(a, b)),
            final(self).answered() == old(self).answered().push(NAnswer::Float(r)),
    {
        let r = self.inner.fadd(a, b);
        self.record(NQuery::Add(a, b), NAnswer::Float(r));
        r
    }

    /// `a - b`
    pub fn fsub(&mut self, a: u32, b: u32) -> (r: u32)
        ensures
            final(self).asked() == old(self).asked().push(NQuery::Sub(a, b)),
            final(self).answered() == old(self).answered().push(NAnswer::Float(r)),
    {
        let r = self.inner.fsub(a, b);
        self.record(NQuery::Sub(a, b), NAnswer::Float(r));
        r
    }

    /// `a * b`
    pub fn fmul(&mut self, a: u32, b: u32) -> (r: u32)
        ensures
            final(self).asked() == old(self).asked().push(NQuery::Mul(a, b)),
            final(self).answered() == old(self).answered().push(NAnswer::Float(r)),
    {
        let r = self.inner.fmul(a, b);
        self.record(NQuery::Mul(a, b), NAnswer::Float(r));
        r
    }

    /// `a / b`
    pub fn fdiv(&mut self, a: u32, b: u32) -> (r: u32)
        ensures
            final(self).asked() == old(self).asked().push(NQuery::Div(a, b)),
            final(self).answered() == old(self).answered().push(NAnswer::Float(r)),
    {
        let r = self.inner.fdiv(a, b);
        self.record(NQuery::Div(a, b), NAnswer::Float(r));
        r
    }

    /// `exp(a)`
    pub fn fexp(&mut self, a: u32) -> (r: u32)
        ensures
            final(self).asked() == old(self).asked().push(NQuery::Exp(a)),
            final(self).answered() == old(self).answered().push(NAnswer::Float(r)),
    {
        let r = self.inner.fexp(a);
        self.record(NQuery::Exp(a), NAnswer::Float(r));
        r
    }

    /// `a < b`
    pub fn flt(&mut self, a: u32, b: u32) -> (r: bool)
        ensures
            final(self).asked() == old(self).asked().push(NQuery::Lt(a, b)),
            final(self).answered() == old(self).answered().push(NAnswer::Truth(r)),
    {
        let r = self.inner.flt(a, b);
        self.record(NQuery::Lt(a, b), NAnswer::Truth(r));
        r
    }

    /// `a > b`
    pub fn fgt(&mut self, a: u32, b: u32) -> (r: bool)
        ensures
            final(self).asked() == old(self).asked().push(NQuery::Gt(a, b)),
            final(self).answered() == old(self).answered().push(NAnswer::Truth(r)),
    {
        let r = self.inner.fgt(a, b);
        self.record(NQuery::Gt(a, b), NAnswer::Truth(r));
        r
    }

    /// Whether a normal distribution with this mean and deviation exists.
    pub fn normal_ok(&mut self, mean: u32, std_dev: u32) -> (r: bool)
        ensures
            final(self).asked() == old(self).asked().push(NQuery::NormalOk(mean, std_dev)),
            final(self).answered() == old(self).answered().push(NAnswer::Truth(r)),
    {
        let r = self.inner.normal_ok(mean, std_dev);
        self.record(NQuery::NormalOk(mean, std_dev), NAnswer::Truth(r));
        r
    }

    /// A draw from the normal distribution with this mean and deviation.
    pub fn sample_normal(&mut self, mean: u32, std_dev: u32) -> (r: u32)
        ensures
            final(self).asked() == old(self).asked().push(NQuery::Sample(mean, std_dev)),
            final(self).answered() == old(self).answered().push(NAnswer::Float(r)),
    {
        let r = self.inner.sample_normal(mean, std_dev);
        self.record(NQuery::Sample(mean, std_dev), NAnswer::Float(r));
        r
    }
}

/// `p1` is `p0` after the questions and answers of `log`.
pub open spec fn grew<N: Numerics>(p0: Provider<N>, p1: Provider<N>, log: (Seq<NQuery>, Seq<NAnswer>)) -> bool {
    p1.asked() == p0.asked() + log.0 && p1.answered() == p0.answered() + log.1
}

/// A provider asked nothing is unchanged.
pub proof fn lemma_grew_none<N: Numerics>(p: Provider<N>)
    ensures
        grew(p, p, (Seq::<NQuery>::empty(), Seq::<NAnswer>::empty())),
{
    assert(p.asked() + Seq::<NQuery>::empty() =~= p.asked());
    assert(p.answered() + Seq::<NAnswer>::empty() =~= p.answered());
}

/// Two runs one after the other.
pub proof fn lemma_grew_then<N: Numerics>(
    p0: Provider<N>,
    p1: Provider<N>,
    p2: Provider<N>,
    l1: (Seq<NQuery>, Seq<NAnswer>),
    l2: (Seq<NQuery>, Seq<NAnswer>),
)
    requires
        grew(p0, p1, l1),
        grew(p1, p2, l2),
    ensures
        grew(p0, p2, (l1.0 + l2.0, l1.1 + l2.1)),
{
    assert((p0.asked() + l1.0) + l2.0 =~= p0.asked() + (l1.0 + l2.0));
    assert((p0.answered() + l1.1) + l2.1 =~= p0.answered() + (l1.1 + l2.1));
}

/// A run, then one more question.
pub proof fn lemma_grew_push<N: Numerics>(
    p0: Provider<N>,
    p1: Provider<N>,
    p2: Provider<N>,
    l: (Seq<NQuery>, Seq<NAnswer>),
    q: NQuery,
    a: NAnswer,
)
    requires
        grew(p0, p1, l),
        p2.asked() == p1.asked().push(q),
        p2.answered() == p1.answered().push(a),
    ensures
        grew(p0, p2, (l.0.push(q), l.1.push(a))),
{
    assert((p0.asked() + l.0).push(q) =~= p0.asked() + l.0.push(q));
    assert((p0.answered() + l.1).push(a) =~= p0.answered() + l.1.push(a));
}

/// A single question and its answer.
pub proof fn lemma_grew_one<N: Numerics>(p0: Provider<N>, p1: Provider<N>, q: NQuery, a: NAnswer)
    requires
        p1.asked() == p0.asked().push(q),
        p1.answered() == p0.answered().push(a),
    ensures
        grew(p0, p1, (seq![q], seq![a])),
{
    assert(p0.asked().push(q) =~= p0.asked() + seq![q]);
    assert(p0.answered().push(a) =~= p0.answered() + seq![a]);
}

/// Asks `op` of `a` and `b`.
pub fn ask_op<N: Numerics>(num: &mut Provider<N>, op: FOp, a: u32, b: u32) -> (res: (u32, Ghost<NQuery>, Ghost<NAnswer>))
    ensures
        res.1@ == op_query(op, a, b),
        res.2@ == NAnswer::Float(res.0),
        final(num).asked() == old(num).asked().push(res.1@),
        final(num).answered() == old(num).answered().push(res.2@),
{
    let x = match op {
        FOp::Add => num.fadd(a, b),
        FOp::Sub => num.fsub(a, b),
        FOp::Mul => num.fmul(a, b),
    };
    (x, Ghost(op_query(op, a, b)), Ghost(NAnswer::Float(x)))
}

} // verus!
