//! ArrowML: a small functional language with arrows and effect handlers,
//! and its core calculus.  The library holds the syntax, the type checker,
//! and the interpreters, each verified against a mathematical semantics.
pub mod ast;
pub mod show;
pub mod typing;
pub mod typechecker;
pub mod builtin;
pub mod core_calculus;
pub mod model;
pub mod numerics;
pub mod location;
pub mod render;
pub mod render_write;
pub mod semantics;
pub mod interpreter;

use vstd::prelude::*;
use crate::ast::{EffectDecl, EvalResult, Printed, TopLevelCommand, TopLevelTerm};
use crate::builtin::{builtin_decls, builtin_effect};
use crate::interpreter::{execute, program_run_ok, Log};
use crate::model::{output_model, result_model, FPrinted};
use crate::numerics::{grew, Numerics, Provider};
use crate::typechecker::typecheck_toplevel;
use crate::typing::tc_toplevel;

verus! {

/// Which language a program is written in.
pub enum Mode {
    /// the core calculus
    Core,
    /// the full language
    Full,
}

/// `b` holds the built-in operations, in order.
pub open spec fn is_builtins(b: Seq<EffectDecl>) -> bool {
    &&& b.len() == builtin_decls().len()
    &&& forall|i: int| 0 <= i < b.len() ==> (#[trigger] b[i].0.name(), b[i].1, b[i].2) == builtin_decls()[i]
}

/// What running a checked program of the full language gives: the type
/// error, with nothing printed and nothing asked of the provider; or the
/// result of its run for the questions it put to the provider (`num_before`
/// becoming `num_after`) and the answers the provider gave.
pub open spec fn full_mode_ok<N: Numerics>(
    effects: Seq<EffectDecl>,
    functions: Seq<TopLevelTerm>,
    arrows: Seq<TopLevelCommand>,
    res: Result<EvalResult, String>,
    out_before: Seq<Printed>,
    out_after: Seq<Printed>,
    num_before: Provider<N>,
    num_after: Provider<N>,
) -> bool {
    match res {
        Err(e) => tc_toplevel(effects, functions, arrows) == Err::<(), Seq<char>>(e@) && out_after == out_before
            && num_after == num_before,
        Ok(r) => tc_toplevel(effects, functions, arrows) == Ok::<(), Seq<char>>(()) && exists|
            log: Log,
            printed: Seq<FPrinted>,
        |
            grew(num_before, num_after, log) && output_model(out_after) == output_model(out_before) + printed
                && #[trigger] program_run_ok(
                functions,
                arrows,
                result_model(r),
                printed,
                log,
            ),
    }
}

/// Type-checks a program of the full language, with the built-in operations
/// added to its effects, and runs it when it is well typed; what the program
/// prints is appended to `out`.
pub fn full_mode<N: Numerics>(
    effects: Vec<EffectDecl>,
    functions: &Vec<TopLevelTerm>,
    arrows: &Vec<TopLevelCommand>,
    num: &mut Provider<N>,
    out: &mut Vec<Printed>,
) -> (res: Result<EvalResult, String>)
    ensures
        exists|b: Seq<EffectDecl>|
            is_builtins(b) && #[trigger] full_mode_ok(
                effects@ + b,
                functions@,
                arrows@,
                res,
                old(out)@,
                final(out)@,
                *old(num),
                *final(num),
            ),
{
    let mut effs = effects;
    let mut b = builtin_effect();
    let ghost bv = b@;
    effs.append(&mut b);
    match typecheck_toplevel(&effs, functions, arrows) {
        Ok(()) => {
            let r = execute(functions, arrows, num, out);
            let res: Result<EvalResult, String> = Ok(r);
            assert(full_mode_ok(effects@ + bv, functions@, arrows@, res, old(out)@, out@, *old(num), *num));
            res
        },
        Err(e) => {
            let res: Result<EvalResult, String> = Err(e);
            assert(full_mode_ok(effects@ + bv, functions@, arrows@, res, old(out)@, out@, *old(num), *num));
            res
        },
    }
}

} // verus!
