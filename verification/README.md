# arrowml

ArrowML is a small functional language with functions, arrows (commands
that may perform operations) and effect handlers, together with a core
calculus of the same shape.  This crate holds its syntax, its type checker
and its two interpreters, each verified with Verus against a mathematical
specification.

## Layout

- `src/ast.rs` — syntax and run-time values of the full language.  Floats
  are held as their IEEE-754 bit patterns.
- `src/typing.rs` — the typing rules as spec functions, with laws about the
  contexts they build (what each judgement adds, and what it restores).
- `src/typechecker.rs` — the type checker, proved to compute the typing
  rules exactly, error messages included.
- `src/show.rs` — textual rendering of types and syntax used in messages.
- `src/render.rs`, `src/render_write.rs` — the rendering of run-time
  values, environments, terms and commands in the shape of `{:?}`, stated
  over the models and written by verified functions; run-time error
  messages quote values this way.  Floats appear as their bit patterns.
- `src/builtin.rs` — the built-in operations and their types.
- `src/model.rs` — mathematical models of syntax and values.
- `src/numerics.rs` — the interface to floating-point arithmetic and
  random draws.  The interpreter never computes with a float itself: it asks
  a `Numerics` provider through a `Provider`, which records every question
  and answer; the interpreter is proved correct for every sequence of
  answers, and its contracts say that the record grew by exactly the
  questions and answers of the run.
- `src/semantics.rs` — big-step semantics of the full language, with an
  evaluation budget, the questions asked of the provider, and what the
  program prints; laws that a larger budget changes nothing and that a run
  asking no question does not depend on the answers.
- `src/interpreter.rs` — the interpreter of the full language, proved
  against `semantics`.
- `src/core_calculus/` — the core calculus: its syntax, the rendering of
  its values, its semantics and its interpreter.
- `src/location.rs` — the line and column of an offset in a program's
  text, for parse errors.
- `src/lib.rs` — `full_mode`: check a program, then run it.
- `app/` — the command-line driver: reading files, the `f32` provider of
  arithmetic and normal draws, and printing.
