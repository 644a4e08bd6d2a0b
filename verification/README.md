# snek

Compilers for the snek language, one module per stage of the language, with
their parsers, a reference evaluator and code generators that emit x86-64
assembly text. The library is verified with Verus: every parser and code
generator states, over a mathematical model, exactly what it returns and on
which inputs it succeeds.

Layout:

- `src/sexpr.rs`: s-expressions as the parsers read them; reading them from
  text with the `sexp` crate.
- `src/env.rs`: the persistent maps (`im::HashMap`) from names to values or
  stack slots, and what the library relies on of them.
- `src/text.rs`: decimal text of integers and joining lines; `src/lines.rs`:
  reading a text back as lines.
- `src/week1`, `src/week2_plus`, `src/week2_if`, `src/week3_set_loop_break`,
  `src/week4_print`, `src/week5_vec`: the stages of the language.
  `week2_plus/correctness.rs` proves that the code of the second stage,
  read as instructions, computes what its evaluator computes.
- `src/current`: the code generator for programs of the last stage;
  `laws.rs` proves, over the lines of the emitted text (read by
  `listing.rs` and `stores.rs`), that the labels a code defines lie in the
  counter range it consumed and that its stores lie in the frame it
  reserves or in variables' slots, and `frame.rs` that the epilogue undoes
  the prologue.
- `app/main.rs`: the command line program (`snek IN OUT [week2-plus]`).
