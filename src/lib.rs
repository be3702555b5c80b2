// An interpreter for a small Scheme-flavoured Lisp: text is split into tokens, parsed into
// one expression, and evaluated against a chain of frames. `semantics` states what
// evaluation means; the executable evaluator is proved to follow it.
pub mod built_in_functions;
pub mod environment;
pub mod evaluate;
pub mod functions;
pub mod laws;
pub mod lisp_error;
pub mod lisp_expression;
pub mod parser;
pub mod printer;
pub mod semantics;
pub mod tokenizer;
pub mod value;
