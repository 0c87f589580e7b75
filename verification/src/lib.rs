//! A small expression-evaluation engine: a closed set of runtime values,
//! their arithmetic, comparison and colour operations, a continuation stack
//! and an evaluator for expression trees.
//!
//! The engine performs no floating-point arithmetic itself. Numbers are
//! carried as IEEE-754 bit patterns. Whenever a rounded result is needed the
//! engine hands a `request::Request` to its caller and goes on once it is
//! given the `request::Answer`. Whatever the bit pattern alone decides
//! (sign, zero, order, truncation) is decided here.
//!
//! The evaluator is a machine that takes one step at a time
//! (`runtime::Runtime::step`). What an evaluation as a whole comes to is
//! said by the walk of the tree in `semantics`, and proved of the machine
//! in `evaluation`.

pub mod num;
pub mod color;
pub mod request;
pub mod value;
pub mod stack;
pub mod env;
pub mod expr;
pub mod runtime;
pub mod semantics;
pub mod evaluation;
pub mod postfix;
