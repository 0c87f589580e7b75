use vstd::prelude::*;
use crate::num::Num;
use crate::num::Single;
use crate::color::Color;

verus! {

/// The variant of a value, without its contents.
#[derive(Clone, Copy, Debug, PartialEq, Eq, Structural)]
pub enum Kind {
    Num,
    Str,
    Bool,
    Unit,
    Color,
    Array,
    Table,
    Future,
    Continuation,
}

/// The binary operations of the value model.
#[derive(Clone, Copy, Debug, PartialEq, Eq, Structural)]
pub enum Operation {
    Add,
    Sub,
    Mul,
    Div,
    Blend,
    LessThan,
    GreaterThan,
}

/// Why an operation or an evaluation failed.
#[derive(Clone, Copy, Debug, PartialEq, Eq, Structural)]
pub enum EvalError {
    /// The operation is not defined for operands of these two variants.
    Mismatch(Operation, Kind, Kind),
    /// Only a colour can be scaled.
    CannotScale(Kind),
    /// A number was expected.
    ExpectedNumber(Kind),
    /// A number was divided by positive or negative zero.
    DivisionByZero,
    /// The truncated index is not below the array's length.
    IndexOutOfBounds(u64),
    /// An array was indexed by something that is not a number.
    IndexNotNumber(Kind),
    /// No entry of the map matches the key.
    KeyNotFound,
    /// Only arrays and maps can be indexed.
    NotIndexable(Kind),
    /// Composition needs a continuation on both sides.
    ComposeNeedsContinuations(Kind, Kind),
    /// An iteration loop needs an array to walk.
    ForNeedsArray(Kind),
    /// The caller answered a request with an answer of another shape, or
    /// answered where nothing was asked.
    UnexpectedAnswer,
}

/// The four rounded operations on doubles.
#[derive(Clone, Copy, Debug, PartialEq, Eq, Structural)]
pub enum ArithOp {
    Add,
    Sub,
    Mul,
    Div,
}

/// Floating-point work that the engine leaves to its caller.
#[derive(Clone, Copy, Debug, PartialEq, Eq, Structural)]
pub enum Request {
    /// The rounded result of the operation on the two doubles, in this
    /// order. Answered by `Answer::Number`.
    Arith(ArithOp, Num, Num),
    /// Whether the absolute value of the rounded difference of the two
    /// doubles is below the machine epsilon. Answered by `Answer::Flag`.
    Near(Num, Num),
    /// Each channel of the colour, as a single-precision number, times the
    /// factor. Answered by `Answer::Products`, red first.
    Scale(Color, Single),
    /// For each channel, in single precision: the first colour's channel
    /// times one minus the ratio, plus the second colour's channel times
    /// the ratio. Answered by `Answer::Products`, red first.
    Mix(Color, Color, Single),
}

/// The caller's answer to a `Request`.
#[derive(Clone, Copy, Debug, PartialEq, Eq, Structural)]
pub enum Answer {
    Number(Num),
    Flag(bool),
    Products(Single, Single, Single),
}

} // verus!
