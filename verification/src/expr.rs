use vstd::prelude::*;
use crate::num::Single;
use crate::value::Value;
use crate::value::ValueView;
use crate::value::narrowed;

verus! {

/// The forms with two operands, each evaluated left before right.
#[derive(Clone, Copy, Debug, PartialEq, Eq, Structural)]
pub enum Binary {
    Add,
    Sub,
    Mul,
    Div,
    Blend,
    Get,
    Compose,
    Choice,
}

/// An expression tree. It is built once, handed to the evaluator, and
/// used up by the evaluation.
#[derive(Debug)]
pub enum Expr {
    Value(Value),
    Add(Box<Expr>, Box<Expr>),
    Sub(Box<Expr>, Box<Expr>),
    Mul(Box<Expr>, Box<Expr>),
    Div(Box<Expr>, Box<Expr>),
    /// The average of two colours.
    Blend(Box<Expr>, Box<Expr>),
    /// A colour times a constant factor.
    Scale(Box<Expr>, Single),
    /// An array indexed by a number, or a map by a key.
    Get(Box<Expr>, Box<Expr>),
    /// Two continuations, stacked so that the left one runs first.
    Compose(Box<Expr>, Box<Expr>),
    /// The left operand, or the right one where the left gives `Unit`.
    Choice(Box<Expr>, Box<Expr>),
    /// The body once for every item of an array, the item bound to a name.
    For(String, Box<Expr>, Box<Expr>),
    /// The body as long as the condition is truthy.
    While(Box<Expr>, Box<Expr>),
    /// Expressions in sequence; the last one's value counts.
    Block(Vec<Expr>),
}

/// The mathematical content of an `Expr`.
pub ghost enum ExprView {
    Value(ValueView),
    Binary(Binary, Box<ExprView>, Box<ExprView>),
    Scale(Box<ExprView>, Single),
    For(Seq<char>, Box<ExprView>, Box<ExprView>),
    While(Box<ExprView>, Box<ExprView>),
    Block(Seq<ExprView>),
}

/// The views of a vector of expressions, in order.
pub open spec fn expr_views(items: Seq<Expr>) -> Seq<ExprView>
    decreases items,
{
    Seq::new(
        items.len(),
        |i: int|
            if 0 <= i < items.len() {
                expr_view(items[i])
            } else {
                ExprView::Value(ValueView::Unit)
            },
    )
}

pub open spec fn expr_view(e: Expr) -> ExprView
    decreases e,
{
    match e {
        Expr::Value(v) => ExprView::Value(v@),
        Expr::Add(l, r) => ExprView::Binary(
            Binary::Add,
            Box::new(expr_view(*l)),
            Box::new(expr_view(*r)),
        ),
        Expr::Sub(l, r) => ExprView::Binary(
            Binary::Sub,
            Box::new(expr_view(*l)),
            Box::new(expr_view(*r)),
        ),
        Expr::Mul(l, r) => ExprView::Binary(
            Binary::Mul,
            Box::new(expr_view(*l)),
            Box::new(expr_view(*r)),
        ),
        Expr::Div(l, r) => ExprView::Binary(
            Binary::Div,
            Box::new(expr_view(*l)),
            Box::new(expr_view(*r)),
        ),
        Expr::Blend(l, r) => ExprView::Binary(
            Binary::Blend,
            Box::new(expr_view(*l)),
            Box::new(expr_view(*r)),
        ),
        Expr::Scale(inner, factor) => ExprView::Scale(Box::new(expr_view(*inner)), factor),
        Expr::Get(l, r) => ExprView::Binary(
            Binary::Get,
            Box::new(expr_view(*l)),
            Box::new(expr_view(*r)),
        ),
        Expr::Compose(l, r) => ExprView::Binary(
            Binary::Compose,
            Box::new(expr_view(*l)),
            Box::new(expr_view(*r)),
        ),
        Expr::Choice(l, r) => ExprView::Binary(
            Binary::Choice,
            Box::new(expr_view(*l)),
            Box::new(expr_view(*r)),
        ),
        Expr::For(name, source, body) => ExprView::For(
            name@,
            Box::new(expr_view(*source)),
            Box::new(expr_view(*body)),
        ),
        Expr::While(condition, body) => ExprView::While(
            Box::new(expr_view(*condition)),
            Box::new(expr_view(*body)),
        ),
        Expr::Block(items) => ExprView::Block(expr_views(items@)),
    }
}

impl View for Expr {
    type V = ExprView;

    open spec fn view(&self) -> ExprView {
        expr_view(*self)
    }
}

/// What a copy of an expression holds: the same tree, each literal
/// replaced by its copy.
pub open spec fn copied(e: ExprView) -> ExprView
    decreases e,
{
    match e {
        ExprView::Value(v) => ExprView::Value(narrowed(v)),
        ExprView::Binary(op, l, r) => ExprView::Binary(
            op,
            Box::new(copied(*l)),
            Box::new(copied(*r)),
        ),
        ExprView::Scale(inner, factor) => ExprView::Scale(Box::new(copied(*inner)), factor),
        ExprView::For(name, source, body) => ExprView::For(
            name,
            Box::new(copied(*source)),
            Box::new(copied(*body)),
        ),
        ExprView::While(condition, body) => ExprView::While(
            Box::new(copied(*condition)),
            Box::new(copied(*body)),
        ),
        ExprView::Block(items) => ExprView::Block(copied_seq(items)),
    }
}

pub open spec fn copied_seq(items: Seq<ExprView>) -> Seq<ExprView>
    decreases items,
{
    Seq::new(
        items.len(),
        |i: int|
            if 0 <= i < items.len() {
                copied(items[i])
            } else {
                ExprView::Value(ValueView::Unit)
            },
    )
}

/// The literal expressions of a sequence of values, in order.
pub open spec fn literals(values: Seq<ValueView>) -> Seq<ExprView> {
    Seq::new(values.len(), |i: int| ExprView::Value(values[i]))
}

/// Copies every expression of a vector, as `Expr::duplicate` copies one.
pub fn duplicate_exprs(items: &Vec<Expr>) -> (out: Vec<Expr>)
    ensures
        expr_views(out@) == copied_seq(expr_views(items@)),
    decreases items,
{
    let mut out: Vec<Expr> = Vec::new();
    let mut i: usize = 0;
    while i < items.len()
        invariant
            i <= items.len(),
            out.len() == i,
            forall|j: int| 0 <= j < i ==> expr_view(#[trigger] out[j]) == copied(expr_view(items[j])),
        decreases items.len() - i,
    {
        let copy = items[i].duplicate();
        out.push(copy);
        i += 1;
    }
    assert(expr_views(out@) =~= copied_seq(expr_views(items@)));
    out
}

impl Expr {
    /// Copies an expression tree. Literals are copied as values are, so a
    /// suspended computation in the tree becomes `Unit` in the copy.
    pub fn duplicate(&self) -> (r: Expr)
        ensures
            r@ == copied(self@),
        decreases self,
    {
        match self {
            Expr::Value(v) => Expr::Value(v.duplicate()),
            Expr::Add(l, r) => Expr::Add(Box::new(l.duplicate()), Box::new(r.duplicate())),
            Expr::Sub(l, r) => Expr::Sub(Box::new(l.duplicate()), Box::new(r.duplicate())),
            Expr::Mul(l, r) => Expr::Mul(Box::new(l.duplicate()), Box::new(r.duplicate())),
            Expr::Div(l, r) => Expr::Div(Box::new(l.duplicate()), Box::new(r.duplicate())),
            Expr::Blend(l, r) => Expr::Blend(Box::new(l.duplicate()), Box::new(r.duplicate())),
            Expr::Scale(inner, factor) => Expr::Scale(Box::new(inner.duplicate()), *factor),
            Expr::Get(l, r) => Expr::Get(Box::new(l.duplicate()), Box::new(r.duplicate())),
            Expr::Compose(l, r) => Expr::Compose(Box::new(l.duplicate()), Box::new(r.duplicate())),
            Expr::Choice(l, r) => Expr::Choice(Box::new(l.duplicate()), Box::new(r.duplicate())),
            Expr::For(name, source, body) => Expr::For(
                name.clone(),
                Box::new(source.duplicate()),
                Box::new(body.duplicate()),
            ),
            Expr::While(condition, body) => Expr::While(
                Box::new(condition.duplicate()),
                Box::new(body.duplicate()),
            ),
            Expr::Block(items) => Expr::Block(duplicate_exprs(items)),
        }
    }
}

impl Clone for Expr {
    fn clone(&self) -> (r: Self)
        ensures
            r@ == copied(self@),
    {
        self.duplicate()
    }
}

} // verus!
