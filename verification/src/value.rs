use vstd::prelude::*;
use crate::num::Num;
use crate::num::Single;
use crate::color::Color;
use crate::request::Kind;
use crate::request::Operation;
use crate::request::EvalError;
use crate::request::ArithOp;
use crate::request::Request;
use crate::request::Answer;

verus! {

/// The name under which the front end keeps a suspended computation. The
/// engine never looks inside: it hands the name back when the computation is
/// to run.
#[derive(Debug, PartialEq, Eq, Structural)]
pub struct Thunk {
    pub id: u64,
}

/// A suspended computation. It cannot be duplicated.
#[derive(Debug, PartialEq, Eq, Structural)]
pub enum Continuation {
    /// Callable later: running it produces a value.
    Resume(Thunk),
    /// A marker that does nothing.
    Empty,
}

/// A placeholder for a result that is not there yet. Nothing polls it: its
/// state changes only by assignment.
#[derive(Debug)]
pub enum FutureState {
    Pending,
    Resolved(Box<Value>),
    Rejected(String),
}

/// A runtime value.
#[derive(Debug)]
pub enum Value {
    Num(Num),
    Str(String),
    Bool(bool),
    Unit,
    Color(Color),
    Array(Vec<Value>),
    Table(Vec<(Value, Value)>),
    Future(FutureState),
    Continuation(Box<Continuation>),
}

/// The mathematical content of a `FutureState`.
pub ghost enum FutureView {
    Pending,
    Resolved(Box<ValueView>),
    Rejected(Seq<char>),
}

/// The mathematical content of a `Value`.
pub ghost enum ValueView {
    Num(Num),
    Str(Seq<char>),
    Bool(bool),
    Unit,
    Color(Color),
    Array(Seq<ValueView>),
    Table(Seq<(ValueView, ValueView)>),
    Future(FutureView),
    Continuation(Continuation),
}

/// What an operation on values comes to: a value, or floating-point work
/// whose answer settles into the value.
#[derive(Debug)]
pub enum Outcome {
    Done(Value),
    Ask(Request),
}

pub ghost enum OutcomeView {
    Done(ValueView),
    Ask(Request),
}

impl View for Outcome {
    type V = OutcomeView;

    open spec fn view(&self) -> OutcomeView {
        match self {
            Outcome::Done(v) => OutcomeView::Done(v@),
            Outcome::Ask(r) => OutcomeView::Ask(*r),
        }
    }
}

/// The views of a vector of values, in order.
pub open spec fn views(items: Seq<Value>) -> Seq<ValueView>
    decreases items,
{
    Seq::new(
        items.len(),
        |i: int|
            if 0 <= i < items.len() {
                value_view(items[i])
            } else {
                ValueView::Unit
            },
    )
}

/// The views of a vector of key-value pairs, in order.
pub open spec fn pair_views(pairs: Seq<(Value, Value)>) -> Seq<(ValueView, ValueView)>
    decreases pairs,
{
    Seq::new(
        pairs.len(),
        |i: int|
            if 0 <= i < pairs.len() {
                (value_view(pairs[i].0), value_view(pairs[i].1))
            } else {
                (ValueView::Unit, ValueView::Unit)
            },
    )
}

pub open spec fn future_view(f: FutureState) -> FutureView
    decreases f,
{
    match f {
        FutureState::Pending => FutureView::Pending,
        FutureState::Resolved(v) => FutureView::Resolved(Box::new(value_view(*v))),
        FutureState::Rejected(m) => FutureView::Rejected(m@),
    }
}

pub open spec fn value_view(v: Value) -> ValueView
    decreases v,
{
    match v {
        Value::Num(n) => ValueView::Num(n),
        Value::Str(s) => ValueView::Str(s@),
        Value::Bool(b) => ValueView::Bool(b),
        Value::Unit => ValueView::Unit,
        Value::Color(c) => ValueView::Color(c),
        Value::Array(items) => ValueView::Array(views(items@)),
        Value::Table(pairs) => ValueView::Table(pair_views(pairs@)),
        Value::Future(f) => ValueView::Future(future_view(f)),
        Value::Continuation(c) => ValueView::Continuation(*c),
    }
}

impl View for FutureState {
    type V = FutureView;

    open spec fn view(&self) -> FutureView {
        future_view(*self)
    }
}

impl View for Value {
    type V = ValueView;

    open spec fn view(&self) -> ValueView {
        value_view(*self)
    }
}

/// What a copy of a value holds: a suspended computation cannot be copied,
/// so wherever the value holds one the copy holds `Unit`.
pub open spec fn narrowed(v: ValueView) -> ValueView
    decreases v,
{
    match v {
        ValueView::Array(items) => ValueView::Array(narrowed_seq(items)),
        ValueView::Table(pairs) => ValueView::Table(narrowed_pairs(pairs)),
        ValueView::Future(FutureView::Resolved(inner)) => ValueView::Future(
            FutureView::Resolved(Box::new(narrowed(*inner))),
        ),
        ValueView::Continuation(_) => ValueView::Unit,
        _ => v,
    }
}

pub open spec fn narrowed_seq(items: Seq<ValueView>) -> Seq<ValueView>
    decreases items,
{
    Seq::new(
        items.len(),
        |i: int|
            if 0 <= i < items.len() {
                narrowed(items[i])
            } else {
                ValueView::Unit
            },
    )
}

pub open spec fn narrowed_pairs(pairs: Seq<(ValueView, ValueView)>) -> Seq<(ValueView, ValueView)>
    decreases pairs,
{
    Seq::new(
        pairs.len(),
        |i: int|
            if 0 <= i < pairs.len() {
                (narrowed(pairs[i].0), narrowed(pairs[i].1))
            } else {
                (ValueView::Unit, ValueView::Unit)
            },
    )
}

impl ValueView {
    pub open spec fn kind(self) -> Kind {
        match self {
            ValueView::Num(_) => Kind::Num,
            ValueView::Str(_) => Kind::Str,
            ValueView::Bool(_) => Kind::Bool,
            ValueView::Unit => Kind::Unit,
            ValueView::Color(_) => Kind::Color,
            ValueView::Array(_) => Kind::Array,
            ValueView::Table(_) => Kind::Table,
            ValueView::Future(_) => Kind::Future,
            ValueView::Continuation(_) => Kind::Continuation,
        }
    }

    /// Truthiness: a boolean is itself, a number is true unless it is a
    /// zero, `Unit` is false, everything else is true.
    pub open spec fn truthy(self) -> bool {
        match self {
            ValueView::Bool(b) => b,
            ValueView::Num(n) => !n.zero(),
            ValueView::Unit => false,
            _ => true,
        }
    }

    pub open spec fn sum(self, other: ValueView) -> Result<OutcomeView, EvalError> {
        match (self, other) {
            (ValueView::Num(a), ValueView::Num(b)) => Ok(
                OutcomeView::Ask(Request::Arith(ArithOp::Add, a, b)),
            ),
            (ValueView::Color(a), ValueView::Color(b)) => Ok(
                OutcomeView::Done(ValueView::Color(a.plus(b))),
            ),
            (ValueView::Array(a), ValueView::Array(b)) => Ok(
                OutcomeView::Done(ValueView::Array(narrowed_seq(a) + narrowed_seq(b))),
            ),
            _ => Err(EvalError::Mismatch(Operation::Add, self.kind(), other.kind())),
        }
    }

    pub open spec fn difference(self, other: ValueView) -> Result<OutcomeView, EvalError> {
        match (self, other) {
            (ValueView::Num(a), ValueView::Num(b)) => Ok(
                OutcomeView::Ask(Request::Arith(ArithOp::Sub, a, b)),
            ),
            (ValueView::Color(a), ValueView::Color(b)) => Ok(
                OutcomeView::Done(ValueView::Color(a.minus(b))),
            ),
            _ => Err(EvalError::Mismatch(Operation::Sub, self.kind(), other.kind())),
        }
    }

    pub open spec fn product(self, other: ValueView) -> Result<OutcomeView, EvalError> {
        match (self, other) {
            (ValueView::Num(a), ValueView::Num(b)) => Ok(
                OutcomeView::Ask(Request::Arith(ArithOp::Mul, a, b)),
            ),
            _ => Err(EvalError::Mismatch(Operation::Mul, self.kind(), other.kind())),
        }
    }

    pub open spec fn quotient(self, other: ValueView) -> Result<OutcomeView, EvalError> {
        match (self, other) {
            (ValueView::Num(a), ValueView::Num(b)) => if b.zero() {
                Err(EvalError::DivisionByZero)
            } else {
                Ok(OutcomeView::Ask(Request::Arith(ArithOp::Div, a, b)))
            },
            _ => Err(EvalError::Mismatch(Operation::Div, self.kind(), other.kind())),
        }
    }

    pub open spec fn blended(self, other: ValueView) -> Result<OutcomeView, EvalError> {
        match (self, other) {
            (ValueView::Color(a), ValueView::Color(b)) => Ok(
                OutcomeView::Done(ValueView::Color(a.blended(b))),
            ),
            _ => Err(EvalError::Mismatch(Operation::Blend, self.kind(), other.kind())),
        }
    }

    pub open spec fn scaled(self, factor: Single) -> Result<OutcomeView, EvalError> {
        match self {
            ValueView::Color(c) => Ok(OutcomeView::Ask(Request::Scale(c, factor))),
            _ => Err(EvalError::CannotScale(self.kind())),
        }
    }

    pub open spec fn below(self, other: ValueView) -> Result<ValueView, EvalError> {
        match (self, other) {
            (ValueView::Num(a), ValueView::Num(b)) => Ok(ValueView::Bool(a.below(b))),
            _ => Err(EvalError::Mismatch(Operation::LessThan, self.kind(), other.kind())),
        }
    }

    pub open spec fn above(self, other: ValueView) -> Result<ValueView, EvalError> {
        match (self, other) {
            (ValueView::Num(a), ValueView::Num(b)) => Ok(ValueView::Bool(b.below(a))),
            _ => Err(EvalError::Mismatch(Operation::GreaterThan, self.kind(), other.kind())),
        }
    }

    pub open spec fn same(self, other: ValueView) -> OutcomeView {
        match (self, other) {
            (ValueView::Num(a), ValueView::Num(b)) => OutcomeView::Ask(Request::Near(a, b)),
            (ValueView::Bool(a), ValueView::Bool(b)) => OutcomeView::Done(ValueView::Bool(a == b)),
            (ValueView::Str(a), ValueView::Str(b)) => OutcomeView::Done(ValueView::Bool(a == b)),
            _ => OutcomeView::Done(ValueView::Bool(false)),
        }
    }
}

/// The value that an answered request stands for.
pub open spec fn settled(request: Request, answer: Answer) -> Result<ValueView, EvalError> {
    match (request, answer) {
        (Request::Arith(_, _, _), Answer::Number(n)) => Ok(ValueView::Num(n)),
        (Request::Near(_, _), Answer::Flag(b)) => Ok(ValueView::Bool(b)),
        (Request::Scale(_, _), Answer::Products(r, g, b)) => Ok(
            ValueView::Color(Color::of_products(r, g, b)),
        ),
        (Request::Mix(_, _, _), Answer::Products(r, g, b)) => Ok(
            ValueView::Color(Color::of_products(r, g, b)),
        ),
        _ => Err(EvalError::UnexpectedAnswer),
    }
}

/// The view of a result that carries a value.
pub open spec fn value_result(r: Result<Value, EvalError>) -> Result<ValueView, EvalError> {
    match r {
        Ok(v) => Ok(v@),
        Err(e) => Err(e),
    }
}

/// The view of a result that carries an outcome.
pub open spec fn outcome_result(r: Result<Outcome, EvalError>) -> Result<OutcomeView, EvalError> {
    match r {
        Ok(o) => Ok(o@),
        Err(e) => Err(e),
    }
}

/// Copies every value of a vector, as `Value::duplicate` copies one.
pub fn duplicate_all(items: &Vec<Value>) -> (out: Vec<Value>)
    ensures
        views(out@) == narrowed_seq(views(items@)),
    decreases items,
{
    let mut out: Vec<Value> = Vec::new();
    let mut i: usize = 0;
    while i < items.len()
        invariant
            i <= items.len(),
            out.len() == i,
            forall|j: int| 0 <= j < i ==> value_view(#[trigger] out[j]) == narrowed(value_view(items[j])),
        decreases items.len() - i,
    {
        let copy = items[i].duplicate();
        out.push(copy);
        i += 1;
    }
    assert(views(out@) =~= narrowed_seq(views(items@)));
    out
}

/// Copies every pair of a vector, as `Value::duplicate` copies a value.
pub fn duplicate_pairs(pairs: &Vec<(Value, Value)>) -> (out: Vec<(Value, Value)>)
    ensures
        pair_views(out@) == narrowed_pairs(pair_views(pairs@)),
    decreases pairs,
{
    let mut out: Vec<(Value, Value)> = Vec::new();
    let mut i: usize = 0;
    while i < pairs.len()
        invariant
            i <= pairs.len(),
            out.len() == i,
            forall|j: int|
                0 <= j < i ==> value_view((#[trigger] out[j]).0) == narrowed(value_view(pairs[j].0))
                    && value_view(out[j].1) == narrowed(value_view(pairs[j].1)),
        decreases pairs.len() - i,
    {
        let key = pairs[i].0.duplicate();
        let value = pairs[i].1.duplicate();
        out.push((key, value));
        i += 1;
    }
    assert(pair_views(out@) =~= narrowed_pairs(pair_views(pairs@)));
    out
}

impl Value {
    pub fn kind(&self) -> (k: Kind)
        ensures
            k == self@.kind(),
    {
        match self {
            Value::Num(_) => Kind::Num,
            Value::Str(_) => Kind::Str,
            Value::Bool(_) => Kind::Bool,
            Value::Unit => Kind::Unit,
            Value::Color(_) => Kind::Color,
            Value::Array(_) => Kind::Array,
            Value::Table(_) => Kind::Table,
            Value::Future(_) => Kind::Future,
            Value::Continuation(_) => Kind::Continuation,
        }
    }

    /// Copies a value. A suspended computation is not copied: in its place
    /// the copy holds `Unit`, at any depth.
    pub fn duplicate(&self) -> (r: Value)
        ensures
            r@ == narrowed(self@),
        decreases self,
    {
        match self {
            Value::Num(n) => Value::Num(*n),
            Value::Str(s) => Value::Str(s.clone()),
            Value::Bool(b) => Value::Bool(*b),
            Value::Unit => Value::Unit,
            Value::Color(c) => Value::Color(*c),
            Value::Array(items) => Value::Array(duplicate_all(items)),
            Value::Table(pairs) => Value::Table(duplicate_pairs(pairs)),
            Value::Future(f) => match f {
                FutureState::Pending => Value::Future(FutureState::Pending),
                FutureState::Resolved(inner) => Value::Future(
                    FutureState::Resolved(Box::new(inner.duplicate())),
                ),
                FutureState::Rejected(m) => Value::Future(FutureState::Rejected(m.clone())),
            },
            Value::Continuation(_) => Value::Unit,
        }
    }

    pub fn as_num(&self) -> (r: Result<Num, EvalError>)
        ensures
            r == (match self@ {
                ValueView::Num(n) => Ok::<Num, EvalError>(n),
                _ => Err(EvalError::ExpectedNumber(self@.kind())),
            }),
    {
        match self {
            Value::Num(n) => Ok(*n),
            _ => Err(EvalError::ExpectedNumber(self.kind())),
        }
    }

    /// Numbers ask for their sum, colours add channel by channel and stop
    /// at 255, arrays are joined: copies of the left one's items, then
    /// copies of the right one's.
    pub fn add(&self, other: &Value) -> (r: Result<Outcome, EvalError>)
        ensures
            outcome_result(r) == self@.sum(other@),
    {
        match (self, other) {
            (Value::Num(a), Value::Num(b)) => Ok(Outcome::Ask(Request::Arith(ArithOp::Add, *a, *b))),
            (Value::Color(a), Value::Color(b)) => Ok(Outcome::Done(Value::Color(a.add(b)))),
            (Value::Array(a), Value::Array(b)) => {
                let mut joined = duplicate_all(a);
                let mut tail = duplicate_all(b);
                let ghost head = joined@;
                let ghost rest = tail@;
                joined.append(&mut tail);
                assert(views(joined@) =~= views(head) + views(rest));
                Ok(Outcome::Done(Value::Array(joined)))
            },
            _ => Err(EvalError::Mismatch(Operation::Add, self.kind(), other.kind())),
        }
    }

    /// Numbers ask for their difference, colours subtract channel by
    /// channel and stop at 0.
    pub fn sub(&self, other: &Value) -> (r: Result<Outcome, EvalError>)
        ensures
            outcome_result(r) == self@.difference(other@),
    {
        match (self, other) {
            (Value::Num(a), Value::Num(b)) => Ok(Outcome::Ask(Request::Arith(ArithOp::Sub, *a, *b))),
            (Value::Color(a), Value::Color(b)) => Ok(Outcome::Done(Value::Color(a.sub(b)))),
            _ => Err(EvalError::Mismatch(Operation::Sub, self.kind(), other.kind())),
        }
    }

    pub fn mul(&self, other: &Value) -> (r: Result<Outcome, EvalError>)
        ensures
            outcome_result(r) == self@.product(other@),
    {
        match (self, other) {
            (Value::Num(a), Value::Num(b)) => Ok(Outcome::Ask(Request::Arith(ArithOp::Mul, *a, *b))),
            _ => Err(EvalError::Mismatch(Operation::Mul, self.kind(), other.kind())),
        }
    }

    /// A number divided by a zero of either sign is an error; by anything
    /// else the quotient is asked for.
    pub fn div(&self, other: &Value) -> (r: Result<Outcome, EvalError>)
        ensures
            outcome_result(r) == self@.quotient(other@),
    {
        match (self, other) {
            (Value::Num(a), Value::Num(b)) => {
                if b.is_zero() {
                    Err(EvalError::DivisionByZero)
                } else {
                    Ok(Outcome::Ask(Request::Arith(ArithOp::Div, *a, *b)))
                }
            },
            _ => Err(EvalError::Mismatch(Operation::Div, self.kind(), other.kind())),
        }
    }

    pub fn blend(&self, other: &Value) -> (r: Result<Outcome, EvalError>)
        ensures
            outcome_result(r) == self@.blended(other@),
    {
        match (self, other) {
            (Value::Color(a), Value::Color(b)) => Ok(Outcome::Done(Value::Color(a.blend(b)))),
            _ => Err(EvalError::Mismatch(Operation::Blend, self.kind(), other.kind())),
        }
    }

    /// A colour asks for the products of its channels and the factor.
    pub fn scale(&self, factor: Single) -> (r: Result<Outcome, EvalError>)
        ensures
            outcome_result(r) == self@.scaled(factor),
    {
        match self {
            Value::Color(c) => Ok(Outcome::Ask(Request::Scale(*c, factor))),
            _ => Err(EvalError::CannotScale(self.kind())),
        }
    }

    pub fn less_than(&self, other: &Value) -> (r: Result<Value, EvalError>)
        ensures
            value_result(r) == self@.below(other@),
    {
        match (self, other) {
            (Value::Num(a), Value::Num(b)) => Ok(Value::Bool(a.lt(b))),
            _ => Err(EvalError::Mismatch(Operation::LessThan, self.kind(), other.kind())),
        }
    }

    pub fn greater_than(&self, other: &Value) -> (r: Result<Value, EvalError>)
        ensures
            value_result(r) == self@.above(other@),
    {
        match (self, other) {
            (Value::Num(a), Value::Num(b)) => Ok(Value::Bool(a.gt(b))),
            _ => Err(EvalError::Mismatch(Operation::GreaterThan, self.kind(), other.kind())),
        }
    }

    /// Never fails: two numbers ask whether they are within the machine
    /// epsilon of each other, two booleans and two strings are compared
    /// exactly, and any other pair is unequal.
    pub fn equals(&self, other: &Value) -> (r: Result<Outcome, EvalError>)
        ensures
            outcome_result(r) == Ok::<OutcomeView, EvalError>(self@.same(other@)),
    {
        match (self, other) {
            (Value::Num(a), Value::Num(b)) => Ok(Outcome::Ask(Request::Near(*a, *b))),
            (Value::Bool(a), Value::Bool(b)) => Ok(Outcome::Done(Value::Bool(*a == *b))),
            (Value::Str(a), Value::Str(b)) => {
                let same: bool = *a == *b;
                Ok(Outcome::Done(Value::Bool(same)))
            },
            _ => Ok(Outcome::Done(Value::Bool(false))),
        }
    }

    pub fn is_truthy(&self) -> (r: bool)
        ensures
            r == self@.truthy(),
    {
        match self {
            Value::Bool(b) => *b,
            Value::Num(n) => !n.is_zero(),
            Value::Unit => false,
            _ => true,
        }
    }
}

impl Request {
    /// Turns the caller's answer into the value that the request stood
    /// for. An answer of the wrong shape is an error.
    pub fn settle(&self, answer: Answer) -> (r: Result<Value, EvalError>)
        ensures
            value_result(r) == settled(*self, answer),
    {
        match (self, answer) {
            (Request::Arith(_, _, _), Answer::Number(n)) => Ok(Value::Num(n)),
            (Request::Near(_, _), Answer::Flag(b)) => Ok(Value::Bool(b)),
            (Request::Scale(_, _), Answer::Products(r, g, b)) => Ok(
                Value::Color(Color::from_products(r, g, b)),
            ),
            (Request::Mix(_, _, _), Answer::Products(r, g, b)) => Ok(
                Value::Color(Color::from_products(r, g, b)),
            ),
            _ => Err(EvalError::UnexpectedAnswer),
        }
    }
}

impl Clone for Value {
    fn clone(&self) -> (r: Self)
        ensures
            r@ == narrowed(self@),
    {
        self.duplicate()
    }
}

impl Clone for FutureState {
    fn clone(&self) -> (r: Self)
        ensures
            r@ == narrowed(ValueView::Future(self@))->Future_0,
    {
        match self {
            FutureState::Pending => FutureState::Pending,
            FutureState::Resolved(inner) => FutureState::Resolved(Box::new(inner.duplicate())),
            FutureState::Rejected(m) => FutureState::Rejected(m.clone()),
        }
    }
}

/// What indexing comes to: the entry's value, or the question whether the
/// numeric key of the entry at a position is near enough to the key sought.
#[derive(Debug)]
pub enum Lookup {
    Found(Value),
    Ask(usize, Request),
}

pub ghost enum LookupView {
    Found(ValueView),
    Ask(int, Request),
}

impl View for Lookup {
    type V = LookupView;

    open spec fn view(&self) -> LookupView {
        match self {
            Lookup::Found(v) => LookupView::Found(v@),
            Lookup::Ask(at, r) => LookupView::Ask(*at as int, *r),
        }
    }
}

/// The view of a result that carries a lookup.
pub open spec fn lookup_result(r: Result<Lookup, EvalError>) -> Result<LookupView, EvalError> {
    match r {
        Ok(l) => Ok(l@),
        Err(e) => Err(e),
    }
}

/// Whether an entry's key can match the key sought without any question
/// asked: both are strings, and the same string.
pub open spec fn same_text(entry_key: ValueView, key: ValueView) -> bool {
    match (entry_key, key) {
        (ValueView::Str(k), ValueView::Str(i)) => k == i,
        _ => false,
    }
}

/// Whether an entry's key and the key sought are both numbers, so that
/// only their distance decides.
pub open spec fn both_numbers(entry_key: ValueView, key: ValueView) -> bool {
    entry_key is Num && key is Num
}

/// Walks the entries of a map in insertion order from position `from`.
/// The first entry whose key is the same string as the key ends the walk
/// with a copy of its value; the first entry whose key is a number, when a
/// number is sought, ends it with a question; entries of any other pairing
/// are passed over; the end of the map is an error.
pub open spec fn scan(pairs: Seq<(ValueView, ValueView)>, key: ValueView, from: int) -> Result<
    LookupView,
    EvalError,
>
    decreases pairs.len() - from,
{
    if from < 0 || from >= pairs.len() {
        Err(EvalError::KeyNotFound)
    } else if both_numbers(pairs[from].0, key) {
        Ok(LookupView::Ask(from, Request::Near(pairs[from].0->Num_0, key->Num_0)))
    } else if same_text(pairs[from].0, key) {
        Ok(LookupView::Found(narrowed(pairs[from].1)))
    } else {
        scan(pairs, key, from + 1)
    }
}

/// The walk after the question about the entry at `at` was answered: a
/// yes ends it with a copy of that entry's value, a no sends it on.
pub open spec fn scan_after(
    pairs: Seq<(ValueView, ValueView)>,
    key: ValueView,
    at: int,
    near: bool,
) -> Result<LookupView, EvalError> {
    if near && 0 <= at < pairs.len() {
        Ok(LookupView::Found(narrowed(pairs[at].1)))
    } else {
        scan(pairs, key, at + 1)
    }
}

/// Indexing a container. An array takes a number, truncated to an index
/// that must lie below its length, and gives a copy of the item there. A
/// map is walked from its first entry. Nothing else can be indexed.
pub open spec fn fetched(container: ValueView, key: ValueView) -> Result<LookupView, EvalError> {
    match container {
        ValueView::Array(items) => match key {
            ValueView::Num(n) => if (n.index() as int) < items.len() {
                Ok(LookupView::Found(narrowed(items[n.index() as int])))
            } else {
                Err(EvalError::IndexOutOfBounds(n.index()))
            },
            _ => Err(EvalError::IndexNotNumber(key.kind())),
        },
        ValueView::Table(pairs) => scan(pairs, key, 0),
        _ => Err(EvalError::NotIndexable(container.kind())),
    }
}

/// Walks the entries from `from` on, as `scan` says.
pub fn scan_pairs(pairs: &Vec<(Value, Value)>, key: &Value, from: usize) -> (r: Result<
    Lookup,
    EvalError,
>)
    ensures
        lookup_result(r) == scan(pair_views(pairs@), key@, from as int),
{
    let mut i: usize = from;
    while i < pairs.len()
        invariant
            from <= i,
            scan(pair_views(pairs@), key@, from as int) == scan(pair_views(pairs@), key@, i as int),
        decreases pairs.len() - i,
    {
        match (&pairs[i].0, key) {
            (Value::Num(k), Value::Num(n)) => {
                return Ok(Lookup::Ask(i, Request::Near(*k, *n)));
            },
            (Value::Str(k), Value::Str(n)) => {
                let same: bool = *k == *n;
                if same {
                    return Ok(Lookup::Found(pairs[i].1.duplicate()));
                }
            },
            _ => {},
        }
        i += 1;
    }
    Err(EvalError::KeyNotFound)
}

impl Value {
    /// Indexes an array by a number or a map by a key.
    pub fn get(&self, key: &Value) -> (r: Result<Lookup, EvalError>)
        ensures
            lookup_result(r) == fetched(self@, key@),
    {
        match self {
            Value::Array(items) => match key {
                Value::Num(n) => {
                    let index: u64 = n.to_index();
                    if index < items.len() as u64 {
                        Ok(Lookup::Found(items[index as usize].duplicate()))
                    } else {
                        Err(EvalError::IndexOutOfBounds(index))
                    }
                },
                _ => Err(EvalError::IndexNotNumber(key.kind())),
            },
            Value::Table(pairs) => scan_pairs(pairs, key, 0),
            _ => Err(EvalError::NotIndexable(self.kind())),
        }
    }

    /// Goes on with the walk through a map once the question about the
    /// entry at `at` is answered.
    pub fn get_after(&self, key: &Value, at: usize, near: bool) -> (r: Result<Lookup, EvalError>)
        ensures
            lookup_result(r) == (match self@ {
                ValueView::Table(pairs) => scan_after(pairs, key@, at as int, near),
                _ => Err(EvalError::NotIndexable(self@.kind())),
            }),
    {
        match self {
            Value::Table(pairs) => {
                if at >= pairs.len() {
                    Err(EvalError::KeyNotFound)
                } else if near {
                    Ok(Lookup::Found(pairs[at].1.duplicate()))
                } else {
                    scan_pairs(pairs, key, at + 1)
                }
            },
            _ => Err(EvalError::NotIndexable(self.kind())),
        }
    }
}

/// Indexing an array at or beyond its length is an error, whatever the
/// array holds.
pub proof fn lemma_index_beyond_length_fails(items: Seq<ValueView>, n: Num)
    requires
        n.index() >= items.len(),
    ensures
        fetched(ValueView::Array(items), ValueView::Num(n)) == Err::<LookupView, EvalError>(
            EvalError::IndexOutOfBounds(n.index()),
        ),
{
}

/// A walk that meets no entry with the same string for a key, and no entry
/// to ask about, ends in the error that the key was not found.
pub proof fn lemma_scan_without_match_fails(
    pairs: Seq<(ValueView, ValueView)>,
    key: ValueView,
    from: int,
)
    requires
        0 <= from,
        forall|i: int|
            from <= i < pairs.len() ==> !same_text(#[trigger] pairs[i].0, key) && !both_numbers(
                pairs[i].0,
                key,
            ),
    ensures
        scan(pairs, key, from) == Err::<LookupView, EvalError>(EvalError::KeyNotFound),
    decreases pairs.len() - from,
{
    if from < pairs.len() {
        lemma_scan_without_match_fails(pairs, key, from + 1);
    }
}

/// A walk never ends in anything but a found value, a question, or the
/// error that the key was not found; and a question is about an entry at
/// or after the walk's start.
pub proof fn lemma_scan_outcomes(pairs: Seq<(ValueView, ValueView)>, key: ValueView, from: int)
    requires
        0 <= from,
    ensures
        match scan(pairs, key, from) {
            Ok(LookupView::Found(_)) => true,
            Ok(LookupView::Ask(at, _)) => from <= at < pairs.len() && both_numbers(pairs[at].0, key),
            Err(e) => e == EvalError::KeyNotFound,
        },
    decreases pairs.len() - from,
{
    if from < pairs.len() && !both_numbers(pairs[from].0, key) && !same_text(pairs[from].0, key) {
        lemma_scan_outcomes(pairs, key, from + 1);
    }
}

/// Joining two arrays gives as many items as both hold together: the
/// copies of the first one's items, in order, then those of the second's.
pub proof fn lemma_joined_arrays(a: Seq<ValueView>, b: Seq<ValueView>)
    ensures
        ValueView::Array(a).sum(ValueView::Array(b)) matches Ok(OutcomeView::Done(ValueView::Array(j)))
            && j.len() == a.len() + b.len()
            && (forall|i: int| 0 <= i < a.len() ==> j[i] == narrowed(a[i]))
            && (forall|i: int| 0 <= i < b.len() ==> j[a.len() + i] == narrowed(b[i])),
{
}

/// Falsehood has exactly three forms: the boolean false, a zero of either
/// sign, and `Unit`.
pub proof fn lemma_falsy_values(v: ValueView)
    ensures
        !v.truthy() <==> (v == ValueView::Bool(false) || (v matches ValueView::Num(n) && n.zero())
            || v == ValueView::Unit),
{
}

/// Why a future has no value to give.
#[derive(Debug)]
pub enum AwaitError {
    /// The future is still pending.
    Pending,
    /// The future was rejected, with this message.
    Rejected(String),
}

pub ghost enum AwaitErrorView {
    Pending,
    Rejected(Seq<char>),
}

impl View for AwaitError {
    type V = AwaitErrorView;

    open spec fn view(&self) -> AwaitErrorView {
        match self {
            AwaitError::Pending => AwaitErrorView::Pending,
            AwaitError::Rejected(m) => AwaitErrorView::Rejected(m@),
        }
    }
}

/// What awaiting a value gives: a resolved future gives a copy of what it
/// resolved to, a pending or rejected one gives an error, and anything
/// that is no future gives a copy of itself.
pub open spec fn awaited(v: ValueView) -> Result<ValueView, AwaitErrorView> {
    match v {
        ValueView::Future(FutureView::Resolved(inner)) => Ok(narrowed(*inner)),
        ValueView::Future(FutureView::Pending) => Err(AwaitErrorView::Pending),
        ValueView::Future(FutureView::Rejected(m)) => Err(AwaitErrorView::Rejected(m)),
        _ => Ok(narrowed(v)),
    }
}

impl Value {
    /// Awaits a value. Nothing is waited for: the future's state as it is
    /// decides.
    pub fn resolve(&self) -> (r: Result<Value, AwaitError>)
        ensures
            (match r {
                Ok(v) => Ok(v@),
                Err(e) => Err(e@),
            }) == awaited(self@),
    {
        match self {
            Value::Future(FutureState::Resolved(inner)) => Ok(inner.duplicate()),
            Value::Future(FutureState::Pending) => Err(AwaitError::Pending),
            Value::Future(FutureState::Rejected(m)) => Err(AwaitError::Rejected(m.clone())),
            _ => Ok(self.duplicate()),
        }
    }
}

} // verus!
