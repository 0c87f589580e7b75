use vstd::prelude::*;
use crate::request::Answer;
use crate::request::EvalError;
use crate::request::Request;
use crate::request::ArithOp;
use crate::value::Continuation;
use crate::value::ValueView;
use crate::value::OutcomeView;
use crate::value::LookupView;
use crate::value::narrowed;
use crate::value::settled;
use crate::value::fetched;
use crate::value::scan;
use crate::value::lemma_scan_outcomes;
use crate::value::same_text;
use crate::value::both_numbers;
use crate::num::Num;
use crate::expr::Binary;
use crate::expr::ExprView;
use crate::expr::copied;
use crate::expr::literals;
use crate::runtime::FocusView;
use crate::runtime::RuntimeView;
use crate::runtime::flow_of;

verus! {


/// What the names of the variable environment are bound to.
pub type Bindings = Map<Seq<char>, ValueView>;

/// How an evaluation ends: with a value or an error, and with the
/// continuation stack and the variable environment as it leaves them.
pub ghost struct Ending {
    pub result: Result<ValueView, EvalError>,
    pub stack: Seq<Continuation>,
    pub env: Bindings,
}

/// The value of an operation once its floating-point work is done by
/// `oracle`.
pub open spec fn settled_by(r: Result<OutcomeView, EvalError>, oracle: spec_fn(Request) -> Answer)
    -> Result<ValueView, EvalError> {
    match r {
        Ok(OutcomeView::Done(v)) => Ok(v),
        Ok(OutcomeView::Ask(q)) => settled(q, oracle(q)),
        Err(e) => Err(e),
    }
}

/// The entry of a map that a key finds from position `from` on, where
/// `oracle` says which numeric keys are near enough.
pub open spec fn found_by(
    pairs: Seq<(ValueView, ValueView)>,
    key: ValueView,
    from: int,
    oracle: spec_fn(Request) -> Answer,
) -> Result<ValueView, EvalError>
    decreases pairs.len() - from,
{
    match scan(pairs, key, from) {
        Ok(LookupView::Found(v)) => Ok(v),
        Ok(LookupView::Ask(at, q)) => if from <= at < pairs.len() {
            match oracle(q) {
                Answer::Flag(near) => if near {
                    Ok(narrowed(pairs[at].1))
                } else {
                    found_by(pairs, key, at + 1, oracle)
                },
                _ => Err(EvalError::UnexpectedAnswer),
            }
        } else {
            Err(EvalError::KeyNotFound)
        },
        Err(e) => Err(e),
    }
}

/// Indexing a container, with the floating-point work done by `oracle`.
pub open spec fn fetched_by(container: ValueView, key: ValueView, oracle: spec_fn(Request) -> Answer)
    -> Result<ValueView, EvalError> {
    match container {
        ValueView::Table(pairs) => found_by(pairs, key, 0, oracle),
        _ => match fetched(container, key) {
            Ok(LookupView::Found(v)) => Ok(v),
            Ok(LookupView::Ask(_, _)) => Err(EvalError::KeyNotFound),
            Err(e) => Err(e),
        },
    }
}

/// A binary form applied to the values of its two operands: its value or
/// error, and the continuation stack after it.
pub open spec fn applied_by(
    op: Binary,
    l: ValueView,
    r: ValueView,
    stack: Seq<Continuation>,
    oracle: spec_fn(Request) -> Answer,
) -> (Result<ValueView, EvalError>, Seq<Continuation>) {
    match op {
        Binary::Add => (settled_by(l.sum(r), oracle), stack),
        Binary::Sub => (settled_by(l.difference(r), oracle), stack),
        Binary::Mul => (settled_by(l.product(r), oracle), stack),
        Binary::Div => (settled_by(l.quotient(r), oracle), stack),
        Binary::Blend => (settled_by(l.blended(r), oracle), stack),
        Binary::Get => (fetched_by(l, r, oracle), stack),
        Binary::Compose => match (l, r) {
            (ValueView::Continuation(c1), ValueView::Continuation(c2)) => (
                Ok(ValueView::Unit),
                stack.push(c2).push(c1),
            ),
            _ => (Err(EvalError::ComposeNeedsContinuations(l.kind(), r.kind())), stack),
        },
        Binary::Choice => (Ok(r), stack),
    }
}

/// The evaluation of an expression as a walk of its tree, depth first and
/// left before right, with the floating-point work done by `oracle`.
///
/// A loop may run for ever, so the walk is measured: `fuel` bounds how
/// deep loop bodies may follow one another, and the result is `None`
/// where that is not enough.
pub open spec fn eval(
    e: ExprView,
    stack: Seq<Continuation>,
    env: Bindings,
    oracle: spec_fn(Request) -> Answer,
    fuel: nat,
) -> Option<Ending>
    decreases fuel, e,
{
    match e {
        ExprView::Value(v) => Some(Ending { result: Ok(v), stack, env }),
        ExprView::Binary(op, l, r) => match eval(*l, stack, env, oracle, fuel) {
            Some(left) => match left.result {
                Ok(lv) => if op == Binary::Choice {
                    if lv == ValueView::Unit {
                        eval(*r, left.stack, left.env, oracle, fuel)
                    } else {
                        Some(left)
                    }
                } else {
                    match eval(*r, left.stack, left.env, oracle, fuel) {
                        Some(right) => match right.result {
                            Ok(rv) => Some(
                                Ending {
                                    result: applied_by(op, lv, rv, right.stack, oracle).0,
                                    stack: applied_by(op, lv, rv, right.stack, oracle).1,
                                    env: right.env,
                                },
                            ),
                            Err(_) => Some(right),
                        },
                        None => None,
                    }
                },
                Err(_) => Some(left),
            },
            None => None,
        },
        ExprView::Scale(inner, factor) => match eval(*inner, stack, env, oracle, fuel) {
            Some(end) => match end.result {
                Ok(v) => Some(Ending { result: settled_by(v.scaled(factor), oracle), ..end }),
                Err(_) => Some(end),
            },
            None => None,
        },
        ExprView::For(name, source, body) => match eval(*source, stack, env, oracle, fuel) {
            Some(end) => match end.result {
                Ok(v) => match v {
                    ValueView::Array(items) => eval_for(
                        name,
                        items,
                        0,
                        *body,
                        ValueView::Unit,
                        end.stack,
                        end.env,
                        oracle,
                        fuel,
                    ),
                    _ => Some(Ending { result: Err(EvalError::ForNeedsArray(v.kind())), ..end }),
                },
                Err(_) => Some(end),
            },
            None => None,
        },
        ExprView::While(condition, body) => eval_while(
            *condition,
            *body,
            ValueView::Unit,
            stack,
            env,
            oracle,
            fuel,
        ),
        ExprView::Block(items) => eval_block(items, 0, ValueView::Unit, stack, env, oracle, fuel),
    }
}

/// An iteration loop that stands before the item at position `next`: for
/// every item from there on, in order, the variable is bound to a copy of
/// the item and a copy of the body is evaluated; the last run's value is
/// the loop's.
pub open spec fn eval_for(
    name: Seq<char>,
    items: Seq<ValueView>,
    next: int,
    body: ExprView,
    last: ValueView,
    stack: Seq<Continuation>,
    env: Bindings,
    oracle: spec_fn(Request) -> Answer,
    fuel: nat,
) -> Option<Ending>
    decreases fuel, body, items.len() - next,
{
    if next < 0 || next >= items.len() {
        Some(Ending { result: Ok(last), stack, env })
    } else if fuel == 0 {
        None
    } else {
        match eval(
            copied(body),
            stack,
            env.insert(name, narrowed(items[next])),
            oracle,
            (fuel - 1) as nat,
        ) {
            Some(end) => match end.result {
                Ok(v) => eval_for(name, items, next + 1, body, v, end.stack, end.env, oracle, fuel),
                Err(_) => Some(end),
            },
            None => None,
        }
    }
}

/// A conditional loop: a copy of the condition is evaluated before every
/// run, and a copy of the body as long as the condition is truthy.
pub open spec fn eval_while(
    condition: ExprView,
    body: ExprView,
    last: ValueView,
    stack: Seq<Continuation>,
    env: Bindings,
    oracle: spec_fn(Request) -> Answer,
    fuel: nat,
) -> Option<Ending>
    decreases fuel, condition,
{
    if fuel == 0 {
        None
    } else {
        match eval(copied(condition), stack, env, oracle, (fuel - 1) as nat) {
            Some(test) => match test.result {
                Ok(c) => if c.truthy() {
                    match eval(copied(body), test.stack, test.env, oracle, (fuel - 1) as nat) {
                        Some(end) => match end.result {
                            Ok(v) => eval_while(
                                condition,
                                body,
                                v,
                                end.stack,
                                end.env,
                                oracle,
                                (fuel - 1) as nat,
                            ),
                            Err(_) => Some(end),
                        },
                        None => None,
                    }
                } else {
                    Some(Ending { result: Ok(last), ..test })
                },
                Err(_) => Some(test),
            },
            None => None,
        }
    }
}

/// The expressions of a block from position `from` on, in sequence: every
/// value but the last is dropped.
pub open spec fn eval_block(
    items: Seq<ExprView>,
    from: int,
    last: ValueView,
    stack: Seq<Continuation>,
    env: Bindings,
    oracle: spec_fn(Request) -> Answer,
    fuel: nat,
) -> Option<Ending>
    decreases fuel, items, items.len() - from,
{
    if from < 0 || from >= items.len() {
        Some(Ending { result: Ok(last), stack, env })
    } else {
        match eval(items[from], stack, env, oracle, fuel) {
            Some(end) => match end.result {
                Ok(v) => eval_block(items, from + 1, v, end.stack, end.env, oracle, fuel),
                Err(_) => Some(end),
            },
            None => None,
        }
    }
}

/// More fuel never changes what an evaluation ends in: where an
/// evaluation ends, it ends alike under every larger bound.
pub proof fn lemma_fuel_is_only_a_bound(
    e: ExprView,
    stack: Seq<Continuation>,
    env: Bindings,
    oracle: spec_fn(Request) -> Answer,
    fuel: nat,
    more: nat,
)
    requires
        eval(e, stack, env, oracle, fuel) is Some,
        fuel <= more,
    ensures
        eval(e, stack, env, oracle, more) == eval(e, stack, env, oracle, fuel),
    decreases fuel, e,
{
    match e {
        ExprView::Value(_) => {},
        ExprView::Binary(op, l, r) => {
            lemma_fuel_is_only_a_bound(*l, stack, env, oracle, fuel, more);
            let left = eval(*l, stack, env, oracle, fuel)->0;
            match left.result {
                Ok(lv) => {
                    if op != Binary::Choice || lv == ValueView::Unit {
                        lemma_fuel_is_only_a_bound(*r, left.stack, left.env, oracle, fuel, more);
                    }
                },
                Err(_) => {},
            }
        },
        ExprView::Scale(inner, _) => {
            lemma_fuel_is_only_a_bound(*inner, stack, env, oracle, fuel, more);
        },
        ExprView::For(name, source, body) => {
            lemma_fuel_is_only_a_bound(*source, stack, env, oracle, fuel, more);
            let end = eval(*source, stack, env, oracle, fuel)->0;
            match end.result {
                Ok(ValueView::Array(items)) => {
                    lemma_for_fuel(
                        name,
                        items,
                        0,
                        *body,
                        ValueView::Unit,
                        end.stack,
                        end.env,
                        oracle,
                        fuel,
                        more,
                    );
                },
                _ => {},
            }
        },
        ExprView::While(condition, body) => {
            lemma_while_fuel(*condition, *body, ValueView::Unit, stack, env, oracle, fuel, more);
        },
        ExprView::Block(items) => {
            lemma_block_fuel(items, 0, ValueView::Unit, stack, env, oracle, fuel, more);
        },
    }
}

/// More fuel never changes what an iteration loop ends in.
pub proof fn lemma_for_fuel(
    name: Seq<char>,
    items: Seq<ValueView>,
    next: int,
    body: ExprView,
    last: ValueView,
    stack: Seq<Continuation>,
    env: Bindings,
    oracle: spec_fn(Request) -> Answer,
    fuel: nat,
    more: nat,
)
    requires
        eval_for(name, items, next, body, last, stack, env, oracle, fuel) is Some,
        fuel <= more,
    ensures
        eval_for(name, items, next, body, last, stack, env, oracle, more) == eval_for(
            name,
            items,
            next,
            body,
            last,
            stack,
            env,
            oracle,
            fuel,
        ),
    decreases fuel, body, items.len() - next,
{
    if 0 <= next < items.len() {
        let less = (fuel - 1) as nat;
        let env1 = env.insert(name, narrowed(items[next]));
        lemma_fuel_is_only_a_bound(copied(body), stack, env1, oracle, less, (more - 1) as nat);
        let end = eval(copied(body), stack, env1, oracle, less)->0;
        match end.result {
            Ok(v) => {
                lemma_for_fuel(
                    name,
                    items,
                    next + 1,
                    body,
                    v,
                    end.stack,
                    end.env,
                    oracle,
                    fuel,
                    more,
                );
            },
            Err(_) => {},
        }
    }
}

/// More fuel never changes what a conditional loop ends in.
pub proof fn lemma_while_fuel(
    condition: ExprView,
    body: ExprView,
    last: ValueView,
    stack: Seq<Continuation>,
    env: Bindings,
    oracle: spec_fn(Request) -> Answer,
    fuel: nat,
    more: nat,
)
    requires
        eval_while(condition, body, last, stack, env, oracle, fuel) is Some,
        fuel <= more,
    ensures
        eval_while(condition, body, last, stack, env, oracle, more) == eval_while(
            condition,
            body,
            last,
            stack,
            env,
            oracle,
            fuel,
        ),
    decreases fuel, condition,
{
    let less = (fuel - 1) as nat;
    let most = (more - 1) as nat;
    lemma_fuel_is_only_a_bound(copied(condition), stack, env, oracle, less, most);
    let test = eval(copied(condition), stack, env, oracle, less)->0;
    match test.result {
        Ok(c) => {
            if c.truthy() {
                lemma_fuel_is_only_a_bound(copied(body), test.stack, test.env, oracle, less, most);
                let end = eval(copied(body), test.stack, test.env, oracle, less)->0;
                match end.result {
                    Ok(v) => {
                        lemma_while_fuel(
                            condition,
                            body,
                            v,
                            end.stack,
                            end.env,
                            oracle,
                            less,
                            most,
                        );
                    },
                    Err(_) => {},
                }
            }
        },
        Err(_) => {},
    }
}

/// More fuel never changes what a block ends in.
pub proof fn lemma_block_fuel(
    items: Seq<ExprView>,
    from: int,
    last: ValueView,
    stack: Seq<Continuation>,
    env: Bindings,
    oracle: spec_fn(Request) -> Answer,
    fuel: nat,
    more: nat,
)
    requires
        eval_block(items, from, last, stack, env, oracle, fuel) is Some,
        fuel <= more,
    ensures
        eval_block(items, from, last, stack, env, oracle, more) == eval_block(
            items,
            from,
            last,
            stack,
            env,
            oracle,
            fuel,
        ),
    decreases fuel, items, items.len() - from,
{
    if 0 <= from < items.len() {
        lemma_fuel_is_only_a_bound(items[from], stack, env, oracle, fuel, more);
        let end = eval(items[from], stack, env, oracle, fuel)->0;
        match end.result {
            Ok(v) => {
                lemma_block_fuel(items, from + 1, v, end.stack, end.env, oracle, fuel, more);
            },
            Err(_) => {},
        }
    }
}

/// A choice whose left operand gives `Unit` is its right operand,
/// evaluated after the left one. A choice whose left operand gives any
/// other value is that value, whatever stands on the right: the right
/// operand is not evaluated. A failure of the left operand is the choice's.
pub proof fn lemma_choice(
    l: ExprView,
    r: ExprView,
    other: ExprView,
    stack: Seq<Continuation>,
    env: Bindings,
    oracle: spec_fn(Request) -> Answer,
    fuel: nat,
)
    ensures
        ({
            let choice = ExprView::Binary(Binary::Choice, Box::new(l), Box::new(r));
            let another = ExprView::Binary(Binary::Choice, Box::new(l), Box::new(other));
            match eval(l, stack, env, oracle, fuel) {
                Some(left) => if left.result == Ok::<ValueView, EvalError>(ValueView::Unit) {
                    eval(choice, stack, env, oracle, fuel) == eval(
                        r,
                        left.stack,
                        left.env,
                        oracle,
                        fuel,
                    )
                } else {
                    eval(choice, stack, env, oracle, fuel) == Some(left) && eval(
                        another,
                        stack,
                        env,
                        oracle,
                        fuel,
                    ) == Some(left)
                },
                None => eval(choice, stack, env, oracle, fuel).is_none(),
            }
        }),
{
}

/// Composing two expressions that give continuations gives `Unit` and
/// leaves the two on the stack, the left one on top: the next resume runs
/// the left one, the one after it the right one, and then the stack is as
/// the two operands left it.
pub proof fn lemma_compose(
    l: ExprView,
    r: ExprView,
    c1: Continuation,
    c2: Continuation,
    stack: Seq<Continuation>,
    env: Bindings,
    oracle: spec_fn(Request) -> Answer,
    fuel: nat,
)
    requires
        eval(l, stack, env, oracle, fuel) is Some,
        (eval(l, stack, env, oracle, fuel)->0).result == Ok::<ValueView, EvalError>(
            ValueView::Continuation(c1),
        ),
        eval(
            r,
            (eval(l, stack, env, oracle, fuel)->0).stack,
            (eval(l, stack, env, oracle, fuel)->0).env,
            oracle,
            fuel,
        ) is Some,
        (eval(
            r,
            (eval(l, stack, env, oracle, fuel)->0).stack,
            (eval(l, stack, env, oracle, fuel)->0).env,
            oracle,
            fuel,
        )->0).result == Ok::<ValueView, EvalError>(ValueView::Continuation(c2)),
    ensures
        ({
            let left = eval(l, stack, env, oracle, fuel)->0;
            let right = eval(r, left.stack, left.env, oracle, fuel)->0;
            let composed = eval(
                ExprView::Binary(Binary::Compose, Box::new(l), Box::new(r)),
                stack,
                env,
                oracle,
                fuel,
            );
            let idle = RuntimeView {
                stack: (composed->0).stack,
                focus: FocusView::Idle,
                frames: Seq::empty(),
            };
            &&& composed == Some(
                Ending {
                    result: Ok(ValueView::Unit),
                    stack: right.stack.push(c2).push(c1),
                    env: right.env,
                },
            )
            &&& idle.resumed().1 == flow_of(seq![c1])
            &&& idle.resumed().0.resumed().1 == flow_of(seq![c2])
            &&& idle.resumed().0.resumed().0.stack == right.stack
        }),
{
    let left = eval(l, stack, env, oracle, fuel)->0;
    let right = eval(r, left.stack, left.env, oracle, fuel)->0;
    let both = right.stack.push(c2).push(c1);
    assert(both.drop_last() =~= right.stack.push(c2));
    assert(right.stack.push(c2).drop_last() =~= right.stack);
}

/// Operands are evaluated left before right, and the first failure ends
/// the evaluation: where the left operand fails, the form fails as it
/// does, and the right operand is not evaluated.
pub proof fn lemma_left_failure_is_final(
    op: Binary,
    l: ExprView,
    r: ExprView,
    stack: Seq<Continuation>,
    env: Bindings,
    oracle: spec_fn(Request) -> Answer,
    fuel: nat,
)
    requires
        eval(l, stack, env, oracle, fuel) matches Some(left) && left.result is Err,
    ensures
        eval(ExprView::Binary(op, Box::new(l), Box::new(r)), stack, env, oracle, fuel) == eval(
            l,
            stack,
            env,
            oracle,
            fuel,
        ),
{
}

/// An empty block is `Unit`, and a block of one expression is that
/// expression.
pub proof fn lemma_block_edges(
    e: ExprView,
    stack: Seq<Continuation>,
    env: Bindings,
    oracle: spec_fn(Request) -> Answer,
    fuel: nat,
)
    ensures
        eval(ExprView::Block(Seq::empty()), stack, env, oracle, fuel) == Some(
            Ending { result: Ok(ValueView::Unit), stack, env },
        ),
        eval(ExprView::Block(seq![e]), stack, env, oracle, fuel) == eval(
            e,
            stack,
            env,
            oracle,
            fuel,
        ),
{
    reveal_with_fuel(eval, 3);
    reveal_with_fuel(eval_block, 3);
}

/// Expressions in sequence, followed by one more: where the expressions
/// before it succeed, the sequence ends as the last expression does,
/// evaluated in the state that they leave. Their values are dropped.
pub proof fn lemma_sequence_ends_with_last(
    items: Seq<ExprView>,
    e: ExprView,
    from: int,
    last: ValueView,
    stack: Seq<Continuation>,
    env: Bindings,
    oracle: spec_fn(Request) -> Answer,
    fuel: nat,
)
    requires
        0 <= from <= items.len(),
        eval_block(items, from, last, stack, env, oracle, fuel) is Some,
        (eval_block(items, from, last, stack, env, oracle, fuel)->0).result is Ok,
    ensures
        eval_block(items.push(e), from, last, stack, env, oracle, fuel) == eval(
            e,
            (eval_block(items, from, last, stack, env, oracle, fuel)->0).stack,
            (eval_block(items, from, last, stack, env, oracle, fuel)->0).env,
            oracle,
            fuel,
        ),
    decreases items.len() - from,
{
    let more = items.push(e);
    reveal_with_fuel(eval_block, 2);
    if from < items.len() {
        assert(more[from] == items[from]);
        let first = eval(items[from], stack, env, oracle, fuel)->0;
        lemma_sequence_ends_with_last(
            items,
            e,
            from + 1,
            first.result->Ok_0,
            first.stack,
            first.env,
            oracle,
            fuel,
        );
    } else {
        assert(more[from] == e);
    }
}

/// A block has the value of its last expression: where the expressions
/// before it succeed, the block ends as the last expression does, in the
/// state that they leave, however the expressions before it are nested.
pub proof fn lemma_block_ends_with_last(
    items: Seq<ExprView>,
    e: ExprView,
    stack: Seq<Continuation>,
    env: Bindings,
    oracle: spec_fn(Request) -> Answer,
    fuel: nat,
)
    requires
        eval(ExprView::Block(items), stack, env, oracle, fuel) is Some,
        (eval(ExprView::Block(items), stack, env, oracle, fuel)->0).result is Ok,
    ensures
        eval(ExprView::Block(items.push(e)), stack, env, oracle, fuel) == eval(
            e,
            (eval(ExprView::Block(items), stack, env, oracle, fuel)->0).stack,
            (eval(ExprView::Block(items), stack, env, oracle, fuel)->0).env,
            oracle,
            fuel,
        ),
{
    lemma_sequence_ends_with_last(items, e, 0, ValueView::Unit, stack, env, oracle, fuel);
}

/// Literals in sequence: the value of the last one counts, and where none
/// is left the value of what came before them.
pub proof fn lemma_literals_in_sequence(
    values: Seq<ValueView>,
    from: int,
    last: ValueView,
    stack: Seq<Continuation>,
    env: Bindings,
    oracle: spec_fn(Request) -> Answer,
    fuel: nat,
)
    requires
        0 <= from <= values.len(),
    ensures
        eval_block(literals(values), from, last, stack, env, oracle, fuel) == Some(
            Ending {
                result: Ok(
                    if from < values.len() {
                        values.last()
                    } else {
                        last
                    },
                ),
                stack,
                env,
            },
        ),
    decreases values.len() - from,
{
    reveal_with_fuel(eval, 2);
    reveal_with_fuel(eval_block, 2);
    if from < values.len() {
        lemma_literals_in_sequence(values, from + 1, values[from], stack, env, oracle, fuel);
    }
}

/// A block of literals has the value of its last literal: every literal
/// before it is evaluated and dropped. Without a literal it is `Unit`.
pub proof fn lemma_block_of_literals(
    values: Seq<ValueView>,
    stack: Seq<Continuation>,
    env: Bindings,
    oracle: spec_fn(Request) -> Answer,
    fuel: nat,
)
    ensures
        eval(ExprView::Block(literals(values)), stack, env, oracle, fuel) == Some(
            Ending {
                result: Ok(
                    if values.len() > 0 {
                        values.last()
                    } else {
                        ValueView::Unit
                    },
                ),
                stack,
                env,
            },
        ),
{
    lemma_literals_in_sequence(values, 0, ValueView::Unit, stack, env, oracle, fuel);
}

/// An iteration loop over an empty array is `Unit`: nothing is bound and
/// the body is never evaluated, so whatever the body is, the loop ends
/// alike. Over an array of one item the loop is one evaluation of a copy
/// of its body, with the variable bound to a copy of the item.
pub proof fn lemma_for_edges(
    name: Seq<char>,
    item: ValueView,
    body: ExprView,
    stack: Seq<Continuation>,
    env: Bindings,
    oracle: spec_fn(Request) -> Answer,
    fuel: nat,
)
    ensures
        ({
            let nothing = Box::new(ExprView::Value(ValueView::Array(Seq::empty())));
            let one = Box::new(ExprView::Value(ValueView::Array(seq![item])));
            &&& eval(ExprView::For(name, nothing, Box::new(body)), stack, env, oracle, fuel)
                == Some(Ending { result: Ok(ValueView::Unit), stack, env })
            &&& fuel > 0 ==> eval(
                ExprView::For(name, one, Box::new(body)),
                stack,
                env,
                oracle,
                fuel,
            ) == eval(
                copied(body),
                stack,
                env.insert(name, narrowed(item)),
                oracle,
                (fuel - 1) as nat,
            )
        }),
{
    reveal_with_fuel(eval, 3);
    reveal_with_fuel(eval_for, 3);
}

/// A conditional loop whose condition is not truthy at the first test is
/// `Unit`, and its body is never evaluated.
pub proof fn lemma_while_never_run(
    condition: ExprView,
    body: ExprView,
    stack: Seq<Continuation>,
    env: Bindings,
    oracle: spec_fn(Request) -> Answer,
    fuel: nat,
)
    requires
        fuel > 0,
        eval(copied(condition), stack, env, oracle, (fuel - 1) as nat) matches Some(test)
            && test.result matches Ok(c) && !c.truthy(),
    ensures
        eval(ExprView::While(Box::new(condition), Box::new(body)), stack, env, oracle, fuel)
            == Some(
            Ending {
                result: Ok(ValueView::Unit),
                ..eval(copied(condition), stack, env, oracle, (fuel - 1) as nat)->0
            },
        ),
{
    reveal_with_fuel(eval, 2);
    reveal_with_fuel(eval_while, 2);
}

/// Dividing a number by a zero of either sign is an error, whatever the
/// dividend. Dividing by any other number gives exactly the number that
/// the division of the two, done by `oracle`, gives.
pub proof fn lemma_division(a: Num, b: Num, quotient: Num, oracle: spec_fn(Request) -> Answer)
    requires
        oracle(Request::Arith(ArithOp::Div, a, b)) == Answer::Number(quotient),
    ensures
        b.zero() ==> settled_by(ValueView::Num(a).quotient(ValueView::Num(b)), oracle) == Err::<
            ValueView,
            EvalError,
        >(EvalError::DivisionByZero),
        !b.zero() ==> settled_by(ValueView::Num(a).quotient(ValueView::Num(b)), oracle) == Ok::<
            ValueView,
            EvalError,
        >(ValueView::Num(quotient)),
{
}

/// Whether an entry's key matches the key sought: two strings match when
/// they are the same, two numbers when `oracle` says that they are near
/// enough, and nothing else matches.
pub open spec fn matches_by(
    entry_key: ValueView,
    key: ValueView,
    oracle: spec_fn(Request) -> Answer,
) -> bool {
    same_text(entry_key, key) || (both_numbers(entry_key, key) && oracle(
        Request::Near(entry_key->Num_0, key->Num_0),
    ) == Answer::Flag(true))
}

/// Whether `oracle` answers the question about an entry's key, where one
/// is asked, with a yes or a no.
pub open spec fn answers_by(
    entry_key: ValueView,
    key: ValueView,
    oracle: spec_fn(Request) -> Answer,
) -> bool {
    both_numbers(entry_key, key) ==> oracle(Request::Near(entry_key->Num_0, key->Num_0)) is Flag
}

/// The first entry that matches wins: a lookup gives a copy of the value
/// of the first entry, in insertion order, whose key matches, whatever
/// entries follow it.
pub proof fn lemma_first_match_wins(
    pairs: Seq<(ValueView, ValueView)>,
    key: ValueView,
    from: int,
    at: int,
    oracle: spec_fn(Request) -> Answer,
)
    requires
        0 <= from <= at < pairs.len(),
        matches_by(pairs[at].0, key, oracle),
        forall|i: int|
            from <= i < at ==> !matches_by(#[trigger] pairs[i].0, key, oracle) && answers_by(
                pairs[i].0,
                key,
                oracle,
            ),
    ensures
        found_by(pairs, key, from, oracle) == Ok::<ValueView, EvalError>(narrowed(pairs[at].1)),
    decreases at - from,
{
    if from < at {
        assert(!matches_by(pairs[from].0, key, oracle) && answers_by(pairs[from].0, key, oracle));
        lemma_first_match_wins(pairs, key, from + 1, at, oracle);
        lemma_found_skips(pairs, key, from, oracle);
    }
}

/// A lookup in a map without a matching entry is an error.
pub proof fn lemma_no_match_is_an_error(
    pairs: Seq<(ValueView, ValueView)>,
    key: ValueView,
    from: int,
    oracle: spec_fn(Request) -> Answer,
)
    requires
        0 <= from,
        forall|i: int|
            from <= i < pairs.len() ==> !matches_by(#[trigger] pairs[i].0, key, oracle)
                && answers_by(pairs[i].0, key, oracle),
    ensures
        found_by(pairs, key, from, oracle) == Err::<ValueView, EvalError>(EvalError::KeyNotFound),
    decreases pairs.len() - from,
{
    if from < pairs.len() {
        assert(!matches_by(pairs[from].0, key, oracle) && answers_by(pairs[from].0, key, oracle));
        lemma_no_match_is_an_error(pairs, key, from + 1, oracle);
        lemma_found_skips(pairs, key, from, oracle);
    }
}

/// An entry that does not match is passed over.
pub proof fn lemma_found_skips(
    pairs: Seq<(ValueView, ValueView)>,
    key: ValueView,
    from: int,
    oracle: spec_fn(Request) -> Answer,
)
    requires
        0 <= from < pairs.len(),
        !matches_by(pairs[from].0, key, oracle),
        answers_by(pairs[from].0, key, oracle),
    ensures
        found_by(pairs, key, from, oracle) == found_by(pairs, key, from + 1, oracle),
{
    lemma_scan_outcomes(pairs, key, from + 1);
}

} // verus!
