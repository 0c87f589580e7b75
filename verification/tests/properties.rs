use pirhotau::color::Color;
use pirhotau::env::Env;
use pirhotau::expr::Expr;
use pirhotau::num::{Num, Single};
use pirhotau::postfix::{Fed, Postfix, PostfixError, Token};
use pirhotau::request::{Answer, ArithOp, EvalError, Kind, Operation, Request};
use pirhotau::runtime::{Action, Flow, Focus, Runtime};
use pirhotau::value::{AwaitError, Continuation, FutureState, Lookup, Outcome, Thunk, Value};

fn num(x: f64) -> Value {
    Value::Num(Num::from_bits(x.to_bits()))
}

fn val(n: Num) -> f64 {
    f64::from_bits(n.to_bits())
}

fn single(x: f32) -> Single {
    Single::from_bits(x.to_bits())
}

/// Does the floating-point work that the engine asks for.
fn answer(request: &Request) -> Answer {
    match *request {
        Request::Arith(op, a, b) => {
            let (x, y) = (val(a), val(b));
            let r = match op {
                ArithOp::Add => x + y,
                ArithOp::Sub => x - y,
                ArithOp::Mul => x * y,
                ArithOp::Div => x / y,
            };
            Answer::Number(Num::from_bits(r.to_bits()))
        }
        Request::Near(a, b) => Answer::Flag((val(a) - val(b)).abs() < f64::EPSILON),
        Request::Scale(c, factor) => {
            let f = f32::from_bits(factor.to_bits());
            Answer::Products(
                single(c.r as f32 * f),
                single(c.g as f32 * f),
                single(c.b as f32 * f),
            )
        }
        Request::Mix(a, b, ratio) => {
            let ratio = f32::from_bits(ratio.to_bits());
            let inv = 1.0 - ratio;
            Answer::Products(
                single(a.r as f32 * inv + b.r as f32 * ratio),
                single(a.g as f32 * inv + b.g as f32 * ratio),
                single(a.b as f32 * inv + b.b as f32 * ratio),
            )
        }
    }
}

trait Settle {
    fn done(self) -> Result<Value, EvalError>;
}

impl Settle for Result<Outcome, EvalError> {
    fn done(self) -> Result<Value, EvalError> {
        match self? {
            Outcome::Done(v) => Ok(v),
            Outcome::Ask(q) => q.settle(answer(&q)),
        }
    }
}

/// Runs an evaluation to its end, answering every request.
fn eval(runtime: &mut Runtime, expr: Expr) -> Result<Value, EvalError> {
    let mut env = Env::new();
    runtime.evaluate(&mut env, expr, &|q| answer(&q), usize::MAX).unwrap()
}

fn colour(request: Request) -> Color {
    match request.settle(answer(&request)) {
        Ok(Value::Color(c)) => c,
        other => panic!("expected a colour, got {:?}", other),
    }
}

fn scale(c: &Color, factor: f32) -> Color {
    colour(c.scale(single(factor)))
}

fn mix(a: &Color, b: &Color, ratio: f32) -> Color {
    colour(a.mix(b, single(ratio)))
}

fn same(a: &Value, b: &Value) -> bool {
    match (a, b) {
        (Value::Num(x), Value::Num(y)) => val(*x) == val(*y),
        (Value::Str(x), Value::Str(y)) => x == y,
        (Value::Bool(x), Value::Bool(y)) => x == y,
        (Value::Unit, Value::Unit) => true,
        (Value::Color(x), Value::Color(y)) => x == y,
        (Value::Array(x), Value::Array(y)) => {
            x.len() == y.len() && x.iter().zip(y.iter()).all(|(p, q)| same(p, q))
        }
        (Value::Table(x), Value::Table(y)) => {
            x.len() == y.len()
                && x.iter().zip(y.iter()).all(|(p, q)| same(&p.0, &q.0) && same(&p.1, &q.1))
        }
        (Value::Continuation(x), Value::Continuation(y)) => x == y,
        _ => false,
    }
}

/// The suspended computations of a test, kept under the names that the
/// engine hands back.
struct Thunks {
    table: Vec<Box<dyn Fn() -> Value>>,
}

impl Thunks {
    fn new() -> Self {
        Thunks { table: Vec::new() }
    }

    fn suspend(&mut self, f: Box<dyn Fn() -> Value>) -> Continuation {
        self.table.push(f);
        Continuation::Resume(Thunk { id: (self.table.len() - 1) as u64 })
    }

    fn run(&self, flow: Flow) -> Value {
        match flow {
            Flow::Call(t) => (self.table[t.id as usize])(),
            Flow::Done(v) => v,
        }
    }
}

fn eval_in(runtime: &mut Runtime, env: &mut Env, expr: Expr) -> Result<Value, EvalError> {
    runtime.load(expr);
    let mut reply: Option<Answer> = None;
    loop {
        match runtime.step(env, reply.take()) {
            Action::Continue => {}
            Action::Ask(q) => reply = Some(answer(&q)),
            Action::Finished(r) => return r,
        }
    }
}

fn lit(v: Value) -> Box<Expr> {
    Box::new(Expr::Value(v))
}

fn text(s: &str) -> Value {
    Value::Str(s.to_string())
}

fn cont(id: u64) -> Value {
    Value::Continuation(Box::new(Continuation::Resume(Thunk { id })))
}

fn postfix(line: &str, env: &mut Env) -> Result<Value, PostfixError> {
    let mut stack = Postfix::new();
    for word in line.split_whitespace() {
        match stack.feed(env, &word.to_string())? {
            Fed::Next | Fed::Print(_) => {}
            Fed::Ask(q) => stack.supply(q, answer(&q))?,
            Fed::Literal => stack.push(num(word.parse::<f64>().unwrap())),
        }
    }
    stack.finish()
}

// Numbers as bit patterns

#[test]
fn order_follows_the_number_line() {
    let n = |x: f64| Num::from_bits(x.to_bits());
    let samples = [
        f64::NEG_INFINITY, -1.0e300, -2.5, -1.0, -f64::MIN_POSITIVE, -0.0, 0.0, 5e-324, 0.1, 1.0,
        1.5, 3.0e10, f64::MAX, f64::INFINITY, f64::NAN,
    ];
    for a in samples {
        for b in samples {
            assert_eq!(n(a).lt(&n(b)), a < b, "{} < {}", a, b);
            assert_eq!(n(a).gt(&n(b)), a > b, "{} > {}", a, b);
        }
    }
}

#[test]
fn zero_and_nan_are_told_from_bits() {
    let n = |x: f64| Num::from_bits(x.to_bits());
    assert!(n(0.0).is_zero());
    assert!(n(-0.0).is_zero());
    assert!(!n(5e-324).is_zero());
    assert!(n(f64::NAN).is_nan());
    assert!(!n(f64::INFINITY).is_nan());
    assert!(n(-1.0).is_negative());
    assert!(!n(1.0).is_negative());
}

#[test]
fn index_truncates_toward_zero_and_saturates() {
    let n = |x: f64| Num::from_bits(x.to_bits());
    assert_eq!(n(0.0).to_index(), 0);
    assert_eq!(n(0.999).to_index(), 0);
    assert_eq!(n(1.0).to_index(), 1);
    assert_eq!(n(2.7).to_index(), 2);
    assert_eq!(n(-3.5).to_index(), 0);
    assert_eq!(n(f64::NAN).to_index(), 0);
    assert_eq!(n(1.0e30).to_index(), u64::MAX);
    assert_eq!(n(f64::INFINITY).to_index(), u64::MAX);
    assert_eq!(n(9007199254740993.0).to_index(), 9007199254740992);
    assert_eq!(n(9223372036854775808.0).to_index(), 9223372036854775808);
    assert_eq!(n(18446744073709551616.0).to_index(), u64::MAX);
    for x in [3.0, 17.25, 123456.789, 4294967296.5, 1.0e15, 1.8e19] {
        assert_eq!(n(x).to_index(), x as u64);
    }
}

#[test]
fn channel_clamps_then_truncates() {
    assert_eq!(single(199.99).to_channel(), 199);
    assert_eq!(single(255.0).to_channel(), 255);
    assert_eq!(single(255.9).to_channel(), 255);
    assert_eq!(single(256.0).to_channel(), 255);
    assert_eq!(single(1.0e20).to_channel(), 255);
    assert_eq!(single(f32::INFINITY).to_channel(), 255);
    assert_eq!(single(-3.0).to_channel(), 0);
    assert_eq!(single(f32::NAN).to_channel(), 0);
    assert_eq!(single(0.5).to_channel(), 0);
    assert_eq!(single(1.0).to_channel(), 1);
    for i in 0..=2600 {
        let x = i as f32 / 10.0;
        assert_eq!(single(x).to_channel(), x.clamp(0.0, 255.0) as u8);
    }
}

#[test]
fn ratio_is_held_between_zero_and_one() {
    let back = |s: Single| f32::from_bits(s.to_bits());
    assert_eq!(back(single(-0.5).clamp_unit()), 0.0);
    assert_eq!(back(single(1.5).clamp_unit()), 1.0);
    assert_eq!(back(single(0.25).clamp_unit()), 0.25);
    assert_eq!(back(single(1.0).clamp_unit()), 1.0);
    assert_eq!(back(single(f32::INFINITY).clamp_unit()), 1.0);
    assert_eq!(back(single(f32::NEG_INFINITY).clamp_unit()), 0.0);
    assert!(back(single(f32::NAN).clamp_unit()).is_nan());
    assert_eq!(single(-0.0).clamp_unit().to_bits(), (-0.0f32).to_bits());
}

// Colours

#[test]
fn blend_is_the_floor_of_the_mean_in_either_order() {
    let a = Color::new(255, 1, 7);
    let b = Color::new(254, 2, 0);
    assert_eq!(a.blend(&b), Color::new(254, 1, 3));
    assert_eq!(b.blend(&a), a.blend(&b));
    assert_eq!(Color::new(255, 255, 255).blend(&Color::new(255, 255, 255)), Color::new(255, 255, 255));
}

#[test]
fn colour_subtraction_stops_at_zero() {
    let r = Color::new(10, 0, 200).sub(&Color::new(20, 1, 200));
    assert_eq!(r, Color::new(0, 0, 0));
}

#[test]
fn scale_doubles_and_clamps() {
    assert_eq!(scale(&Color::new(100, 50, 200), 2.0), Color::new(200, 100, 255));
    assert_eq!(scale(&Color::new(100, 50, 200), -1.0), Color::new(0, 0, 0));
    assert_eq!(scale(&Color::new(3, 5, 7), 0.5), Color::new(1, 2, 3));
}

#[test]
fn mix_interpolates_and_truncates() {
    let red = Color::new(255, 0, 0);
    let blue = Color::new(0, 0, 255);
    assert_eq!(mix(&red, &blue, 0.25), Color::new(191, 0, 63));
    assert_eq!(mix(&red, &blue, -4.0), red);
    assert_eq!(mix(&red, &blue, 9.0), blue);
}

#[test]
fn mix_request_carries_the_clamped_ratio() {
    let red = Color::new(255, 0, 0);
    let blue = Color::new(0, 0, 255);
    assert_eq!(red.mix(&blue, single(7.0)), Request::Mix(red, blue, single(1.0)));
    assert_eq!(red.scale(single(7.0)), Request::Scale(red, single(7.0)));
}

// Operations on values

#[test]
fn arrays_join_in_order() {
    let a = Value::Array(vec![num(1.0), text("x")]);
    let b = Value::Array(vec![Value::Bool(true), num(4.0), Value::Unit]);
    let joined = a.add(&b).done().unwrap();
    let expected = Value::Array(vec![num(1.0), text("x"), Value::Bool(true), num(4.0), Value::Unit]);
    assert!(same(&joined, &expected));
    let empty = Value::Array(vec![]).add(&Value::Array(vec![])).done().unwrap();
    assert!(same(&empty, &Value::Array(vec![])));
}

#[test]
fn addition_asks_for_the_sum_of_numbers() {
    let a = Num::from_bits(1.5f64.to_bits());
    let b = Num::from_bits(2.0f64.to_bits());
    match Value::Num(a).add(&Value::Num(b)) {
        Ok(Outcome::Ask(q)) => assert_eq!(q, Request::Arith(ArithOp::Add, a, b)),
        other => panic!("expected a request, got {:?}", other),
    }
}

#[test]
fn mismatched_operands_name_their_kinds() {
    let e = num(1.0).add(&text("a")).done().unwrap_err();
    assert_eq!(e, EvalError::Mismatch(Operation::Add, Kind::Num, Kind::Str));
    let e = Value::Array(vec![]).sub(&Value::Array(vec![])).done().unwrap_err();
    assert_eq!(e, EvalError::Mismatch(Operation::Sub, Kind::Array, Kind::Array));
    let e = Value::Color(Color::new(1, 2, 3)).mul(&num(2.0)).done().unwrap_err();
    assert_eq!(e, EvalError::Mismatch(Operation::Mul, Kind::Color, Kind::Num));
    let e = Value::Unit.div(&num(2.0)).done().unwrap_err();
    assert_eq!(e, EvalError::Mismatch(Operation::Div, Kind::Unit, Kind::Num));
    let e = num(1.0).blend(&Value::Bool(true)).done().unwrap_err();
    assert_eq!(e, EvalError::Mismatch(Operation::Blend, Kind::Num, Kind::Bool));
    let e = text("a").less_than(&num(1.0)).unwrap_err();
    assert_eq!(e, EvalError::Mismatch(Operation::LessThan, Kind::Str, Kind::Num));
    let e = num(1.0).greater_than(&Value::Table(vec![])).unwrap_err();
    assert_eq!(e, EvalError::Mismatch(Operation::GreaterThan, Kind::Num, Kind::Table));
    let e = num(1.0).scale(single(2.0)).done().unwrap_err();
    assert_eq!(e, EvalError::CannotScale(Kind::Num));
    assert_eq!(text("a").as_num().unwrap_err(), EvalError::ExpectedNumber(Kind::Str));
    assert_eq!(val(num(2.5).as_num().unwrap()), 2.5);
}

#[test]
fn division_by_either_zero_is_an_error() {
    assert_eq!(num(1.0).div(&num(0.0)).done().unwrap_err(), EvalError::DivisionByZero);
    assert_eq!(num(1.0).div(&num(-0.0)).done().unwrap_err(), EvalError::DivisionByZero);
    assert_eq!(num(0.0).div(&num(0.0)).done().unwrap_err(), EvalError::DivisionByZero);
    assert!(same(&num(7.0).div(&num(2.0)).done().unwrap(), &num(3.5)));
    assert!(same(&num(1.0).div(&num(3.0)).done().unwrap(), &num(1.0 / 3.0)));
}

#[test]
fn equality_is_tolerant_for_numbers_and_false_across_kinds() {
    assert!(same(&num(0.1 + 0.2).equals(&num(0.3)).done().unwrap(), &Value::Bool(true)));
    assert!(same(&num(1.0).equals(&num(1.0 + 1.0e-9)).done().unwrap(), &Value::Bool(false)));
    assert!(same(&num(1.0).equals(&text("1")).done().unwrap(), &Value::Bool(false)));
    assert!(same(&Value::Unit.equals(&Value::Unit).done().unwrap(), &Value::Bool(false)));
    let c = Value::Color(Color::new(1, 1, 1));
    assert!(same(&c.equals(&Value::Color(Color::new(1, 1, 1))).done().unwrap(), &Value::Bool(false)));
}

#[test]
fn falsehood_has_three_forms() {
    assert!(!Value::Bool(false).is_truthy());
    assert!(!num(0.0).is_truthy());
    assert!(!num(-0.0).is_truthy());
    assert!(!Value::Unit.is_truthy());
    assert!(num(f64::NAN).is_truthy());
    assert!(num(-1.0e-300).is_truthy());
    assert!(text("").is_truthy());
    assert!(Value::Array(vec![]).is_truthy());
    assert!(Value::Table(vec![]).is_truthy());
    assert!(Value::Color(Color::new(0, 0, 0)).is_truthy());
    assert!(Value::Future(FutureState::Pending).is_truthy());
    assert!(Value::Continuation(Box::new(Continuation::Empty)).is_truthy());
}

#[test]
fn a_copy_holds_unit_in_place_of_a_continuation() {
    assert!(same(&cont(1).clone(), &Value::Unit));
    let nested = Value::Array(vec![num(1.0), cont(2), Value::Table(vec![(text("k"), cont(3))])]);
    let expected = Value::Array(vec![
        num(1.0),
        Value::Unit,
        Value::Table(vec![(text("k"), Value::Unit)]),
    ]);
    assert!(same(&nested.duplicate(), &expected));
    let future = Value::Future(FutureState::Resolved(Box::new(cont(4))));
    match future.clone() {
        Value::Future(FutureState::Resolved(inner)) => assert!(same(&inner, &Value::Unit)),
        other => panic!("expected a resolved future, got {:?}", other),
    }
    let tree = Expr::Block(vec![Expr::Value(cont(5)), Expr::Value(num(2.0))]);
    match tree.clone() {
        Expr::Block(items) => match (&items[0], &items[1]) {
            (Expr::Value(a), Expr::Value(b)) => {
                assert!(same(a, &Value::Unit));
                assert!(same(b, &num(2.0)));
            }
            other => panic!("expected two literals, got {:?}", other),
        },
        other => panic!("expected a block, got {:?}", other),
    }
}

#[test]
fn awaiting_reads_the_state_of_a_future() {
    let resolved = Value::Future(FutureState::Resolved(Box::new(num(9.0))));
    assert!(same(&resolved.resolve().unwrap(), &num(9.0)));
    assert!(matches!(Value::Future(FutureState::Pending).resolve(), Err(AwaitError::Pending)));
    match Value::Future(FutureState::Rejected("no".to_string())).resolve() {
        Err(AwaitError::Rejected(m)) => assert_eq!(m, "no"),
        other => panic!("expected a rejection, got {:?}", other),
    }
    assert!(same(&text("plain").resolve().unwrap(), &text("plain")));
}

// Indexing

#[test]
fn index_at_or_beyond_length_is_an_error() {
    let mut runtime = Runtime::new();
    for (len, index) in [(0usize, 0.0), (1, 1.0), (3, 3.0), (3, 3.9), (3, 1.0e30)] {
        let items: Vec<Value> = (0..len).map(|i| num(i as f64)).collect();
        let expr = Expr::Get(lit(Value::Array(items)), lit(num(index)));
        let expected = EvalError::IndexOutOfBounds(index as u64);
        assert_eq!(eval(&mut runtime, expr).unwrap_err(), expected);
    }
}

#[test]
fn index_is_truncated_and_never_negative() {
    let mut runtime = Runtime::new();
    let items = || Value::Array(vec![num(10.0), num(20.0), num(30.0)]);
    let at = |runtime: &mut Runtime, i: f64| eval(runtime, Expr::Get(lit(items()), lit(num(i)))).unwrap();
    assert!(same(&at(&mut runtime, 1.9), &num(20.0)));
    assert!(same(&at(&mut runtime, -5.0), &num(10.0)));
    assert!(same(&at(&mut runtime, f64::NAN), &num(10.0)));
    assert!(same(&at(&mut runtime, 2.0), &num(30.0)));
}

#[test]
fn indexing_errors_are_told_apart() {
    let mut runtime = Runtime::new();
    let e = eval(&mut runtime, Expr::Get(lit(Value::Array(vec![num(1.0)])), lit(text("0"))));
    assert_eq!(e.unwrap_err(), EvalError::IndexNotNumber(Kind::Str));
    let e = eval(&mut runtime, Expr::Get(lit(num(1.0)), lit(num(0.0))));
    assert_eq!(e.unwrap_err(), EvalError::NotIndexable(Kind::Num));
    let e = eval(&mut runtime, Expr::Get(lit(text("abc")), lit(num(0.0))));
    assert_eq!(e.unwrap_err(), EvalError::NotIndexable(Kind::Str));
}

#[test]
fn map_without_a_matching_key_is_an_error() {
    let mut runtime = Runtime::new();
    let map = || {
        Value::Table(vec![
            (num(1.0), text("one")),
            (text("two"), num(2.0)),
            (Value::Bool(true), num(3.0)),
        ])
    };
    for key in [num(5.0), text("three"), Value::Bool(true), Value::Unit] {
        let e = eval(&mut runtime, Expr::Get(lit(map()), lit(key)));
        assert_eq!(e.unwrap_err(), EvalError::KeyNotFound);
    }
    let e = eval(&mut runtime, Expr::Get(lit(Value::Table(vec![])), lit(num(1.0))));
    assert_eq!(e.unwrap_err(), EvalError::KeyNotFound);
}

#[test]
fn map_gives_the_first_match() {
    let mut runtime = Runtime::new();
    let map = || {
        Value::Table(vec![
            (text("k"), num(1.0)),
            (num(2.0), num(10.0)),
            (text("k"), num(2.0)),
            (num(2.0 + 1.0e-17), num(20.0)),
            (num(3.0), num(30.0)),
        ])
    };
    assert!(same(&eval(&mut runtime, Expr::Get(lit(map()), lit(text("k")))).unwrap(), &num(1.0)));
    assert!(same(&eval(&mut runtime, Expr::Get(lit(map()), lit(num(2.0)))).unwrap(), &num(10.0)));
    assert!(same(&eval(&mut runtime, Expr::Get(lit(map()), lit(num(3.0)))).unwrap(), &num(30.0)));
}

#[test]
fn map_walk_asks_about_numeric_keys_only() {
    let pairs = vec![(text("a"), num(1.0)), (num(4.0), num(2.0)), (num(5.0), num(3.0))];
    let table = Value::Table(pairs);
    let key = num(5.0);
    let (four, five) = (Num::from_bits(4.0f64.to_bits()), Num::from_bits(5.0f64.to_bits()));
    match table.get(&key) {
        Ok(Lookup::Ask(at, q)) => {
            assert_eq!(at, 1);
            assert_eq!(q, Request::Near(four, five));
        }
        other => panic!("expected a question, got {:?}", other),
    }
    match table.get_after(&key, 1, false) {
        Ok(Lookup::Ask(at, q)) => {
            assert_eq!(at, 2);
            assert_eq!(q, Request::Near(five, five));
        }
        other => panic!("expected a question, got {:?}", other),
    }
    match table.get_after(&key, 2, true) {
        Ok(Lookup::Found(v)) => assert!(same(&v, &num(3.0))),
        other => panic!("expected a value, got {:?}", other),
    }
    assert!(matches!(table.get_after(&key, 2, false), Err(EvalError::KeyNotFound)));
    assert!(matches!(table.get_after(&key, 7, true), Err(EvalError::KeyNotFound)));
}

// The continuation stack

#[test]
fn compose_runs_left_before_right() {
    let mut runtime = Runtime::new();
    let r = eval(&mut runtime, Expr::Compose(lit(cont(1)), lit(cont(2)))).unwrap();
    assert!(same(&r, &Value::Unit));
    assert_eq!(runtime.cont_stack.len(), 2);
    assert!(matches!(runtime.resume(), Flow::Call(Thunk { id: 1 })));
    assert!(matches!(runtime.resume(), Flow::Call(Thunk { id: 2 })));
    assert!(matches!(runtime.resume(), Flow::Done(Value::Unit)));
}

#[test]
fn compose_effects_happen_in_order() {
    let log = std::cell::RefCell::new(Vec::new());
    let invoke = |t: Thunk| {
        log.borrow_mut().push(t.id);
        num(t.id as f64)
    };
    let mut runtime = Runtime::new();
    runtime.cont_stack.push(Continuation::Resume(Thunk { id: 99 }));
    eval(&mut runtime, Expr::Compose(lit(cont(1)), lit(cont(2)))).unwrap();
    assert!(same(&runtime.resume_with(&invoke), &num(1.0)));
    assert!(same(&runtime.resume_with(&invoke), &num(2.0)));
    assert_eq!(*log.borrow(), vec![1, 2]);
    assert_eq!(runtime.cont_stack.len(), 1);
}

#[test]
fn resuming_runs_the_continuation_it_pops() {
    let invoke = |t: Thunk| num(t.id as f64 * 2.0);
    let mut runtime = Runtime::new();
    runtime.cont_stack.push(Continuation::Resume(Thunk { id: 3 }));
    assert!(same(&runtime.resume_with(&invoke), &num(6.0)));
    assert!(same(&runtime.resume_with(&invoke), &Value::Unit));
    assert!(same(&runtime.continue_and_run(cont(5), &invoke), &num(10.0)));
    assert!(same(&runtime.continue_and_run(num(5.0), &invoke), &Value::Unit));
    assert!(runtime.cont_stack.is_empty());
}

#[test]
fn compose_needs_two_continuations() {
    let mut runtime = Runtime::new();
    let e = eval(&mut runtime, Expr::Compose(lit(cont(1)), lit(num(2.0)))).unwrap_err();
    assert_eq!(e, EvalError::ComposeNeedsContinuations(Kind::Continuation, Kind::Num));
    let e = eval(&mut runtime, Expr::Compose(lit(Value::Unit), lit(cont(1)))).unwrap_err();
    assert_eq!(e, EvalError::ComposeNeedsContinuations(Kind::Unit, Kind::Continuation));
    assert!(runtime.cont_stack.is_empty());
}

#[test]
fn break_empties_a_stack_of_any_depth() {
    for depth in [0u64, 1, 2, 17] {
        let mut runtime = Runtime::new();
        for id in 0..depth {
            runtime.cont_stack.push(Continuation::Resume(Thunk { id }));
        }
        assert!(same(&runtime.break_flow(), &Value::Unit));
        assert!(matches!(runtime.resume(), Flow::Done(Value::Unit)));
        assert!(runtime.cont_stack.is_empty());
    }
}

#[test]
fn resume_pops_one_and_skips_empty_markers() {
    let mut runtime = Runtime::new();
    runtime.cont_stack.push(Continuation::Resume(Thunk { id: 7 }));
    runtime.cont_stack.push(Continuation::Empty);
    assert!(matches!(runtime.resume(), Flow::Done(Value::Unit)));
    assert_eq!(runtime.cont_stack.len(), 1);
    assert!(matches!(runtime.resume(), Flow::Call(Thunk { id: 7 })));
    assert!(runtime.cont_stack.is_empty());
}

#[test]
fn continue_runs_what_it_is_given() {
    let mut runtime = Runtime::new();
    runtime.cont_stack.push(Continuation::Resume(Thunk { id: 1 }));
    assert!(matches!(runtime.continue_with(cont(9)), Flow::Call(Thunk { id: 9 })));
    assert_eq!(runtime.cont_stack.len(), 1);
    assert!(matches!(runtime.continue_with(num(3.0)), Flow::Done(Value::Unit)));
    assert!(matches!(runtime.continue_with(Value::Unit), Flow::Done(Value::Unit)));
    assert_eq!(runtime.cont_stack.len(), 1);
    let empty = Value::Continuation(Box::new(Continuation::Empty));
    assert!(matches!(runtime.continue_with(empty), Flow::Done(Value::Unit)));
    assert_eq!(runtime.cont_stack.len(), 1);
}

// The evaluator

#[test]
fn choice_falls_back_on_unit_only() {
    let mut runtime = Runtime::new();
    let r = eval(&mut runtime, Expr::Choice(lit(Value::Unit), lit(num(2.0)))).unwrap();
    assert!(same(&r, &num(2.0)));
    let r = eval(&mut runtime, Expr::Choice(lit(Value::Bool(false)), lit(num(2.0)))).unwrap();
    assert!(same(&r, &Value::Bool(false)));
    let r = eval(&mut runtime, Expr::Choice(lit(num(0.0)), lit(num(2.0)))).unwrap();
    assert!(same(&r, &num(0.0)));
    let empty = Expr::Block(vec![]);
    let r = eval(&mut runtime, Expr::Choice(Box::new(empty), lit(text("fallback")))).unwrap();
    assert!(same(&r, &text("fallback")));
}

#[test]
fn choice_leaves_its_right_side_unevaluated() {
    let mut runtime = Runtime::new();
    let failing = Expr::Div(lit(num(1.0)), lit(num(0.0)));
    let r = eval(&mut runtime, Expr::Choice(lit(num(5.0)), Box::new(failing))).unwrap();
    assert!(same(&r, &num(5.0)));
    let pushing = Expr::Compose(lit(cont(1)), lit(cont(2)));
    let r = eval(&mut runtime, Expr::Choice(lit(num(6.0)), Box::new(pushing))).unwrap();
    assert!(same(&r, &num(6.0)));
    assert!(runtime.cont_stack.is_empty());
    let failing = Expr::Div(lit(num(1.0)), lit(num(0.0)));
    let e = eval(&mut runtime, Expr::Choice(lit(Value::Unit), Box::new(failing))).unwrap_err();
    assert_eq!(e, EvalError::DivisionByZero);
}

#[test]
fn operands_are_evaluated_left_before_right() {
    let mut runtime = Runtime::new();
    let left = Expr::Div(lit(num(1.0)), lit(num(0.0)));
    let right = Expr::Add(lit(num(1.0)), lit(text("x")));
    let e = eval(&mut runtime, Expr::Add(Box::new(left), Box::new(right))).unwrap_err();
    assert_eq!(e, EvalError::DivisionByZero);
    let r = eval(
        &mut runtime,
        Expr::Sub(
            Box::new(Expr::Mul(lit(num(2.0)), lit(num(5.0)))),
            Box::new(Expr::Div(lit(num(9.0)), lit(num(3.0)))),
        ),
    );
    assert!(same(&r.unwrap(), &num(7.0)));
}

#[test]
fn for_binds_each_item_in_turn() {
    let mut runtime = Runtime::new();
    let mut env = Env::new();
    env.set("other".to_string(), num(1.0));
    let items = Value::Array(vec![num(7.0), text("last")]);
    let expr = Expr::For("x".to_string(), lit(items), lit(num(42.0)));
    let r = eval_in(&mut runtime, &mut env, expr).unwrap();
    assert!(same(&r, &num(42.0)));
    assert!(same(&env.get(&"x".to_string()).unwrap(), &text("last")));
    assert!(same(&env.get(&"other".to_string()).unwrap(), &num(1.0)));
    assert_eq!(env.len(), 2);
}

#[test]
fn for_over_nothing_binds_nothing() {
    let mut runtime = Runtime::new();
    let mut env = Env::new();
    let failing = Expr::Div(lit(num(1.0)), lit(num(0.0)));
    let expr = Expr::For("x".to_string(), lit(Value::Array(vec![])), Box::new(failing));
    assert!(same(&eval_in(&mut runtime, &mut env, expr).unwrap(), &Value::Unit));
    assert!(env.get(&"x".to_string()).is_none());
}

#[test]
fn for_over_one_item_has_the_value_of_its_body() {
    let mut runtime = Runtime::new();
    let body = Expr::Add(lit(num(1.0)), lit(num(2.0)));
    let expr = Expr::For("x".to_string(), lit(Value::Array(vec![text("a")])), Box::new(body));
    assert!(same(&eval(&mut runtime, expr).unwrap(), &num(3.0)));
}

#[test]
fn for_needs_an_array() {
    let mut runtime = Runtime::new();
    let expr = Expr::For("x".to_string(), lit(num(3.0)), lit(num(1.0)));
    assert_eq!(eval(&mut runtime, expr).unwrap_err(), EvalError::ForNeedsArray(Kind::Num));
}

#[test]
fn while_stops_at_the_first_error_of_its_body() {
    let mut runtime = Runtime::new();
    let failing = Expr::Div(lit(num(1.0)), lit(num(0.0)));
    let expr = Expr::While(lit(Value::Bool(true)), Box::new(failing));
    assert_eq!(eval(&mut runtime, expr).unwrap_err(), EvalError::DivisionByZero);
    let expr = Expr::While(lit(num(0.0)), lit(num(1.0)));
    assert!(same(&eval(&mut runtime, expr).unwrap(), &Value::Unit));
}

#[test]
fn while_tests_its_condition_before_every_run() {
    let mut runtime = Runtime::new();
    let mut env = Env::new();
    runtime.load(Expr::While(lit(Value::Bool(true)), lit(num(4.0))));
    let mut tests = 0;
    for _ in 0..40 {
        if let Focus::Eval(Expr::Value(Value::Bool(true))) = &runtime.focus {
            tests += 1;
        }
        assert!(matches!(runtime.step(&mut env, None), Action::Continue));
    }
    assert_eq!(tests, 10);
}

#[test]
fn evaluation_stops_at_its_limit() {
    let mut runtime = Runtime::new();
    let mut env = Env::new();
    let forever = || Expr::While(lit(Value::Bool(true)), lit(num(4.0)));
    assert!(runtime.evaluate(&mut env, forever(), &|q| answer(&q), 1000).is_none());
    assert!(!runtime.is_idle());
    assert!(runtime.evaluate(&mut env, forever(), &|q| answer(&q), 0).is_none());
    let sum = || Expr::Add(lit(num(1.0)), lit(num(2.0)));
    for limit in 0..7 {
        assert!(runtime.evaluate(&mut env, sum(), &|q| answer(&q), limit).is_none());
    }
    let r = runtime.evaluate(&mut env, sum(), &|q| answer(&q), 7).unwrap().unwrap();
    assert!(same(&r, &num(3.0)));
    assert!(runtime.is_idle());
}

#[test]
fn evaluation_by_steps_and_at_once_agree() {
    let tree = || {
        Expr::Block(vec![
            Expr::For(
                "i".to_string(),
                lit(Value::Array(vec![num(1.0), num(2.0)])),
                Box::new(Expr::Mul(lit(num(3.0)), lit(num(0.5)))),
            ),
            Expr::Get(
                lit(Value::Table(vec![(num(1.0), text("a")), (num(1.5), text("b"))])),
                Box::new(Expr::Div(lit(num(3.0)), lit(num(2.0)))),
            ),
        ])
    };
    let mut stepped = Runtime::new();
    let mut env = Env::new();
    let by_steps = eval_in(&mut stepped, &mut env, tree()).unwrap();
    let mut runtime = Runtime::new();
    let at_once = eval(&mut runtime, tree()).unwrap();
    assert!(same(&by_steps, &text("b")));
    assert!(same(&at_once, &text("b")));
}

#[test]
fn scale_in_a_tree_needs_a_colour() {
    let mut runtime = Runtime::new();
    let e = eval(&mut runtime, Expr::Scale(lit(text("red")), single(2.0))).unwrap_err();
    assert_eq!(e, EvalError::CannotScale(Kind::Str));
    let c = Value::Color(Color::new(100, 50, 200));
    let r = eval(&mut runtime, Expr::Scale(lit(c), single(2.0))).unwrap();
    assert!(same(&r, &Value::Color(Color::new(200, 100, 255))));
}

#[test]
fn a_failure_keeps_what_was_pushed_before_it() {
    let mut runtime = Runtime::new();
    let expr = Expr::Block(vec![
        Expr::Compose(lit(cont(1)), lit(cont(2))),
        Expr::Div(lit(num(1.0)), lit(num(0.0))),
    ]);
    assert_eq!(eval(&mut runtime, expr).unwrap_err(), EvalError::DivisionByZero);
    assert_eq!(runtime.cont_stack.len(), 2);
    assert!(runtime.is_idle());
    assert!(runtime.frames.is_empty());
}

#[test]
fn an_idle_runtime_finishes_with_unit() {
    let mut runtime = Runtime::new();
    let mut env = Env::new();
    assert!(runtime.is_idle());
    assert!(matches!(runtime.step(&mut env, None), Action::Finished(Ok(Value::Unit))));
}

#[test]
fn an_answer_out_of_place_ends_the_evaluation() {
    let mut runtime = Runtime::new();
    let mut env = Env::new();
    runtime.load(Expr::Add(lit(num(1.0)), lit(num(2.0))));
    let stray = Some(Answer::Flag(true));
    assert!(matches!(
        runtime.step(&mut env, stray),
        Action::Finished(Err(EvalError::UnexpectedAnswer))
    ));
    assert!(runtime.is_idle());

    runtime.load(Expr::Add(lit(num(1.0)), lit(num(2.0))));
    let mut action = runtime.step(&mut env, None);
    while matches!(action, Action::Continue) {
        action = runtime.step(&mut env, None);
    }
    assert!(matches!(action, Action::Ask(Request::Arith(ArithOp::Add, _, _))));
    assert!(matches!(
        runtime.step(&mut env, Some(Answer::Flag(true))),
        Action::Finished(Err(EvalError::UnexpectedAnswer))
    ));

    runtime.load(Expr::Add(lit(num(1.0)), lit(num(2.0))));
    let mut action = runtime.step(&mut env, None);
    while matches!(action, Action::Continue) {
        action = runtime.step(&mut env, None);
    }
    assert!(matches!(
        runtime.step(&mut env, None),
        Action::Finished(Err(EvalError::UnexpectedAnswer))
    ));
}

#[test]
fn an_answer_settles_into_the_value_of_its_request() {
    let one = Num::from_bits(1.0f64.to_bits());
    let q = Request::Arith(ArithOp::Mul, one, one);
    assert!(same(&q.settle(Answer::Number(one)).unwrap(), &num(1.0)));
    assert_eq!(q.settle(Answer::Flag(true)).unwrap_err(), EvalError::UnexpectedAnswer);
    let near = Request::Near(one, one);
    assert!(same(&near.settle(Answer::Flag(false)).unwrap(), &Value::Bool(false)));
    assert_eq!(near.settle(Answer::Number(one)).unwrap_err(), EvalError::UnexpectedAnswer);
    let c = Color::new(1, 2, 3);
    let products = Answer::Products(single(300.0), single(2.5), single(-1.0));
    let scaled = Request::Scale(c, single(2.0)).settle(products).unwrap();
    assert!(same(&scaled, &Value::Color(Color::new(255, 2, 0))));
}

// The variable environment

#[test]
fn a_binding_replaces_the_earlier_one() {
    let mut env = Env::new();
    assert!(env.get(&"a".to_string()).is_none());
    env.set("a".to_string(), num(1.0));
    env.set("b".to_string(), num(2.0));
    env.set("a".to_string(), text("new"));
    assert!(same(&env.get(&"a".to_string()).unwrap(), &text("new")));
    assert!(same(&env.get(&"b".to_string()).unwrap(), &num(2.0)));
    assert_eq!(env.len(), 2);
    env.set("c".to_string(), cont(1));
    assert!(same(&env.get(&"c".to_string()).unwrap(), &Value::Unit));
}

// Postfix lines

#[test]
fn postfix_line_computes_on_a_stack() {
    let mut env = Env::new();
    assert!(same(&postfix("3 4 +", &mut env).unwrap(), &num(7.0)));
    assert!(same(&postfix("3 4 + 2 *", &mut env).unwrap(), &num(14.0)));
    assert!(same(&postfix("10 4 -", &mut env).unwrap(), &num(6.0)));
    assert!(same(&postfix("1 8 /", &mut env).unwrap(), &num(0.125)));
    assert!(same(&postfix("", &mut env).unwrap(), &Value::Unit));
    assert!(same(&postfix("5 -->", &mut env).unwrap(), &num(5.0)));
}

#[test]
fn postfix_line_reports_its_errors() {
    let mut env = Env::new();
    assert_eq!(postfix("3 +", &mut env).unwrap_err(), PostfixError::NotEnoughOperands(Token::Plus));
    assert_eq!(postfix("-", &mut env).unwrap_err(), PostfixError::NotEnoughOperands(Token::Minus));
    assert_eq!(postfix("3 =", &mut env).unwrap_err(), PostfixError::NotEnoughOperands(Token::Assign));
    assert_eq!(postfix("3 4 =", &mut env).unwrap_err(), PostfixError::NameNotString(Kind::Num));
    assert_eq!(postfix("-->", &mut env).unwrap_err(), PostfixError::NothingToPrint);
    assert_eq!(postfix("1 2 3", &mut env).unwrap_err(), PostfixError::Remaining(3));
    assert_eq!(
        postfix("1 0 /", &mut env).unwrap_err(),
        PostfixError::Operation(EvalError::DivisionByZero)
    );
}

#[test]
fn postfix_assignment_binds_and_keeps_the_value() {
    let mut env = Env::new();
    let mut stack = Postfix::new();
    stack.push(num(5.0));
    stack.push(text("x"));
    assert!(matches!(stack.feed(&mut env, &"=".to_string()), Ok(Fed::Next)));
    assert!(same(&env.get(&"x".to_string()).unwrap(), &num(5.0)));
    assert!(matches!(stack.feed(&mut env, &"x".to_string()), Ok(Fed::Next)));
    assert!(matches!(stack.feed(&mut env, &"y".to_string()), Ok(Fed::Literal)));
    assert!(matches!(stack.feed(&mut env, &"*".to_string()), Ok(Fed::Ask(_))));
    assert!(stack.stack.is_empty());
}

#[test]
fn postfix_print_hands_out_the_items() {
    let mut env = Env::new();
    let mut stack = Postfix::new();
    stack.push(Value::Array(vec![num(1.0), num(2.0)]));
    match stack.feed(&mut env, &"-->".to_string()) {
        Ok(Fed::Print(items)) => {
            assert_eq!(items.len(), 2);
            assert!(same(&items[1], &num(2.0)));
        }
        other => panic!("expected items to print, got {:?}", other),
    }
    assert!(same(&stack.finish().unwrap(), &Value::Unit));
}
