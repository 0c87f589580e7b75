use vstd::prelude::*;
use crate::num::Single;
use crate::request::Answer;
use crate::request::EvalError;
use crate::request::Request;
use crate::value::Continuation;
use crate::value::Thunk;
use crate::value::Value;
use crate::value::ValueView;
use crate::value::Outcome;
use crate::value::OutcomeView;
use crate::value::Lookup;
use crate::value::LookupView;
use crate::value::narrowed;
use crate::value::views;
use crate::value::settled;
use crate::value::fetched;
use crate::value::scan_after;
use crate::value::value_result;
use crate::value::outcome_result;
use crate::value::lookup_result;
use crate::expr::Binary;
use crate::expr::Expr;
use crate::expr::ExprView;
use crate::expr::copied;
use crate::expr::expr_views;
use crate::stack::ContinuationStack;
use crate::env::Env;
use crate::env::rebound;

verus! {

/// What is left to do once the expression in focus has a value.
#[derive(Debug)]
pub enum Frame {
    /// The left operand is being evaluated; the right one waits.
    Left(Binary, Expr),
    /// The right operand is being evaluated; the left one's value is kept.
    Right(Binary, Value),
    /// The colour to scale is being evaluated.
    Scale(Single),
    /// A loop's condition is being evaluated; kept are the condition, the
    /// body and the value of the body's last run.
    WhileTest(Expr, Expr, Value),
    /// A loop's body is being evaluated; kept are the condition and body.
    WhileBody(Expr, Expr),
    /// The array to walk is being evaluated; kept are the variable's name
    /// and the body.
    ForSource(String, Expr),
    /// The body is being evaluated for one item; kept are the variable's
    /// name, the items, the position of the next item, and the body.
    ForBody(String, Vec<Value>, usize, Expr),
    /// A block's expression is being evaluated; kept are those after it.
    Block(Vec<Expr>),
}

pub ghost enum FrameView {
    Left(Binary, ExprView),
    Right(Binary, ValueView),
    Scale(Single),
    WhileTest(ExprView, ExprView, ValueView),
    WhileBody(ExprView, ExprView),
    ForSource(Seq<char>, ExprView),
    ForBody(Seq<char>, Seq<ValueView>, int, ExprView),
    Block(Seq<ExprView>),
}

impl View for Frame {
    type V = FrameView;

    open spec fn view(&self) -> FrameView {
        match self {
            Frame::Left(op, right) => FrameView::Left(*op, right@),
            Frame::Right(op, left) => FrameView::Right(*op, left@),
            Frame::Scale(factor) => FrameView::Scale(*factor),
            Frame::WhileTest(condition, body, last) => FrameView::WhileTest(condition@, body@, last@),
            Frame::WhileBody(condition, body) => FrameView::WhileBody(condition@, body@),
            Frame::ForSource(name, body) => FrameView::ForSource(name@, body@),
            Frame::ForBody(name, items, next, body) => FrameView::ForBody(
                name@,
                views(items@),
                *next as int,
                body@,
            ),
            Frame::Block(rest) => FrameView::Block(expr_views(rest@)),
        }
    }
}

/// What the evaluator is looking at.
#[derive(Debug)]
pub enum Focus {
    /// Nothing: no evaluation is under way.
    Idle,
    /// An expression to evaluate.
    Eval(Expr),
    /// A value to hand to the innermost frame.
    Return(Value),
    /// A request whose answer is the value to hand on.
    Await(Request),
    /// A walk through a map, stopped at the entry at the given position:
    /// the map, the key sought, the position.
    Search(Value, Value, usize),
}

pub ghost enum FocusView {
    Idle,
    Eval(ExprView),
    Return(ValueView),
    Await(Request),
    Search(ValueView, ValueView, int),
}

impl View for Focus {
    type V = FocusView;

    open spec fn view(&self) -> FocusView {
        match self {
            Focus::Idle => FocusView::Idle,
            Focus::Eval(e) => FocusView::Eval(e@),
            Focus::Return(v) => FocusView::Return(v@),
            Focus::Await(r) => FocusView::Await(*r),
            Focus::Search(table, key, at) => FocusView::Search(table@, key@, *at as int),
        }
    }
}

/// What the caller is to do after a step.
#[derive(Debug)]
pub enum Action {
    /// Take the next step, with no answer.
    Continue,
    /// Do the floating-point work and take the next step with its answer.
    Ask(Request),
    /// The evaluation is over: this is its value, or why it failed.
    Finished(Result<Value, EvalError>),
}

pub ghost enum ActionView {
    Continue,
    Ask(Request),
    Finished(Result<ValueView, EvalError>),
}

impl View for Action {
    type V = ActionView;

    open spec fn view(&self) -> ActionView {
        match self {
            Action::Continue => ActionView::Continue,
            Action::Ask(r) => ActionView::Ask(*r),
            Action::Finished(r) => ActionView::Finished(value_result(*r)),
        }
    }
}

/// What resuming comes to: a suspended computation for the caller to run,
/// whose result is then the result of resuming, or a value.
#[derive(Debug)]
pub enum Flow {
    Call(Thunk),
    Done(Value),
}

pub ghost enum FlowView {
    Call(Thunk),
    Done(ValueView),
}

impl View for Flow {
    type V = FlowView;

    open spec fn view(&self) -> FlowView {
        match self {
            Flow::Call(t) => FlowView::Call(*t),
            Flow::Done(v) => FlowView::Done(v@),
        }
    }
}

/// The evaluator: the continuation stack, and the state of the evaluation
/// under way, if any.
#[derive(Debug)]
pub struct Runtime {
    pub cont_stack: ContinuationStack,
    pub focus: Focus,
    pub frames: Vec<Frame>,
}

pub ghost struct RuntimeView {
    /// The continuation stack, bottom first.
    pub stack: Seq<Continuation>,
    pub focus: FocusView,
    /// The frames, outermost first.
    pub frames: Seq<FrameView>,
}

/// The views of a vector of frames, in order.
pub open spec fn frame_views(frames: Seq<Frame>) -> Seq<FrameView> {
    Seq::new(frames.len(), |i: int| frames[i]@)
}

impl View for Runtime {
    type V = RuntimeView;

    open spec fn view(&self) -> RuntimeView {
        RuntimeView {
            stack: self.cont_stack@,
            focus: self.focus@,
            frames: frame_views(self.frames@),
        }
    }
}

/// The stack after resuming: without its top, if it had one.
pub open spec fn popped(stack: Seq<Continuation>) -> Seq<Continuation> {
    if stack.len() == 0 {
        stack
    } else {
        stack.drop_last()
    }
}

/// What resuming comes to on a stack: the top continuation is to run if it
/// is callable; an empty marker and an empty stack give `Unit`.
pub open spec fn flow_of(stack: Seq<Continuation>) -> FlowView {
    if stack.len() == 0 {
        FlowView::Done(ValueView::Unit)
    } else {
        match stack.last() {
            Continuation::Resume(t) => FlowView::Call(t),
            Continuation::Empty => FlowView::Done(ValueView::Unit),
        }
    }
}

impl RuntimeView {
    pub open spec fn with(self, focus: FocusView, frames: Seq<FrameView>) -> RuntimeView {
        RuntimeView { stack: self.stack, focus, frames }
    }

    /// A failure ends the evaluation and drops its frames. The
    /// continuation stack stays as it is.
    pub open spec fn failed(self, e: EvalError) -> (RuntimeView, ActionView) {
        (self.with(FocusView::Idle, Seq::empty()), ActionView::Finished(Err(e)))
    }

    pub open spec fn returning(self, frames: Seq<FrameView>, v: ValueView) -> (
        RuntimeView,
        ActionView,
    ) {
        (self.with(FocusView::Return(v), frames), ActionView::Continue)
    }

    pub open spec fn evaluating(self, frames: Seq<FrameView>, e: ExprView) -> (
        RuntimeView,
        ActionView,
    ) {
        (self.with(FocusView::Eval(e), frames), ActionView::Continue)
    }

    /// After an operation on values: its value is handed on, its request
    /// is passed to the caller, its error ends the evaluation.
    pub open spec fn concluded(self, frames: Seq<FrameView>, r: Result<OutcomeView, EvalError>) -> (
        RuntimeView,
        ActionView,
    ) {
        match r {
            Ok(OutcomeView::Done(v)) => self.returning(frames, v),
            Ok(OutcomeView::Ask(q)) => (self.with(FocusView::Await(q), frames), ActionView::Ask(q)),
            Err(e) => self.failed(e),
        }
    }

    /// After indexing: the value found is handed on, a question about a
    /// map's entry is passed to the caller, an error ends the evaluation.
    pub open spec fn searched(
        self,
        frames: Seq<FrameView>,
        container: ValueView,
        key: ValueView,
        r: Result<LookupView, EvalError>,
    ) -> (RuntimeView, ActionView) {
        match r {
            Ok(LookupView::Found(v)) => self.returning(frames, v),
            Ok(LookupView::Ask(at, q)) => (
                self.with(FocusView::Search(container, key, at), frames),
                ActionView::Ask(q),
            ),
            Err(e) => self.failed(e),
        }
    }

    /// Taking up an expression: a literal is its value; an empty block is
    /// `Unit`; every other form starts with its first part and leaves a
    /// frame for the rest.
    pub open spec fn entered(self, e: ExprView) -> (RuntimeView, ActionView) {
        match e {
            ExprView::Value(v) => self.returning(self.frames, v),
            ExprView::Binary(op, l, r) => self.evaluating(
                self.frames.push(FrameView::Left(op, *r)),
                *l,
            ),
            ExprView::Scale(inner, factor) => self.evaluating(
                self.frames.push(FrameView::Scale(factor)),
                *inner,
            ),
            ExprView::For(name, source, body) => self.evaluating(
                self.frames.push(FrameView::ForSource(name, *body)),
                *source,
            ),
            ExprView::While(condition, body) => self.evaluating(
                self.frames.push(FrameView::WhileTest(*condition, *body, ValueView::Unit)),
                copied(*condition),
            ),
            ExprView::Block(items) => if items.len() == 0 {
                self.returning(self.frames, ValueView::Unit)
            } else {
                self.evaluating(self.frames.push(FrameView::Block(items.remove(0))), items[0])
            },
        }
    }

    /// Both operands of a binary form have their values.
    pub open spec fn applied(self, frames: Seq<FrameView>, op: Binary, l: ValueView, r: ValueView) -> (
        RuntimeView,
        ActionView,
    ) {
        match op {
            Binary::Add => self.concluded(frames, l.sum(r)),
            Binary::Sub => self.concluded(frames, l.difference(r)),
            Binary::Mul => self.concluded(frames, l.product(r)),
            Binary::Div => self.concluded(frames, l.quotient(r)),
            Binary::Blend => self.concluded(frames, l.blended(r)),
            Binary::Get => self.searched(frames, l, r, fetched(l, r)),
            Binary::Compose => match (l, r) {
                (ValueView::Continuation(c1), ValueView::Continuation(c2)) => (
                    RuntimeView {
                        stack: self.stack.push(c2).push(c1),
                        focus: FocusView::Return(ValueView::Unit),
                        frames,
                    },
                    ActionView::Continue,
                ),
                _ => self.failed(EvalError::ComposeNeedsContinuations(l.kind(), r.kind())),
            },
            Binary::Choice => self.returning(frames, r),
        }
    }

    /// An iteration loop at the item at position `next`: if there is one,
    /// the body is evaluated for it, else the loop's value is that of the
    /// body's last run.
    pub open spec fn iterated(
        self,
        frames: Seq<FrameView>,
        name: Seq<char>,
        items: Seq<ValueView>,
        next: int,
        body: ExprView,
        last: ValueView,
    ) -> (RuntimeView, ActionView) {
        if 0 <= next < items.len() {
            self.evaluating(
                frames.push(FrameView::ForBody(name, items, next + 1, body)),
                copied(body),
            )
        } else {
            self.returning(frames, last)
        }
    }

    /// A value for the left operand of a binary form. A choice is
    /// decided by it: `Unit` sends the evaluation on to the right operand,
    /// any other value is the choice's value and the right operand is
    /// dropped unevaluated. Every other form keeps the value and goes on
    /// to its right operand.
    pub open spec fn after_left(self, op: Binary, right: ExprView, v: ValueView) -> (
        RuntimeView,
        ActionView,
    ) {
        if op == Binary::Choice {
            if v == ValueView::Unit {
                self.evaluating(self.frames, right)
            } else {
                self.returning(self.frames, v)
            }
        } else {
            self.evaluating(self.frames.push(FrameView::Right(op, v)), right)
        }
    }

    /// A value for a loop's condition: a truthy one runs a copy of the
    /// body, any other ends the loop with the value of the body's last
    /// run.
    pub open spec fn after_test(
        self,
        condition: ExprView,
        body: ExprView,
        last: ValueView,
        v: ValueView,
    ) -> (RuntimeView, ActionView) {
        if v.truthy() {
            self.evaluating(self.frames.push(FrameView::WhileBody(condition, body)), copied(body))
        } else {
            self.returning(self.frames, last)
        }
    }

    /// A value for a loop's body: it is kept, and a copy of the condition
    /// is evaluated anew.
    pub open spec fn after_body(self, condition: ExprView, body: ExprView, v: ValueView) -> (
        RuntimeView,
        ActionView,
    ) {
        self.evaluating(
            self.frames.push(FrameView::WhileTest(condition, body, v)),
            copied(condition),
        )
    }

    /// A value for what an iteration loop walks: it must be an array.
    pub open spec fn after_source(self, name: Seq<char>, body: ExprView, v: ValueView) -> (
        RuntimeView,
        ActionView,
    ) {
        match v {
            ValueView::Array(items) => self.iterated(
                self.frames,
                name,
                items,
                0,
                body,
                ValueView::Unit,
            ),
            _ => self.failed(EvalError::ForNeedsArray(v.kind())),
        }
    }

    /// A value for an expression of a block: the last one's value is the
    /// block's, any other is dropped and the next expression taken up.
    pub open spec fn after_item(self, remaining: Seq<ExprView>, v: ValueView) -> (
        RuntimeView,
        ActionView,
    ) {
        if remaining.len() == 0 {
            self.returning(self.frames, v)
        } else {
            self.evaluating(
                self.frames.push(FrameView::Block(remaining.remove(0))),
                remaining[0],
            )
        }
    }

    /// Handing a value to a frame that was taken off the frames.
    pub open spec fn unwound(self, frame: FrameView, v: ValueView) -> (RuntimeView, ActionView) {
        match frame {
            FrameView::Left(op, right) => self.after_left(op, right, v),
            FrameView::Right(op, left) => self.applied(self.frames, op, left, v),
            FrameView::Scale(factor) => self.concluded(self.frames, v.scaled(factor)),
            FrameView::WhileTest(condition, body, last) => self.after_test(condition, body, last, v),
            FrameView::WhileBody(condition, body) => self.after_body(condition, body, v),
            FrameView::ForSource(name, body) => self.after_source(name, body, v),
            FrameView::ForBody(name, items, next, body) => self.iterated(
                self.frames,
                name,
                items,
                next,
                body,
                v,
            ),
            FrameView::Block(remaining) => self.after_item(remaining, v),
        }
    }

    /// Handing a value to the innermost frame; with no frame left it is
    /// the value of the whole evaluation.
    pub open spec fn delivered(self, v: ValueView) -> (RuntimeView, ActionView) {
        if self.frames.len() == 0 {
            (self.with(FocusView::Idle, Seq::empty()), ActionView::Finished(Ok(v)))
        } else {
            self.with(self.focus, self.frames.drop_last()).unwound(self.frames.last(), v)
        }
    }

    /// One step of the evaluation: the state after it, and what the caller
    /// is to do.
    pub open spec fn next(self, answer: Option<Answer>) -> (RuntimeView, ActionView) {
        match (self.focus, answer) {
            (FocusView::Idle, None) => (self, ActionView::Finished(Ok(ValueView::Unit))),
            (FocusView::Eval(e), None) => self.entered(e),
            (FocusView::Return(v), None) => self.delivered(v),
            (FocusView::Await(request), Some(a)) => match settled(request, a) {
                Ok(v) => self.returning(self.frames, v),
                Err(e) => self.failed(e),
            },
            (FocusView::Search(container, key, at), Some(Answer::Flag(near))) => match container {
                ValueView::Table(pairs) => self.searched(
                    self.frames,
                    container,
                    key,
                    scan_after(pairs, key, at, near),
                ),
                _ => self.failed(EvalError::NotIndexable(container.kind())),
            },
            _ => self.failed(EvalError::UnexpectedAnswer),
        }
    }

    /// Resuming: the top continuation leaves the stack, and the caller is
    /// told what to run.
    pub open spec fn resumed(self) -> (RuntimeView, FlowView) {
        (RuntimeView { stack: popped(self.stack), ..self }, flow_of(self.stack))
    }

    /// Breaking: the whole stack is dropped.
    pub open spec fn broken(self) -> RuntimeView {
        RuntimeView { stack: Seq::empty(), ..self }
    }

    /// Continuing with a value: a continuation is pushed and resumed at
    /// once; any other value changes nothing and gives `Unit`.
    pub open spec fn continued(self, v: ValueView) -> (RuntimeView, FlowView) {
        match v {
            ValueView::Continuation(c) => (RuntimeView { stack: self.stack.push(c), ..self }).resumed(),
            _ => (self, FlowView::Done(ValueView::Unit)),
        }
    }

    /// The binding that handing a value to a frame makes: an iteration
    /// loop that has an item left binds its variable to a copy of that
    /// item. Nothing else binds anything.
    pub open spec fn binding_by(frame: FrameView, v: ValueView) -> Option<(Seq<char>, ValueView)> {
        match frame {
            FrameView::ForSource(name, _) => match v {
                ValueView::Array(items) => if items.len() > 0 {
                    Some((name, narrowed(items[0])))
                } else {
                    None
                },
                _ => None,
            },
            FrameView::ForBody(name, items, next, _) => if 0 <= next < items.len() {
                Some((name, narrowed(items[next])))
            } else {
                None
            },
            _ => None,
        }
    }

    /// The binding that handing a value to the innermost frame makes.
    pub open spec fn binding_on(self, v: ValueView) -> Option<(Seq<char>, ValueView)> {
        if self.frames.len() == 0 {
            None
        } else {
            RuntimeView::binding_by(self.frames.last(), v)
        }
    }

    /// The binding that a step makes.
    pub open spec fn binding(self, answer: Option<Answer>) -> Option<(Seq<char>, ValueView)> {
        match (self.focus, answer) {
            (FocusView::Return(v), None) => self.binding_on(v),
            _ => None,
        }
    }
}

impl Runtime {
    pub fn new() -> (r: Runtime)
        ensures
            r@ == (RuntimeView {
                stack: Seq::<Continuation>::empty(),
                focus: FocusView::Idle,
                frames: Seq::<FrameView>::empty(),
            }),
    {
        let r = Runtime {
            cont_stack: ContinuationStack::new(),
            focus: Focus::Idle,
            frames: Vec::new(),
        };
        assert(frame_views(r.frames@) =~= Seq::<FrameView>::empty());
        r
    }

    /// Takes an expression up for evaluation. Whatever evaluation was
    /// under way is dropped; the continuation stack stays.
    pub fn load(&mut self, expr: Expr)
        ensures
            final(self)@ == old(self)@.with(FocusView::Eval(expr@), Seq::empty()),
    {
        self.frames.clear();
        self.focus = Focus::Eval(expr);
        assert(frame_views(self.frames@) =~= Seq::<FrameView>::empty());
    }

    /// Whether no evaluation is under way.
    pub fn is_idle(&self) -> (r: bool)
        ensures
            r == (self@.focus == FocusView::Idle),
    {
        match &self.focus {
            Focus::Idle => true,
            _ => false,
        }
    }

    /// Pops the top continuation. A callable one is handed to the caller
    /// to run; an empty marker, or an empty stack, gives `Unit`.
    pub fn resume(&mut self) -> (flow: Flow)
        ensures
            (final(self)@, flow@) == old(self)@.resumed(),
    {
        match self.cont_stack.pop() {
            Some(Continuation::Resume(t)) => Flow::Call(t),
            _ => Flow::Done(Value::Unit),
        }
    }

    /// Drops every continuation on the stack, however many there are.
    pub fn break_flow(&mut self) -> (v: Value)
        ensures
            v@ == ValueView::Unit,
            final(self)@ == old(self)@.broken(),
    {
        self.cont_stack.clear();
        Value::Unit
    }

    /// Pushes a continuation and resumes at once, so that it is the one
    /// that runs. Any other value does nothing and gives `Unit`.
    pub fn continue_with(&mut self, cont: Value) -> (flow: Flow)
        ensures
            (final(self)@, flow@) == old(self)@.continued(cont@),
    {
        match cont {
            Value::Continuation(c) => {
                self.cont_stack.push(*c);
                self.resume()
            },
            _ => Flow::Done(Value::Unit),
        }
    }

    /// Resumes and runs what was resumed: `invoke` is the caller's way to
    /// run a suspended computation by its name, and its result is the
    /// result of resuming.
    pub fn resume_with<F: Fn(Thunk) -> Value>(&mut self, invoke: &F) -> (v: Value)
        requires
            forall|t: Thunk| invoke.requires((t,)),
        ensures
            final(self)@ == old(self)@.resumed().0,
            match old(self)@.resumed().1 {
                FlowView::Call(t) => invoke.ensures((t,), v),
                FlowView::Done(d) => v@ == d,
            },
    {
        match self.resume() {
            Flow::Call(t) => invoke(t),
            Flow::Done(v) => v,
        }
    }

    /// Continues with a value and runs what was resumed, as `resume_with`
    /// does.
    pub fn continue_and_run<F: Fn(Thunk) -> Value>(&mut self, cont: Value, invoke: &F) -> (v: Value)
        requires
            forall|t: Thunk| invoke.requires((t,)),
        ensures
            final(self)@ == old(self)@.continued(cont@).0,
            match old(self)@.continued(cont@).1 {
                FlowView::Call(t) => invoke.ensures((t,), v),
                FlowView::Done(d) => v@ == d,
            },
    {
        match self.continue_with(cont) {
            Flow::Call(t) => invoke(t),
            Flow::Done(v) => v,
        }
    }

    fn push_frame(&mut self, frame: Frame)
        ensures
            final(self)@ == old(self)@.with(old(self)@.focus, old(self)@.frames.push(frame@)),
    {
        self.frames.push(frame);
        assert(frame_views(self.frames@) =~= frame_views(old(self).frames@).push(frame@));
    }

    fn pop_frame(&mut self) -> (top: Option<Frame>)
        ensures
            match top {
                Some(frame) => old(self)@.frames.len() > 0 && frame@ == old(self)@.frames.last()
                    && final(self)@ == old(self)@.with(
                    old(self)@.focus,
                    old(self)@.frames.drop_last(),
                ),
                None => old(self)@.frames.len() == 0 && final(self)@ == old(self)@,
            },
    {
        let top = self.frames.pop();
        assert(top is Some ==> frame_views(self.frames@) =~= frame_views(
            old(self).frames@,
        ).drop_last());
        top
    }

    fn fail(&mut self, e: EvalError) -> (action: Action)
        ensures
            (final(self)@, action@) == old(self)@.failed(e),
    {
        self.frames.clear();
        self.focus = Focus::Idle;
        assert(frame_views(self.frames@) =~= Seq::<FrameView>::empty());
        Action::Finished(Err(e))
    }

    fn conclude(&mut self, r: Result<Outcome, EvalError>) -> (action: Action)
        ensures
            (final(self)@, action@) == old(self)@.concluded(old(self)@.frames, outcome_result(r)),
    {
        match r {
            Ok(Outcome::Done(v)) => {
                self.focus = Focus::Return(v);
                Action::Continue
            },
            Ok(Outcome::Ask(q)) => {
                self.focus = Focus::Await(q);
                Action::Ask(q)
            },
            Err(e) => self.fail(e),
        }
    }

    fn search(&mut self, container: Value, key: Value, r: Result<Lookup, EvalError>) -> (action:
        Action)
        ensures
            (final(self)@, action@) == old(self)@.searched(
                old(self)@.frames,
                container@,
                key@,
                lookup_result(r),
            ),
    {
        match r {
            Ok(Lookup::Found(v)) => {
                self.focus = Focus::Return(v);
                Action::Continue
            },
            Ok(Lookup::Ask(at, q)) => {
                self.focus = Focus::Search(container, key, at);
                Action::Ask(q)
            },
            Err(e) => self.fail(e),
        }
    }

    fn enter(&mut self, expr: Expr) -> (action: Action)
        ensures
            (final(self)@, action@) == old(self)@.entered(expr@),
    {
        match expr {
            Expr::Value(v) => {
                self.focus = Focus::Return(v);
            },
            Expr::Add(l, r) => {
                self.push_frame(Frame::Left(Binary::Add, *r));
                self.focus = Focus::Eval(*l);
            },
            Expr::Sub(l, r) => {
                self.push_frame(Frame::Left(Binary::Sub, *r));
                self.focus = Focus::Eval(*l);
            },
            Expr::Mul(l, r) => {
                self.push_frame(Frame::Left(Binary::Mul, *r));
                self.focus = Focus::Eval(*l);
            },
            Expr::Div(l, r) => {
                self.push_frame(Frame::Left(Binary::Div, *r));
                self.focus = Focus::Eval(*l);
            },
            Expr::Blend(l, r) => {
                self.push_frame(Frame::Left(Binary::Blend, *r));
                self.focus = Focus::Eval(*l);
            },
            Expr::Scale(inner, factor) => {
                self.push_frame(Frame::Scale(factor));
                self.focus = Focus::Eval(*inner);
            },
            Expr::Get(l, r) => {
                self.push_frame(Frame::Left(Binary::Get, *r));
                self.focus = Focus::Eval(*l);
            },
            Expr::Compose(l, r) => {
                self.push_frame(Frame::Left(Binary::Compose, *r));
                self.focus = Focus::Eval(*l);
            },
            Expr::Choice(l, r) => {
                self.push_frame(Frame::Left(Binary::Choice, *r));
                self.focus = Focus::Eval(*l);
            },
            Expr::For(name, source, body) => {
                self.push_frame(Frame::ForSource(name, *body));
                self.focus = Focus::Eval(*source);
            },
            Expr::While(condition, body) => {
                let test = condition.duplicate();
                self.push_frame(Frame::WhileTest(*condition, *body, Value::Unit));
                self.focus = Focus::Eval(test);
            },
            Expr::Block(items) => {
                let mut rest = items;
                if rest.len() == 0 {
                    self.focus = Focus::Return(Value::Unit);
                } else {
                    let first = rest.remove(0);
                    assert(expr_views(rest@) =~= expr_views(items@).remove(0));
                    self.push_frame(Frame::Block(rest));
                    self.focus = Focus::Eval(first);
                }
            },
        }
        Action::Continue
    }

    fn apply(&mut self, op: Binary, left: Value, right: Value) -> (action: Action)
        ensures
            (final(self)@, action@) == old(self)@.applied(old(self)@.frames, op, left@, right@),
    {
        match op {
            Binary::Add => {
                let r = left.add(&right);
                self.conclude(r)
            },
            Binary::Sub => {
                let r = left.sub(&right);
                self.conclude(r)
            },
            Binary::Mul => {
                let r = left.mul(&right);
                self.conclude(r)
            },
            Binary::Div => {
                let r = left.div(&right);
                self.conclude(r)
            },
            Binary::Blend => {
                let r = left.blend(&right);
                self.conclude(r)
            },
            Binary::Get => {
                let r = left.get(&right);
                self.search(left, right, r)
            },
            Binary::Compose => match (left, right) {
                (Value::Continuation(c1), Value::Continuation(c2)) => {
                    self.cont_stack.push(*c2);
                    self.cont_stack.push(*c1);
                    self.focus = Focus::Return(Value::Unit);
                    Action::Continue
                },
                (l, r) => {
                    let e = EvalError::ComposeNeedsContinuations(l.kind(), r.kind());
                    self.fail(e)
                },
            },
            Binary::Choice => {
                self.focus = Focus::Return(right);
                Action::Continue
            },
        }
    }

    fn iterate(
        &mut self,
        env: &mut Env,
        name: String,
        items: Vec<Value>,
        next: usize,
        body: Expr,
        last: Value,
    ) -> (action: Action)
        ensures
            (final(self)@, action@) == old(self)@.iterated(
                old(self)@.frames,
                name@,
                views(items@),
                next as int,
                body@,
                last@,
            ),
            final(env)@ == rebound(
                old(env)@,
                if next < items.len() {
                    Some((name@, narrowed(items[next as int]@)))
                } else {
                    None
                },
            ),
    {
        if next < items.len() {
            env.set(name.clone(), items[next].duplicate());
            let run = body.duplicate();
            self.push_frame(Frame::ForBody(name, items, next + 1, body));
            self.focus = Focus::Eval(run);
        } else {
            self.focus = Focus::Return(last);
        }
        Action::Continue
    }

    fn leave_left(&mut self, op: Binary, right: Expr, value: Value) -> (action: Action)
        ensures
            (final(self)@, action@) == old(self)@.after_left(op, right@, value@),
    {
        match op {
            Binary::Choice => match value {
                Value::Unit => {
                    self.focus = Focus::Eval(right);
                },
                v => {
                    self.focus = Focus::Return(v);
                },
            },
            _ => {
                self.push_frame(Frame::Right(op, value));
                self.focus = Focus::Eval(right);
            },
        }
        Action::Continue
    }

    fn leave_test(&mut self, condition: Expr, body: Expr, last: Value, value: Value) -> (action:
        Action)
        ensures
            (final(self)@, action@) == old(self)@.after_test(condition@, body@, last@, value@),
    {
        if value.is_truthy() {
            let run = body.duplicate();
            self.push_frame(Frame::WhileBody(condition, body));
            self.focus = Focus::Eval(run);
        } else {
            self.focus = Focus::Return(last);
        }
        Action::Continue
    }

    fn leave_body(&mut self, condition: Expr, body: Expr, value: Value) -> (action: Action)
        ensures
            (final(self)@, action@) == old(self)@.after_body(condition@, body@, value@),
    {
        let test = condition.duplicate();
        self.push_frame(Frame::WhileTest(condition, body, value));
        self.focus = Focus::Eval(test);
        Action::Continue
    }

    fn leave_source(&mut self, env: &mut Env, name: String, body: Expr, value: Value) -> (action:
        Action)
        ensures
            (final(self)@, action@) == old(self)@.after_source(name@, body@, value@),
            final(env)@ == rebound(
                old(env)@,
                RuntimeView::binding_by(FrameView::ForSource(name@, body@), value@),
            ),
    {
        match value {
            Value::Array(items) => self.iterate(env, name, items, 0, body, Value::Unit),
            other => {
                let e = EvalError::ForNeedsArray(other.kind());
                self.fail(e)
            },
        }
    }

    fn leave_item(&mut self, remaining: Vec<Expr>, value: Value) -> (action: Action)
        ensures
            (final(self)@, action@) == old(self)@.after_item(expr_views(remaining@), value@),
    {
        let mut rest = remaining;
        if rest.len() == 0 {
            self.focus = Focus::Return(value);
        } else {
            let first = rest.remove(0);
            assert(expr_views(rest@) =~= expr_views(remaining@).remove(0));
            self.push_frame(Frame::Block(rest));
            self.focus = Focus::Eval(first);
        }
        Action::Continue
    }

    fn unwind(&mut self, env: &mut Env, frame: Frame, value: Value) -> (action: Action)
        ensures
            (final(self)@, action@) == old(self)@.unwound(frame@, value@),
            final(env)@ == rebound(old(env)@, RuntimeView::binding_by(frame@, value@)),
    {
        match frame {
            Frame::Left(op, right) => self.leave_left(op, right, value),
            Frame::Right(op, left) => self.apply(op, left, value),
            Frame::Scale(factor) => {
                let r = value.scale(factor);
                self.conclude(r)
            },
            Frame::WhileTest(condition, body, last) => self.leave_test(condition, body, last, value),
            Frame::WhileBody(condition, body) => self.leave_body(condition, body, value),
            Frame::ForSource(name, body) => self.leave_source(env, name, body, value),
            Frame::ForBody(name, items, next, body) => self.iterate(
                env,
                name,
                items,
                next,
                body,
                value,
            ),
            Frame::Block(remaining) => self.leave_item(remaining, value),
        }
    }

    fn deliver(&mut self, env: &mut Env, value: Value) -> (action: Action)
        ensures
            (final(self)@, action@) == old(self)@.delivered(value@),
            final(env)@ == rebound(old(env)@, old(self)@.binding_on(value@)),
    {
        match self.pop_frame() {
            None => {
                self.focus = Focus::Idle;
                assert(self@.frames =~= Seq::<FrameView>::empty());
                Action::Finished(Ok(value))
            },
            Some(frame) => self.unwind(env, frame, value),
        }
    }

    /// Takes one step of the evaluation under way. `answer` is the answer
    /// to the request of the step before, and `None` where that step asked
    /// nothing. An answer where none was asked for, none where one was, or
    /// one of the wrong shape ends the evaluation with an error.
    pub fn step(&mut self, env: &mut Env, answer: Option<Answer>) -> (action: Action)
        ensures
            (final(self)@, action@) == old(self)@.next(answer),
            final(env)@ == rebound(old(env)@, old(self)@.binding(answer)),
    {
        let mut focus = Focus::Idle;
        core::mem::swap(&mut self.focus, &mut focus);
        match (focus, answer) {
            (Focus::Idle, None) => Action::Finished(Ok(Value::Unit)),
            (Focus::Eval(expr), None) => self.enter(expr),
            (Focus::Return(value), None) => self.deliver(env, value),
            (Focus::Await(request), Some(a)) => {
                let r = request.settle(a);
                match r {
                    Ok(v) => {
                        self.focus = Focus::Return(v);
                        Action::Continue
                    },
                    Err(e) => self.fail(e),
                }
            },
            (Focus::Search(container, key, at), Some(Answer::Flag(near))) => {
                let r = container.get_after(&key, at, near);
                match &container {
                    Value::Table(_) => self.search(container, key, r),
                    _ => {
                        let e = EvalError::NotIndexable(container.kind());
                        self.fail(e)
                    },
                }
            },
            _ => self.fail(EvalError::UnexpectedAnswer),
        }
    }
}

/// Composing two continuations and then resuming twice runs the left one
/// first and the right one second, and leaves the stack as it was before.
pub proof fn lemma_compose_runs_left_first(
    st: RuntimeView,
    frames: Seq<FrameView>,
    c1: Continuation,
    c2: Continuation,
)
    ensures
        ({
            let composed = st.applied(
                frames,
                Binary::Compose,
                ValueView::Continuation(c1),
                ValueView::Continuation(c2),
            );
            let first = composed.0.resumed();
            let second = first.0.resumed();
            &&& composed.0.focus == FocusView::Return(ValueView::Unit)
            &&& composed.1 == ActionView::Continue
            &&& first.1 == flow_of(seq![c1])
            &&& second.1 == flow_of(seq![c2])
            &&& second.0.stack == st.stack
        }),
{
    let composed = st.applied(
        frames,
        Binary::Compose,
        ValueView::Continuation(c1),
        ValueView::Continuation(c2),
    );
    assert(composed.0.stack.drop_last() =~= st.stack.push(c2));
    assert(st.stack.push(c2).drop_last() =~= st.stack);
}

/// Composing fails unless both operands are continuations, and then
/// leaves the stack untouched.
pub proof fn lemma_compose_needs_continuations(
    st: RuntimeView,
    frames: Seq<FrameView>,
    l: ValueView,
    r: ValueView,
)
    requires
        !(l is Continuation) || !(r is Continuation),
    ensures
        st.applied(frames, Binary::Compose, l, r) == st.failed(
            EvalError::ComposeNeedsContinuations(l.kind(), r.kind()),
        ),
        st.failed(EvalError::ComposeNeedsContinuations(l.kind(), r.kind())).0.stack == st.stack,
{
}

/// After a break, resuming gives `Unit` and finds the stack empty, however
/// many continuations were on it.
pub proof fn lemma_break_then_resume(st: RuntimeView)
    ensures
        st.broken().resumed().1 == FlowView::Done(ValueView::Unit),
        st.broken().resumed().0.stack == Seq::<Continuation>::empty(),
{
}

/// Resuming takes exactly the top continuation off: what was pushed last
/// runs first.
pub proof fn lemma_resume_is_last_in_first_out(st: RuntimeView, c: Continuation)
    ensures
        (RuntimeView { stack: st.stack.push(c), ..st }).resumed() == (st, flow_of(seq![c])),
        st.continued(ValueView::Continuation(c)) == (st, flow_of(seq![c])),
{
    assert(st.stack.push(c).drop_last() =~= st.stack);
}

/// A failure drops the evaluation under way and nothing else: whatever was
/// pushed on the continuation stack before it stays there.
pub proof fn lemma_failure_keeps_stack(st: RuntimeView, e: EvalError)
    ensures
        st.failed(e).0.stack == st.stack,
        st.failed(e).0.focus == FocusView::Idle,
        st.failed(e).0.frames.len() == 0,
        st.failed(e).1 == ActionView::Finished(Err(e)),
{
}

} // verus!
