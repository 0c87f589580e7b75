use vstd::prelude::*;
use crate::env::Env;
use crate::env::rebound;
use crate::request::Answer;
use crate::request::EvalError;
use crate::request::Request;
use crate::value::Continuation;
use crate::value::Value;
use crate::value::ValueView;
use crate::value::OutcomeView;
use crate::value::LookupView;
use crate::value::narrowed;
use crate::value::scan;
use crate::value::scan_after;
use crate::value::value_result;
use crate::value::lemma_scan_outcomes;
use crate::expr::Binary;
use crate::expr::Expr;
use crate::expr::ExprView;
use crate::expr::copied;
use crate::runtime::Action;
use crate::runtime::ActionView;
use crate::runtime::FocusView;
use crate::runtime::FrameView;
use crate::runtime::Runtime;
use crate::runtime::RuntimeView;
use crate::semantics::Bindings;
use crate::semantics::Ending;
use crate::semantics::applied_by;
use crate::semantics::eval;
use crate::semantics::eval_block;
use crate::semantics::eval_for;
use crate::semantics::eval_while;
use crate::semantics::found_by;
use crate::semantics::settled_by;

verus! {

/// A state of the evaluator and of the variable environment, together
/// with the action of the step that led to it.
pub ghost struct Config {
    pub runtime: RuntimeView,
    pub env: Bindings,
    pub action: ActionView,
}

/// The state and action of a step, with the environment beside them.
pub open spec fn config(step: (RuntimeView, ActionView), env: Bindings) -> Config {
    Config { runtime: step.0, env, action: step.1 }
}

/// What the caller hands to the next step: the oracle's answer to the
/// request of the step before, or nothing where nothing was asked.
pub open spec fn reply(action: ActionView, oracle: spec_fn(Request) -> Answer) -> Option<Answer> {
    match action {
        ActionView::Ask(q) => Some(oracle(q)),
        _ => None,
    }
}

/// One step, as `Runtime::step` takes it.
pub open spec fn advance(cfg: Config, oracle: spec_fn(Request) -> Answer) -> Config {
    let answer = reply(cfg.action, oracle);
    config(cfg.runtime.next(answer), rebound(cfg.env, cfg.runtime.binding(answer)))
}

/// The evaluator after at most `n` more steps, every request answered by
/// `oracle`. The caller stops at the first step that reports the end of
/// the evaluation, so nothing changes after that.
pub open spec fn run(cfg: Config, oracle: spec_fn(Request) -> Answer, n: nat) -> Config
    decreases n,
{
    if n == 0 || cfg.action is Finished {
        cfg
    } else {
        run(advance(cfg, oracle), oracle, (n - 1) as nat)
    }
}

/// Where the evaluator stands when the evaluation of an expression has
/// ended: a value is in focus, to be handed to the frames that were there
/// before; an error has dropped all frames and is reported.
pub open spec fn landing(frames: Seq<FrameView>, ending: Ending) -> Config {
    match ending.result {
        Ok(v) => Config {
            runtime: RuntimeView { stack: ending.stack, focus: FocusView::Return(v), frames },
            env: ending.env,
            action: ActionView::Continue,
        },
        Err(e) => Config {
            runtime: RuntimeView {
                stack: ending.stack,
                focus: FocusView::Idle,
                frames: Seq::empty(),
            },
            env: ending.env,
            action: ActionView::Finished(Err(e)),
        },
    }
}

/// Once the end is reported, no further step is taken.
pub proof fn lemma_run_ended(cfg: Config, oracle: spec_fn(Request) -> Answer, n: nat)
    requires
        cfg.action is Finished,
    ensures
        run(cfg, oracle, n) == cfg,
{
}

/// Steps add up.
pub proof fn lemma_run_add(cfg: Config, oracle: spec_fn(Request) -> Answer, n: nat, m: nat)
    ensures
        run(cfg, oracle, n + m) == run(run(cfg, oracle, n), oracle, m),
    decreases n,
{
    if n > 0 && !(cfg.action is Finished) {
        lemma_run_add(advance(cfg, oracle), oracle, (n - 1) as nat, m);
    } else if cfg.action is Finished {
        lemma_run_ended(cfg, oracle, n);
        lemma_run_ended(cfg, oracle, m);
        lemma_run_ended(cfg, oracle, n + m);
    }
}

/// One step, where the end has not been reported.
pub proof fn lemma_run_one(cfg: Config, oracle: spec_fn(Request) -> Answer)
    requires
        !(cfg.action is Finished),
    ensures
        run(cfg, oracle, 1) == advance(cfg, oracle),
{
    assert(run(advance(cfg, oracle), oracle, 0) == advance(cfg, oracle));
}

/// After an operation on values the evaluator needs at most one step, the
/// one that takes the answer, to stand where the operation's value puts it.
pub proof fn lemma_settle_runs(
    st: RuntimeView,
    env: Bindings,
    r: Result<OutcomeView, EvalError>,
    oracle: spec_fn(Request) -> Answer,
) -> (k: nat)
    ensures
        run(config(st.concluded(st.frames, r), env), oracle, k) == landing(
            st.frames,
            Ending { result: settled_by(r, oracle), stack: st.stack, env },
        ),
{
    let cfg = config(st.concluded(st.frames, r), env);
    match r {
        Ok(OutcomeView::Ask(q)) => {
            lemma_run_one(cfg, oracle);
            1
        },
        _ => 0,
    }
}

/// A walk through a map takes one step for every question and ends where
/// the entry found, or the failure to find one, puts the evaluator.
pub proof fn lemma_search_runs(
    st: RuntimeView,
    env: Bindings,
    pairs: Seq<(ValueView, ValueView)>,
    key: ValueView,
    from: int,
    oracle: spec_fn(Request) -> Answer,
) -> (k: nat)
    requires
        0 <= from,
    ensures
        run(
            config(
                st.searched(st.frames, ValueView::Table(pairs), key, scan(pairs, key, from)),
                env,
            ),
            oracle,
            k,
        ) == landing(
            st.frames,
            Ending { result: found_by(pairs, key, from, oracle), stack: st.stack, env },
        ),
    decreases pairs.len() - from,
{
    let table = ValueView::Table(pairs);
    let cfg = config(st.searched(st.frames, table, key, scan(pairs, key, from)), env);
    lemma_scan_outcomes(pairs, key, from);
    match scan(pairs, key, from) {
        Ok(LookupView::Ask(at, q)) => {
            lemma_run_one(cfg, oracle);
            let next = advance(cfg, oracle);
            match oracle(q) {
                Answer::Flag(near) => {
                    if near {
                        1
                    } else {
                        assert(scan_after(pairs, key, at, near) == scan(pairs, key, at + 1));
                        assert(next == config(
                            st.searched(st.frames, table, key, scan(pairs, key, at + 1)),
                            env,
                        ));
                        let rest = lemma_search_runs(st, env, pairs, key, at + 1, oracle);
                        lemma_run_add(cfg, oracle, 1, rest);
                        1 + rest
                    }
                },
                _ => 1,
            }
        },
        _ => 0,
    }
}

/// Applying a binary form to its operands' values takes the evaluator, in
/// as many steps as there are questions to answer, to where the form's
/// value puts it.
pub proof fn lemma_apply_runs(
    st: RuntimeView,
    env: Bindings,
    op: Binary,
    l: ValueView,
    r: ValueView,
    oracle: spec_fn(Request) -> Answer,
) -> (k: nat)
    ensures
        run(config(st.applied(st.frames, op, l, r), env), oracle, k) == landing(
            st.frames,
            Ending {
                result: applied_by(op, l, r, st.stack, oracle).0,
                stack: applied_by(op, l, r, st.stack, oracle).1,
                env,
            },
        ),
{
    match op {
        Binary::Add => lemma_settle_runs(st, env, l.sum(r), oracle),
        Binary::Sub => lemma_settle_runs(st, env, l.difference(r), oracle),
        Binary::Mul => lemma_settle_runs(st, env, l.product(r), oracle),
        Binary::Div => lemma_settle_runs(st, env, l.quotient(r), oracle),
        Binary::Blend => lemma_settle_runs(st, env, l.blended(r), oracle),
        Binary::Get => match l {
            ValueView::Table(pairs) => lemma_search_runs(st, env, pairs, r, 0, oracle),
            _ => 0,
        },
        Binary::Compose => 0,
        Binary::Choice => 0,
    }
}

/// The evaluator walks the tree as `eval` does. From a state with an
/// expression in focus it comes, in the number of steps that the lemma
/// gives, to the state that the expression's evaluation ends in: the
/// value in focus above the frames that were there, or the error reported
/// and the frames dropped; the continuation stack and the variable
/// environment as the evaluation leaves them either way.
pub proof fn lemma_eval_runs(
    st: RuntimeView,
    env: Bindings,
    e: ExprView,
    oracle: spec_fn(Request) -> Answer,
    fuel: nat,
) -> (n: nat)
    requires
        st.focus == FocusView::Eval(e),
        eval(e, st.stack, env, oracle, fuel) is Some,
    ensures
        run(Config { runtime: st, env, action: ActionView::Continue }, oracle, n) == landing(
            st.frames,
            eval(e, st.stack, env, oracle, fuel)->0,
        ),
    decreases fuel, e,
{
    let cfg0 = Config { runtime: st, env, action: ActionView::Continue };
    let cfg1 = config(st.entered(e), env);
    lemma_run_one(cfg0, oracle);
    assert(run(cfg0, oracle, 1) == cfg1);
    match e {
        ExprView::Value(v) => 1,
        ExprView::Binary(op, l, r) => {
            let s1 = cfg1.runtime;
            let n1 = lemma_eval_runs(s1, env, *l, oracle, fuel);
            lemma_run_add(cfg0, oracle, 1, n1);
            let end1 = eval(*l, st.stack, env, oracle, fuel)->0;
            match end1.result {
                Err(_) => 1 + n1,
                Ok(lv) => {
                    let cfg2 = landing(s1.frames, end1);
                    lemma_run_one(cfg2, oracle);
                    lemma_run_add(cfg0, oracle, 1 + n1, 1);
                    let base = RuntimeView {
                        stack: end1.stack,
                        focus: cfg2.runtime.focus,
                        frames: st.frames,
                    };
                    assert(s1.frames.drop_last() =~= st.frames);
                    let cfg3 = advance(cfg2, oracle);
                    assert(cfg3 == config(base.after_left(op, *r, lv), end1.env));
                    if op == Binary::Choice {
                        if lv == ValueView::Unit {
                            let n2 = lemma_eval_runs(cfg3.runtime, end1.env, *r, oracle, fuel);
                            lemma_run_add(cfg0, oracle, 1 + n1 + 1, n2);
                            1 + n1 + 1 + n2
                        } else {
                            1 + n1 + 1
                        }
                    } else {
                        let s3 = cfg3.runtime;
                        let n2 = lemma_eval_runs(s3, end1.env, *r, oracle, fuel);
                        lemma_run_add(cfg0, oracle, 1 + n1 + 1, n2);
                        let end2 = eval(*r, end1.stack, end1.env, oracle, fuel)->0;
                        match end2.result {
                            Err(_) => 1 + n1 + 1 + n2,
                            Ok(rv) => {
                                let cfg4 = landing(s3.frames, end2);
                                lemma_run_one(cfg4, oracle);
                                lemma_run_add(cfg0, oracle, 1 + n1 + 1 + n2, 1);
                                let base2 = RuntimeView {
                                    stack: end2.stack,
                                    focus: cfg4.runtime.focus,
                                    frames: st.frames,
                                };
                                assert(s3.frames.drop_last() =~= st.frames);
                                assert(advance(cfg4, oracle) == config(
                                    base2.applied(st.frames, op, lv, rv),
                                    end2.env,
                                ));
                                let k = lemma_apply_runs(base2, end2.env, op, lv, rv, oracle);
                                lemma_run_add(cfg0, oracle, 1 + n1 + 1 + n2 + 1, k);
                                1 + n1 + 1 + n2 + 1 + k
                            },
                        }
                    }
                },
            }
        },
        ExprView::Scale(inner, factor) => {
            let s1 = cfg1.runtime;
            let n1 = lemma_eval_runs(s1, env, *inner, oracle, fuel);
            lemma_run_add(cfg0, oracle, 1, n1);
            let end1 = eval(*inner, st.stack, env, oracle, fuel)->0;
            match end1.result {
                Err(_) => 1 + n1,
                Ok(v) => {
                    let cfg2 = landing(s1.frames, end1);
                    lemma_run_one(cfg2, oracle);
                    lemma_run_add(cfg0, oracle, 1 + n1, 1);
                    let base = RuntimeView {
                        stack: end1.stack,
                        focus: cfg2.runtime.focus,
                        frames: st.frames,
                    };
                    assert(s1.frames.drop_last() =~= st.frames);
                    assert(advance(cfg2, oracle) == config(
                        base.concluded(st.frames, v.scaled(factor)),
                        end1.env,
                    ));
                    let k = lemma_settle_runs(base, end1.env, v.scaled(factor), oracle);
                    lemma_run_add(cfg0, oracle, 1 + n1 + 1, k);
                    1 + n1 + 1 + k
                },
            }
        },
        ExprView::For(name, source, body) => {
            let s1 = cfg1.runtime;
            let n1 = lemma_eval_runs(s1, env, *source, oracle, fuel);
            lemma_run_add(cfg0, oracle, 1, n1);
            let end1 = eval(*source, st.stack, env, oracle, fuel)->0;
            match end1.result {
                Err(_) => 1 + n1,
                Ok(v) => {
                    let cfg2 = landing(s1.frames, end1);
                    lemma_run_one(cfg2, oracle);
                    lemma_run_add(cfg0, oracle, 1 + n1, 1);
                    let base = RuntimeView {
                        stack: end1.stack,
                        focus: cfg2.runtime.focus,
                        frames: st.frames,
                    };
                    assert(s1.frames.drop_last() =~= st.frames);
                    assert(advance(cfg2, oracle).runtime == base.after_source(name, *body, v).0);
                    match v {
                        ValueView::Array(items) => {
                            let k = lemma_for_runs(
                                base,
                                end1.env,
                                name,
                                items,
                                0,
                                *body,
                                ValueView::Unit,
                                oracle,
                                fuel,
                            );
                            lemma_run_add(cfg0, oracle, 1 + n1 + 1, k);
                            1 + n1 + 1 + k
                        },
                        _ => 1 + n1 + 1,
                    }
                },
            }
        },
        ExprView::While(condition, body) => {
            let k = lemma_while_runs(st, env, *condition, *body, ValueView::Unit, oracle, fuel);
            lemma_run_add(cfg0, oracle, 1, k);
            1 + k
        },
        ExprView::Block(items) => {
            assert(items.subrange(0, items.len() as int) =~= items);
            assert(cfg1 == config(st.after_item(items, ValueView::Unit), env));
            let k = lemma_block_runs(st, env, items, 0, ValueView::Unit, oracle, fuel);
            lemma_run_add(cfg0, oracle, 1, k);
            1 + k
        },
    }
}

/// The environment of an iteration loop that stands before the item at
/// position `next`, once the step that brought it there is taken: the
/// variable is bound to a copy of that item, if there is one.
pub open spec fn bound_for(
    env: Bindings,
    name: Seq<char>,
    items: Seq<ValueView>,
    next: int,
) -> Bindings {
    if 0 <= next < items.len() {
        env.insert(name, narrowed(items[next]))
    } else {
        env
    }
}

/// An iteration loop that stands before the item at position `next` runs
/// as `eval_for` says for the items that are left.
pub proof fn lemma_for_runs(
    st: RuntimeView,
    env: Bindings,
    name: Seq<char>,
    items: Seq<ValueView>,
    next: int,
    body: ExprView,
    last: ValueView,
    oracle: spec_fn(Request) -> Answer,
    fuel: nat,
) -> (k: nat)
    requires
        0 <= next <= items.len(),
        eval_for(name, items, next, body, last, st.stack, env, oracle, fuel) is Some,
    ensures
        run(
            config(
                st.iterated(st.frames, name, items, next, body, last),
                bound_for(env, name, items, next),
            ),
            oracle,
            k,
        ) == landing(
            st.frames,
            eval_for(name, items, next, body, last, st.stack, env, oracle, fuel)->0,
        ),
    decreases fuel, body, items.len() - next,
{
    if next < items.len() {
        let less = (fuel - 1) as nat;
        let env1 = bound_for(env, name, items, next);
        let cfg = config(st.iterated(st.frames, name, items, next, body, last), env1);
        let s1 = cfg.runtime;
        let n1 = lemma_eval_runs(s1, env1, copied(body), oracle, less);
        let end1 = eval(copied(body), st.stack, env1, oracle, less)->0;
        match end1.result {
            Err(_) => n1,
            Ok(v) => {
                let cfg2 = landing(s1.frames, end1);
                lemma_run_one(cfg2, oracle);
                lemma_run_add(cfg, oracle, n1, 1);
                let base = RuntimeView {
                    stack: end1.stack,
                    focus: cfg2.runtime.focus,
                    frames: st.frames,
                };
                assert(s1.frames.drop_last() =~= st.frames);
                assert(advance(cfg2, oracle) == config(
                    base.iterated(st.frames, name, items, next + 1, body, v),
                    bound_for(end1.env, name, items, next + 1),
                ));
                let rest = lemma_for_runs(
                    base,
                    end1.env,
                    name,
                    items,
                    next + 1,
                    body,
                    v,
                    oracle,
                    fuel,
                );
                lemma_run_add(cfg, oracle, n1 + 1, rest);
                n1 + 1 + rest
            },
        }
    } else {
        0
    }
}

/// A conditional loop that stands before a test of its condition runs as
/// `eval_while` says.
pub proof fn lemma_while_runs(
    st: RuntimeView,
    env: Bindings,
    condition: ExprView,
    body: ExprView,
    last: ValueView,
    oracle: spec_fn(Request) -> Answer,
    fuel: nat,
) -> (k: nat)
    requires
        eval_while(condition, body, last, st.stack, env, oracle, fuel) is Some,
    ensures
        run(
            config(
                st.evaluating(
                    st.frames.push(FrameView::WhileTest(condition, body, last)),
                    copied(condition),
                ),
                env,
            ),
            oracle,
            k,
        ) == landing(
            st.frames,
            eval_while(condition, body, last, st.stack, env, oracle, fuel)->0,
        ),
    decreases fuel, condition,
{
    let less = (fuel - 1) as nat;
    let cfg = config(
        st.evaluating(
            st.frames.push(FrameView::WhileTest(condition, body, last)),
            copied(condition),
        ),
        env,
    );
    let s1 = cfg.runtime;
    let n1 = lemma_eval_runs(s1, env, copied(condition), oracle, less);
    let end1 = eval(copied(condition), st.stack, env, oracle, less)->0;
    match end1.result {
        Err(_) => n1,
        Ok(c) => {
            let cfg2 = landing(s1.frames, end1);
            lemma_run_one(cfg2, oracle);
            lemma_run_add(cfg, oracle, n1, 1);
            let base = RuntimeView {
                stack: end1.stack,
                focus: cfg2.runtime.focus,
                frames: st.frames,
            };
            assert(s1.frames.drop_last() =~= st.frames);
            let cfg3 = advance(cfg2, oracle);
            assert(cfg3 == config(base.after_test(condition, body, last, c), end1.env));
            if c.truthy() {
                let s3 = cfg3.runtime;
                let n2 = lemma_eval_runs(s3, end1.env, copied(body), oracle, less);
                lemma_run_add(cfg, oracle, n1 + 1, n2);
                let end2 = eval(copied(body), end1.stack, end1.env, oracle, less)->0;
                match end2.result {
                    Err(_) => n1 + 1 + n2,
                    Ok(v) => {
                        let cfg4 = landing(s3.frames, end2);
                        lemma_run_one(cfg4, oracle);
                        lemma_run_add(cfg, oracle, n1 + 1 + n2, 1);
                        let base2 = RuntimeView {
                            stack: end2.stack,
                            focus: cfg4.runtime.focus,
                            frames: st.frames,
                        };
                        assert(s3.frames.drop_last() =~= st.frames);
                        assert(advance(cfg4, oracle) == config(
                            base2.after_body(condition, body, v),
                            end2.env,
                        ));
                        let rest = lemma_while_runs(
                            base2,
                            end2.env,
                            condition,
                            body,
                            v,
                            oracle,
                            less,
                        );
                        lemma_run_add(cfg, oracle, n1 + 1 + n2 + 1, rest);
                        n1 + 1 + n2 + 1 + rest
                    },
                }
            } else {
                n1 + 1
            }
        },
    }
}

/// A block that stands before its expression at position `from` runs as
/// `eval_block` says.
pub proof fn lemma_block_runs(
    st: RuntimeView,
    env: Bindings,
    items: Seq<ExprView>,
    from: int,
    last: ValueView,
    oracle: spec_fn(Request) -> Answer,
    fuel: nat,
) -> (k: nat)
    requires
        0 <= from <= items.len(),
        eval_block(items, from, last, st.stack, env, oracle, fuel) is Some,
    ensures
        run(
            config(st.after_item(items.subrange(from, items.len() as int), last), env),
            oracle,
            k,
        ) == landing(st.frames, eval_block(items, from, last, st.stack, env, oracle, fuel)->0),
    decreases fuel, items, items.len() - from,
{
    let remaining = items.subrange(from, items.len() as int);
    if from < items.len() {
        let cfg = config(st.after_item(remaining, last), env);
        let s1 = cfg.runtime;
        assert(remaining[0] == items[from]);
        let n1 = lemma_eval_runs(s1, env, items[from], oracle, fuel);
        let end1 = eval(items[from], st.stack, env, oracle, fuel)->0;
        match end1.result {
            Err(_) => n1,
            Ok(v) => {
                let cfg2 = landing(s1.frames, end1);
                lemma_run_one(cfg2, oracle);
                lemma_run_add(cfg, oracle, n1, 1);
                let base = RuntimeView {
                    stack: end1.stack,
                    focus: cfg2.runtime.focus,
                    frames: st.frames,
                };
                assert(s1.frames.drop_last() =~= st.frames);
                assert(remaining.remove(0) =~= items.subrange(from + 1, items.len() as int));
                assert(advance(cfg2, oracle) == config(
                    base.after_item(items.subrange(from + 1, items.len() as int), v),
                    end1.env,
                ));
                let rest = lemma_block_runs(base, end1.env, items, from + 1, v, oracle, fuel);
                lemma_run_add(cfg, oracle, n1 + 1, rest);
                n1 + 1 + rest
            },
        }
    } else {
        0
    }
}

/// What the caller of the evaluator gets. An expression is loaded into a
/// runtime whose continuation stack is `stack`, and steps are taken, each
/// request answered by `oracle`, until one reports the end. If the
/// expression's evaluation ends at all, then that step, the `n`-th, reports
/// what `eval` gives, and leaves the runtime idle, with the continuation
/// stack and the variable environment as the evaluation left them.
pub proof fn lemma_evaluation(
    stack: Seq<Continuation>,
    env: Bindings,
    e: ExprView,
    oracle: spec_fn(Request) -> Answer,
    fuel: nat,
) -> (n: nat)
    requires
        eval(e, stack, env, oracle, fuel) is Some,
    ensures
        n > 0,
        run(
            Config {
                runtime: RuntimeView { stack, focus: FocusView::Eval(e), frames: Seq::empty() },
                env,
                action: ActionView::Continue,
            },
            oracle,
            n,
        ) == (Config {
            runtime: RuntimeView {
                stack: (eval(e, stack, env, oracle, fuel)->0).stack,
                focus: FocusView::Idle,
                frames: Seq::empty(),
            },
            env: (eval(e, stack, env, oracle, fuel)->0).env,
            action: ActionView::Finished((eval(e, stack, env, oracle, fuel)->0).result),
        }),
{
    let st = RuntimeView { stack, focus: FocusView::Eval(e), frames: Seq::empty() };
    let cfg0 = Config { runtime: st, env, action: ActionView::Continue };
    let n0 = lemma_eval_runs(st, env, e, oracle, fuel);
    let ending = eval(e, stack, env, oracle, fuel)->0;
    assert(n0 > 0) by {
        if n0 == 0 {
            assert(run(cfg0, oracle, 0) == cfg0);
        }
    }
    match ending.result {
        Ok(v) => {
            let cfg1 = landing(st.frames, ending);
            lemma_run_one(cfg1, oracle);
            lemma_run_add(cfg0, oracle, n0, 1);
            n0 + 1
        },
        Err(_) => n0,
    }
}

/// Where an evaluation starts: the expression in focus, no frames.
pub open spec fn start(stack: Seq<Continuation>, env: Bindings, e: ExprView) -> Config {
    Config {
        runtime: RuntimeView { stack, focus: FocusView::Eval(e), frames: Seq::empty() },
        env,
        action: ActionView::Continue,
    }
}

/// Whether `oracle` gives to every request the one answer that the
/// answering function can give.
pub open spec fn agrees<F: Fn(Request) -> Answer>(
    answer: &F,
    oracle: spec_fn(Request) -> Answer,
) -> bool {
    forall|q: Request, a: Answer| #[trigger] answer.ensures((q,), a) ==> a == oracle(q)
}

/// Steps that follow the report of the end change nothing: a run that has
/// ended within `n` steps stands there under every larger bound.
pub proof fn lemma_enough_steps(cfg: Config, oracle: spec_fn(Request) -> Answer, n: nat, limit: nat)
    requires
        run(cfg, oracle, n).action is Finished,
        n <= limit,
    ensures
        run(cfg, oracle, limit) == run(cfg, oracle, n),
{
    lemma_run_add(cfg, oracle, n, (limit - n) as nat);
    lemma_run_ended(run(cfg, oracle, n), oracle, (limit - n) as nat);
}

impl Runtime {
    /// Evaluates an expression: loads it and takes steps, `answer` doing
    /// the floating-point work of every request, until a step reports the
    /// end or `limit` steps are taken. The result is what the last step
    /// reported, and `None` where the limit came first; the evaluation is
    /// then left as it stands.
    pub fn evaluate<F: Fn(Request) -> Answer>(
        &mut self,
        env: &mut Env,
        expr: Expr,
        answer: &F,
        limit: usize,
    ) -> (r: Option<Result<Value, EvalError>>)
        requires
            forall|q: Request| answer.requires((q,)),
        ensures
            forall|oracle: spec_fn(Request) -> Answer| #[trigger]
                agrees(answer, oracle) ==> ({
                    let end = run(start(old(self)@.stack, old(env)@, expr@), oracle, limit as nat);
                    &&& final(self)@ == end.runtime
                    &&& final(env)@ == end.env
                    &&& match r {
                        Some(x) => end.action == ActionView::Finished(value_result(x)),
                        None => !(end.action is Finished),
                    }
                }),
    {
        let ghost cfg0 = start(self@.stack, env@, expr@);
        self.load(expr);
        let mut pending: Option<Answer> = None;
        let mut taken: usize = 0;
        let ghost mut last = ActionView::Continue;
        while taken < limit
            invariant
                taken <= limit,
                cfg0 == start(old(self)@.stack, old(env)@, expr@),
                forall|q: Request| answer.requires((q,)),
                !(last is Finished),
                forall|oracle: spec_fn(Request) -> Answer| #[trigger]
                    agrees(answer, oracle) ==> run(cfg0, oracle, taken as nat) == (Config {
                        runtime: self@,
                        env: env@,
                        action: last,
                    }) && pending == reply(last, oracle),
            decreases limit - taken,
        {
            let ghost before = Config { runtime: self@, env: env@, action: last };
            let action = self.step(env, pending);
            proof {
                assert forall|oracle: spec_fn(Request) -> Answer| #[trigger]
                    agrees(answer, oracle) implies run(cfg0, oracle, (taken + 1) as nat) == (Config {
                    runtime: self@,
                    env: env@,
                    action: action@,
                }) by {
                    lemma_run_add(cfg0, oracle, taken as nat, 1);
                    lemma_run_one(before, oracle);
                }
                last = action@;
            }
            taken += 1;
            match action {
                Action::Continue => {
                    pending = None;
                },
                Action::Ask(q) => {
                    let a = answer(q);
                    pending = Some(a);
                },
                Action::Finished(r) => {
                    proof {
                        let ended = Config {
                            runtime: self@,
                            env: env@,
                            action: ActionView::Finished(value_result(r)),
                        };
                        assert(last == ended.action);
                        assert forall|oracle: spec_fn(Request) -> Answer| #[trigger]
                            agrees(answer, oracle) implies run(cfg0, oracle, limit as nat)
                            == ended by {
                            assert(run(cfg0, oracle, taken as nat) == ended);
                            lemma_enough_steps(cfg0, oracle, taken as nat, limit as nat);
                        }
                    }
                    return Some(r);
                },
            }
        }
        None
    }
}

/// An evaluation that `eval` brings to an end is one that `evaluate`
/// brings to the same end, given steps enough: there is a number of steps
/// from which on the run stands at the report of what `eval` gives.
pub proof fn lemma_evaluate_gives_eval(
    stack: Seq<Continuation>,
    env: Bindings,
    e: ExprView,
    oracle: spec_fn(Request) -> Answer,
    fuel: nat,
    limit: nat,
) -> (n: nat)
    requires
        eval(e, stack, env, oracle, fuel) is Some,
    ensures
        n <= limit ==> run(start(stack, env, e), oracle, limit).action == ActionView::Finished(
            (eval(e, stack, env, oracle, fuel)->0).result,
        ),
        n <= limit ==> run(start(stack, env, e), oracle, limit).runtime.stack == (eval(
            e,
            stack,
            env,
            oracle,
            fuel,
        )->0).stack,
        n <= limit ==> run(start(stack, env, e), oracle, limit).env == (eval(
            e,
            stack,
            env,
            oracle,
            fuel,
        )->0).env,
{
    let n = lemma_evaluation(stack, env, e, oracle, fuel);
    if n <= limit {
        lemma_enough_steps(start(stack, env, e), oracle, n, limit);
    }
    n
}

} // verus!
