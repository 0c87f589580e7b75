use vstd::prelude::*;
use crate::env::Env;
use crate::request::Answer;
use crate::request::EvalError;
use crate::request::Kind;
use crate::request::Request;
use crate::env::rebound;
use crate::value::Outcome;
use crate::value::OutcomeView;
use crate::value::Value;
use crate::value::ValueView;
use crate::value::narrowed;
use crate::value::settled;
use crate::value::views;

verus! {

/// What a word of a line in postfix notation is.
#[derive(Clone, Copy, Debug, PartialEq, Eq, Structural)]
pub enum Token {
    /// `+`
    Plus,
    /// `-`
    Minus,
    /// `*`
    Times,
    /// `/`
    Slash,
    /// `=`: binds the value below the top to the name on top.
    Assign,
    /// `-->`: prints the items of the array on top.
    Print,
    /// Anything else: a variable's name or a literal.
    Word,
}

/// Why a line in postfix notation failed.
#[derive(Clone, Copy, Debug, PartialEq, Eq, Structural)]
pub enum PostfixError {
    /// The operator found fewer than two operands.
    NotEnoughOperands(Token),
    /// A value was to be bound to something that is not a string.
    NameNotString(Kind),
    /// Nothing was there to print.
    NothingToPrint,
    /// The line ended with this many values, more than one.
    Remaining(usize),
    /// The operation on the two operands failed.
    Operation(EvalError),
}

/// What the caller is to do after a word.
#[derive(Debug)]
pub enum Fed {
    /// Go on to the next word.
    Next,
    /// Do the floating-point work and supply its answer.
    Ask(Request),
    /// Print these items, then go on.
    Print(Vec<Value>),
    /// The word names no variable: read it as a literal and push that.
    Literal,
}

pub ghost enum FedView {
    Next,
    Ask(Request),
    Print(Seq<ValueView>),
    Literal,
}

impl View for Fed {
    type V = FedView;

    open spec fn view(&self) -> FedView {
        match self {
            Fed::Next => FedView::Next,
            Fed::Ask(q) => FedView::Ask(*q),
            Fed::Print(items) => FedView::Print(views(items@)),
            Fed::Literal => FedView::Literal,
        }
    }
}

/// The operand stack of a line in postfix notation.
#[derive(Debug)]
pub struct Postfix {
    pub stack: Vec<Value>,
}

impl View for Postfix {
    type V = Seq<ValueView>;

    /// The operands, bottom first.
    open spec fn view(&self) -> Seq<ValueView> {
        views(self.stack@)
    }
}

pub open spec fn token_of(text: Seq<char>) -> Token {
    if text == seq!['+'] {
        Token::Plus
    } else if text == seq!['-'] {
        Token::Minus
    } else if text == seq!['*'] {
        Token::Times
    } else if text == seq!['/'] {
        Token::Slash
    } else if text == seq!['='] {
        Token::Assign
    } else if text == seq!['-', '-', '>'] {
        Token::Print
    } else {
        Token::Word
    }
}

/// What an arithmetic operator does to its two operands.
pub open spec fn combined(token: Token, a: ValueView, b: ValueView) -> Result<OutcomeView, EvalError> {
    match token {
        Token::Plus => a.sum(b),
        Token::Minus => a.difference(b),
        Token::Times => a.product(b),
        _ => a.quotient(b),
    }
}

/// What a word does to the operand stack, and what the caller is to do.
/// `variable` is what the word, taken as a name, is bound to.
pub open spec fn fed(stack: Seq<ValueView>, token: Token, variable: Option<ValueView>) -> (
    Seq<ValueView>,
    Result<FedView, PostfixError>,
) {
    match token {
        Token::Word => match variable {
            Some(v) => (stack.push(narrowed(v)), Ok(FedView::Next)),
            None => (stack, Ok(FedView::Literal)),
        },
        Token::Print => if stack.len() == 0 {
            (stack, Err(PostfixError::NothingToPrint))
        } else {
            match stack.last() {
                ValueView::Array(items) => (
                    stack.drop_last().push(ValueView::Unit),
                    Ok(FedView::Print(items)),
                ),
                _ => (stack, Ok(FedView::Next)),
            }
        },
        _ => if stack.len() < 2 {
            (stack, Err(PostfixError::NotEnoughOperands(token)))
        } else {
            let below = stack[stack.len() - 2];
            let top = stack.last();
            let rest = stack.drop_last().drop_last();
            if token == Token::Assign {
                match top {
                    ValueView::Str(_) => (rest.push(below), Ok(FedView::Next)),
                    _ => (rest, Err(PostfixError::NameNotString(top.kind()))),
                }
            } else {
                match combined(token, below, top) {
                    Ok(OutcomeView::Done(v)) => (rest.push(v), Ok(FedView::Next)),
                    Ok(OutcomeView::Ask(q)) => (rest, Ok(FedView::Ask(q))),
                    Err(e) => (rest, Err(PostfixError::Operation(e))),
                }
            }
        },
    }
}

/// The binding that a word makes: `=` binds the name on top of the stack to
/// a copy of the value below it.
pub open spec fn assigned(stack: Seq<ValueView>, token: Token) -> Option<(Seq<char>, ValueView)> {
    if token == Token::Assign && stack.len() >= 2 {
        match stack.last() {
            ValueView::Str(name) => Some((name, narrowed(stack[stack.len() - 2]))),
            _ => None,
        }
    } else {
        None
    }
}

/// The value of a line: the one value left, or `Unit` where none is left.
pub open spec fn finished(stack: Seq<ValueView>) -> Result<ValueView, PostfixError> {
    if stack.len() == 1 {
        Ok(stack[0])
    } else if stack.len() == 0 {
        Ok(ValueView::Unit)
    } else {
        Err(PostfixError::Remaining(stack.len() as usize))
    }
}

/// Tells the operators from the other words.
pub fn classify(text: &String) -> (token: Token)
    ensures
        token == token_of(text@),
{
    proof {
        reveal_strlit("+");
        reveal_strlit("-");
        reveal_strlit("*");
        reveal_strlit("/");
        reveal_strlit("=");
        reveal_strlit("-->");
    }
    let plus: bool = *text == "+".to_owned();
    let minus: bool = *text == "-".to_owned();
    let times: bool = *text == "*".to_owned();
    let slash: bool = *text == "/".to_owned();
    let assign: bool = *text == "=".to_owned();
    let print: bool = *text == "-->".to_owned();
    assert("+"@ =~= seq!['+']);
    assert("-"@ =~= seq!['-']);
    assert("*"@ =~= seq!['*']);
    assert("/"@ =~= seq!['/']);
    assert("="@ =~= seq!['=']);
    assert("-->"@ =~= seq!['-', '-', '>']);
    if plus {
        Token::Plus
    } else if minus {
        Token::Minus
    } else if times {
        Token::Times
    } else if slash {
        Token::Slash
    } else if assign {
        Token::Assign
    } else if print {
        Token::Print
    } else {
        Token::Word
    }
}

impl Postfix {
    pub fn new() -> (p: Postfix)
        ensures
            p@ == Seq::<ValueView>::empty(),
    {
        let p = Postfix { stack: Vec::new() };
        assert(views(p.stack@) =~= Seq::<ValueView>::empty());
        p
    }

    /// Pushes an operand: a literal that the caller has read.
    pub fn push(&mut self, value: Value)
        ensures
            final(self)@ == old(self)@.push(value@),
    {
        self.stack.push(value);
        assert(views(self.stack@) =~= views(old(self).stack@).push(value@));
    }

    fn pop(&mut self) -> (top: Value)
        requires
            old(self)@.len() > 0,
        ensures
            top@ == old(self)@.last(),
            final(self)@ == old(self)@.drop_last(),
    {
        let top = self.stack.pop().unwrap();
        assert(views(self.stack@) =~= views(old(self).stack@).drop_last());
        top
    }

    fn combine(token: Token, a: &Value, b: &Value) -> (r: Result<Outcome, EvalError>)
        ensures
            crate::value::outcome_result(r) == combined(token, a@, b@),
    {
        match token {
            Token::Plus => a.add(b),
            Token::Minus => a.sub(b),
            Token::Times => a.mul(b),
            _ => a.div(b),
        }
    }

    /// Takes the next word of the line.
    pub fn feed(&mut self, env: &mut Env, text: &String) -> (r: Result<Fed, PostfixError>)
        ensures
            final(self)@ == fed(old(self)@, token_of(text@), old(env)@.get(text@)).0,
            (match r {
                Ok(f) => Ok(f@),
                Err(e) => Err(e),
            }) == fed(old(self)@, token_of(text@), old(env)@.get(text@)).1,
            final(env)@ == rebound(old(env)@, assigned(old(self)@, token_of(text@))),
    {
        let token = classify(text);
        match token {
            Token::Word => match env.get(text) {
                Some(v) => {
                    self.push(v);
                    Ok(Fed::Next)
                },
                None => Ok(Fed::Literal),
            },
            Token::Print => {
                if self.stack.len() == 0 {
                    return Err(PostfixError::NothingToPrint);
                }
                let top = self.pop();
                match top {
                    Value::Array(items) => {
                        self.push(Value::Unit);
                        Ok(Fed::Print(items))
                    },
                    other => {
                        self.push(other);
                        assert(self@ =~= old(self)@);
                        Ok(Fed::Next)
                    },
                }
            },
            _ => {
                if self.stack.len() < 2 {
                    return Err(PostfixError::NotEnoughOperands(token));
                }
                let top = self.pop();
                let below = self.pop();
                match token {
                    Token::Assign => match top {
                        Value::Str(name) => {
                            env.set(name, below.duplicate());
                            self.push(below);
                            Ok(Fed::Next)
                        },
                        other => Err(PostfixError::NameNotString(other.kind())),
                    },
                    _ => match Postfix::combine(token, &below, &top) {
                        Ok(Outcome::Done(v)) => {
                            self.push(v);
                            Ok(Fed::Next)
                        },
                        Ok(Outcome::Ask(q)) => Ok(Fed::Ask(q)),
                        Err(e) => Err(PostfixError::Operation(e)),
                    },
                }
            },
        }
    }

    /// Pushes the value that an answered request stands for.
    pub fn supply(&mut self, request: Request, answer: Answer) -> (r: Result<(), PostfixError>)
        ensures
            match settled(request, answer) {
                Ok(v) => r.is_ok() && final(self)@ == old(self)@.push(v),
                Err(e) => r == Err::<(), PostfixError>(PostfixError::Operation(e)) && final(self)@
                    == old(self)@,
            },
    {
        match request.settle(answer) {
            Ok(v) => {
                self.push(v);
                Ok(())
            },
            Err(e) => Err(PostfixError::Operation(e)),
        }
    }

    /// Ends the line.
    pub fn finish(self) -> (r: Result<Value, PostfixError>)
        ensures
            (match r {
                Ok(v) => Ok(v@),
                Err(e) => Err(e),
            }) == finished(self@),
    {
        let mut stack = self.stack;
        if stack.len() == 1 {
            Ok(stack.pop().unwrap())
        } else if stack.len() == 0 {
            Ok(Value::Unit)
        } else {
            Err(PostfixError::Remaining(stack.len()))
        }
    }
}

/// An arithmetic operator takes two operands off the stack and puts at
/// most one value back; a line that ends with one value has that value.
pub proof fn lemma_operator_shrinks_stack(stack: Seq<ValueView>, token: Token)
    requires
        token == Token::Plus || token == Token::Minus || token == Token::Times || token
            == Token::Slash,
        stack.len() >= 2,
    ensures
        fed(stack, token, None).0.len() == stack.len() - 2 || fed(stack, token, None).0.len()
            == stack.len() - 1,
        fed(stack, token, None).1 is Ok && fed(stack, token, None).1 != Ok::<
            FedView,
            PostfixError,
        >(FedView::Next) ==> fed(stack, token, None).0.len() == stack.len() - 2,
{
}

} // verus!
