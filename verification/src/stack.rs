use vstd::prelude::*;
use crate::value::Continuation;

verus! {

/// Suspended computations, last in, first out.
#[derive(Debug)]
pub struct ContinuationStack {
    pub stack: Vec<Continuation>,
}

impl View for ContinuationStack {
    type V = Seq<Continuation>;

    /// The continuations from the bottom of the stack to its top.
    open spec fn view(&self) -> Seq<Continuation> {
        self.stack@
    }
}

impl ContinuationStack {
    pub fn new() -> (s: ContinuationStack)
        ensures
            s@ == Seq::<Continuation>::empty(),
    {
        ContinuationStack { stack: Vec::new() }
    }

    pub fn push(&mut self, cont: Continuation)
        ensures
            final(self)@ == old(self)@.push(cont),
    {
        self.stack.push(cont);
    }

    pub fn pop(&mut self) -> (top: Option<Continuation>)
        ensures
            old(self)@.len() == 0 ==> top.is_none() && final(self)@ == old(self)@,
            old(self)@.len() > 0 ==> top == Some(old(self)@.last()) && final(self)@ == old(
                self,
            )@.drop_last(),
    {
        self.stack.pop()
    }

    pub fn clear(&mut self)
        ensures
            final(self)@ == Seq::<Continuation>::empty(),
    {
        self.stack.clear();
    }

    pub fn is_empty(&self) -> (r: bool)
        ensures
            r == (self@.len() == 0),
    {
        self.stack.len() == 0
    }

    pub fn len(&self) -> (n: usize)
        ensures
            n == self@.len(),
    {
        self.stack.len()
    }
}

} // verus!
