//! The evaluation stack. The top of the stack is the last term.

use vstd::prelude::*;
use crate::engine::context::term_models;
use crate::model::TermModel;
use crate::term::VmTerm;

verus! {

/// A stack of terms.
#[derive(Debug)]
pub struct Stack {
    pub items: Vec<VmTerm>,
}

impl View for Stack {
    type V = Seq<TermModel>;

    open spec fn view(&self) -> Seq<TermModel> {
        term_models(self.items@)
    }
}

/// The term at `depth` below the top of `stack`; the top is at depth zero.
pub open spec fn at_depth(stack: Seq<TermModel>, depth: int) -> TermModel {
    stack[stack.len() - 1 - depth]
}

/// The stack without the term at `depth` below the top.
pub open spec fn without_depth(stack: Seq<TermModel>, depth: int) -> Seq<TermModel> {
    stack.remove(stack.len() - 1 - depth)
}

impl Stack {
    /// The empty stack.
    pub fn new() -> (stack: Stack)
        ensures
            stack@ == Seq::<TermModel>::empty(),
    {
        let stack = Stack { items: Vec::new() };
        assert(stack@ =~= Seq::<TermModel>::empty());
        stack
    }

    /// The number of terms on the stack.
    pub fn len(&self) -> (len: usize)
        ensures
            len == self@.len(),
    {
        self.items.len()
    }

    /// Puts `term` on top.
    pub fn push(&mut self, term: VmTerm)
        ensures
            final(self)@ == old(self)@.push(term@),
    {
        self.items.push(term);
        assert(self@ =~= old(self)@.push(term@));
    }

    /// Takes the top term off, where there is one.
    pub fn pop(&mut self) -> (top: Option<VmTerm>)
        ensures
            match top {
                Some(term) => old(self)@.len() > 0 && term@ == old(self)@.last() && final(self)@
                    == old(self)@.drop_last(),
                None => old(self)@.len() == 0 && final(self)@ == old(self)@,
            },
    {
        let top = self.items.pop();
        if top.is_some() {
            assert(self@ =~= old(self)@.drop_last());
        }
        top
    }

    /// A copy of the term at `depth` below the top, where the stack is that deep.
    pub fn copy_at(&self, depth: usize) -> (copy: Option<VmTerm>)
        ensures
            match copy {
                Some(term) => depth < self@.len() && term@ == at_depth(self@, depth as int),
                None => depth >= self@.len(),
            },
    {
        if depth < self.items.len() {
            Some(self.items[self.items.len() - 1 - depth].clone())
        } else {
            None
        }
    }

    /// Takes out the term at `depth` below the top, where the stack is that deep.
    pub fn take_at(&mut self, depth: usize) -> (taken: Option<VmTerm>)
        ensures
            match taken {
                Some(term) => depth < old(self)@.len() && term@ == at_depth(
                    old(self)@,
                    depth as int,
                ) && final(self)@ == without_depth(old(self)@, depth as int),
                None => depth >= old(self)@.len() && final(self)@ == old(self)@,
            },
    {
        if depth < self.items.len() {
            let index = self.items.len() - 1 - depth;
            let term = self.items.remove(index);
            assert(self@ =~= without_depth(old(self)@, depth as int));
            Some(term)
        } else {
            None
        }
    }

    /// Puts `term` in so that it stands at `depth` below the top, where the stack is deep
    /// enough; at depth zero that is a push.
    pub fn put_at(&mut self, depth: usize, term: VmTerm) -> (done: bool)
        ensures
            done == (depth <= old(self)@.len()),
            done ==> final(self)@ == old(self)@.insert(old(self)@.len() - depth, term@),
            !done ==> final(self)@ == old(self)@,
    {
        if depth <= self.items.len() {
            let index = self.items.len() - depth;
            self.items.insert(index, term);
            assert(self@ =~= old(self)@.insert(old(self)@.len() - depth, term@));
            true
        } else {
            false
        }
    }
}

} // verus!
