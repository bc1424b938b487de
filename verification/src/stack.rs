//! The calculator's virtual stack.
//!
//! This module provides the data structure for the calculator's
//! emulated operand stack: a LIFO sequence of values, viewed
//! bottom-first in insertion order.

use crate::value::Value;
use vstd::prelude::*;

verus! {

/// Represents the virtual stack.
///
/// This is a LIFO stack; its view is the sequence of its elements,
/// oldest (deepest) first.
#[derive(Debug)]
pub struct Stack {
    elements: Vec<Value>,
}

impl View for Stack {
    type V = Seq<Value>;

    closed spec fn view(&self) -> Seq<Value> {
        self.elements@
    }
}

impl Stack {
    /// Create a new, empty `Stack`.
    pub fn new() -> (r: Stack)
        ensures
            r@ == Seq::<Value>::empty(),
    {
        Stack { elements: Vec::new() }
    }

    /// Return the current height of the stack, or how many elements
    /// it has.
    pub fn height(&self) -> (r: usize)
        ensures
            r == self@.len(),
    {
        self.elements.len()
    }

    /// Return the element `n` places from the top of the stack
    /// (`n = 0` is the top itself).
    pub fn peek_n(&self, n: usize) -> (r: &Value)
        requires
            n < self@.len(),
        ensures
            *r == self@[self@.len() - n - 1],
    {
        let len = self.elements.len();
        &self.elements[len - n - 1]
    }

    /// Return a read-only view of the top `n + 1` elements, the
    /// deepest of them first.
    pub fn slice_n(&self, n: usize) -> (r: &[Value])
        requires
            n < self@.len(),
        ensures
            r@ == self@.subrange(self@.len() - n - 1, self@.len() as int),
    {
        let len = self.elements.len();
        &self.elements.as_slice()[(len - n - 1)..len]
    }

    /// Remove and drop the top `n` elements.
    pub fn chop_n(&mut self, n: usize)
        requires
            n <= old(self)@.len(),
        ensures
            final(self)@ == old(self)@.subrange(0, old(self)@.len() - n),
    {
        let len = self.elements.len();
        self.elements.truncate(len - n);
    }

    /// Reset the stack to completely empty, dropping all values.
    pub fn clear(&mut self)
        ensures
            final(self)@ == Seq::<Value>::empty(),
    {
        self.elements.clear();
    }

    /// Push a `Value` onto the stack, making it the top element.
    pub fn push(&mut self, val: Value)
        ensures
            final(self)@ == old(self)@.push(val),
    {
        self.elements.push(val);
    }

    /// Push the series of values onto the stack, making them the
    /// highest elements.
    ///
    /// The last element of the provided collection becomes the very
    /// top of the stack.
    pub fn extend(&mut self, values: Vec<Value>)
        ensures
            final(self)@ == old(self)@ + values@,
    {
        let mut rest = values;
        self.elements.append(&mut rest);
    }

    /// Tries to pop a `Value` off the stack and return it.
    ///
    /// Returns `None` exactly when the stack is empty.
    pub fn pop(&mut self) -> (r: Option<Value>)
        ensures
            old(self)@.len() > 0 ==> r == Some(old(self)@.last())
                && final(self)@ == old(self)@.drop_last(),
            old(self)@.len() == 0 ==> r is None && final(self)@ == old(self)@,
    {
        self.elements.pop()
    }

    /// Return a snapshot of the items in the stack, *oldest* first.
    pub fn iter(&self) -> (r: Vec<Value>)
        ensures
            r@ == self@,
    {
        let mut snapshot: Vec<Value> = Vec::new();
        let mut i: usize = 0;
        while i < self.elements.len()
            invariant
                i <= self@.len(),
                snapshot@ == self@.subrange(0, i as int),
            decreases self@.len() - i,
        {
            snapshot.push(self.elements[i]);
            assert(snapshot@ =~= self@.subrange(0, i + 1));
            i = i + 1;
        }
        assert(snapshot@ =~= self@);
        snapshot
    }
}

impl Default for Stack {
    /// An empty stack.
    fn default() -> (r: Stack)
        ensures
            r@ == Seq::<Value>::empty(),
    {
        Stack::new()
    }
}

} // verus!
