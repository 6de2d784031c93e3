use crate::errors::{BorthError, BorthResult};
use vstd::layout::layout_of_primitives;
use vstd::prelude::*;

verus! {

/// Each stack item takes 2 bytes.
pub type BorthItem = i16;

/// Abstract state of a stack: its items, oldest first, and its capacity.
pub struct StackView {
    pub items: Seq<BorthItem>,
    pub capacity: nat,
}

impl StackView {
    pub open spec fn wf(self) -> bool {
        self.items.len() <= self.capacity
    }

    /// State after pushing `x`, or `None` when the stack is full.
    pub open spec fn push(self, x: BorthItem) -> Option<StackView> {
        if self.items.len() >= self.capacity {
            None
        } else {
            Some(StackView { items: self.items.push(x), capacity: self.capacity })
        }
    }

    /// State after popping and the popped item, or `None` when empty.
    pub open spec fn pop(self) -> Option<(StackView, BorthItem)> {
        if self.items.len() == 0 {
            None
        } else {
            Some((StackView { items: self.items.drop_last(), capacity: self.capacity }, self.items.last()))
        }
    }

    /// Pushes every item of `xs` in order; `None` if one of them overflows.
    pub open spec fn push_all(self, xs: Seq<BorthItem>) -> Option<StackView>
        decreases xs.len(),
    {
        if xs.len() == 0 {
            Some(self)
        } else {
            match self.push_all(xs.drop_last()) {
                Some(s) => s.push(xs.last()),
                None => None,
            }
        }
    }

    /// Pops `n` items; the popped items in the order they came out.
    pub open spec fn pop_n(self, n: nat) -> Option<(StackView, Seq<BorthItem>)>
        decreases n,
    {
        if n == 0 {
            Some((self, Seq::empty()))
        } else {
            match self.pop() {
                Some((s, x)) => match s.pop_n((n - 1) as nat) {
                    Some((t, ys)) => Some((t, seq![x] + ys)),
                    None => None,
                },
                None => None,
            }
        }
    }
}

/// Pushing items while there is room, then popping as many, gives them back
/// in reverse order and leaves the stack as it was.
pub proof fn lemma_lifo(s: StackView, xs: Seq<BorthItem>)
    requires
        s.items.len() + xs.len() <= s.capacity,
    ensures
        s.push_all(xs) is Some,
        s.push_all(xs).unwrap().pop_n(xs.len()) == Some((s, xs.reverse())),
    decreases xs.len(),
{
    if xs.len() > 0 {
        let init = xs.drop_last();
        lemma_lifo(s, init);
        lemma_push_all_items(s, init);
        let t = s.push_all(init).unwrap();
        let u = t.push(xs.last()).unwrap();
        assert(u.items.drop_last() =~= t.items);
        assert(xs.reverse() =~= seq![xs.last()] + init.reverse());
    }
}

proof fn lemma_push_all_items(s: StackView, xs: Seq<BorthItem>)
    requires
        s.items.len() + xs.len() <= s.capacity,
    ensures
        s.push_all(xs) == Some(StackView { items: s.items + xs, capacity: s.capacity }),
    decreases xs.len(),
{
    if xs.len() > 0 {
        lemma_push_all_items(s, xs.drop_last());
        assert(s.items + xs == (s.items + xs.drop_last()).push(xs.last()));
    }
}

/// A last-in-first-out stack of items with a fixed capacity.
#[derive(Debug)]
pub struct BorthStack {
    capacity: usize,
    items: Vec<BorthItem>,
}

impl View for BorthStack {
    type V = StackView;

    closed spec fn view(&self) -> StackView {
        StackView { items: self.items@, capacity: self.capacity as nat }
    }
}

impl BorthStack {
    /// An empty stack whose capacity is the number of items that fit in
    /// `size` bytes.
    pub fn with_size(size: usize) -> (r: Self)
        ensures
            r@.items == Seq::<BorthItem>::empty(),
            r@.capacity == size / 2,
            r@.wf(),
    {
        proof {
            broadcast use layout_of_primitives;
        }
        let capacity = size / core::mem::size_of::<BorthItem>();
        BorthStack { capacity, items: Vec::new() }
    }

    /// Removes and returns the last item, or fails with `StackUnderflow`
    /// when the stack is empty.
    pub fn pop(&mut self) -> (r: BorthResult<BorthItem>)
        requires
            old(self)@.wf(),
        ensures
            final(self)@.wf(),
            match old(self)@.pop() {
                Some((s, x)) => r == Ok::<BorthItem, BorthError>(x) && final(self)@ == s,
                None => r == Err::<BorthItem, BorthError>(BorthError::StackUnderflow)
                    && final(self)@ == old(self)@,
            },
    {
        match self.items.pop() {
            Some(x) => Ok(x),
            None => Err(BorthError::StackUnderflow),
        }
    }

    /// Adds `value` on top, or fails with `StackOverflow` and leaves the
    /// stack untouched when it is full.
    pub fn push(&mut self, value: BorthItem) -> (r: BorthResult<()>)
        requires
            old(self)@.wf(),
        ensures
            final(self)@.wf(),
            match old(self)@.push(value) {
                Some(s) => r == Ok::<(), BorthError>(()) && final(self)@ == s,
                None => r == Err::<(), BorthError>(BorthError::StackOverflow)
                    && final(self)@ == old(self)@,
            },
    {
        if self.items.len() >= self.capacity {
            return Err(BorthError::StackOverflow);
        }
        self.items.push(value);
        Ok(())
    }

    /// The items, oldest first.
    pub fn items(&self) -> (r: &[BorthItem])
        ensures
            r@ == self@.items,
    {
        self.items.as_slice()
    }
}

} // verus!
