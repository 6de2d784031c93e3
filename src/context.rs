use crate::errors::{BorthError, BorthResult};
use crate::stack::{BorthItem, BorthStack, StackView};
use crate::text::{chars_of, is_space, is_whitespace, push_char};
use vstd::prelude::*;

verus! {

/// Abstract state of an evaluation: the operand stack and the output text.
pub struct ContextView {
    pub stack: StackView,
    pub output: Seq<char>,
}

/// Output after printing `text`: a space goes first when the output is not
/// empty and does not already end in white space.
pub open spec fn printed(output: Seq<char>, text: Seq<char>) -> Seq<char> {
    if output.len() > 0 && !is_space(output.last()) {
        output.push(' ') + text
    } else {
        output + text
    }
}

impl ContextView {
    pub open spec fn wf(self) -> bool {
        self.stack.wf()
    }

    pub open spec fn with_stack(self, stack: StackView) -> ContextView {
        ContextView { stack, output: self.output }
    }

    pub open spec fn print(self, text: Seq<char>) -> ContextView {
        ContextView { stack: self.stack, output: printed(self.output, text) }
    }

    pub open spec fn with_items(self, items: Seq<BorthItem>) -> ContextView {
        ContextView { stack: StackView { items, capacity: self.stack.capacity }, output: self.output }
    }

    /// Pops the top item `a`, then the one below it `b`, and pushes
    /// `f(b, a)`. An item popped before the stack ran out stays popped.
    pub open spec fn binary(self, f: spec_fn(BorthItem, BorthItem) -> BorthItem) -> (
        ContextView,
        BorthResult<()>,
    ) {
        let items = self.stack.items;
        let n = items.len();
        if n == 0 {
            (self, Err(BorthError::StackUnderflow))
        } else if n == 1 {
            (self.with_items(items.drop_last()), Err(BorthError::StackUnderflow))
        } else {
            (self.with_items(items.drop_last().drop_last().push(f(items[n - 2], items[n - 1]))), Ok(()))
        }
    }

    /// Pops the top item `a` and pushes `f(a)`.
    pub open spec fn unary(self, f: spec_fn(BorthItem) -> BorthItem) -> (ContextView, BorthResult<()>) {
        let items = self.stack.items;
        if items.len() == 0 {
            (self, Err(BorthError::StackUnderflow))
        } else {
            (self.with_items(items.drop_last().push(f(items.last()))), Ok(()))
        }
    }

    /// State and outcome of popping: `StackUnderflow`, untouched, when empty.
    pub open spec fn pop(self) -> (ContextView, BorthResult<BorthItem>) {
        match self.stack.pop() {
            Some((s, x)) => (self.with_stack(s), Ok(x)),
            None => (self, Err(BorthError::StackUnderflow)),
        }
    }

    /// Pushes the items of `xs` in order, up to the first failure.
    pub open spec fn push_all(self, xs: Seq<BorthItem>) -> (ContextView, BorthResult<()>)
        decreases xs.len(),
    {
        if xs.len() == 0 {
            (self, Ok(()))
        } else {
            let (c, r) = self.push_all(xs.drop_last());
            if r is Err {
                (c, r)
            } else {
                c.push(xs.last())
            }
        }
    }

    /// Pops `n` times; the outcomes in the order they came.
    pub open spec fn pop_n(self, n: nat) -> (ContextView, Seq<BorthResult<BorthItem>>)
        decreases n,
    {
        if n == 0 {
            (self, Seq::empty())
        } else {
            let (c, r) = self.pop();
            let (d, rs) = c.pop_n((n - 1) as nat);
            (d, seq![r] + rs)
        }
    }

    /// State and outcome of pushing `x`: `StackOverflow`, untouched, when full.
    pub open spec fn push(self, x: BorthItem) -> (ContextView, BorthResult<()>) {
        match self.stack.push(x) {
            Some(s) => (self.with_stack(s), Ok(())),
            None => (self, Err(BorthError::StackOverflow)),
        }
    }
}

proof fn lemma_push_all_items(c: ContextView, xs: Seq<BorthItem>)
    requires
        c.stack.items.len() + xs.len() <= c.stack.capacity,
    ensures
        c.push_all(xs) == (c.with_items(c.stack.items + xs), Ok::<(), BorthError>(())),
    decreases xs.len(),
{
    if xs.len() > 0 {
        lemma_push_all_items(c, xs.drop_last());
        assert(c.stack.items + xs == (c.stack.items + xs.drop_last()).push(xs.last()));
    } else {
        assert(c.stack.items + xs == c.stack.items);
    }
}

/// Pushing items while there is room, then popping as many, gives each of
/// them back in reverse order and leaves the stack and the output as they
/// were.
pub proof fn lemma_context_lifo(c: ContextView, xs: Seq<BorthItem>)
    requires
        c.stack.items.len() + xs.len() <= c.stack.capacity,
    ensures
        c.push_all(xs).1 == Ok::<(), BorthError>(()),
        c.push_all(xs).0.pop_n(xs.len()) == (
            c,
            Seq::new(xs.len(), |i: int| Ok::<BorthItem, BorthError>(xs[xs.len() - 1 - i])),
        ),
    decreases xs.len(),
{
    lemma_push_all_items(c, xs);
    if xs.len() == 0 {
        assert(c.with_items(c.stack.items + xs) == c);
        assert(Seq::new(0, |i: int| Ok::<BorthItem, BorthError>(xs[xs.len() - 1 - i])) =~= Seq::<
            BorthResult<BorthItem>,
        >::empty());
    } else {
        let init = xs.drop_last();
        let n = xs.len();
        lemma_context_lifo(c, init);
        lemma_push_all_items(c, init);
        let t = c.with_items(c.stack.items + init);
        let u = c.with_items(c.stack.items + xs);
        assert(u.stack.items.drop_last() =~= t.stack.items);
        assert(u.stack.items.last() == xs.last());
        assert(u.pop() == (t, Ok::<BorthItem, BorthError>(xs.last())));
        assert(seq![Ok::<BorthItem, BorthError>(xs.last())] + Seq::new(
            init.len(),
            |i: int| Ok::<BorthItem, BorthError>(init[init.len() - 1 - i]),
        ) =~= Seq::new(n, |i: int| Ok::<BorthItem, BorthError>(xs[n - 1 - i])));
    }
}

/// Handle the stack and output of an interpreter execution
pub struct BorthContext {
    stack: BorthStack,
    output: String,
    needs_space: bool,
}

impl View for BorthContext {
    type V = ContextView;

    closed spec fn view(&self) -> ContextView {
        ContextView { stack: self.stack@, output: self.output@ }
    }
}

impl BorthContext {
    /// The stack stays within its capacity, and `needs_space` tells whether
    /// the output is not empty and does not end in white space.
    pub closed spec fn wf(&self) -> bool {
        &&& self@.wf()
        &&& self.needs_space == (self.output@.len() > 0 && !is_space(self.output@.last()))
    }

    /// Create a new BorthContext instance with the given stack size in bytes
    pub fn with_stack_size(stack_size: usize) -> (r: Self)
        ensures
            r@.stack.items == Seq::<BorthItem>::empty(),
            r@.stack.capacity == stack_size / 2,
            r@.output == Seq::<char>::empty(),
            r.wf(),
            r@.wf(),
    {
        BorthContext {
            stack: BorthStack::with_size(stack_size),
            output: String::new(),
            needs_space: false,
        }
    }

    /// Pop the last item from the stack or return an error if the stack is empty
    pub fn pop_value(&mut self) -> (r: BorthResult<BorthItem>)
        requires
            old(self).wf(),
        ensures
            final(self).wf(),
            old(self)@.wf(),
            final(self)@.wf(),
            (final(self)@, r) == old(self)@.pop(),
            final(self)@.output == old(self)@.output,
            match old(self)@.stack.pop() {
                Some((s, x)) => r == Ok::<BorthItem, BorthError>(x) && final(self)@.stack == s,
                None => r == Err::<BorthItem, BorthError>(BorthError::StackUnderflow)
                    && final(self)@ == old(self)@,
            },
    {
        self.stack.pop()
    }

    /// Push a new item to the stack or return an error if the stack is full
    pub fn push_value(&mut self, value: BorthItem) -> (r: BorthResult<()>)
        requires
            old(self).wf(),
        ensures
            final(self).wf(),
            old(self)@.wf(),
            final(self)@.wf(),
            (final(self)@, r) == old(self)@.push(value),
    {
        self.stack.push(value)
    }

    /// Returns the items from the stack as a slice
    pub fn stack_items(&self) -> (r: &[BorthItem])
        ensures
            r@ == self@.stack.items,
    {
        self.stack.items()
    }

    /// Push a string to the output buffer
    pub fn print(&mut self, str: &str)
        requires
            old(self).wf(),
        ensures
            final(self).wf(),
            final(self)@ == old(self)@.print(str@),
    {
        let spaced = self.needs_space;
        if spaced {
            push_char(&mut self.output, ' ');
        }
        self.output.append(str);
        let n = str.unicode_len();
        if n > 0 {
            self.needs_space = !is_whitespace(str.get_char(n - 1));
        } else if spaced {
            self.needs_space = false;
        }
    }

    /// Push a character to the output buffer
    pub fn print_char(&mut self, char: char)
        requires
            old(self).wf(),
        ensures
            final(self).wf(),
            final(self)@ == (ContextView { stack: old(self)@.stack, output: old(self)@.output.push(char) }),
    {
        push_char(&mut self.output, char);
        self.needs_space = !is_whitespace(char);
    }

    /// Return the output buffer as a str slice
    pub fn output(&self) -> (r: &str)
        ensures
            r@ == self@.output,
    {
        self.output.as_str()
    }

    /// Whether the stack holds exactly `stack` and the output is exactly `output`.
    pub fn test(&self, stack: &[BorthItem], output: &str) -> (r: bool)
        ensures
            r == (self@.stack.items == stack@ && self@.output == output@),
    {
        let items = self.stack.items();
        if items.len() != stack.len() {
            return false;
        }
        let mut i: usize = 0;
        while i < items.len()
            invariant
                i <= items.len() == stack.len(),
                items@ == self@.stack.items,
                items@.take(i as int) == stack@.take(i as int),
            decreases items.len() - i,
        {
            if items[i] != stack[i] {
                assert(items@[i as int] != stack@[i as int]);
                return false;
            }
            assert(items@.take(i + 1) == items@.take(i as int).push(items@[i as int]));
            assert(stack@.take(i + 1) == stack@.take(i as int).push(stack@[i as int]));
            i = i + 1;
        }
        assert(items@.take(i as int) == items@);
        assert(stack@.take(i as int) == stack@);
        let mine = chars_of(self.output.as_str());
        let theirs = chars_of(output);
        if mine.len() != theirs.len() {
            return false;
        }
        let mut j: usize = 0;
        while j < mine.len()
            invariant
                j <= mine.len() == theirs.len(),
                mine@ == self@.output,
                theirs@ == output@,
                mine@.take(j as int) == theirs@.take(j as int),
            decreases mine.len() - j,
        {
            if mine[j] != theirs[j] {
                assert(mine@[j as int] != theirs@[j as int]);
                return false;
            }
            assert(mine@.take(j + 1) == mine@.take(j as int).push(mine@[j as int]));
            assert(theirs@.take(j + 1) == theirs@.take(j as int).push(theirs@[j as int]));
            j = j + 1;
        }
        assert(mine@.take(j as int) == mine@);
        assert(theirs@.take(j as int) == theirs@);
        true
    }
}

} // verus!
