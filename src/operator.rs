use crate::stack::BorthItem;
use crate::text::same_text;
use vstd::prelude::*;
use vstd::wrapping::i16_specs::wrapping_add;

verus! {

/// Sum of `s` taken from its last item to its first, wrapping on overflow.
pub open spec fn sum_from_top(s: Seq<BorthItem>) -> BorthItem
    decreases s.len(),
{
    if s.len() == 0 {
        0
    } else {
        wrapping_add(sum_from_top(s.drop_first()), s[0])
    }
}

/// An operator that answers to one token and sums the whole stack.
#[derive(Clone)]
pub struct Operator {
    token: String,
}

impl View for Operator {
    type V = Seq<char>;

    closed spec fn view(&self) -> Seq<char> {
        self.token@
    }
}

impl Operator {
    pub fn new(token: String) -> (r: Self)
        ensures
            r@ == token@,
    {
        Self { token }
    }

    /// Whether `token` is the one this operator answers to.
    pub fn accept(&self, token: &str) -> (r: bool)
        ensures
            r == (token@ == self@),
    {
        same_text(token, self.token.as_str())
    }

    /// Replaces every item of `stack` by their sum.
    pub fn operate(&self, stack: &mut Vec<BorthItem>)
        ensures
            final(stack)@ == seq![sum_from_top(old(stack)@)],
    {
        let ghost s = stack@;
        let mut sum: BorthItem = 0;
        assert(s.skip(s.len() as int) == Seq::<BorthItem>::empty());
        loop
            invariant
                stack@ == s.take(stack@.len() as int),
                stack@.len() <= s.len(),
                sum == sum_from_top(s.skip(stack@.len() as int)),
            ensures
                stack@.len() == 0,
            decreases stack@.len(),
        {
            let ghost k = stack@.len() as int;
            match stack.pop() {
                Some(element) => {
                    assert(s.skip(k - 1).drop_first() == s.skip(k));
                    assert(s.skip(k - 1)[0] == element);
                    assert(stack@ == s.take(k - 1));
                    sum = sum.wrapping_add(element);
                },
                None => {
                    break;
                },
            }
        }
        assert(s.skip(0) == s);
        stack.push(sum);
    }
}

} // verus!
