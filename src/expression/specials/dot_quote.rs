use crate::context::BorthContext;
use crate::dict::{string_literal, trim_quotes};
use crate::errors::{BorthError, BorthResult};
use crate::expression::BorthExpression;
use crate::parser::BorthIterator;
use crate::text::{chars_of, push_char};
use vstd::prelude::*;

verus! {

/// Whether `w` ends in a double quote.
fn ends_with_quote(w: &str) -> (r: bool)
    ensures
        r == (w@.len() > 0 && w@.last() == '"'),
{
    let cs = chars_of(w);
    cs.len() > 0 && cs[cs.len() - 1] == '"'
}

/// `w` without the double quotes at its end.
fn without_quotes(w: &str) -> (r: String)
    ensures
        r@ == trim_quotes(w@),
{
    let cs = chars_of(w);
    let mut k: usize = cs.len();
    assert(cs@.take(k as int) == w@);
    while k > 0 && cs[k - 1] == '"'
        invariant
            k <= cs.len(),
            cs@ == w@,
            trim_quotes(w@) == trim_quotes(cs@.take(k as int)),
        decreases k,
    {
        assert(cs@.take(k as int).drop_last() == cs@.take(k - 1));
        k = k - 1;
    }
    let mut r = String::new();
    let mut j: usize = 0;
    while j < k
        invariant
            j <= k <= cs.len(),
            r@ == cs@.take(j as int),
        decreases k - j,
    {
        push_char(&mut r, cs[j]);
        assert(cs@.take(j + 1) == cs@.take(j as int).push(cs@[j as int]));
        j = j + 1;
    }
    r
}

/// Reads a string literal: the words and white space up to the first word
/// that ends in a double quote.
pub fn create(iterator: &mut BorthIterator) -> (r: BorthExpression)
    requires
        old(iterator).wf(),
    ensures
        final(iterator).wf(),
        final(iterator).tokens() == old(iterator).tokens(),
        final(iterator).pos() >= old(iterator).pos(),
        (r@, final(iterator).pos()) == string_literal(
            old(iterator).tokens(),
            old(iterator).pos(),
            Seq::empty(),
        ),
{
    let ghost toks = iterator.tokens();
    let ghost start = iterator.pos();
    let mut str = String::new();
    loop
        invariant
            iterator.wf(),
            iterator.tokens() == toks,
            toks == old(iterator).tokens(),
            start == old(iterator).pos(),
            start <= iterator.pos(),
            string_literal(toks, start, Seq::empty()) == string_literal(toks, iterator.pos(), str@),
        decreases toks.len() - iterator.pos(),
    {
        match iterator.next() {
            None => {
                return BorthExpression::IncompleteStatement;
            },
            Some(t) => {
                let token = t.0.as_str();
                if ends_with_quote(token) {
                    let tail = without_quotes(token);
                    str.append(tail.as_str());
                    return BorthExpression::DotQuote(str);
                }
                str.append(token);
                str.append(t.1.as_str());
            },
        }
    }
}

/// Prints a string literal.
pub fn call(ctx: &mut BorthContext, str: &str) -> (r: BorthResult<()>)
    requires
        old(ctx).wf(),
    ensures
        final(ctx).wf(),
        final(ctx)@ == old(ctx)@.print(str@),
        r == Ok::<(), BorthError>(()),
{
    ctx.print(str);
    Ok(())
}

} // verus!
