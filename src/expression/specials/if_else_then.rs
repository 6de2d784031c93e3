use super::word_def;
use crate::context::BorthContext;
use crate::dict::{conditional, lowercase, BorthDict};
use crate::errors::BorthResult;
use crate::expression::{block_model, depth, eval_model, BorthExpression, ExprModel};
use crate::parser::BorthIterator;
use crate::text::same_text;
use std::rc::Rc;
use vstd::prelude::*;

verus! {

/// Reads a conditional after its `if`: expressions up to `then`, those after
/// an `else` in the second branch.
pub fn create(iterator: &mut BorthIterator, dict: &mut BorthDict) -> (r: BorthExpression)
    requires
        old(iterator).wf(),
        old(dict).wf(),
    ensures
        final(iterator).wf(),
        final(dict).wf(),
        final(iterator).tokens() == old(iterator).tokens(),
        final(iterator).pos() >= old(iterator).pos(),
        ({
            let p = conditional(
                old(dict)@,
                old(iterator).tokens(),
                old(iterator).pos(),
                Seq::empty(),
                Seq::empty(),
                false,
            );
            r@ == p.expr && final(dict)@ == p.dict && final(iterator).pos() == p.pos
        }),
    decreases old(iterator).tokens().len() - old(iterator).pos(), 0int,
{
    let ghost toks = iterator.tokens();
    let ghost start = iterator.pos();
    let mut if_block: Vec<Rc<BorthExpression>> = Vec::new();
    let mut else_block: Vec<Rc<BorthExpression>> = Vec::new();
    let mut in_else_block = false;
    loop
        invariant
            iterator.wf(),
            iterator.tokens() == toks,
            toks == old(iterator).tokens(),
            start == old(iterator).pos(),
            start <= iterator.pos(),
            dict.wf(),
            conditional(old(dict)@, toks, start, Seq::empty(), Seq::empty(), false) == conditional(
                dict@,
                toks,
                iterator.pos(),
                block_model(if_block@),
                block_model(else_block@),
                in_else_block,
            ),
        decreases toks.len() - iterator.pos(),
    {
        let ghost at = iterator.pos();
        match iterator.next() {
            None => {
                return BorthExpression::IncompleteStatement;
            },
            Some(t) => {
                let token = t.0.as_str();
                if token.unicode_len() == 0 {
                    continue;
                }
                let folded = lowercase(token);
                if same_text(folded.as_str(), "then") {
                    return BorthExpression::IfElseThen(if_block, else_block);
                }
                if same_text(folded.as_str(), "else") {
                    in_else_block = true;
                } else {
                    let exp = dict.detect_folded(token, folded.as_str(), iterator);
                    if in_else_block {
                        let ghost before = else_block@;
                        else_block.push(exp);
                        assert(else_block@.subrange(0, else_block@.len() - 1) == before);
                    } else {
                        let ghost before = if_block@;
                        if_block.push(exp);
                        assert(if_block@.subrange(0, if_block@.len() - 1) == before);
                    }
                }
            },
        }
    }
}

/// Pops a flag and evaluates `if_block` when it is not zero, `else_block`
/// when it is.
pub fn call(
    ctx: &mut BorthContext,
    if_block: &Vec<Rc<BorthExpression>>,
    else_block: &Vec<Rc<BorthExpression>>,
) -> (r: BorthResult<()>)
    requires
        old(ctx).wf(),
    ensures
        final(ctx).wf(),
        (final(ctx)@, r) == eval_model(
            ExprModel::IfElseThen(block_model(if_block@), block_model(else_block@)),
            old(ctx)@,
        ),
    decreases depth(ExprModel::IfElseThen(block_model(if_block@), block_model(else_block@))), 1int,
{
    if ctx.pop_value()? != 0 {
        word_def::call(ctx, if_block)
    } else {
        word_def::call(ctx, else_block)
    }
}

} // verus!
