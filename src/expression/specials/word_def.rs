use crate::context::BorthContext;
use crate::dict::{define, definition, definition_body, BorthDict};
use crate::number::parse_item;
use crate::parser::BorthIterator;
use crate::text::same_text;
use crate::errors::{BorthError, BorthResult};
use crate::expression::{
    block_depth, block_model, depth, eval_block, ExprModel, lemma_block_depth, lemma_block_model,
    lemma_eval_block_stops, BorthExpression,
};
use std::rc::Rc;
use vstd::prelude::*;

verus! {

/// Whether `e` is the word that ends a definition, `;`, left unresolved.
fn is_terminator(e: &BorthExpression) -> (r: bool)
    ensures
        r == (e@ == ExprModel::UnknownWord(";"@)),
{
    match e {
        BorthExpression::UnknownWord(word) => same_text(word.as_str(), ";"),
        _ => false,
    }
}

/// Reads a word definition after its `:`: the name, then the body up to `;`,
/// and registers it.
pub fn create(iterator: &mut BorthIterator, dict: &mut BorthDict) -> (r: Rc<BorthExpression>)
    requires
        old(iterator).wf(),
        old(dict).wf(),
    ensures
        final(iterator).wf(),
        final(dict).wf(),
        final(iterator).tokens() == old(iterator).tokens(),
        final(iterator).pos() >= old(iterator).pos(),
        ({
            let p = definition(old(dict)@, old(iterator).tokens(), old(iterator).pos());
            (*r)@ == p.expr && final(dict)@ == p.dict && final(iterator).pos() == p.pos
        }),
    decreases old(iterator).tokens().len() - old(iterator).pos(), 0int,
{
    let ghost toks = iterator.tokens();
    match iterator.next() {
        None => Rc::new(BorthExpression::InvalidWord),
        Some(t) => {
            let word = t.0.as_str();
            if let Some(_) = parse_item(word) {
                return Rc::new(BorthExpression::InvalidWord);
            }
            let ghost after_name = iterator.pos();
            let mut body: Vec<Rc<BorthExpression>> = Vec::new();
            loop
                invariant_except_break
                    definition(old(dict)@, toks, old(iterator).pos()) == definition_body(
                        dict@,
                        word@,
                        toks,
                        iterator.pos(),
                        block_model(body@),
                    ),
                invariant
                    iterator.wf(),
                    iterator.tokens() == toks,
                    toks == old(iterator).tokens(),
                    after_name == old(iterator).pos() + 1,
                    after_name <= iterator.pos(),
                    dict.wf(),
                ensures
                    definition(old(dict)@, toks, old(iterator).pos()) == define(
                        dict@,
                        word@,
                        block_model(body@),
                        iterator.pos(),
                    ),
                decreases toks.len() - iterator.pos(),
            {
                match dict.detect_next(iterator) {
                    None => {
                        break;
                    },
                    Some(exp) => {
                        if is_terminator(&exp) {
                            break;
                        }
                        let ghost before = body@;
                        body.push(exp);
                        assert(body@.subrange(0, body@.len() - 1) == before);
                    },
                }
            }
            if body.len() == 0 {
                return Rc::new(BorthExpression::InvalidWord);
            }
            dict.add_word(word, body)
        },
    }
}

/// Evaluates the body of a word, in order, up to the first failure.
pub fn call(ctx: &mut BorthContext, body: &Vec<Rc<BorthExpression>>) -> (r: BorthResult<()>)
    requires
        old(ctx).wf(),
    ensures
        final(ctx).wf(),
        (final(ctx)@, r) == eval_block(block_model(body@), old(ctx)@),
    decreases block_depth(block_model(body@)), 0int,
{
    let ghost m = block_model(body@);
    proof {
        lemma_block_model(body@);
        lemma_block_depth(m);
    }
    let mut i: usize = 0;
    while i < body.len()
        invariant
            i <= body.len(),
            m == block_model(body@),
            m.len() == body.len(),
            forall|j: int| 0 <= j < body.len() ==> #[trigger] m[j] == (*body@[j])@,
            forall|j: int| 0 <= j < m.len() ==> block_depth(m) > depth(#[trigger] m[j]),
            ctx.wf(),
            (ctx@, Ok::<(), BorthError>(())) == eval_block(m.take(i as int), old(ctx)@),
        decreases body.len() - i,
    {
        assert(m.take(i + 1).subrange(0, i as int) == m.take(i as int));
        assert(m.take(i + 1)[i as int] == m[i as int]);
        assert(block_depth(m) > depth(m[i as int]));
        let r = body[i].eval(ctx);
        match r {
            Ok(()) => {
                assert(r->Ok_0 == ());
            },
            Err(e) => {
                proof {
                    lemma_eval_block_stops(m, i + 1, old(ctx)@);
                }
                return Err(e);
            },
        }
        i = i + 1;
    }
    assert(m.take(i as int) == m);
    Ok(())
}

} // verus!
