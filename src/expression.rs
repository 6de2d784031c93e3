pub mod arithmetic;
pub mod booleans;
pub mod output;
pub mod specials;
pub mod stack;

use crate::context::{BorthContext, ContextView};
use crate::errors::{BorthError, BorthResult};
use crate::stack::BorthItem;
use arithmetic::{add, div, mul, sub};
use booleans::{and, eq, gt, lt, not, or};
use output::{cr, dot, emit};
use specials::{dot_quote, if_else_then, word_def};
use stack::{drop, dup, over, rot, swap};
use std::rc::Rc;
use vstd::prelude::*;

verus! {

/// The built-in operations of the language.
#[derive(Debug, Clone, Copy, PartialEq, Eq, Structural)]
pub enum Primitive {
    Add,
    Sub,
    Mul,
    Div,
    Dup,
    Drop,
    Swap,
    Over,
    Rot,
    Eq,
    Lt,
    Gt,
    And,
    Or,
    Not,
    Dot,
    Emit,
    Cr,
}

impl Primitive {
    /// What the operation does to a context, and whether it succeeds.
    pub open spec fn effect(self, c: ContextView) -> (ContextView, BorthResult<()>) {
        match self {
            Primitive::Add => add::effect(c),
            Primitive::Sub => sub::effect(c),
            Primitive::Mul => mul::effect(c),
            Primitive::Div => div::effect(c),
            Primitive::Dup => dup::effect(c),
            Primitive::Drop => drop::effect(c),
            Primitive::Swap => swap::effect(c),
            Primitive::Over => over::effect(c),
            Primitive::Rot => rot::effect(c),
            Primitive::Eq => eq::effect(c),
            Primitive::Lt => lt::effect(c),
            Primitive::Gt => gt::effect(c),
            Primitive::And => and::effect(c),
            Primitive::Or => or::effect(c),
            Primitive::Not => not::effect(c),
            Primitive::Dot => dot::effect(c),
            Primitive::Emit => emit::effect(c),
            Primitive::Cr => cr::effect(c),
        }
    }

    /// Runs the operation on `ctx`.
    pub fn call(&self, ctx: &mut BorthContext) -> (r: BorthResult<()>)
        requires
            old(ctx).wf(),
        ensures
            final(ctx).wf(),
            (final(ctx)@, r) == self.effect(old(ctx)@),
    {
        match self {
            Primitive::Add => add::call(ctx),
            Primitive::Sub => sub::call(ctx),
            Primitive::Mul => mul::call(ctx),
            Primitive::Div => div::call(ctx),
            Primitive::Dup => dup::call(ctx),
            Primitive::Drop => drop::call(ctx),
            Primitive::Swap => swap::call(ctx),
            Primitive::Over => over::call(ctx),
            Primitive::Rot => rot::call(ctx),
            Primitive::Eq => eq::call(ctx),
            Primitive::Lt => lt::call(ctx),
            Primitive::Gt => gt::call(ctx),
            Primitive::And => and::call(ctx),
            Primitive::Or => or::call(ctx),
            Primitive::Not => not::call(ctx),
            Primitive::Dot => dot::call(ctx),
            Primitive::Emit => emit::call(ctx),
            Primitive::Cr => cr::call(ctx),
        }
    }
}

/// Abstract form of an expression: the tree it denotes, sharing forgotten.
pub enum ExprModel {
    Number(BorthItem),
    Operation(Primitive),
    DotQuote(Seq<char>),
    IfElseThen(Seq<ExprModel>, Seq<ExprModel>),
    Word(Seq<ExprModel>),
    UnknownWord(Seq<char>),
    IncompleteStatement,
    InvalidWord,
    WordCreated,
}

/// Possible expressions in Borth
#[derive(Debug, PartialEq)]
pub enum BorthExpression {
    Number(BorthItem),
    Operation(Primitive),
    DotQuote(String),
    IfElseThen(Vec<Rc<BorthExpression>>, Vec<Rc<BorthExpression>>),
    Word(Vec<Rc<BorthExpression>>),
    UnknownWord(String),
    IncompleteStatement,
    InvalidWord,
    WordCreated,
}

pub open spec fn expr_model(e: BorthExpression) -> ExprModel
    decreases e,
{
    match e {
        BorthExpression::Number(v) => ExprModel::Number(v),
        BorthExpression::Operation(p) => ExprModel::Operation(p),
        BorthExpression::DotQuote(s) => ExprModel::DotQuote(s@),
        BorthExpression::IfElseThen(a, b) => ExprModel::IfElseThen(block_model(a@), block_model(b@)),
        BorthExpression::Word(body) => ExprModel::Word(block_model(body@)),
        BorthExpression::UnknownWord(w) => ExprModel::UnknownWord(w@),
        BorthExpression::IncompleteStatement => ExprModel::IncompleteStatement,
        BorthExpression::InvalidWord => ExprModel::InvalidWord,
        BorthExpression::WordCreated => ExprModel::WordCreated,
    }
}

/// Abstract form of a sequence of shared expressions.
pub open spec fn block_model(es: Seq<Rc<BorthExpression>>) -> Seq<ExprModel>
    decreases es,
{
    if es.len() == 0 {
        Seq::empty()
    } else {
        block_model(es.subrange(0, es.len() - 1)).push(expr_model(*es[es.len() - 1]))
    }
}

pub proof fn lemma_block_model(es: Seq<Rc<BorthExpression>>)
    ensures
        block_model(es).len() == es.len(),
        forall|i: int| 0 <= i < es.len() ==> #[trigger] block_model(es)[i] == expr_model(*es[i]),
    decreases es.len(),
{
    if es.len() > 0 {
        let init = es.subrange(0, es.len() - 1);
        lemma_block_model(init);
        assert forall|i: int| 0 <= i < es.len() implies #[trigger] block_model(es)[i] == expr_model(
            *es[i],
        ) by {
            if i < es.len() - 1 {
                assert(init[i] == es[i]);
            }
        }
    }
}

impl View for BorthExpression {
    type V = ExprModel;

    open spec fn view(&self) -> ExprModel {
        expr_model(*self)
    }
}

/// Nesting depth of an expression: how many bodies and branches lie inside
/// one another.
pub open spec fn depth(e: ExprModel) -> nat
    decreases e,
{
    match e {
        ExprModel::IfElseThen(a, b) => 1 + vstd::math::max(
            block_depth(a) as int,
            block_depth(b) as int,
        ) as nat,
        ExprModel::Word(body) => 1 + block_depth(body),
        _ => 0,
    }
}

/// One more than the deepest expression of a block; zero when empty.
pub open spec fn block_depth(es: Seq<ExprModel>) -> nat
    decreases es,
{
    if es.len() == 0 {
        0
    } else {
        vstd::math::max(
            block_depth(es.subrange(0, es.len() - 1)) as int,
            1 + depth(es[es.len() - 1]) as int,
        ) as nat
    }
}

pub proof fn lemma_block_depth(es: Seq<ExprModel>)
    ensures
        forall|i: int| 0 <= i < es.len() ==> block_depth(es) > depth(#[trigger] es[i]),
    decreases es.len(),
{
    if es.len() > 0 {
        let init = es.subrange(0, es.len() - 1);
        lemma_block_depth(init);
        assert forall|i: int| 0 <= i < es.len() implies block_depth(es) > depth(#[trigger] es[i]) by {
            if i < es.len() - 1 {
                assert(init[i] == es[i]);
            }
        }
    }
}

/// State and outcome of evaluating `e` in `c`.
pub open spec fn eval_model(e: ExprModel, c: ContextView) -> (ContextView, BorthResult<()>)
    decreases e,
{
    match e {
        ExprModel::Number(v) => c.push(v),
        ExprModel::Operation(p) => p.effect(c),
        ExprModel::DotQuote(s) => (c.print(s), Ok(())),
        ExprModel::IfElseThen(if_block, else_block) => match c.stack.pop() {
            None => (c, Err(BorthError::StackUnderflow)),
            Some((s, v)) => if v != 0 {
                eval_block(if_block, c.with_stack(s))
            } else {
                eval_block(else_block, c.with_stack(s))
            },
        },
        ExprModel::Word(body) => eval_block(body, c),
        ExprModel::UnknownWord(_) => (c, Err(BorthError::UnknownWord)),
        ExprModel::IncompleteStatement => (c, Err(BorthError::IncompleteStatement)),
        ExprModel::InvalidWord => (c, Err(BorthError::InvalidWord)),
        ExprModel::WordCreated => (c, Ok(())),
    }
}

/// Evaluates `es` in order and stops at the first failure, whose effects so
/// far are kept.
pub open spec fn eval_block(es: Seq<ExprModel>, c: ContextView) -> (ContextView, BorthResult<()>)
    decreases es,
{
    if es.len() == 0 {
        (c, Ok(()))
    } else {
        let (c1, r) = eval_block(es.subrange(0, es.len() - 1), c);
        if r is Err {
            (c1, r)
        } else {
            eval_model(es[es.len() - 1], c1)
        }
    }
}

/// Once a prefix of a block has failed, the rest of the block is not run.
pub proof fn lemma_eval_block_stops(es: Seq<ExprModel>, k: int, c: ContextView)
    requires
        0 <= k <= es.len(),
        eval_block(es.take(k), c).1 is Err,
    ensures
        eval_block(es, c) == eval_block(es.take(k), c),
    decreases es.len(),
{
    if k < es.len() {
        let init = es.subrange(0, es.len() - 1);
        assert(init.take(k) == es.take(k));
        lemma_eval_block_stops(init, k, c);
    } else {
        assert(es.take(k) == es);
    }
}

impl BorthExpression {
    /// Handle the evaluation of the expression
    pub fn eval(&self, ctx: &mut BorthContext) -> (r: BorthResult<()>)
        requires
            old(ctx).wf(),
        ensures
            final(ctx).wf(),
            (final(ctx)@, r) == eval_model(self@, old(ctx)@),
        decreases depth(self@), 2int,
    {
        match self {
            BorthExpression::Number(value) => ctx.push_value(*value),
            BorthExpression::Operation(op) => op.call(ctx),
            BorthExpression::DotQuote(str) => dot_quote::call(ctx, str.as_str()),
            BorthExpression::IfElseThen(if_block, else_block) => {
                assert(self@ == ExprModel::IfElseThen(block_model(if_block@), block_model(else_block@)));
                if_else_then::call(ctx, if_block, else_block)
            },
            BorthExpression::Word(body) => {
                assert(self@ == ExprModel::Word(block_model(body@)));
                word_def::call(ctx, body)
            },
            BorthExpression::UnknownWord(_) => Err(BorthError::UnknownWord),
            BorthExpression::IncompleteStatement => Err(BorthError::IncompleteStatement),
            BorthExpression::InvalidWord => Err(BorthError::InvalidWord),
            BorthExpression::WordCreated => Ok(()),
        }
    }
}

} // verus!
