use crate::context::{BorthContext, ContextView};
use crate::dict::{builtin_words, BorthDict, DictView};
use crate::errors::BorthResult;
use crate::expression::eval_block;
use crate::expression::specials::word_def;
use crate::parser::{parse_expressions, parse_tokens, resolve_all, tokenize};
use crate::stack::BorthItem;
use vstd::prelude::*;

verus! {

/// Abstract state of an interpreter: its context and its dictionary.
pub struct InterpreterView {
    pub ctx: ContextView,
    pub dict: DictView,
}

/// State after running `code`: every expression is resolved first, then they
/// are evaluated in order up to the first failure, whose message is printed.
pub open spec fn run(s: InterpreterView, code: Seq<char>) -> InterpreterView {
    let (exprs, dict) = resolve_all(s.dict, tokenize(code), 0);
    let (ctx, r) = eval_block(exprs, s.ctx);
    InterpreterView {
        ctx: match r {
            Ok(_) => ctx,
            Err(e) => ctx.print(e.message()),
        },
        dict,
    }
}

pub struct BorthInterpreter {
    ctx: BorthContext,
    dict: BorthDict,
}

impl View for BorthInterpreter {
    type V = InterpreterView;

    closed spec fn view(&self) -> InterpreterView {
        InterpreterView { ctx: self.ctx@, dict: self.dict@ }
    }
}

impl BorthInterpreter {
    pub closed spec fn wf(&self) -> bool {
        self.ctx.wf() && self.dict.wf()
    }

    /// An interpreter with an empty stack of `stack_size` bytes, no output
    /// and the builtin words.
    pub fn with_stack_size(stack_size: usize) -> (r: Self)
        ensures
            r.wf(),
            r@.ctx.stack.items == Seq::<BorthItem>::empty(),
            r@.ctx.stack.capacity == stack_size / 2,
            r@.ctx.output == Seq::<char>::empty(),
            r@.dict == builtin_words(),
    {
        Self { ctx: BorthContext::with_stack_size(stack_size), dict: BorthDict::new() }
    }

    /// Runs `code`, and returns the stack and the output after it.
    pub fn run_code(&mut self, code: &str) -> (r: (&[BorthItem], &str))
        requires
            old(self).wf(),
        ensures
            final(self).wf(),
            final(self)@ == run(old(self)@, code@),
            r.0@ == final(self)@.ctx.stack.items,
            r.1@ == final(self)@.ctx.output,
    {
        if let Err(err) = self.eval(code) {
            self.ctx.print(err.to_string().as_str());
        }
        (self.ctx.stack_items(), self.ctx.output())
    }

    fn eval(&mut self, code: &str) -> (r: BorthResult<()>)
        requires
            old(self).wf(),
        ensures
            final(self).wf(),
            ({
                let (exprs, dict) = resolve_all(old(self)@.dict, tokenize(code@), 0);
                (final(self)@.ctx, r) == eval_block(exprs, old(self)@.ctx) && final(self)@.dict == dict
            }),
    {
        let tokens = parse_tokens(code);
        let expressions = parse_expressions(tokens, &mut self.dict);
        word_def::call(&mut self.ctx, &expressions)
    }
}

} // verus!
