use borth::context::BorthContext;
use borth::dict::BorthDict;
use borth::expression::specials::{dot_quote, if_else_then, word_def};
use borth::expression::{BorthExpression, Primitive};
use borth::parser::{parse_tokens, BorthTokens};
use std::rc::Rc;

fn create_context() -> BorthContext {
    BorthContext::with_stack_size(10)
}

fn create_dict() -> BorthDict {
    BorthDict::new()
}

fn assert_create_and_call_quote(ctx: &mut BorthContext, tokens: BorthTokens, output: &str) {
    assert!(match dot_quote::create(&mut tokens.iter()) {
        BorthExpression::DotQuote(str) => dot_quote::call(ctx, &str).is_ok(),
        _ => false,
    });
    assert!(ctx.test(&[], output));
}

#[test]
fn test1_dot_quote_hello() {
    let tokens = parse_tokens("hello\"");
    assert_create_and_call_quote(&mut create_context(), tokens, "hello");
}

#[test]
fn test2_dot_quote_hello_world() {
    let tokens = parse_tokens("hello world\"");
    assert_create_and_call_quote(&mut create_context(), tokens, "hello world");
}

#[test]
fn test3_dot_quote_multiple_whitespace() {
    let tokens = parse_tokens("hello     world\"");
    assert_create_and_call_quote(&mut create_context(), tokens, "hello     world");
}

#[test]
fn test4_dot_quote_multiples() {
    let mut ctx = create_context();
    let tokens = parse_tokens("hello\"");
    assert_create_and_call_quote(&mut ctx, tokens, "hello");
    let tokens = parse_tokens("world\"");
    assert_create_and_call_quote(&mut ctx, tokens, "hello world");
}

#[test]
fn dot_quote_trims_every_closing_quote() {
    let tokens = parse_tokens("a\"\" rest");
    let mut it = tokens.iter();
    assert_eq!(dot_quote::create(&mut it), BorthExpression::DotQuote("a".into()));
}

fn assert_create_and_call_if(ctx: &mut BorthContext, tokens: BorthTokens) {
    let mut dict = create_dict();
    assert!(match if_else_then::create(&mut tokens.iter(), &mut dict) {
        BorthExpression::IfElseThen(if_block, else_block) =>
            if_else_then::call(ctx, &if_block, &else_block).is_ok(),
        _ => false,
    });
}

fn assert_incomplete_statement(tokens: BorthTokens) {
    let mut dict = create_dict();
    assert!(match if_else_then::create(&mut tokens.iter(), &mut dict) {
        BorthExpression::IncompleteStatement => true,
        _ => false,
    });
}

#[test]
fn test1_if_then_false() {
    let tokens = parse_tokens("1 then");
    let mut ctx = create_context();
    let _ = ctx.push_value(0);
    assert_create_and_call_if(&mut ctx, tokens);
    assert!(ctx.test(&[], ""));
}

#[test]
fn test2_if_then_true() {
    let tokens = parse_tokens("1 then");
    let mut ctx = create_context();
    let _ = ctx.push_value(-1);
    assert_create_and_call_if(&mut ctx, tokens);
    assert!(ctx.test(&[1], ""));
}

#[test]
fn test3_if_then_open() {
    let tokens = parse_tokens("1");
    assert_incomplete_statement(tokens);
}

#[test]
fn test4_if_else_then_false() {
    let tokens = parse_tokens("0 else 1 then");
    let mut ctx = create_context();
    let _ = ctx.push_value(0);
    assert_create_and_call_if(&mut ctx, tokens);
    assert!(ctx.test(&[1], ""));
}

#[test]
fn test5_if_else_then_true() {
    let tokens = parse_tokens("0 else 1 then");
    let mut ctx = create_context();
    let _ = ctx.push_value(-1);
    assert_create_and_call_if(&mut ctx, tokens);
    assert!(ctx.test(&[0], ""));
}

#[test]
fn test6_if_else_then_open() {
    let tokens = parse_tokens("0 else 1 ");
    assert_incomplete_statement(tokens);
}

#[test]
fn conditional_on_empty_stack_underflows() {
    let mut ctx = create_context();
    assert_eq!(
        if_else_then::call(&mut ctx, &vec![], &vec![]),
        Err(borth::errors::BorthError::StackUnderflow)
    );
}

fn detect(dict: &mut BorthDict, word: &str) -> Rc<BorthExpression> {
    let tokens = parse_tokens("");
    dict.detect_word(word, &mut tokens.iter())
}

fn assert_create(code: &str, dict: &mut BorthDict, expected: &BorthExpression) {
    let tokens = parse_tokens(code);
    assert_eq!(word_def::create(&mut tokens.iter(), dict).as_ref(), expected);
}

fn assert_create_word(word: &str, code: &str, dict: &mut BorthDict, expected: &BorthExpression) {
    assert_create(code, dict, &BorthExpression::WordCreated);
    assert_eq!(detect(dict, word).as_ref(), expected);
}

#[test]
fn test1_word_def() {
    let mut dict = create_dict();
    assert_create_word(
        "foo",
        "foo 1 ;",
        &mut dict,
        &BorthExpression::Word(vec![Rc::new(BorthExpression::Number(1))]),
    );
}

#[test]
fn test2_invalid_word() {
    let mut dict = create_dict();
    assert_create("foo ;", &mut dict, &BorthExpression::InvalidWord);
    assert_eq!(
        detect(&mut dict, "foo").as_ref(),
        &BorthExpression::UnknownWord("foo".into())
    );
}

#[test]
fn test3_invalid_word() {
    let mut dict = create_dict();
    assert_create("1 1 ;", &mut dict, &BorthExpression::InvalidWord);
}

#[test]
fn test4_word_def() {
    let mut dict = create_dict();
    assert_create_word(
        "dup-twice",
        "dup-twice dup dup ;",
        &mut dict,
        &BorthExpression::Word(vec![
            Rc::new(BorthExpression::Operation(Primitive::Dup)),
            Rc::new(BorthExpression::Operation(Primitive::Dup)),
        ]),
    );
}

#[test]
fn test5_word_def() {
    let mut dict = create_dict();
    assert_create_word(
        "countup",
        "countup 1 2 3 ;",
        &mut dict,
        &BorthExpression::Word(vec![
            Rc::new(BorthExpression::Number(1)),
            Rc::new(BorthExpression::Number(2)),
            Rc::new(BorthExpression::Number(3)),
        ]),
    );
}

#[test]
fn test6_word_redefinition() {
    let mut dict = create_dict();
    assert_create_word(
        "foo",
        "foo dup ;",
        &mut dict,
        &BorthExpression::Word(vec![Rc::new(BorthExpression::Operation(Primitive::Dup))]),
    );
    assert_create_word(
        "foo",
        "foo dup dup ;",
        &mut dict,
        &BorthExpression::Word(vec![
            Rc::new(BorthExpression::Operation(Primitive::Dup)),
            Rc::new(BorthExpression::Operation(Primitive::Dup)),
        ]),
    );
}

#[test]
fn test7_shadowing() {
    let mut dict = create_dict();
    assert_create_word(
        "swap",
        "swap dup ;",
        &mut dict,
        &BorthExpression::Word(vec![Rc::new(BorthExpression::Operation(Primitive::Dup))]),
    );
}

#[test]
fn test8_shadowing_symbol() {
    let mut dict = create_dict();
    assert_create_word(
        "+",
        "+ * ;",
        &mut dict,
        &BorthExpression::Word(vec![Rc::new(BorthExpression::Operation(Primitive::Mul))]),
    );
}

#[test]
fn test_hello_world() {
    let mut dict = create_dict();
    assert_create_word(
        "hello",
        "hello .\" hello world\" ;",
        &mut dict,
        &BorthExpression::Word(vec![Rc::new(BorthExpression::DotQuote(
            "hello world".into(),
        ))]),
    );
}

#[test]
fn word_body_without_terminator_still_defines() {
    let mut dict = create_dict();
    assert_create_word(
        "bar",
        "bar 4",
        &mut dict,
        &BorthExpression::Word(vec![Rc::new(BorthExpression::Number(4))]),
    );
}

#[test]
fn recursive_reference_is_unknown_at_definition() {
    let mut dict = create_dict();
    assert_create_word(
        "loop",
        "loop loop ;",
        &mut dict,
        &BorthExpression::Word(vec![Rc::new(BorthExpression::UnknownWord("loop".into()))]),
    );
}
