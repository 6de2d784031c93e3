use borth::interpreter::BorthInterpreter;

fn run(code: &str) -> (Vec<i16>, String) {
    let mut interpreter = BorthInterpreter::with_stack_size(20);
    let (stack, output) = interpreter.run_code(code);
    (stack.to_vec(), output.to_string())
}

#[test]
fn scenario_redefinition_is_early_bound() {
    assert_eq!(run(": foo 5 ; : bar foo ; : foo 6 ; bar foo").0, vec![5, 6]);
}

#[test]
fn scenario_shadowing_a_primitive() {
    assert_eq!(run(": + * ; 3 4 +").0, vec![12]);
}

#[test]
fn scenario_conditionals() {
    assert_eq!(run("0 IF 1 THEN").0, Vec::<i16>::new());
    assert_eq!(run("-1 IF 2 THEN").0, vec![2]);
    assert_eq!(run("0 IF 1 ELSE 2 THEN").0, vec![2]);
    let f = ": f if if 1 else 2 then else drop 3 then ; ";
    assert_eq!(run(&format!("{}-1 -1 f", f)).0, vec![1]);
    assert_eq!(run(&format!("{}0 -1 f", f)).0, vec![2]);
    assert_eq!(run(&format!("{}0 0 f", f)).0, vec![3]);
}

#[test]
fn scenario_output_spacing() {
    assert_eq!(run(".\" Hello World!\"").1, "Hello World!");
    assert_eq!(run("4 5 . .").1, "5 4");
}

#[test]
fn scenario_unknown_word_halts() {
    assert_eq!(run("1 2 3 UNKNOWN + 4 5 6 +"), (vec![1, 2, 3], "?".to_string()));
}

#[test]
fn scenario_emit_errors() {
    assert_eq!(run("-1 emit"), (vec![], "runtime-error".to_string()));
    assert_eq!(run("emit"), (vec![], "stack-underflow".to_string()));
}

#[test]
fn scenario_error_messages_follow_output() {
    assert_eq!(run("1 . 0 0 /"), (vec![], "1 division-by-zero".to_string()));
    assert_eq!(run("1 IF 2"), (vec![1], "incomplete-statement".to_string()));
    assert_eq!(run(": 3 4 ;"), (vec![], "invalid-word".to_string()));
    assert_eq!(run("cr 1 2 3 4 5 6 7 8 9 10 11"), (vec![1, 2, 3, 4, 5, 6, 7, 8, 9, 10], "\nstack-overflow".to_string()));
}

#[test]
fn scenario_string_keeps_inner_spacing() {
    assert_eq!(run("1 . .\"  a  b\" 2 .").1, "1  a  b 2");
}

#[test]
fn scenario_state_persists_between_runs() {
    let mut interpreter = BorthInterpreter::with_stack_size(20);
    interpreter.run_code(": sq dup * ;");
    let (stack, _) = interpreter.run_code("3 sq");
    assert_eq!(stack, &[9]);
}
