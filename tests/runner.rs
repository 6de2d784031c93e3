use borth::errors::BorthError;
use borth::runner::{format_stack, parse_args, parse_stack, BorthRunner};

fn create_args() -> Vec<String> {
    vec!["forth".into()]
}

#[test]
fn test1_expect_filename_in_args() {
    let mut args = create_args();
    assert!(parse_args(&args).is_err());

    args.push("ruta/a/main.fth".into());
    assert!(parse_args(&args).is_ok());
}

#[test]
fn test2_parse_stack_size() {
    let mut args = create_args();
    args.push("ruta/a/main.fth".into());
    args.push("--stack-size=10".into());

    assert!(parse_args(&args).is_ok_and(|(_, size)| size == Some(10)));
}

#[test]
fn test3_stack_size_is_optional() {
    let mut args = create_args();
    args.push("ruta/a/main.fth".into());

    assert!(parse_args(&args).is_ok_and(|(_, size)| size.is_none()));
}

#[test]
fn args_errors() {
    let args: Vec<String> = vec![];
    assert_eq!(parse_args(&args), Err(BorthError::MissingArguments));
    let args: Vec<String> = vec!["a".into(), "b".into(), "c".into(), "d".into()];
    assert_eq!(parse_args(&args), Err(BorthError::TooManyArguments));
    let args: Vec<String> = vec!["a".into(), "b".into(), "10".into()];
    assert_eq!(parse_args(&args), Err(BorthError::BadArguments));
    let args: Vec<String> = vec!["a".into(), "b".into(), "--stack-size=x".into()];
    assert_eq!(parse_args(&args), Err(BorthError::BadArguments));
    let args: Vec<String> = vec!["a".into(), "b".into(), "--stack-size=-1".into()];
    assert_eq!(parse_args(&args), Err(BorthError::BadArguments));
}

#[test]
fn args_malformed_flag_is_rejected() {
    for flag in [
        "1--stack-size=0",
        "--stack-size=1--stack-size=2",
        "--stack-size=+5",
        "--stack-size=",
        "x--stack-size=5",
        "--stack-size=5 ",
        "--STACK-SIZE=5",
        "--stack-size=18446744073709551616",
    ] {
        let args: Vec<String> = vec!["a".into(), "b".into(), flag.into()];
        assert_eq!(parse_args(&args), Err(BorthError::BadArguments), "{}", flag);
    }
}

#[test]
fn args_flag_accepts_any_usize() {
    let args: Vec<String> = vec!["a".into(), "b".into(), "--stack-size=0".into()];
    assert_eq!(parse_args(&args), Ok(("b".to_string(), Some(0))));
    let args: Vec<String> = vec!["a".into(), "b".into(), "--stack-size=18446744073709551615".into()];
    assert_eq!(parse_args(&args), Ok(("b".to_string(), Some(usize::MAX))));
    let args: Vec<String> = vec!["a".into(), "b".into(), "--stack-size=007".into()];
    assert_eq!(parse_args(&args), Ok(("b".to_string(), Some(7))));
}

#[test]
fn runner_default_stack_size() {
    let args: Vec<String> = vec!["forth".into(), "main.fth".into()];
    let runner = BorthRunner::from_args(&args).unwrap();
    assert_eq!(runner.path(), "main.fth");
    assert_eq!(runner.size(), 128_000);
    let args: Vec<String> = vec!["forth".into(), "main.fth".into(), "--stack-size=64".into()];
    assert_eq!(BorthRunner::from_args(&args).unwrap().size(), 64);
    assert!(matches!(BorthRunner::from_args(&create_args()), Err(BorthError::MissingArguments)));
}

#[test]
fn stack_file_format() {
    assert_eq!(format_stack(&[]), "");
    assert_eq!(format_stack(&[7]), "7");
    assert_eq!(format_stack(&[1, -2, 32767, -32768]), "1 -2 32767 -32768");
}

#[test]
fn stack_file_round_trip() {
    for items in [vec![], vec![0], vec![1, -2, 3], vec![-32768, 32767, 0, 10]] {
        assert_eq!(parse_stack(&format_stack(&items)), Some(items.clone()));
    }
}

#[test]
fn stack_file_rejects_bad_text() {
    assert_eq!(parse_stack("1  2"), None);
    assert_eq!(parse_stack("1 x"), None);
    assert_eq!(parse_stack("1 "), None);
    assert_eq!(parse_stack("40000"), None);
    assert_eq!(parse_stack(""), Some(vec![]));
}
