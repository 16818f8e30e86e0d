use command_spec::{command_arg, CommandArg, CommandError};

#[test]
fn literal_is_quoted() {
    assert_eq!(CommandArg::from("foobar").render(), "foobar");
    assert_eq!(CommandArg::from("foo bar").render(), "'foo bar'");
    assert_eq!(CommandArg::from("").render(), "''");
}

#[test]
fn list_is_quoted_and_joined() {
    let list = vec!["a".to_string(), "b c".to_string()];
    assert_eq!(command_arg(&list).render(), "a 'b c'");
    let none: Vec<String> = Vec::new();
    assert_eq!(command_arg(&none).render(), "");
}

#[test]
fn numbers_become_literals() {
    assert_eq!(command_arg(&42u64).render(), "42");
    assert_eq!(command_arg(&-7i32).render(), "-7");
    assert_eq!(command_arg(&-9000000000i64).render(), "-9000000000");
}

#[test]
fn option_is_empty_or_literal() {
    let some: Option<String> = Some("x y".to_string());
    let none: Option<String> = None;
    assert_eq!(command_arg(&some).render(), "'x y'");
    assert!(matches!(command_arg(&none), CommandArg::Empty));
    assert_eq!(CommandArg::Empty.render(), "");
}

#[test]
fn strings_become_literals() {
    let owned = "it's".to_string();
    assert!(matches!(command_arg(&owned), CommandArg::Literal(ref s) if s == "it's"));
    assert!(matches!(CommandArg::from(owned), CommandArg::Literal(ref s) if s == "it's"));
}

#[test]
fn error_messages() {
    assert_eq!(CommandError::Code(3).message(), "Command failed with error code 3");
    assert_eq!(CommandError::Code(-1).message(), "Command failed with error code -1");
    assert_eq!(
        CommandError::TooManyCDArgs(1, 2).message(),
        "Too many arguments in cd; expected 1, found 2"
    );
    assert_eq!(
        CommandError::NotEnoughExportArgs(1, 0).message(),
        "Not enough arguments in export; expected at least 1, found 0"
    );
    assert_eq!(CommandError::Interrupt.message(), "Command was interrupted.");
    assert_eq!(
        CommandError::NoCommand.message(),
        "Didn't find a command in your command! macro."
    );
    let io = CommandError::Io(std::io::Error::new(std::io::ErrorKind::Other, "boom"));
    assert!(io.message().starts_with("Encountered an IO error: "));
    assert!(io.message().contains("boom"));
}

#[test]
fn string_literal_reference_becomes_literal() {
    let lit: &str = "a b";
    assert_eq!(command_arg(&lit).render(), "'a b'");
}

#[test]
fn integer_lists_and_options() {
    assert_eq!(command_arg(&vec![1i32, -2, 30]).render(), "1 -2 30");
    assert_eq!(command_arg(&vec![7u64]).render(), "7");
    assert_eq!(command_arg(&vec![-5i64]).render(), "-5");
    assert_eq!(command_arg(&Some(12i32)).render(), "12");
    assert!(matches!(command_arg(&None::<u64>), CommandArg::Empty));
}
