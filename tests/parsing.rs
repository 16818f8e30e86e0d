use command_spec::{parse_command_spec, CommandError, CommandSpec, SpecParser};

fn parsed(text: &str) -> CommandSpec {
    match parse_command_spec(text) {
        Ok(spec) => spec,
        Err(e) => panic!("unexpected error: {}", e.message()),
    }
}

fn strings(words: &[&str]) -> Vec<String> {
    words.iter().map(|w| w.to_string()).collect()
}

#[test]
fn cd_export_and_command() {
    let spec = parsed("cd X\nexport A=B\ncmd arg1 arg2");
    assert_eq!(spec.cd, Some("X".to_string()));
    assert_eq!(spec.env, vec![("A".to_string(), "B".to_string())]);
    assert_eq!(spec.binary, "cmd");
    assert_eq!(spec.args, strings(&["arg1", "arg2"]));
}

#[test]
fn command_alone() {
    let spec = parsed("ls -l 'a b'");
    assert_eq!(spec.cd, None);
    assert!(spec.env.is_empty());
    assert_eq!(spec.binary, "ls");
    assert_eq!(spec.args, strings(&["-l", "a b"]));
}

#[test]
fn cd_after_export_is_refused() {
    let r = parse_command_spec("export A=B\ncd X\nls");
    assert!(matches!(r, Err(CommandError::NoChangeDir)));
}

#[test]
fn second_cd_is_refused() {
    let r = parse_command_spec("cd a\ncd b\nls");
    assert!(matches!(r, Err(CommandError::NoChangeDir)));
}

#[test]
fn export_without_cd_is_accepted() {
    let spec = parsed("export A=B\nls");
    assert_eq!(spec.cd, None);
    assert_eq!(spec.env, vec![("A".to_string(), "B".to_string())]);
    assert_eq!(spec.binary, "ls");
}

#[test]
fn blank_lines_hold_no_command() {
    assert!(matches!(parse_command_spec(""), Err(CommandError::NoCommand)));
    assert!(matches!(parse_command_spec("\n  \n\t\n"), Err(CommandError::NoCommand)));
    assert!(matches!(parse_command_spec("\u{a0}\n\u{3000}"), Err(CommandError::NoCommand)));
}

#[test]
fn cd_and_export_without_command() {
    let r = parse_command_spec("cd X\nexport A=B\n\n");
    assert!(matches!(r, Err(CommandError::NoCommand)));
}

#[test]
fn continuation_joins_lines() {
    let spec = parsed("echo \\\nfoo");
    assert_eq!(spec.binary, "echo");
    assert_eq!(spec.args, strings(&["foo"]));
}

#[test]
fn lines_of_the_command_are_one_command() {
    let spec = parsed("\n\ncd /tmp\n\nexport A=1\n\nprintf \\\n  '%s' \\\n  x");
    assert_eq!(spec.cd, Some("/tmp".to_string()));
    assert_eq!(spec.binary, "printf");
    assert_eq!(spec.args, strings(&["%s", "x"]));
}

#[test]
fn cd_inside_a_quoted_script_is_command_text() {
    let spec = parsed("sh -c 'set -e\n\ncd /tmp\nls'");
    assert_eq!(spec.binary, "sh");
    assert_eq!(spec.args, strings(&["-c", "set -e\n\ncd /tmp\nls"]));
    assert_eq!(spec.cd, None);
}

#[test]
fn cd_with_wrong_argument_count() {
    assert!(matches!(parse_command_spec("cd a b\nls"), Err(CommandError::TooManyCDArgs(1, 2))));
    assert!(matches!(parse_command_spec("cd\nls"), Err(CommandError::TooManyCDArgs(1, 0))));
}

#[test]
fn export_without_items() {
    let r = parse_command_spec("export\nls");
    assert!(matches!(r, Err(CommandError::NotEnoughExportArgs(1, 0))));
}

#[test]
fn export_without_equals_sign() {
    let r = parse_command_spec("export A\nls");
    assert!(matches!(r, Err(CommandError::InvalidExport)));
}

#[test]
fn export_splits_at_first_equals_sign() {
    let spec = parsed("export A=b=c EMPTY=\nls");
    assert_eq!(
        spec.env,
        vec![("A".to_string(), "b=c".to_string()), ("EMPTY".to_string(), "".to_string())]
    );
}

#[test]
fn later_export_replaces_earlier_binding() {
    let spec = parsed("export A=1 B=2\nexport A=3\nls");
    assert_eq!(
        spec.env,
        vec![("A".to_string(), "3".to_string()), ("B".to_string(), "2".to_string())]
    );
}

#[test]
fn unbalanced_quote_holds_no_command() {
    let r = parse_command_spec("echo 'oops");
    assert!(matches!(r, Err(CommandError::NoCommand)));
}

#[test]
fn comment_alone_holds_no_command() {
    let r = parse_command_spec("# nothing here");
    assert!(matches!(r, Err(CommandError::NoCommand)));
}

#[test]
fn surrounding_white_space_is_ignored() {
    let spec = parsed("  \n\t cd  dir \n  run  it \n\n ");
    assert_eq!(spec.cd, Some("dir".to_string()));
    assert_eq!(spec.binary, "run");
    assert_eq!(spec.args, strings(&["it"]));
}

#[test]
fn parser_takes_the_given_words() {
    let mut parser = SpecParser::new();
    assert!(parser.feed("cd X".to_string(), Some(strings(&["cd", "X"])), true).is_ok());
    assert!(parser.feed("".to_string(), None, true).is_ok());
    assert!(parser.feed("export A=B".to_string(), Some(strings(&["export", "A=B"])), true).is_ok());
    assert!(!parser.in_command());
    assert!(parser.feed("cmd a \\".to_string(), None, true).is_ok());
    assert!(parser.in_command());
    assert!(parser.feed("b".to_string(), None, false).is_ok());
    assert_eq!(parser.command_line(), "cmd a b");
    let spec = match parser.finish(Some(strings(&["cmd", "a", "b"]))) {
        Ok(spec) => spec,
        Err(e) => panic!("unexpected error: {}", e.message()),
    };
    assert_eq!(spec.cd, Some("X".to_string()));
    assert_eq!(spec.env, vec![("A".to_string(), "B".to_string())]);
    assert_eq!(spec.binary, "cmd");
    assert_eq!(spec.args, strings(&["a", "b"]));
}

#[test]
fn parser_refuses_cd_after_export() {
    let mut parser = SpecParser::new();
    assert!(parser.feed("export A=B".to_string(), Some(strings(&["export", "A=B"])), true).is_ok());
    let r = parser.feed("cd X".to_string(), Some(strings(&["cd", "X"])), true);
    assert!(matches!(r, Err(CommandError::NoChangeDir)));
}

#[test]
fn parser_without_command_words() {
    let mut parser = SpecParser::new();
    assert!(parser.feed("'".to_string(), None, true).is_ok());
    assert!(matches!(parser.finish(None), Err(CommandError::NoCommand)));
    let mut parser = SpecParser::new();
    assert!(parser.feed("x".to_string(), Some(strings(&["x"])), true).is_ok());
    assert!(matches!(parser.finish(Some(Vec::new())), Err(CommandError::NoCommand)));
}

#[test]
fn cd_after_command_start_is_refused() {
    let r = parse_command_spec("ls\ncd /");
    assert!(matches!(r, Err(CommandError::NoChangeDir)));
}

#[test]
fn export_after_command_start_is_refused() {
    let r = parse_command_spec("ls\nexport A=B");
    assert!(matches!(r, Err(CommandError::ExportMispositioned)));
}

#[test]
fn continued_line_may_start_with_cd() {
    let spec = parsed("echo a \\\ncd /");
    assert_eq!(spec.binary, "echo");
    assert_eq!(spec.args, strings(&["a", "cd", "/"]));
}

#[test]
fn continuation_removes_backslash_and_line_break() {
    let spec = parsed("ec\\\nho hi");
    assert_eq!(spec.binary, "echo");
    assert_eq!(spec.args, strings(&["hi"]));
}

#[test]
fn parser_refuses_cd_and_export_in_command() {
    let mut parser = SpecParser::new();
    assert!(parser.feed("ls".to_string(), Some(strings(&["ls"])), true).is_ok());
    let r = parser.feed("cd /".to_string(), Some(strings(&["cd", "/"])), true);
    assert!(matches!(r, Err(CommandError::NoChangeDir)));
    let r = parser.feed("export A=B".to_string(), Some(strings(&["export", "A=B"])), true);
    assert!(matches!(r, Err(CommandError::ExportMispositioned)));
    let r = parser.feed("cd /".to_string(), Some(strings(&["cd", "/"])), false);
    assert!(r.is_ok());
}
