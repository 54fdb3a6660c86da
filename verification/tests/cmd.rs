use fsutil::{decode_output, ArgParser, CmdBuilder, UtilError};

#[test]
fn parse_splits_on_whitespace() {
    let argv = ArgParser::parse("ls -la /tmp").unwrap();
    assert_eq!(
        argv,
        vec!["ls".to_owned(), "-la".to_owned(), "/tmp".to_owned()]
    );
}

#[test]
fn parse_honours_quoting() {
    let argv = ArgParser::parse("echo \"a b\" c").unwrap();
    assert_eq!(argv, vec!["echo".to_owned(), "a b".to_owned(), "c".to_owned()]);
}

#[test]
fn parse_rejects_unclosed_quote() {
    let r = ArgParser::parse("echo \"unclosed");
    match r {
        Err(UtilError::BadCommandString(s)) => {
            assert_eq!(s, "echo \"unclosed");
        }
        _ => panic!("expected a parse failure"),
    }
}

#[test]
fn error_description_names_the_input() {
    let e = ArgParser::parse("oops\"").unwrap_err();
    assert_eq!(e.describe(), "invalid command string: oops\"");
}

#[test]
fn builder_defaults() {
    let b = CmdBuilder::new("true").unwrap();
    let cmd = b.build();
    assert_eq!(cmd.argv, vec!["true".to_owned()]);
    assert_eq!(cmd.cwd, ".".to_owned());
    assert!(!cmd.stream);
    assert!(cmd.envs.is_empty());
}

#[test]
fn builder_setters_apply() {
    let cmd = CmdBuilder::new("printenv")
        .unwrap()
        .cwd("/tmp".to_owned())
        .stream(true)
        .env("K".to_owned(), "1".to_owned())
        .env("K".to_owned(), "2".to_owned())
        .build();
    assert_eq!(cmd.cwd, "/tmp".to_owned());
    assert!(cmd.stream);
    assert_eq!(
        cmd.envs,
        vec![
            ("K".to_owned(), "1".to_owned()),
            ("K".to_owned(), "2".to_owned())
        ]
    );
}

#[test]
fn empty_command_string_builds_but_has_no_program() {
    let cmd = CmdBuilder::new("").unwrap().build();
    assert!(cmd.argv.is_empty());
    match cmd.program() {
        Err(UtilError::EmptyCommand) => {}
        _ => panic!("expected an empty-command failure"),
    }
}

#[test]
fn program_is_the_first_word() {
    let cmd = CmdBuilder::new("git status").unwrap().build();
    assert_eq!(cmd.program().unwrap(), "git");
}

#[test]
fn decode_strict_accepts_utf8() {
    let (out, err) = decode_output(b"hi", b"there", false).unwrap();
    assert_eq!(out, "hi");
    assert_eq!(err, "there");
}

#[test]
fn decode_strict_rejects_bad_stdout_first() {
    let r = decode_output(&[0xff], &[0xfe], false);
    match r {
        Err(UtilError::NonUtf8Stdout) => {}
        _ => panic!("expected a stdout decoding failure"),
    }
    let r = decode_output(b"ok", &[0xfe], false);
    match r {
        Err(UtilError::NonUtf8Stderr) => {}
        _ => panic!("expected a stderr decoding failure"),
    }
}

#[test]
fn decode_lossy_replaces_bad_bytes() {
    let (out, err) = decode_output(&[b'h', 0xff, b'i'], b"", true).unwrap();
    assert_eq!(out, "h\u{fffd}i");
    assert_eq!(err, "");
}
