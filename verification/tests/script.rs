use trycmd::{Bin, CommandStatus, Env, EnvVars, File, Run, TryCmd};

#[test]
fn parse_trycmd_command() {
    let expected = TryCmd {
        run: Run {
            bin: Some(Bin::Name("cmd".into())),
            status: Some(CommandStatus::Success),
            stderr_to_stdout: true,
            expected_stdout: Some(File::Text("".into())),
            expected_stderr: None,
            ..Default::default()
        },
        ..Default::default()
    };
    let actual = TryCmd::parse_trycmd("$ cmd").unwrap();
    assert_eq!(expected, actual);
}

#[test]
fn parse_trycmd_command_line() {
    let expected = TryCmd {
        run: Run {
            bin: Some(Bin::Name("cmd".into())),
            args: vec!["arg1".into(), "arg with space".into()],
            status: Some(CommandStatus::Success),
            stderr_to_stdout: true,
            expected_stdout: Some(File::Text("".into())),
            expected_stderr: None,
            ..Default::default()
        },
        ..Default::default()
    };
    let actual = TryCmd::parse_trycmd("$ cmd arg1 'arg with space'").unwrap();
    assert_eq!(expected, actual);
}

#[test]
fn parse_trycmd_multi_line() {
    let expected = TryCmd {
        run: Run {
            bin: Some(Bin::Name("cmd".into())),
            args: vec!["arg1".into(), "arg with space".into()],
            status: Some(CommandStatus::Success),
            stderr_to_stdout: true,
            expected_stdout: Some(File::Text("".into())),
            expected_stderr: None,
            ..Default::default()
        },
        ..Default::default()
    };
    let actual = TryCmd::parse_trycmd("$ cmd arg1\n> 'arg with space'").unwrap();
    assert_eq!(expected, actual);
}

#[test]
fn parse_trycmd_env() {
    let expected = TryCmd {
        run: Run {
            bin: Some(Bin::Name("cmd".into())),
            env: Env {
                add: EnvVars::from_pairs(vec![
                    ("KEY1".into(), "VALUE1".into()),
                    ("KEY2".into(), "VALUE2 with space".into()),
                ]),
                ..Default::default()
            },
            status: Some(CommandStatus::Success),
            stderr_to_stdout: true,
            expected_stdout: Some(File::Text("".into())),
            expected_stderr: None,
            ..Default::default()
        },
        ..Default::default()
    };
    let actual = TryCmd::parse_trycmd("$ KEY1=VALUE1 KEY2='VALUE2 with space' cmd").unwrap();
    assert_eq!(expected, actual);
}

#[test]
fn parse_trycmd_status() {
    let expected = TryCmd {
        run: Run {
            bin: Some(Bin::Name("cmd".into())),
            status: Some(CommandStatus::Skipped),
            stderr_to_stdout: true,
            expected_stdout: Some(File::Text("".into())),
            expected_stderr: None,
            ..Default::default()
        },
        ..Default::default()
    };
    let actual = TryCmd::parse_trycmd("$ cmd\n? skipped").unwrap();
    assert_eq!(expected, actual);
}

#[test]
fn parse_trycmd_status_code() {
    let expected = TryCmd {
        run: Run {
            bin: Some(Bin::Name("cmd".into())),
            status: Some(CommandStatus::Code(-1)),
            stderr_to_stdout: true,
            expected_stdout: Some(File::Text("".into())),
            expected_stderr: None,
            ..Default::default()
        },
        ..Default::default()
    };
    let actual = TryCmd::parse_trycmd("$ cmd\n? -1").unwrap();
    assert_eq!(expected, actual);
}

#[test]
fn parse_trycmd_stdout() {
    let expected = TryCmd {
        run: Run {
            bin: Some(Bin::Name("cmd".into())),
            status: Some(CommandStatus::Success),
            stderr_to_stdout: true,
            expected_stdout: Some(File::Text("Hello World".into())),
            expected_stderr: None,
            ..Default::default()
        },
        ..Default::default()
    };
    let actual = TryCmd::parse_trycmd("$ cmd\nHello World").unwrap();
    assert_eq!(expected, actual);
}

fn script(bin: &str, args: &[&str], status: CommandStatus, stdout: &str) -> TryCmd {
    TryCmd {
        run: Run {
            bin: Some(Bin::Name(bin.into())),
            args: args.iter().map(|a| a.to_string()).collect(),
            status: Some(status),
            stderr_to_stdout: true,
            expected_stdout: Some(File::Text(stdout.into())),
            ..Default::default()
        },
        ..Default::default()
    }
}

#[test]
fn script_from_str_is_the_parser() {
    let parsed: TryCmd = "$ cmd a\n? failed\nout\n".parse().unwrap();
    assert_eq!(parsed, TryCmd::parse_trycmd("$ cmd a\n? failed\nout\n").unwrap());
    assert_eq!(parsed, TryCmd::from_str("$ cmd a\n? failed\nout\n").unwrap());
    assert_eq!(parsed, script("cmd", &["a"], CommandStatus::Failed, "out\n"));
}

#[test]
fn script_empty_has_no_bin() {
    assert_eq!(TryCmd::parse_trycmd(""), Err("No bin specified".to_string()));
}

#[test]
fn script_command_line_without_words_has_no_bin() {
    assert_eq!(TryCmd::parse_trycmd("$ \n"), Err("No bin specified".to_string()));
    assert_eq!(TryCmd::parse_trycmd("$ A=1 B=2"), Err("No bin specified".to_string()));
}

#[test]
fn script_must_start_with_command_line() {
    assert_eq!(
        TryCmd::parse_trycmd("cmd\nHello"),
        Err("Expected `$` line, got `cmd\n`".to_string())
    );
    assert_eq!(TryCmd::parse_trycmd("$cmd"), Err("Expected `$` line, got `$cmd`".to_string()));
    assert_eq!(TryCmd::parse_trycmd("\n$ cmd"), Err("Expected `$` line, got `\n`".to_string()));
    assert_eq!(TryCmd::parse_trycmd("$"), Err("Expected `$` line, got `$`".to_string()));
}

#[test]
fn script_unknown_status_is_an_error() {
    assert_eq!(
        TryCmd::parse_trycmd("$ cmd\n? maybe\n"),
        Err("Expected an exit code, got maybe".to_string())
    );
    assert_eq!(
        TryCmd::parse_trycmd("$ cmd\n? Success\n"),
        Err("Expected an exit code, got Success".to_string())
    );
}

#[test]
fn script_status_error_comes_before_missing_bin() {
    assert_eq!(
        TryCmd::parse_trycmd("$ A=1\n? nope"),
        Err("Expected an exit code, got nope".to_string())
    );
}

#[test]
fn script_each_status_name() {
    for (word, status) in [
        ("success", CommandStatus::Success),
        ("failed", CommandStatus::Failed),
        ("interrupted", CommandStatus::Interrupted),
        ("skipped", CommandStatus::Skipped),
        ("42", CommandStatus::Code(42)),
        ("0", CommandStatus::Code(0)),
    ] {
        let text = format!("$ cmd\n?   {}  \nrest", word);
        assert_eq!(TryCmd::parse_trycmd(&text).unwrap(), script("cmd", &[], status, "rest"));
    }
}

#[test]
fn script_output_is_kept_verbatim() {
    let actual = TryCmd::parse_trycmd("$ cmd\n? 3\n  line 1 \n\nline 3\n").unwrap();
    assert_eq!(actual, script("cmd", &[], CommandStatus::Code(3), "  line 1 \n\nline 3\n"));
}

#[test]
fn script_only_one_status_line() {
    let actual = TryCmd::parse_trycmd("$ cmd\n? failed\n? skipped\n").unwrap();
    assert_eq!(actual, script("cmd", &[], CommandStatus::Failed, "? skipped\n"));
}

#[test]
fn script_markers_after_the_output_starts_are_output() {
    let actual = TryCmd::parse_trycmd("$ cmd\nout\n> more\n$ other\n").unwrap();
    assert_eq!(actual, script("cmd", &[], CommandStatus::Success, "out\n> more\n$ other\n"));
}

#[test]
fn script_continuation_lines_add_words() {
    let actual = TryCmd::parse_trycmd("$ cmd a\n> b 'c d'\n> e\n? 1\nout").unwrap();
    assert_eq!(actual, script("cmd", &["a", "b", "c d", "e"], CommandStatus::Code(1), "out"));
}

#[test]
fn script_marker_needs_its_space() {
    let actual = TryCmd::parse_trycmd("$ cmd\n>more\n").unwrap();
    assert_eq!(actual, script("cmd", &[], CommandStatus::Success, ">more\n"));
    let actual = TryCmd::parse_trycmd("$ cmd\n?1\n").unwrap();
    assert_eq!(actual, script("cmd", &[], CommandStatus::Success, "?1\n"));
}

#[test]
fn script_command_is_trimmed_of_any_white_space() {
    let actual = TryCmd::parse_trycmd("$ \t\u{2003} cmd  a \u{a0}\r\n").unwrap();
    assert_eq!(actual, script("cmd", &["a"], CommandStatus::Success, ""));
}

#[test]
fn script_later_setting_replaces_earlier() {
    let actual = TryCmd::parse_trycmd("$ A=1 B=x A=2 cmd A=3").unwrap();
    let mut expected = script("cmd", &["A=3"], CommandStatus::Success, "");
    expected.run.env.add.insert("A".into(), "2".into());
    expected.run.env.add.insert("B".into(), "x".into());
    assert_eq!(actual, expected);
    assert_eq!(actual.run.env.add.get("A"), Some(&"2".to_string()));
}

#[test]
fn script_setting_is_cut_at_the_first_equals_sign() {
    let actual = TryCmd::parse_trycmd("$ A=b=c =v K= cmd").unwrap();
    let add = &actual.run.env.add;
    assert_eq!(add.len(), 3);
    assert_eq!(add.get("A"), Some(&"b=c".to_string()));
    assert_eq!(add.get(""), Some(&"v".to_string()));
    assert_eq!(add.get("K"), Some(&"".to_string()));
    assert_eq!(actual.run.bin, Some(Bin::Name("cmd".into())));
}

#[test]
fn script_word_with_equals_sign_before_the_bin_is_a_setting() {
    let actual = TryCmd::parse_trycmd("$ --flag=x cmd --other=y").unwrap();
    assert_eq!(actual.run.bin, Some(Bin::Name("cmd".into())));
    assert_eq!(actual.run.args, vec!["--other=y".to_string()]);
    assert_eq!(actual.run.env.add.get("--flag"), Some(&"x".to_string()));
    assert_eq!(actual.run.env.add.len(), 1);
}

#[test]
fn script_from_words_assembles_the_case() {
    let words = vec!["K=v".to_string(), "bin".to_string(), "x".to_string()];
    let actual = TryCmd::from_words(words, CommandStatus::Interrupted, "o".into()).unwrap();
    let mut expected = script("bin", &["x"], CommandStatus::Interrupted, "o");
    expected.run.env.add.insert("K".into(), "v".into());
    assert_eq!(actual, expected);
    assert_eq!(
        TryCmd::from_words(vec![], CommandStatus::Success, String::new()),
        Err("No bin specified".to_string())
    );
}

#[test]
fn script_case_has_the_defaults_of_the_syntax() {
    let case = TryCmd::parse_trycmd("$ cmd").unwrap();
    assert!(case.run.stderr_to_stdout);
    assert_eq!(case.run.status(), CommandStatus::Success);
    assert_eq!(case.run.stdin(), None);
    assert_eq!(case.run.env, Env::default());
    assert_eq!(case.fs, trycmd::Filesystem::default());
    assert_eq!(case.run.timeout, None);
    assert!(!case.run.binary);
}
