use sunmao_tools::interactive::{
    checked_command, expect_tolerance, parse_command, resolve_param_ref, split_words, Command,
    NumberCheck, ParamRef,
};

/// The default tolerance the original host names.
const DEFAULT_EXPECT_TOLERANCE: f64 = 1e-6;

/// A line with its floating-point operands converted, as the host does
/// after the library has checked them.
#[derive(Debug)]
enum Line {
    SetTo { param: ParamRef, value: f64 },
    Expect { param: ParamRef, value: f64, tolerance: f64 },
    Other(Command),
}

impl PartialEq for Line {
    fn eq(&self, other: &Self) -> bool {
        format!("{self:?}") == format!("{other:?}")
    }
}

/// What the number parser makes of an operand, and how it prints.
fn classify(text: &str) -> (NumberCheck, String) {
    match text.parse::<f64>() {
        Err(_) => (NumberCheck::NotANumber, String::new()),
        Ok(v) if !v.is_finite() => (NumberCheck::NotFinite, v.to_string()),
        Ok(v) if v < 0.0 => (NumberCheck::Negative, v.to_string()),
        Ok(v) => (NumberCheck::NonNegative, v.to_string()),
    }
}

fn parse_line(line: &str) -> Result<Option<Line>, String> {
    let parsed = parse_command(line);
    let (value_text, tolerance_given) = match &parsed {
        Ok(Some(Command::SetValue { value, .. })) => (value.clone(), None),
        Ok(Some(Command::Expect { value, tolerance, .. })) => (value.clone(), tolerance.clone()),
        _ => (String::new(), None),
    };
    let (value_check, _) = classify(&value_text);
    let (tolerance_check, shown) = classify(&expect_tolerance(&tolerance_given));
    Ok(match checked_command(parsed, value_check, tolerance_check, &shown)? {
        None => None,
        Some(Command::SetValue { param, value }) => {
            Some(Line::SetTo { param, value: value.parse().unwrap() })
        }
        Some(Command::Expect { param, value, tolerance }) => Some(Line::Expect {
            param,
            value: value.parse().unwrap(),
            tolerance: tolerance.expect("filled in").parse().unwrap(),
        }),
        Some(other) => Some(Line::Other(other)),
    })
}

fn other(line: &str) -> Command {
    match parse_line(line).expect("ok") {
        Some(Line::Other(command)) => command,
        parsed => panic!("{line}: {parsed:?}"),
    }
}

#[test]
fn blank_and_comment_lines_are_not_commands() {
    assert_eq!(parse_line("").expect("ok"), None);
    assert_eq!(parse_line("   ").expect("ok"), None);
    assert_eq!(parse_line("# a note").expect("ok"), None);
}

#[test]
fn parameter_commands_parse() {
    assert_eq!(
        parse_line("set 3 0.25").expect("ok"),
        Some(Line::SetTo { param: ParamRef::Id(3), value: 0.25 })
    );
    assert!(matches!(
        other("get 3"),
        Command::Get { param: ParamRef::Id(3) }
    ));
}

#[test]
fn a_hashed_index_addresses_a_position_not_an_id() {
    assert_eq!(
        parse_line("set #0 0.25").expect("ok"),
        Some(Line::SetTo { param: ParamRef::Index(0), value: 0.25 })
    );
    assert_eq!(
        parse_line("expect #2 1").expect("ok"),
        Some(Line::Expect {
            param: ParamRef::Index(2),
            value: 1.0,
            tolerance: DEFAULT_EXPECT_TOLERANCE
        })
    );
    assert_ne!(ParamRef::Index(3), ParamRef::Id(3));
    assert!(parse_line("get #x").is_err());
    assert!(parse_line("get #").is_err());
}

#[test]
fn expect_defaults_to_a_named_tolerance_and_accepts_an_explicit_one() {
    assert_eq!(
        parse_line("expect 1 0.5").expect("ok"),
        Some(Line::Expect {
            param: ParamRef::Id(1),
            value: 0.5,
            tolerance: DEFAULT_EXPECT_TOLERANCE
        })
    );
    assert_eq!(
        parse_line("expect 1 0.5 0.01").expect("ok"),
        Some(Line::Expect { param: ParamRef::Id(1), value: 0.5, tolerance: 0.01 })
    );
    assert!(parse_line("expect 1 0.5 -0.01").is_err());
}

#[test]
fn a_zero_tolerance_is_allowed_because_it_is_a_deliberate_choice() {
    assert_eq!(
        parse_line("expect 1 0.5 0").expect("ok"),
        Some(Line::Expect { param: ParamRef::Id(1), value: 0.5, tolerance: 0.0 })
    );
}

#[test]
fn file_commands_parse_both_verbs_for_both_kinds() {
    assert!(matches!(other("state save a.bin"), Command::StateSave { path } if path == "a.bin"));
    assert!(matches!(other("state load a.bin"), Command::StateLoad { path } if path == "a.bin"));
    assert!(matches!(
        other("preset save a.vstpreset"),
        Command::PresetSave { path } if path == "a.vstpreset"
    ));
    assert!(matches!(
        other("preset load a.vstpreset"),
        Command::PresetLoad { path } if path == "a.vstpreset"
    ));
}

#[test]
fn editor_commands_parse() {
    assert!(matches!(other("editor open"), Command::EditorOpen));
    assert!(matches!(other("editor close"), Command::EditorClose));
    assert!(parse_line("editor").is_err());
    assert!(parse_line("editor sideways").is_err());
}

#[test]
fn process_defaults_to_the_session_block_size() {
    assert!(matches!(other("process"), Command::Process { frames: 0 }));
    assert!(matches!(other("process 64"), Command::Process { frames: 64 }));
}

#[test]
fn echo_keeps_the_rest_of_the_line_intact() {
    assert!(matches!(
        other("echo   two words  "),
        Command::Echo { text } if text == "two words"
    ));
}

#[test]
fn malformed_lines_are_rejected_with_a_reason() {
    for line in [
        "set",
        "set 1",
        "set one 0.5",
        "set 1 not-a-number",
        "set 1 inf",
        "set -1 0.5",
        "get",
        "expect 1",
        "process sixty-four",
        "state",
        "state save",
        "state rename a.bin",
        "preset flip a.bin",
        "wiggle",
    ] {
        assert!(parse_line(line).is_err(), "{line:?} should be rejected");
    }
}

#[test]
fn refusals_name_the_command_and_the_operand() {
    let cases = [
        ("set", "set: missing parameter id or #index"),
        ("set 1", "set: missing value"),
        ("get one", "get: 'one' is neither a parameter id nor a #index"),
        ("get #x", "get: '#x' is not a parameter index"),
        ("process sixty-four", "process: frame count 'sixty-four' is not a non-negative integer"),
        ("state", "state: expected 'save' or 'load'"),
        ("state save", "state save: missing file path"),
        ("preset flip a.bin", "preset: unknown subcommand 'flip'"),
        ("editor", "editor: expected 'open' or 'close'"),
        ("editor sideways", "editor: unknown subcommand 'sideways'"),
        ("wiggle now", "unknown command 'wiggle'"),
    ];
    for (line, message) in cases {
        assert_eq!(parse_command(line).unwrap_err(), message, "{line}");
    }
    assert!(matches!(other("  quit "), Command::Quit));
    assert!(matches!(other("exit"), Command::Quit));
    assert!(matches!(other("help"), Command::Help));
}

#[test]
fn words_split_like_the_standard_library() {
    for line in ["", "  a  b\tc\n", "one", "\u{3000}x\u{3000}y"] {
        let expected: Vec<String> = line.split_whitespace().map(str::to_string).collect();
        assert_eq!(split_words(line), expected, "{line:?}");
    }
}

#[test]
fn parameter_references_resolve_through_the_listing() {
    assert_eq!(ParamRef::Id(7).describe(), "id 7");
    assert_eq!(ParamRef::Index(0).describe(), "index #0");
    assert_eq!(resolve_param_ref(ParamRef::Id(42), 0, None), Ok(42));
    assert_eq!(resolve_param_ref(ParamRef::Index(1), 3, Some(1001)), Ok(1001));
    assert_eq!(
        resolve_param_ref(ParamRef::Index(3), 3, Some(1001)),
        Err("parameter index #3 is out of range; the plugin has 3".to_string())
    );
    assert_eq!(
        resolve_param_ref(ParamRef::Index(2), 3, None),
        Err("parameter index #2 has no info".to_string())
    );
}

#[test]
fn numeric_operands_are_refused_as_the_host_refuses_them() {
    assert_eq!(parse_line("set 3 abc").unwrap_err(), "set: value 'abc' is not a number");
    assert_eq!(parse_line("set 3 inf").unwrap_err(), "set: value 'inf' is not finite");
    assert_eq!(parse_line("expect 3 NaN").unwrap_err(), "expect: value 'NaN' is not finite");
    assert_eq!(parse_line("expect 3 1 x").unwrap_err(), "expect: tolerance 'x' is not a number");
    assert_eq!(parse_line("expect 3 1 -0.50").unwrap_err(), "expect: tolerance -0.5 is negative");
    assert!(parse_line("expect 3 -1 -0").is_ok());
    assert_eq!(expect_tolerance(&None), "1e-6");
    assert_eq!(expect_tolerance(&Some("0.5".to_string())), "0.5");
    assert_eq!("1e-6".parse::<f64>().unwrap(), DEFAULT_EXPECT_TOLERANCE);
}

#[test]
fn checked_lines_fill_in_the_default_tolerance() {
    match checked_command(parse_command("expect 3 0.5"), NumberCheck::NonNegative, NumberCheck::NonNegative, "0.000001") {
        Ok(Some(Command::Expect { tolerance, .. })) => assert_eq!(tolerance.as_deref(), Some("1e-6")),
        other => panic!("{other:?}"),
    }
    assert_eq!(
        checked_command(parse_command("set 1 inf"), NumberCheck::NotFinite, NumberCheck::NonNegative, "").unwrap_err(),
        "set: value 'inf' is not finite"
    );
    assert_eq!(
        checked_command(parse_command("frobnicate"), NumberCheck::NotANumber, NumberCheck::NotANumber, "").unwrap_err(),
        "unknown command 'frobnicate'"
    );
    assert!(checked_command(parse_command("# note"), NumberCheck::NotANumber, NumberCheck::NotANumber, "").unwrap().is_none());
}
