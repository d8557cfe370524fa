use miniclap::{
    parse_args, ArgHandlers, Error, ErrorKind, FlagHandler, OptionHandler, ParsedAssign,
    PositionalHandler, Sinks, Value, ValueType,
};

fn toks(words: &[&str]) -> Vec<Option<String>> {
    words.iter().map(|w| Some(w.to_string())).collect()
}

fn verbose_num_foo() -> ArgHandlers {
    ArgHandlers {
        flags: vec![FlagHandler { name: "verbose".to_string(), short: Some('v'), long: None }],
        options: vec![OptionHandler {
            name: "num".to_string(),
            short: None,
            long: Some("num".to_string()),
            is_multiple: false,
            required: false,
            assign: ParsedAssign::new("num".to_string(), ValueType::I64),
        }],
        positions: vec![PositionalHandler {
            name: "foo".to_string(),
            is_multiple: false,
            required: false,
            assign: ParsedAssign::new("foo".to_string(), ValueType::Str),
        }],
    }
}

fn str_option(name: &str, short: Option<char>, long: Option<&str>) -> OptionHandler {
    OptionHandler {
        name: name.to_string(),
        short,
        long: long.map(|l| l.to_string()),
        is_multiple: false,
        required: false,
        assign: ParsedAssign::new(name.to_string(), ValueType::Str),
    }
}

fn flag(name: &str, short: char) -> FlagHandler {
    FlagHandler { name: name.to_string(), short: Some(short), long: None }
}

#[test]
fn lib_simple() {
    let handlers = verbose_num_foo();
    let mut sinks = Sinks::new(&handlers);
    let res = parse_args(&toks(&["foo", "--num=10", "-vvv", "hello"]), &handlers, &mut sinks);
    assert!(res.is_ok());
    assert_eq!(sinks.flag_counts[0], 3);
    assert_eq!(sinks.option_values[0], vec![Value::I64(10)]);
    assert_eq!(sinks.positional_values[0], vec![Value::Str("hello".to_string())]);
}

#[test]
fn parse_simple() {
    let handlers = verbose_num_foo();
    let mut sinks = Sinks::new(&handlers);
    let res = parse_args(&toks(&["foo", "--num=10", "-vvv", "hello"]), &handlers, &mut sinks);
    assert!(res.is_ok());
    assert_eq!(sinks.flag_counts[0], 3);
    assert_eq!(sinks.option_values[0], vec![Value::I64(10)]);
    assert_eq!(sinks.positional_values[0], vec![Value::Str("hello".to_string())]);
}

#[test]
fn short_option_value_forms_agree() {
    // -oVAL, -o VAL and -o=VAL all decode identically.
    let handlers =
        ArgHandlers { flags: vec![], options: vec![str_option("o", Some('o'), None)], positions: vec![] };
    let mut results = Vec::new();
    for args in [&["prog", "-oVAL"][..], &["prog", "-o", "VAL"][..], &["prog", "-o=VAL"][..]] {
        let mut sinks = Sinks::new(&handlers);
        let res = parse_args(&toks(args), &handlers, &mut sinks);
        assert!(res.is_ok());
        results.push(sinks.option_values[0].clone());
    }
    assert_eq!(results[0], vec![Value::Str("VAL".to_string())]);
    assert_eq!(results[0], results[1]);
    assert_eq!(results[1], results[2]);
}

#[test]
fn flag_with_inline_value_is_rejected() {
    let handlers = ArgHandlers {
        flags: vec![flag("verbose", 'v')],
        options: vec![],
        positions: vec![],
    };
    let mut sinks = Sinks::new(&handlers);
    let res = parse_args(&toks(&["prog", "-v=x"]), &handlers, &mut sinks);
    let err = res.unwrap_err();
    assert_eq!(err.kind, ErrorKind::UnexpectedValue);
    assert_eq!(err.message, "Flag '-v' cannot take a value");
}

#[test]
fn long_flag_with_inline_value_is_rejected() {
    let handlers = ArgHandlers {
        flags: vec![FlagHandler {
            name: "verbose".to_string(),
            short: None,
            long: Some("verbose".to_string()),
        }],
        options: vec![],
        positions: vec![],
    };
    let mut sinks = Sinks::new(&handlers);
    let res = parse_args(&toks(&["prog", "--verbose=x"]), &handlers, &mut sinks);
    let err = res.unwrap_err();
    assert_eq!(err.kind, ErrorKind::UnexpectedValue);
    assert_eq!(err.message, "Flag '--verbose' cannot take a value");
}

#[test]
fn second_positional_is_one_too_many() {
    let handlers = ArgHandlers {
        flags: vec![],
        options: vec![],
        positions: vec![PositionalHandler {
            name: "foo".to_string(),
            is_multiple: false,
            required: false,
            assign: ParsedAssign::new("foo".to_string(), ValueType::Str),
        }],
    };
    let mut sinks = Sinks::new(&handlers);
    let res = parse_args(&toks(&["prog", "one", "two"]), &handlers, &mut sinks);
    let err = res.unwrap_err();
    assert_eq!(err.kind, ErrorKind::TooManyPositional);
    assert_eq!(err.message, "Too many positional arguments, starting with 'two'");
    // The first token was still assigned before the error.
    assert_eq!(sinks.positional_values[0], vec![Value::Str("one".to_string())]);
}

#[test]
fn trailing_option_without_value() {
    let handlers = verbose_num_foo();
    let mut sinks = Sinks::new(&handlers);
    let res = parse_args(&toks(&["prog", "--num"]), &handlers, &mut sinks);
    let err = res.unwrap_err();
    assert_eq!(err.kind, ErrorKind::MissingValue);
    assert_eq!(err.message, "Missing value for '--num'");
}

#[test]
fn trailing_short_option_without_value() {
    let handlers =
        ArgHandlers { flags: vec![], options: vec![str_option("o", Some('o'), None)], positions: vec![] };
    let mut sinks = Sinks::new(&handlers);
    let res = parse_args(&toks(&["prog", "-o"]), &handlers, &mut sinks);
    let err = res.unwrap_err();
    assert_eq!(err.kind, ErrorKind::MissingValue);
    assert_eq!(err.message, "Missing value for '-o'");
}

#[test]
fn required_option_missing_at_finalization() {
    let mut handlers = verbose_num_foo();
    handlers.options[0].required = true;
    let mut sinks = Sinks::new(&handlers);
    // The loop itself completes without error; the finalization check fails.
    let res = parse_args(&toks(&["prog", "-v", "hello"]), &handlers, &mut sinks);
    let err = res.unwrap_err();
    assert_eq!(err.kind, ErrorKind::MissingRequiredArgument);
    assert_eq!(err.message, "Missing required argument 'num'");
    assert_eq!(sinks.flag_counts[0], 1);
}

#[test]
fn required_positional_missing_at_finalization() {
    let handlers = ArgHandlers {
        flags: vec![],
        options: vec![],
        positions: vec![PositionalHandler {
            name: "input".to_string(),
            is_multiple: false,
            required: true,
            assign: ParsedAssign::new("input".to_string(), ValueType::Str),
        }],
    };
    let mut sinks = Sinks::new(&handlers);
    let res = parse_args(&toks(&["prog"]), &handlers, &mut sinks);
    let err = res.unwrap_err();
    assert_eq!(err.kind, ErrorKind::MissingRequiredArgument);
    assert_eq!(err.message, "Missing required argument 'input'");
}

#[test]
fn unknown_long_switch() {
    let handlers = verbose_num_foo();
    let mut sinks = Sinks::new(&handlers);
    let res = parse_args(&toks(&["prog", "--bogus"]), &handlers, &mut sinks);
    let err = res.unwrap_err();
    assert_eq!(err.kind, ErrorKind::UnknownSwitch);
    assert_eq!(err.message, "Did not recognize argument '--bogus'");
}

#[test]
fn unknown_short_switch() {
    let handlers = verbose_num_foo();
    let mut sinks = Sinks::new(&handlers);
    let res = parse_args(&toks(&["prog", "-x"]), &handlers, &mut sinks);
    let err = res.unwrap_err();
    assert_eq!(err.kind, ErrorKind::UnknownSwitch);
    assert_eq!(err.message, "Did not recognize argument '-x'");
}

#[test]
fn unknown_char_inside_cluster() {
    let handlers = ArgHandlers {
        flags: vec![flag("verbose", 'v')],
        options: vec![],
        positions: vec![],
    };
    let mut sinks = Sinks::new(&handlers);
    let res = parse_args(&toks(&["prog", "-vxv"]), &handlers, &mut sinks);
    let err = res.unwrap_err();
    assert_eq!(err.kind, ErrorKind::UnknownSwitch);
    assert_eq!(err.message, "Did not recognize argument '-x'");
    // The leading flag was assigned before the failure.
    assert_eq!(sinks.flag_counts[0], 1);
}

#[test]
fn cluster_flags_then_option_remainder() {
    // -abo VALUE forms: a and b are flags, o takes the rest or the next token.
    let handlers = ArgHandlers {
        flags: vec![flag("alpha", 'a'), flag("beta", 'b')],
        options: vec![str_option("out", Some('o'), None)],
        positions: vec![],
    };
    for args in [&["prog", "-aboVAL"][..], &["prog", "-abo=VAL"][..], &["prog", "-abo", "VAL"][..]] {
        let mut sinks = Sinks::new(&handlers);
        let res = parse_args(&toks(args), &handlers, &mut sinks);
        assert!(res.is_ok(), "failed on {:?}", args);
        assert_eq!(sinks.flag_counts[0], 1);
        assert_eq!(sinks.flag_counts[1], 1);
        assert_eq!(sinks.option_values[0], vec![Value::Str("VAL".to_string())]);
    }
}

#[test]
fn cluster_option_mid_equals() {
    // -vo=x: v is a flag, o is an option whose value follows the '='.
    let handlers = ArgHandlers {
        flags: vec![flag("verbose", 'v')],
        options: vec![str_option("out", Some('o'), None)],
        positions: vec![],
    };
    let mut sinks = Sinks::new(&handlers);
    let res = parse_args(&toks(&["prog", "-vo=x"]), &handlers, &mut sinks);
    assert!(res.is_ok());
    assert_eq!(sinks.flag_counts[0], 1);
    assert_eq!(sinks.option_values[0], vec![Value::Str("x".to_string())]);
}

#[test]
fn double_dash_switches_to_positional_mode() {
    let handlers = ArgHandlers {
        flags: vec![flag("verbose", 'v')],
        options: vec![],
        positions: vec![PositionalHandler {
            name: "rest".to_string(),
            is_multiple: true,
            required: false,
            assign: ParsedAssign::new("rest".to_string(), ValueType::Str),
        }],
    };
    let mut sinks = Sinks::new(&handlers);
    let res = parse_args(&toks(&["prog", "-v", "--", "-v", "--num=3"]), &handlers, &mut sinks);
    assert!(res.is_ok());
    assert_eq!(sinks.flag_counts[0], 1);
    assert_eq!(
        sinks.positional_values[0],
        vec![Value::Str("-v".to_string()), Value::Str("--num=3".to_string())]
    );
}

#[test]
fn lone_dash_and_empty_token_are_positional() {
    let handlers = ArgHandlers {
        flags: vec![],
        options: vec![],
        positions: vec![PositionalHandler {
            name: "rest".to_string(),
            is_multiple: true,
            required: false,
            assign: ParsedAssign::new("rest".to_string(), ValueType::Str),
        }],
    };
    let mut sinks = Sinks::new(&handlers);
    let res = parse_args(&toks(&["prog", "-", ""]), &handlers, &mut sinks);
    assert!(res.is_ok());
    assert_eq!(
        sinks.positional_values[0],
        vec![Value::Str("-".to_string()), Value::Str("".to_string())]
    );
}

#[test]
fn non_text_token_is_invalid_utf8() {
    let handlers = verbose_num_foo();
    let mut sinks = Sinks::new(&handlers);
    let args = vec![Some("prog".to_string()), None];
    let res = parse_args(&args, &handlers, &mut sinks);
    let err = res.unwrap_err();
    assert_eq!(err.kind, ErrorKind::InvalidUtf8);
    assert_eq!(err.message, "Invalid UTF-8 was detected in one or more arguments");
}

#[test]
fn non_text_value_token_is_invalid_utf8() {
    let handlers = verbose_num_foo();
    let mut sinks = Sinks::new(&handlers);
    let args = vec![Some("prog".to_string()), Some("--num".to_string()), None];
    let res = parse_args(&args, &handlers, &mut sinks);
    assert_eq!(res.unwrap_err().kind, ErrorKind::InvalidUtf8);
}

#[test]
fn parse_failed_carries_name_and_cause() {
    let handlers = verbose_num_foo();
    let mut sinks = Sinks::new(&handlers);
    let res = parse_args(&toks(&["prog", "--num=abc"]), &handlers, &mut sinks);
    let err = res.unwrap_err();
    assert_eq!(err.kind, ErrorKind::ParseFailed);
    assert_eq!(err.message, "Invalid value for 'num': invalid digit found in string");
    assert_eq!(err.source, Some("invalid digit found in string".to_string()));
}

#[test]
fn single_valued_option_last_occurrence_wins() {
    let handlers =
        ArgHandlers { flags: vec![], options: vec![str_option("o", Some('o'), None)], positions: vec![] };
    let mut sinks = Sinks::new(&handlers);
    let res = parse_args(&toks(&["prog", "-o", "first", "-o", "second"]), &handlers, &mut sinks);
    assert!(res.is_ok());
    assert_eq!(sinks.option_values[0], vec![Value::Str("second".to_string())]);
}

#[test]
fn seeded_default_is_overwritten() {
    let handlers =
        ArgHandlers { flags: vec![], options: vec![str_option("o", Some('o'), None)], positions: vec![] };
    let mut sinks = Sinks::new(&handlers);
    sinks.option_values[0].push(Value::Str("default".to_string()));
    let res = parse_args(&toks(&["prog", "-o", "given"]), &handlers, &mut sinks);
    assert!(res.is_ok());
    assert_eq!(sinks.option_values[0], vec![Value::Str("given".to_string())]);
}

#[test]
fn seeded_default_survives_when_absent() {
    let mut handlers =
        ArgHandlers { flags: vec![], options: vec![str_option("o", Some('o'), None)], positions: vec![] };
    handlers.options[0].required = true;
    let mut sinks = Sinks::new(&handlers);
    sinks.option_values[0].push(Value::Str("default".to_string()));
    let res = parse_args(&toks(&["prog"]), &handlers, &mut sinks);
    // The seeded slot counts as a received value at finalization.
    assert!(res.is_ok());
    assert_eq!(sinks.option_values[0], vec![Value::Str("default".to_string())]);
}

#[test]
fn multiple_option_collects_in_order() {
    let mut handlers =
        ArgHandlers { flags: vec![], options: vec![str_option("o", Some('o'), None)], positions: vec![] };
    handlers.options[0].is_multiple = true;
    let mut sinks = Sinks::new(&handlers);
    let res = parse_args(&toks(&["prog", "-o", "first", "-o=second"]), &handlers, &mut sinks);
    assert!(res.is_ok());
    assert_eq!(
        sinks.option_values[0],
        vec![Value::Str("first".to_string()), Value::Str("second".to_string())]
    );
}

#[test]
fn multiple_positional_collects_overflow() {
    let handlers = ArgHandlers {
        flags: vec![],
        options: vec![],
        positions: vec![
            PositionalHandler {
                name: "first".to_string(),
                is_multiple: false,
                required: false,
                assign: ParsedAssign::new("first".to_string(), ValueType::Str),
            },
            PositionalHandler {
                name: "rest".to_string(),
                is_multiple: true,
                required: false,
                assign: ParsedAssign::new("rest".to_string(), ValueType::Str),
            },
        ],
    };
    let mut sinks = Sinks::new(&handlers);
    let res = parse_args(&toks(&["prog", "a", "b", "c", "d"]), &handlers, &mut sinks);
    assert!(res.is_ok());
    assert_eq!(sinks.positional_values[0], vec![Value::Str("a".to_string())]);
    assert_eq!(
        sinks.positional_values[1],
        vec![
            Value::Str("b".to_string()),
            Value::Str("c".to_string()),
            Value::Str("d".to_string())
        ]
    );
}

#[test]
fn empty_stream_is_ok_without_required_specs() {
    let handlers = verbose_num_foo();
    let mut sinks = Sinks::new(&handlers);
    let res = parse_args(&Vec::new(), &handlers, &mut sinks);
    assert!(res.is_ok());
    assert_eq!(sinks.flag_counts[0], 0);
    assert!(sinks.option_values[0].is_empty());
}

#[test]
fn empty_stream_still_checks_required() {
    let mut handlers = verbose_num_foo();
    handlers.options[0].required = true;
    let mut sinks = Sinks::new(&handlers);
    let res = parse_args(&Vec::new(), &handlers, &mut sinks);
    assert_eq!(res.unwrap_err().kind, ErrorKind::MissingRequiredArgument);
}

#[test]
fn reparsing_fresh_sinks_is_identical() {
    let handlers = verbose_num_foo();
    let args = toks(&["prog", "--num=7", "-vv", "world"]);
    let mut first = Sinks::new(&handlers);
    let mut second = Sinks::new(&handlers);
    assert!(parse_args(&args, &handlers, &mut first).is_ok());
    assert!(parse_args(&args, &handlers, &mut second).is_ok());
    assert_eq!(first.flag_counts, second.flag_counts);
    assert_eq!(first.option_values, second.option_values);
    assert_eq!(first.positional_values, second.positional_values);
}

#[test]
fn other_error_carries_message() {
    let e = Error::other("custom validation failed".to_string());
    assert_eq!(e.kind, ErrorKind::Other);
    assert_eq!(e.message, "custom validation failed");
    assert!(e.source.is_none());
}
