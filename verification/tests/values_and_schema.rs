use miniclap::value::parse_i64;
use miniclap::{
    parse_args, ArgHandlers, ErrorKind, FlagHandler, IntParse, OptionHandler, ParsedAssign,
    PositionalHandler, Sinks, Value, ValueType,
};

fn toks(words: &[&str]) -> Vec<Option<String>> {
    words.iter().map(|w| Some(w.to_string())).collect()
}

fn i64_option(name: &str, long: &str) -> OptionHandler {
    OptionHandler {
        name: name.to_string(),
        short: None,
        long: Some(long.to_string()),
        is_multiple: false,
        required: false,
        assign: ParsedAssign::new(name.to_string(), ValueType::I64),
    }
}

#[test]
fn integer_decoding_exact_values() {
    assert_eq!(parse_i64("0"), IntParse::Value(0));
    assert_eq!(parse_i64("10"), IntParse::Value(10));
    assert_eq!(parse_i64("+42"), IntParse::Value(42));
    assert_eq!(parse_i64("-0"), IntParse::Value(0));
    assert_eq!(parse_i64("-123456789"), IntParse::Value(-123456789));
    assert_eq!(parse_i64("9223372036854775807"), IntParse::Value(i64::MAX));
    assert_eq!(parse_i64("-9223372036854775808"), IntParse::Value(i64::MIN));
}

#[test]
fn integer_decoding_errors() {
    assert_eq!(parse_i64(""), IntParse::Empty);
    assert_eq!(parse_i64("+"), IntParse::InvalidDigit);
    assert_eq!(parse_i64("-"), IntParse::InvalidDigit);
    assert_eq!(parse_i64("12a"), IntParse::InvalidDigit);
    assert_eq!(parse_i64(" 1"), IntParse::InvalidDigit);
    assert_eq!(parse_i64("9223372036854775808"), IntParse::PosOverflow);
    assert_eq!(parse_i64("-9223372036854775809"), IntParse::NegOverflow);
    assert_eq!(parse_i64("99999999999999999999x"), IntParse::PosOverflow);
}

#[test]
fn overflow_message_through_parse() {
    let handlers =
        ArgHandlers { flags: vec![], options: vec![i64_option("num", "num")], positions: vec![] };
    let mut sinks = Sinks::new(&handlers);
    let res = parse_args(&toks(&["prog", "--num=9223372036854775808"]), &handlers, &mut sinks);
    let err = res.unwrap_err();
    assert_eq!(err.kind, ErrorKind::ParseFailed);
    assert_eq!(err.message, "Invalid value for 'num': number too large to fit in target type");
    let mut sinks2 = Sinks::new(&handlers);
    let res2 = parse_args(&toks(&["prog", "--num=-9223372036854775809"]), &handlers, &mut sinks2);
    assert_eq!(
        res2.unwrap_err().message,
        "Invalid value for 'num': number too small to fit in target type"
    );
    let mut sinks3 = Sinks::new(&handlers);
    let res3 = parse_args(&toks(&["prog", "--num="]), &handlers, &mut sinks3);
    assert_eq!(
        res3.unwrap_err().message,
        "Invalid value for 'num': cannot parse integer from empty string"
    );
}

#[test]
fn assign_decodes_at_declared_type() {
    let a = ParsedAssign::new("n".to_string(), ValueType::I64);
    assert_eq!(a.assign("17".to_string()).unwrap(), Value::I64(17));
    let s = ParsedAssign::new("s".to_string(), ValueType::Str);
    assert_eq!(s.assign("17".to_string()).unwrap(), Value::Str("17".to_string()));
    let e = a.assign("oops".to_string()).unwrap_err();
    assert_eq!(e.kind, ErrorKind::ParseFailed);
}

#[test]
fn builder_accepts_distinct_switches() {
    let r = ArgHandlers::new(
        vec![FlagHandler { name: "verbose".to_string(), short: Some('v'), long: None }],
        vec![i64_option("num", "num")],
        vec![PositionalHandler {
            name: "foo".to_string(),
            is_multiple: false,
            required: true,
            assign: ParsedAssign::new("foo".to_string(), ValueType::Str),
        }],
    );
    assert!(r.is_ok());
    assert!(r.unwrap().validate());
}

#[test]
fn builder_rejects_duplicate_short() {
    let r = ArgHandlers::new(
        vec![FlagHandler { name: "verbose".to_string(), short: Some('v'), long: None }],
        vec![OptionHandler {
            name: "value".to_string(),
            short: Some('v'),
            long: None,
            is_multiple: false,
            required: false,
            assign: ParsedAssign::new("value".to_string(), ValueType::Str),
        }],
        vec![],
    );
    let err = r.unwrap_err();
    assert_eq!(err.kind, ErrorKind::Other);
    assert_eq!(err.message, "invalid schema");
}

#[test]
fn builder_rejects_duplicate_long() {
    let r = ArgHandlers::new(
        vec![FlagHandler {
            name: "num".to_string(),
            short: None,
            long: Some("num".to_string()),
        }],
        vec![i64_option("num", "num")],
        vec![],
    );
    assert!(r.is_err());
}

#[test]
fn builder_rejects_multiple_before_last() {
    let pos = |name: &str, multiple: bool, required: bool| PositionalHandler {
        name: name.to_string(),
        is_multiple: multiple,
        required,
        assign: ParsedAssign::new(name.to_string(), ValueType::Str),
    };
    let r = ArgHandlers::new(vec![], vec![], vec![pos("a", true, false), pos("b", false, false)]);
    assert!(r.is_err());
}

#[test]
fn builder_rejects_required_after_optional() {
    let pos = |name: &str, multiple: bool, required: bool| PositionalHandler {
        name: name.to_string(),
        is_multiple: multiple,
        required,
        assign: ParsedAssign::new(name.to_string(), ValueType::Str),
    };
    let r = ArgHandlers::new(vec![], vec![], vec![pos("a", false, false), pos("b", false, true)]);
    assert!(r.is_err());
    let ok = ArgHandlers::new(vec![], vec![], vec![pos("a", false, true), pos("b", false, false)]);
    assert!(ok.is_ok());
}

#[test]
fn lookups_find_first_registration() {
    let handlers = ArgHandlers {
        flags: vec![
            FlagHandler { name: "quiet".to_string(), short: Some('q'), long: Some("quiet".to_string()) },
            FlagHandler { name: "verbose".to_string(), short: Some('v'), long: None },
        ],
        options: vec![i64_option("num", "num")],
        positions: vec![],
    };
    assert_eq!(handlers.flag_by_short('v'), Some(1));
    assert_eq!(handlers.flag_by_short('x'), None);
    assert_eq!(handlers.flag_by_long("quiet"), Some(0));
    assert_eq!(handlers.flag_by_long("num"), None);
    assert_eq!(handlers.option_by_long("num"), Some(0));
    assert_eq!(handlers.option_by_short('n'), None);
}

#[test]
fn flag_counter_counts_every_occurrence() {
    let handlers = ArgHandlers {
        flags: vec![FlagHandler { name: "verbose".to_string(), short: Some('v'), long: Some("verbose".to_string()) }],
        options: vec![],
        positions: vec![],
    };
    let mut sinks = Sinks::new(&handlers);
    let res = parse_args(&toks(&["prog", "-vv", "--verbose", "-v"]), &handlers, &mut sinks);
    assert!(res.is_ok());
    assert_eq!(sinks.flag_counts[0], 4);
}
