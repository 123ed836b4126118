use minitrace_macro::parse::{first_rejected_argument, Lit, NameValue, ParseError, Scope, Trace};

fn kv(key: &str, value: Lit) -> NameValue {
    NameValue { key: key.to_string(), value }
}

fn string(s: &str) -> Lit {
    Lit::Str(s.to_string())
}

#[test]
fn valid_trace_001() {
    let args = vec![kv("name", string("a")), kv("enter_on_poll", Lit::Bool(false))];
    let actual = Trace::parse(&args).unwrap();
    let expected = Trace {
        default: false,
        enter_on_poll: false,
        name: "a".to_string(),
        validated: true,
        ..Default::default()
    };
    assert_eq!(expected, actual);
}

#[test]
fn valid_trace_002() {
    let args = vec![kv("name", string("a")), kv("enter_on_poll", Lit::Bool(false))];
    let actual = Trace::parse(&args).unwrap();
    let expected = Trace {
        default: false,
        enter_on_poll: false,
        name: "a".to_string(),
        validated: true,
        ..Default::default()
    };
    assert_eq!(expected, actual);
}

#[test]
fn valid_trace_003() {
    let args = vec![kv("enter_on_poll", Lit::Bool(false))];
    let actual = Trace::parse(&args).unwrap();
    let expected = Trace {
        default: false,
        enter_on_poll: false,
        name: "__default".to_string(),
        validated: true,
        ..Default::default()
    };
    assert_eq!(expected, actual);
}

#[test]
fn valid_trace_004() {
    let args = vec![kv("name", string("a"))];
    let actual = Trace::parse(&args).unwrap();
    let expected = Trace {
        default: false,
        name: "a".to_string(),
        validated: true,
        ..Default::default()
    };
    assert_eq!(expected, actual);
}

#[test]
fn invalid_trace_001() {
    let args = vec![
        kv("name", string("a")),
        kv("name", string("b")),
        kv("enter_on_poll", Lit::Bool(false)),
    ];
    let actual = Trace::parse(&args).unwrap_err();
    assert_eq!(actual, ParseError::DuplicateOption("name".to_string()));
    assert_eq!(actual.message(), "`name` provided twice");
}

#[test]
fn invalid_trace_002() {
    let args = vec![
        kv("name", string("a")),
        kv("enter_on_poll", Lit::Bool(true)),
        kv("enter_on_poll", Lit::Bool(false)),
    ];
    let actual = Trace::parse(&args).unwrap_err();
    assert_eq!(actual, ParseError::DuplicateOption("enter_on_poll".to_string()));
    assert_eq!(actual.message(), "`enter_on_poll` provided twice");
}

#[test]
fn default_options() {
    let t = Trace::default();
    assert!(t.default);
    assert!(!t.validated);
    assert_eq!(t.name, "__default");
    assert!(!t.enter_on_poll);
    assert_eq!(t.scope, Some(Scope::Local));
    assert_eq!(t.parent, Some("__default".to_string()));
    assert_eq!(t.recorder, Some("span".to_string()));
    assert_eq!(t.recurse, Some(false));
    assert_eq!(t.root, Some(false));
    assert_eq!(t.variables, Some(Vec::new()));
    assert_eq!(t.async_trait, Some(false));
    assert_eq!(t.async_fn, Some(false));
}

#[test]
fn no_arguments_give_defaults_validated() {
    let t = Trace::parse(&Vec::new()).unwrap();
    assert!(!t.default);
    assert!(t.validated);
    assert_eq!(t.name, "__default");
    assert!(!t.enter_on_poll);
}

#[test]
fn enter_on_poll_true_is_kept() {
    let t = Trace::parse(&vec![kv("enter_on_poll", Lit::Bool(true))]).unwrap();
    assert!(t.enter_on_poll);
    assert_eq!(t.name, "__default");
}

#[test]
fn too_many_arguments() {
    let args = vec![
        kv("name", string("a")),
        kv("enter_on_poll", Lit::Bool(true)),
        kv("x", Lit::Bool(true)),
        kv("y", Lit::Bool(true)),
    ];
    let e = Trace::parse(&args).unwrap_err();
    assert_eq!(e, ParseError::TooManyArguments);
    assert_eq!(e.message(), "Too many arguments. This attribute takes up to two (2) arguments");
}

#[test]
fn three_arguments_are_read() {
    let args = vec![kv("name", string("a")), kv("enter_on_poll", Lit::Bool(true)), kv("z", Lit::Bool(true))];
    assert_eq!(Trace::parse(&args).unwrap_err(), ParseError::UnknownOption("z".to_string()));
}

#[test]
fn wrong_value_types() {
    let e = Trace::parse(&vec![kv("name", Lit::Bool(true))]).unwrap_err();
    assert_eq!(e, ParseError::WrongValueType("name".to_string()));
    assert_eq!(e.message(), "`name` value should be a string");
    let e = Trace::parse(&vec![kv("enter_on_poll", string("yes"))]).unwrap_err();
    assert_eq!(e, ParseError::WrongValueType("enter_on_poll".to_string()));
    assert_eq!(e.message(), "`enter_on_poll` value should be an boolean");
    let e = Trace::parse(&vec![kv("enter_on_poll", Lit::Other("1".to_string()))]).unwrap_err();
    assert_eq!(e, ParseError::WrongValueType("enter_on_poll".to_string()));
}

#[test]
fn unknown_option() {
    let e = Trace::parse(&vec![kv("scope", string("Local"))]).unwrap_err();
    assert_eq!(e, ParseError::UnknownOption("scope".to_string()));
    assert_eq!(e.message(), "unknown option");
}

#[test]
fn first_error_wins() {
    let args = vec![kv("bogus", Lit::Bool(true)), kv("name", string("a")), kv("name", string("b"))];
    assert_eq!(Trace::parse(&args).unwrap_err(), ParseError::UnknownOption("bogus".to_string()));
}

#[test]
fn rejected_argument_is_located() {
    let args = vec![kv("name", string("a")), kv("enter_on_poll", Lit::Bool(true)), kv("name", string("b"))];
    assert_eq!(first_rejected_argument(&args), Some(2));
    assert_eq!(first_rejected_argument(&vec![kv("name", string("a"))]), None);
    assert_eq!(first_rejected_argument(&vec![kv("enter_on_poll", string("x"))]), Some(0));
}
