use gcad::binder::{bind, ParamSpec};
use gcad::err::ErrorKind;
use gcad::numbers::Number;
use gcad::value::ScriptValue;

fn num(i: i64) -> ScriptValue {
    ScriptValue::Number(Number::from_int(i))
}

fn params2() -> Vec<ParamSpec> {
    vec![
        ParamSpec { name: "a", required: true },
        ParamSpec { name: "b", required: false },
    ]
}

fn slot_int(slot: &Option<ScriptValue>) -> i64 {
    match slot {
        Some(ScriptValue::Number(n)) => match n.value {
            gcad::numbers::InnerValue::Integer(i) => i,
            _ => panic!("expected an integer"),
        },
        _ => panic!("expected a bound slot"),
    }
}

#[test]
fn positional_arguments_fill_declared_slots() {
    let b = bind("t", &params2(), &vec![num(1), num(2)], &vec![]).unwrap();
    assert_eq!(b.len(), 2);
    assert_eq!(slot_int(&b[0]), 1);
    assert_eq!(slot_int(&b[1]), 2);
}

#[test]
fn named_always_overrides_positional() {
    let named = vec![("a".to_string(), num(9))];
    let b = bind("t", &params2(), &vec![num(1), num(2)], &named).unwrap();
    assert_eq!(slot_int(&b[0]), 9);
    assert_eq!(slot_int(&b[1]), 2);
}

#[test]
fn duplicate_named_takes_the_last() {
    let named = vec![("a".to_string(), num(7)), ("a".to_string(), num(8))];
    let b = bind("t", &params2(), &vec![], &named).unwrap();
    assert_eq!(slot_int(&b[0]), 8);
}

#[test]
fn unresolved_optional_is_absent() {
    let b = bind("t", &params2(), &vec![num(1)], &vec![]).unwrap();
    assert_eq!(slot_int(&b[0]), 1);
    assert!(b[1].is_none());
}

#[test]
fn missing_required_names_the_parameter() {
    let e = bind("t", &params2(), &vec![], &vec![]).unwrap_err();
    assert!(matches!(e.kind, ErrorKind::Argument));
    assert_eq!(e.ident.as_deref(), Some("a"));
}

#[test]
fn one_argument_too_many_is_arity_error() {
    let e = bind("t", &params2(), &vec![num(1), num(2), num(3)], &vec![]).unwrap_err();
    assert!(matches!(e.kind, ErrorKind::Arity { expected: 2, actual: 3 }));
}

#[test]
fn binder_unknown_named_argument_is_reported() {
    let named = vec![("zz".to_string(), num(1))];
    let e = bind("t", &params2(), &vec![num(1)], &named).unwrap_err();
    assert!(matches!(e.kind, ErrorKind::UnknownArgument));
    assert_eq!(e.ident.as_deref(), Some("zz"));
}

#[test]
fn missing_required_wins_over_arity() {
    // required `a` resolved positionally, but three positionals for two slots
    let params = vec![
        ParamSpec { name: "a", required: true },
        ParamSpec { name: "b", required: true },
    ];
    let e = bind("t", &params, &vec![num(1)], &vec![]).unwrap_err();
    assert!(matches!(e.kind, ErrorKind::Argument));
    assert_eq!(e.ident.as_deref(), Some("b"));
}

#[test]
fn dispatch_named_override_reaches_the_machine() {
    // positional depth 3mm, named x=9mm: the named value lands in the x slot
    let mut e = gcad::engine::ScriptEngine::new();
    e.gcode.plunge_rate = gcad::rat::Rat::from_int(100);
    let args = vec![
        ScriptValue::Number(Number::from_int_and_unit(1, gcad::numbers::Unit::MM)),
        ScriptValue::Number(Number::from_int_and_unit(2, gcad::numbers::Unit::MM)),
        ScriptValue::Number(Number::from_int_and_unit(3, gcad::numbers::Unit::MM)),
    ];
    let named = vec![(
        "x".to_string(),
        ScriptValue::Number(Number::from_int_and_unit(9, gcad::numbers::Unit::MM)),
    )];
    let r = e.call_builtin("drill", &args, &named).unwrap();
    assert!(matches!(r, Some(ScriptValue::Null)));
    assert_eq!(e.gcode.output(), "G0 X9 Y2\nZ0.25\nG1 Z-3 F100\nG0 Z5\n");
}

#[test]
fn dispatch_missing_required_names_builtin_and_parameter() {
    let mut e = gcad::engine::ScriptEngine::new();
    let args = vec![ScriptValue::Number(Number::from_int_and_unit(1, gcad::numbers::Unit::MM))];
    let err = e.call_builtin("drill", &args, &vec![]).unwrap_err();
    assert!(matches!(err.kind, ErrorKind::Argument));
    assert_eq!(err.ident.as_deref(), Some("y"));
    assert!(err.message().contains("drill"));
    assert_eq!(e.gcode.output(), "");
}

#[test]
fn dispatch_arity_reports_expected_and_actual() {
    let mut e = gcad::engine::ScriptEngine::new();
    let args = vec![
        ScriptValue::Number(Number::from_int(1000)),
        ScriptValue::Number(Number::from_int(5)),
    ];
    let err = e.call_builtin("rpm", &args, &vec![]).unwrap_err();
    assert!(matches!(err.kind, ErrorKind::Arity { expected: 1, actual: 2 }));
    assert_eq!(e.gcode.output(), "");
}

#[test]
fn coercion_failure_names_the_argument_position() {
    let mut e = gcad::engine::ScriptEngine::new();
    let args = vec![
        ScriptValue::Number(Number::from_int_and_unit(1, gcad::numbers::Unit::MM)),
        ScriptValue::Str("oops".to_string()),
        ScriptValue::Number(Number::from_int_and_unit(3, gcad::numbers::Unit::MM)),
    ];
    let err = e.call_builtin("drill", &args, &vec![]).unwrap_err();
    assert!(matches!(err.kind, ErrorKind::Type));
    assert!(err.message().contains("argument 1"));
}
