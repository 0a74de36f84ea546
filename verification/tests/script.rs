use gcad::engine::ScriptEngine;
use gcad::err::ErrorKind;
use gcad::numbers::{InnerValue, Number, Unit};
use gcad::rat::Rat;
use gcad::value::ScriptValue;

fn rat(n: i64, d: i64) -> Rat {
    Rat::make(n as i128, d as i128).expect("representable rational")
}

fn run(source: &str) -> ScriptEngine {
    let mut e = ScriptEngine::new();
    e.run(source).expect("script should run");
    e
}

fn run_err(source: &str) -> ErrorKind {
    let mut e = ScriptEngine::new();
    e.run(source).expect_err("script should fail").kind
}

fn var_number(e: &ScriptEngine, name: &str) -> Number {
    match e.global_vars.get(&name.to_string()) {
        Some(ScriptValue::Number(n)) => n,
        other => panic!("expected a number for {}, got {:?}", name, other.is_some()),
    }
}

#[test]
fn assignment_is_an_expression() {
    let e = run("x = y = 5");
    assert!(matches!(var_number(&e, "x").value, InnerValue::Integer(5)));
    assert!(matches!(var_number(&e, "y").value, InnerValue::Integer(5)));
}

#[test]
fn precedence_multiplication_binds_tighter() {
    let e = run("x = 2 + 3 * 4\ny = 2 * 3 + 4");
    assert!(matches!(var_number(&e, "x").value, InnerValue::Integer(14)));
    assert!(matches!(var_number(&e, "y").value, InnerValue::Integer(10)));
}

#[test]
fn subtraction_is_left_associative() {
    let e = run("x = 10 - 2 - 3");
    assert!(matches!(var_number(&e, "x").value, InnerValue::Integer(5)));
}

#[test]
fn division_chains_left() {
    let e = run("x = 12 / 3 / 2");
    assert!(var_number(&e, "x").value.as_rat().eq_val(&rat(2, 1)));
}

#[test]
fn unit_literals_carry_their_units() {
    let e = run("x = 2.5in");
    let n = var_number(&e, "x");
    assert_eq!(n.unit, Unit::IN);
    assert!(n.value.as_rat().eq_val(&rat(5, 2)));
}

#[test]
fn unit_arithmetic_in_scripts() {
    let e = run("x = 2mm + 1cm\ny = 1cm + 2mm");
    let x = var_number(&e, "x");
    assert_eq!(x.unit, Unit::MM);
    assert!(x.value.as_rat().eq_val(&rat(12, 1)));
    let y = var_number(&e, "y");
    assert_eq!(y.unit, Unit::CM);
    assert!(y.value.as_rat().eq_val(&rat(6, 5)));
}

#[test]
fn linspace_five_values() {
    let e = run("r = linspace(0, 10, 5)");
    let (start, step, num) = match e.global_vars.get(&"r".to_string()) {
        Some(ScriptValue::Range { start, step, num }) => (start, step, num),
        _ => panic!("expected a range"),
    };
    assert_eq!(num, 5);
    // values are start + step * i: 0, 2.5, 5, 7.5, 10
    let expected = [rat(0, 1), rat(5, 2), rat(5, 1), rat(15, 2), rat(10, 1)];
    for (i, want) in expected.iter().enumerate() {
        let v = start
            .add(step.mul(Number::from_int(i as i64)).unwrap())
            .unwrap();
        assert!(v.value.as_rat().eq_val(want), "value {}", i);
    }
}

#[test]
fn linspace_converts_stop_to_start_unit() {
    let e = run("r = linspace(0mm, 1cm, 3)");
    let (start, step, num) = match e.global_vars.get(&"r".to_string()) {
        Some(ScriptValue::Range { start, step, num }) => (start, step, num),
        _ => panic!("expected a range"),
    };
    assert_eq!(num, 3);
    assert_eq!(start.unit, Unit::MM);
    assert_eq!(step.unit, Unit::MM);
    assert!(step.value.as_rat().eq_val(&rat(5, 1)));
}

#[test]
fn linspace_of_one_value_divides_by_zero() {
    assert!(matches!(run_err("r = linspace(0, 10, 1)"), ErrorKind::Domain));
}

#[test]
fn linspace_num_must_be_integer() {
    assert!(matches!(run_err("r = linspace(0, 10, 2.5)"), ErrorKind::Type));
}

#[test]
fn linspace_unit_pairing_is_enforced() {
    assert!(matches!(run_err("r = linspace(0, 10mm, 3)"), ErrorKind::Unit));
    assert!(matches!(run_err("r = linspace(0mm, 10, 3)"), ErrorKind::Unit));
}

#[test]
fn for_loop_binds_and_persists() {
    let e = run("for i in linspace(0, 4, 5) { x = i }");
    assert!(matches!(var_number(&e, "x").value, InnerValue::Integer(4) | InnerValue::Rational(_)));
    assert!(var_number(&e, "x").value.as_rat().eq_val(&rat(4, 1)));
    // the loop variable's last value remains visible after the loop
    assert!(var_number(&e, "i").value.as_rat().eq_val(&rat(4, 1)));
}

#[test]
fn for_loop_over_non_range_is_type_error() {
    assert!(matches!(run_err("for i in 5 { }"), ErrorKind::Type));
}

#[test]
fn unknown_variable_is_name_error() {
    assert!(matches!(run_err("x = nope"), ErrorKind::Name));
}

#[test]
fn unknown_function_is_name_error() {
    assert!(matches!(run_err("whatever(1)"), ErrorKind::Name));
}

#[test]
fn unknown_material_is_name_error() {
    assert!(matches!(run_err("material('unobtainium')"), ErrorKind::Name));
}

#[test]
fn math_on_strings_is_type_error() {
    assert!(matches!(run_err("x = 1 + 'a'"), ErrorKind::Type));
}

#[test]
fn division_by_zero_is_domain_error() {
    assert!(matches!(run_err("x = 1 / 0"), ErrorKind::Domain));
}

#[test]
fn integer_overflow_is_overflow_error() {
    assert!(matches!(
        run_err("x = 9223372036854775807 + 1"),
        ErrorKind::Overflow
    ));
}

#[test]
fn bad_syntax_is_syntax_error() {
    assert!(matches!(run_err("drill("), ErrorKind::Syntax));
    assert!(matches!(run_err("5 @"), ErrorKind::Syntax));
    assert!(matches!(run_err("x = 3qq"), ErrorKind::Syntax));
}

#[test]
fn errors_carry_spans() {
    let mut e = ScriptEngine::new();
    let err = e.run("x = nope").expect_err("should fail");
    let (lo, hi) = err.span.expect("span");
    assert_eq!((lo, hi), (4, 8));
}

#[test]
fn dimensioned_drill_arguments_are_required() {
    assert!(matches!(run_err("drill(1, 2, 3)"), ErrorKind::Unit));
}

#[test]
fn missing_required_parameter_is_argument_error() {
    assert!(matches!(run_err("drill(1mm, 2mm)"), ErrorKind::Argument));
}

#[test]
fn extra_positional_argument_is_arity_error() {
    let mut e = ScriptEngine::new();
    let err = e.run("drill(1mm, 2mm, 3mm, 4mm)").expect_err("should fail");
    assert!(matches!(
        err.kind,
        ErrorKind::Arity { expected: 3, actual: 4 }
    ));
}

#[test]
fn unknown_named_argument_is_reported() {
    let mut e = ScriptEngine::new();
    let err = e.run("drill(1mm, 2mm, 3mm, sideways=1mm)").expect_err("should fail");
    assert!(matches!(err.kind, ErrorKind::UnknownArgument));
    assert_eq!(err.ident.as_deref(), Some("sideways"));
}

#[test]
fn named_argument_overrides_positional() {
    // depth comes positionally as 3mm but the named value wins
    let mut e = ScriptEngine::new();
    e.gcode.plunge_rate = Rat::from_int(100);
    e.run("drill(0mm, 0mm, 3mm, depth=5mm)").unwrap();
    assert_eq!(
        e.gcode.output(),
        "G0 X0 Y0\nZ0.25\nG1 Z-5 F100\nG0 Z5\n"
    );
}

#[test]
fn contour_line_needs_an_end_point() {
    let mut e = ScriptEngine::new();
    e.run("define_material('m', 1, 1, 300, 100, 10000) material('m')")
        .unwrap();
    let err = e.run("contour_line(0mm, 0mm, depth=1mm)").expect_err("should fail");
    assert!(matches!(err.kind, ErrorKind::Argument));
}

#[test]
fn contour_line_up_shorthand() {
    let mut e = ScriptEngine::new();
    e.run("define_material('m', 1, 1, 300, 100, 10000) material('m')")
        .unwrap();
    e.run("contour_line(0mm, 0mm, depth=1mm, up=5mm)").unwrap();
    let out = e.gcode.output();
    // cuts to (0, 5): the cutting move writes only the changed Y
    assert!(out.contains("Y5 F300\n"), "got: {}", out);
}

#[test]
fn circle_pocket_guard_equality_fails() {
    let mut e = ScriptEngine::new();
    e.run("define_material('m', 1, 1, 300, 100, 10000) material('m') cutter_diameter(5mm)")
        .unwrap();
    let err = e
        .run("circle_pocket(0mm, 0mm, diameter=5mm, depth=1mm)")
        .expect_err("should fail");
    assert!(matches!(err.kind, ErrorKind::Domain));
}

#[test]
fn circle_pocket_radius_shorthand() {
    let mut e = ScriptEngine::new();
    e.run("define_material('m', 1, 1, 300, 100, 10000) material('m') cutter_diameter(2mm)")
        .unwrap();
    e.run("circle_pocket(0mm, 0mm, radius=2.5mm, depth=1mm)").unwrap();
    assert!(e.gcode.output().contains("G3"));
}

#[test]
fn string_escape_doubles_the_quote() {
    let mut e = ScriptEngine::new();
    e.run("comment('it''s fine')").unwrap();
    assert_eq!(e.gcode.output(), "(it's fine)\n");
}

#[test]
fn scale_applies_to_later_moves() {
    let mut e = ScriptEngine::new();
    e.run("define_material('m', 1, 1, 300, 100, 10000) material('m') scale(2, 3) drill(1mm, 1mm, 1mm)")
        .unwrap();
    let out = e.gcode.output();
    assert!(out.contains("X2 Y3"), "got: {}", out);
}

#[test]
fn scale_rejects_units() {
    assert!(matches!(run_err("scale(2mm, 3)"), ErrorKind::Unit));
}

#[test]
fn rpm_rejects_units() {
    assert!(matches!(run_err("rpm(1000mm)"), ErrorKind::Unit));
}

#[test]
fn define_material_requires_scalars() {
    assert!(matches!(
        run_err("define_material('m', 1mm, 1, 300, 100, 10000)"),
        ErrorKind::Unit
    ));
}

#[test]
fn end_to_end_drill_program() {
    let mut e = ScriptEngine::new();
    e.write_header();
    e.run("define_material('alu', 0.5, 1, 300, 100, 10000); material('alu'); cutter_diameter(6mm); drill(0mm, 0mm, 5mm)")
        .unwrap();
    let text = e.finish();
    assert_eq!(
        text,
        "G90\nG21\n(Move to safe Z)\nG53 G0 Z-5\nM05\nM03 S10000\nG0 X0 Y0\nZ0.25\nG1 Z-5 F100\nG0 Z5\nM02\n"
    );
}

#[test]
fn empty_script_is_accepted() {
    let mut e = ScriptEngine::new();
    e.run("").unwrap();
    e.run("   \n\t ;; \n").unwrap();
    assert_eq!(e.gcode.output(), "");
}

#[test]
fn linspace_count_must_be_at_least_one() {
    assert!(matches!(run_err("r = linspace(0, 10, 0)"), ErrorKind::Type));
    assert!(matches!(run_err("r = linspace(0, 10, 0 - 2)"), ErrorKind::Type));
}
