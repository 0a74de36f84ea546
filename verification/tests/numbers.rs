use gcad::numbers::{InnerValue, Number, Unit};
use gcad::rat::Rat;

fn rat(n: i64, d: i64) -> Rat {
    Rat::make(n as i128, d as i128).expect("representable rational")
}

fn mag(n: &Number) -> Rat {
    n.value.as_rat()
}

#[test]
fn convert_same_unit_is_identity() {
    let n = Number::from_int_and_unit(10, Unit::MM);
    let c = n.convert_unit(Unit::MM).unwrap();
    assert!(matches!(c.value, InnerValue::Integer(10)));
    assert_eq!(c.unit, Unit::MM);
}

#[test]
fn convert_unitless_is_identity() {
    let n = Number::from_int(7);
    let c = n.convert_unit(Unit::IN).unwrap();
    assert!(matches!(c.value, InnerValue::Integer(7)));
    assert_eq!(c.unit, Unit::IN);
}

#[test]
fn convert_round_trip_is_exact() {
    let units = [Unit::MM, Unit::CM, Unit::M, Unit::IN, Unit::FT, Unit::YD];
    for a in units {
        for b in units {
            let n = Number::from_int_and_unit(10, a);
            let there = n.convert_unit(b).unwrap();
            let back = there.convert_unit(a).unwrap();
            assert!(mag(&back).eq_val(&rat(10, 1)), "{:?} -> {:?} -> back", a, b);
        }
    }
}

#[test]
fn convert_inches_to_millimeters() {
    let n = Number::from_int_and_unit(1, Unit::IN);
    let c = n.convert_unit(Unit::MM).unwrap();
    // 25.4 mm per inch, exactly 127/5
    assert!(mag(&c).eq_val(&rat(127, 5)));
    assert_eq!(c.unit, Unit::MM);
}

#[test]
fn add_destination_is_left_unit() {
    let a = Number::from_int_and_unit(2, Unit::MM);
    let b = Number::from_int_and_unit(1, Unit::CM);
    let s = a.add(b).unwrap();
    assert_eq!(s.unit, Unit::MM);
    assert!(mag(&s).eq_val(&rat(12, 1)));
}

#[test]
fn add_reversed_takes_centimeters() {
    let a = Number::from_int_and_unit(1, Unit::CM);
    let b = Number::from_int_and_unit(2, Unit::MM);
    let s = a.add(b).unwrap();
    assert_eq!(s.unit, Unit::CM);
    assert!(mag(&s).eq_val(&rat(6, 5)));
}

#[test]
fn unitless_left_adopts_right_unit() {
    let a = Number::from_int(2);
    let b = Number::from_int_and_unit(5, Unit::MM);
    let s = a.add(b).unwrap();
    assert_eq!(s.unit, Unit::MM);
    assert!(mag(&s).eq_val(&rat(7, 1)));
}

#[test]
fn integers_stay_integer_under_add_sub_mul() {
    let a = Number::from_int(6);
    let b = Number::from_int(4);
    assert!(matches!(a.add(b).unwrap().value, InnerValue::Integer(10)));
    assert!(matches!(a.sub(b).unwrap().value, InnerValue::Integer(2)));
    assert!(matches!(a.mul(b).unwrap().value, InnerValue::Integer(24)));
}

#[test]
fn division_always_promotes() {
    let a = Number::from_int(6);
    let b = Number::from_int(4);
    let q = a.div(b).unwrap();
    assert!(matches!(q.value, InnerValue::Rational(_)));
    assert!(mag(&q).eq_val(&rat(3, 2)));
}

#[test]
fn number_division_by_zero_is_domain_error() {
    let a = Number::from_int(1);
    let b = Number::from_int(0);
    let e = a.div(b).unwrap_err();
    assert!(matches!(e.kind, gcad::err::ErrorKind::Domain));
}

#[test]
fn integer_overflow_is_reported() {
    let a = Number::from_int(i64::MAX);
    let b = Number::from_int(1);
    let e = a.add(b).unwrap_err();
    assert!(matches!(e.kind, gcad::err::ErrorKind::Overflow));
}

#[test]
fn as_scalar_gates_on_unit() {
    assert!(Number::from_int(5).as_scalar().is_some());
    assert!(Number::from_int_and_unit(5, Unit::MM).as_scalar().is_none());
}

#[test]
fn pow_of_integers() {
    let b = Number::from_int(2);
    let e = Number::from_int(10);
    let p = b.pow(&e).unwrap();
    assert!(matches!(p.value, InnerValue::Integer(1024)));
}

#[test]
fn pow_rejects_dimensioned_exponent() {
    let b = Number::from_int(2);
    let e = Number::from_int_and_unit(3, Unit::MM);
    assert!(matches!(
        b.pow(&e).unwrap_err().kind,
        gcad::err::ErrorKind::Unit
    ));
}

#[test]
fn factorial_of_five() {
    let n = Number::from_int(5);
    let f = n.factorial().unwrap();
    assert!(matches!(f.value, InnerValue::Integer(120)));
}

#[test]
fn factorial_rejects_negative() {
    let n = Number::from_int(-1);
    assert!(matches!(
        n.factorial().unwrap_err().kind,
        gcad::err::ErrorKind::Domain
    ));
}

#[test]
fn rational_arithmetic_is_exact() {
    // 1/3 + 1/6 == 1/2
    let third = rat(1, 3);
    let sixth = rat(1, 6);
    let half = third.add(sixth).unwrap();
    assert!(half.eq_val(&rat(1, 2)));
    // 2/3 * 3/4 == 1/2
    let p = rat(2, 3).mul(rat(3, 4)).unwrap();
    assert!(p.eq_val(&rat(1, 2)));
}
