use nova_temporal::conversion::{number_to_string_exec, string_to_number_exec, to_number, to_string, Numeric};
use nova_temporal::heap::{Agent, ExceptionType, ObjectHeapData, OrdinaryObject, Property, PropertyKey};
use nova_temporal::options::{
    get_difference_settings, get_option, get_options_object, get_rounding_increment_option,
    get_rounding_mode_option, get_temporal_unit_valued_option, larger_of_two_units,
    maximum_temporal_duration_rounding_increment, negate_rounding_mode_exec, to_integer_with_truncation,
    validate_temporal_rounding_increment, validate_temporal_unit_value, OptionDefault, RoundingMode, TemporalUnit,
    UnitGroup,
};
use nova_temporal::value::{JsNumber, Object, Value};

fn key(name: &str) -> PropertyKey {
    PropertyKey::String(name.as_bytes().to_vec())
}

fn string(s: &str) -> Value {
    Value::String(s.as_bytes().to_vec())
}

fn options_object(agent: &mut Agent, entries: Vec<(&str, Value)>) -> Object {
    let mut properties = Vec::new();
    for (name, value) in entries {
        properties.push(Property { key: key(name), value, writable: true, enumerable: true, configurable: true });
    }
    let o = agent.heap.create_object(ObjectHeapData {
        prototype: Some(Object::Object(OrdinaryObject(0))),
        properties,
    });
    Object::Object(o)
}

fn kind<T>(r: Result<T, nova_temporal::heap::JsError>) -> ExceptionType {
    match r {
        Ok(_) => panic!("expected a throw completion"),
        Err(e) => e.kind,
    }
}

#[test]
fn number_strings() {
    assert_eq!(number_to_string_exec(JsNumber::Integer(-42)), b"-42".to_vec());
    assert_eq!(number_to_string_exec(JsNumber::Integer(0)), b"0".to_vec());
    assert_eq!(number_to_string_exec(JsNumber::Integer(i64::MIN)), b"-9223372036854775808".to_vec());
    assert_eq!(number_to_string_exec(JsNumber::NaN), b"NaN".to_vec());
    assert_eq!(number_to_string_exec(JsNumber::NegativeInfinity), b"-Infinity".to_vec());
}

#[test]
fn string_numbers() {
    assert_eq!(string_to_number_exec(&b"  12 \n".to_vec()), Numeric::Number(JsNumber::Integer(12)));
    assert_eq!(string_to_number_exec(&b"".to_vec()), Numeric::Number(JsNumber::Integer(0)));
    assert_eq!(string_to_number_exec(&b"-7".to_vec()), Numeric::Number(JsNumber::Integer(-7)));
    assert_eq!(string_to_number_exec(&b"+Infinity".to_vec()), Numeric::Number(JsNumber::PositiveInfinity));
    assert_eq!(string_to_number_exec(&b"-Infinity".to_vec()), Numeric::Number(JsNumber::NegativeInfinity));
    assert_eq!(string_to_number_exec(&b"abc".to_vec()), Numeric::Number(JsNumber::NaN));
    assert_eq!(string_to_number_exec(&b"-".to_vec()), Numeric::Number(JsNumber::NaN));
    assert_eq!(string_to_number_exec(&b"9223372036854775807".to_vec()), Numeric::Number(JsNumber::Integer(i64::MAX)));
    assert_eq!(string_to_number_exec(&b"-9223372036854775808".to_vec()), Numeric::Number(JsNumber::Integer(i64::MIN)));
    assert_eq!(string_to_number_exec(&b"9223372036854775808".to_vec()), Numeric::Number(JsNumber::NaN));
}

#[test]
fn number_string_round_trip_values() {
    for n in [0i64, 1, -1, 10, 99, -100, 123456789, i64::MAX, i64::MIN] {
        let s = number_to_string_exec(JsNumber::Integer(n));
        assert_eq!(string_to_number_exec(&s), Numeric::Number(JsNumber::Integer(n)));
    }
    for n in [JsNumber::NaN, JsNumber::PositiveInfinity, JsNumber::NegativeInfinity] {
        assert_eq!(string_to_number_exec(&number_to_string_exec(n)), Numeric::Number(n));
    }
}

#[test]
fn conversions_of_values() {
    assert_eq!(to_string(&Value::Boolean(true)).ok().unwrap(), b"true".to_vec());
    assert_eq!(to_string(&Value::Undefined).ok().unwrap(), b"undefined".to_vec());
    assert_eq!(kind(to_string(&Value::Symbol(3))), ExceptionType::TypeError);
    assert_eq!(kind(to_string(&Value::Object(OrdinaryObject(0)))), ExceptionType::TypeError);
    assert_eq!(to_number(&Value::Null).ok().unwrap(), Numeric::Number(JsNumber::Integer(0)));
    assert_eq!(to_number(&Value::Undefined).ok().unwrap(), Numeric::Number(JsNumber::NaN));
    assert_eq!(kind(to_number(&Value::Symbol(1))), ExceptionType::TypeError);
}

#[test]
fn integer_with_truncation() {
    let agent = Agent::new();
    assert_eq!(to_integer_with_truncation(&agent, &Value::Boolean(true)).ok().unwrap(), 1);
    assert_eq!(to_integer_with_truncation(&agent, &string(" 25 ")).ok().unwrap(), 25);
    assert_eq!(kind(to_integer_with_truncation(&agent, &Value::Undefined)), ExceptionType::RangeError);
    assert_eq!(kind(to_integer_with_truncation(&agent, &Value::Number(JsNumber::PositiveInfinity))), ExceptionType::RangeError);
}

#[test]
fn truncation_of_fractional_strings() {
    let agent = Agent::new();
    let t = |s: &str| to_integer_with_truncation(&agent, &string(s)).ok().unwrap();
    assert_eq!(t("2.7"), 2);
    assert_eq!(t("-2.7"), -2);
    assert_eq!(t("-0.5"), 0);
    assert_eq!(t(".999"), 0);
    assert_eq!(t("12.5e1"), 125);
    assert_eq!(t("1234.5e-2"), 12);
    assert_eq!(t("-1234.5e-2"), -12);
    assert_eq!(t("1e-30"), 0);
    assert_eq!(t("9223372036854775807.9"), i64::MAX);
    assert_eq!(t("-9223372036854775808.9"), i64::MIN);
    assert_eq!(kind(to_integer_with_truncation(&agent, &string("9223372036854775808.5"))), ExceptionType::RangeError);
    let n = |s: &str| string_to_number_exec(&s.as_bytes().to_vec());
    assert_eq!(n("2.7"), Numeric::Fraction(2));
    assert_eq!(n("-0.0001"), Numeric::Fraction(0));
    assert_eq!(n("0.25e1"), Numeric::Fraction(2));
    assert_eq!(n("-12345678901234567.89"), Numeric::Fraction(-12345678901234567));
    let mut agent = Agent::new();
    let o = options_object(&mut agent, vec![("roundingIncrement", string("2.7"))]);
    assert_eq!(get_rounding_increment_option(&agent, o).ok().unwrap(), 2);
    let half = options_object(&mut agent, vec![("roundingIncrement", string("0.5"))]);
    assert_eq!(kind(get_rounding_increment_option(&agent, half)), ExceptionType::RangeError);
}

#[test]
fn option_reading() {
    let mut agent = Agent::new();
    let o = options_object(&mut agent, vec![("flag", Value::Number(JsNumber::Integer(0))), ("name", string("b"))]);
    let allowed = vec![string("a"), string("b")];
    let r = get_option(&agent, o, &key("flag"), false, &Vec::new(), OptionDefault::Required).ok().unwrap();
    assert!(matches!(r, Value::Boolean(false)));
    let r = get_option(&agent, o, &key("name"), true, &allowed, OptionDefault::Required).ok().unwrap();
    assert!(matches!(r, Value::String(ref s) if s == b"b"));
    let r = get_option(&agent, o, &key("missing"), true, &allowed, OptionDefault::Value(string("a"))).ok().unwrap();
    assert!(matches!(r, Value::String(ref s) if s == b"a"));
    assert_eq!(kind(get_option(&agent, o, &key("missing"), true, &allowed, OptionDefault::Required)), ExceptionType::RangeError);
    let narrow = vec![string("a")];
    assert_eq!(kind(get_option(&agent, o, &key("name"), true, &narrow, OptionDefault::Required)), ExceptionType::RangeError);
}

#[test]
fn options_inherit_along_the_prototype_chain() {
    let mut agent = Agent::new();
    let parent = options_object(&mut agent, vec![("smallestUnit", string("hour"))]);
    let child = agent.heap.create_object(ObjectHeapData { prototype: Some(parent), properties: Vec::new() });
    let r = get_temporal_unit_valued_option(&agent, Object::Object(child), &key("smallestUnit"), false).ok().unwrap();
    assert_eq!(r, Some(TemporalUnit::Hour));
}

#[test]
fn unit_valued_options() {
    let mut agent = Agent::new();
    let o = options_object(
        &mut agent,
        vec![("a", string("days")), ("b", string("auto")), ("c", string("fortnight")), ("d", string("millisecond"))],
    );
    assert_eq!(get_temporal_unit_valued_option(&agent, o, &key("a"), false).ok().unwrap(), Some(TemporalUnit::Day));
    assert_eq!(get_temporal_unit_valued_option(&agent, o, &key("b"), false).ok().unwrap(), Some(TemporalUnit::Auto));
    assert_eq!(get_temporal_unit_valued_option(&agent, o, &key("d"), false).ok().unwrap(), Some(TemporalUnit::Millisecond));
    assert_eq!(get_temporal_unit_valued_option(&agent, o, &key("z"), false).ok().unwrap(), None);
    assert_eq!(kind(get_temporal_unit_valued_option(&agent, o, &key("z"), true)), ExceptionType::RangeError);
    assert_eq!(kind(get_temporal_unit_valued_option(&agent, o, &key("c"), false)), ExceptionType::RangeError);
}

#[test]
fn rounding_mode_options() {
    let mut agent = Agent::new();
    let o = options_object(&mut agent, vec![("roundingMode", string("halfEven"))]);
    assert_eq!(get_rounding_mode_option(&agent, o, RoundingMode::Trunc).ok().unwrap(), RoundingMode::HalfEven);
    let empty = options_object(&mut agent, vec![]);
    assert_eq!(get_rounding_mode_option(&agent, empty, RoundingMode::Floor).ok().unwrap(), RoundingMode::Floor);
    let bad = options_object(&mut agent, vec![("roundingMode", string("sideways"))]);
    assert_eq!(kind(get_rounding_mode_option(&agent, bad, RoundingMode::Trunc)), ExceptionType::RangeError);
    assert_eq!(negate_rounding_mode_exec(RoundingMode::HalfCeil), RoundingMode::HalfFloor);
    assert_eq!(negate_rounding_mode_exec(negate_rounding_mode_exec(RoundingMode::Ceil)), RoundingMode::Ceil);
}

#[test]
fn rounding_increment_options() {
    let mut agent = Agent::new();
    let empty = options_object(&mut agent, vec![]);
    assert_eq!(get_rounding_increment_option(&agent, empty).ok().unwrap(), 1);
    let five = options_object(&mut agent, vec![("roundingIncrement", string("5"))]);
    assert_eq!(get_rounding_increment_option(&agent, five).ok().unwrap(), 5);
    let zero = options_object(&mut agent, vec![("roundingIncrement", Value::Number(JsNumber::Integer(0)))]);
    assert_eq!(kind(get_rounding_increment_option(&agent, zero)), ExceptionType::RangeError);
    let big = options_object(&mut agent, vec![("roundingIncrement", Value::Number(JsNumber::Integer(1_000_000_001)))]);
    assert_eq!(kind(get_rounding_increment_option(&agent, big)), ExceptionType::RangeError);
    let max = options_object(&mut agent, vec![("roundingIncrement", Value::Number(JsNumber::Integer(1_000_000_000)))]);
    assert_eq!(get_rounding_increment_option(&agent, max).ok().unwrap(), 1_000_000_000);
}

#[test]
fn options_objects() {
    let mut agent = Agent::new();
    let before = agent.heap.objects.len();
    let o = get_options_object(&mut agent, &Value::Undefined).ok().unwrap();
    assert_eq!(o, Object::Object(OrdinaryObject(before as u32)));
    assert_eq!(agent.heap.objects.len(), before + 1);
    assert!(agent.heap.objects[before].prototype.is_none());
    let same = get_options_object(&mut agent, &Value::Object(OrdinaryObject(2))).ok().unwrap();
    assert_eq!(same, Object::Object(OrdinaryObject(2)));
    assert_eq!(kind(get_options_object(&mut agent, &string("x"))), ExceptionType::TypeError);
    assert_eq!(agent.heap.objects.len(), before + 1);
}

#[test]
fn unit_helpers() {
    assert_eq!(larger_of_two_units(TemporalUnit::Hour, TemporalUnit::Second), TemporalUnit::Hour);
    assert_eq!(larger_of_two_units(TemporalUnit::Minute, TemporalUnit::Year), TemporalUnit::Year);
    assert_eq!(maximum_temporal_duration_rounding_increment(TemporalUnit::Hour), Some(24));
    assert_eq!(maximum_temporal_duration_rounding_increment(TemporalUnit::Day), None);
    assert_eq!(maximum_temporal_duration_rounding_increment(TemporalUnit::Microsecond), Some(1000));
    assert!(validate_temporal_unit_value(Some(TemporalUnit::Day), UnitGroup::Time, false).is_err());
    assert!(validate_temporal_unit_value(Some(TemporalUnit::Auto), UnitGroup::Time, true).is_ok());
    assert!(validate_temporal_unit_value(Some(TemporalUnit::Auto), UnitGroup::Time, false).is_err());
    assert!(validate_temporal_unit_value(None, UnitGroup::Date, false).is_ok());
    assert!(validate_temporal_rounding_increment(15, 60, false).is_ok());
    assert!(validate_temporal_rounding_increment(7, 60, false).is_err());
    assert!(validate_temporal_rounding_increment(60, 60, false).is_err());
    assert!(validate_temporal_rounding_increment(60, 60, true).is_ok());
}

#[test]
fn difference_settings_defaults() {
    let mut agent = Agent::new();
    let empty = options_object(&mut agent, vec![]);
    let s = get_difference_settings(&agent, empty, UnitGroup::Time, &Vec::new(), TemporalUnit::Nanosecond, TemporalUnit::Second, true)
        .ok()
        .unwrap();
    assert_eq!(s.smallest_unit, TemporalUnit::Nanosecond);
    assert_eq!(s.largest_unit, TemporalUnit::Second);
    assert_eq!(s.rounding_mode, RoundingMode::Trunc);
    assert_eq!(s.rounding_increment, 1);
}

#[test]
fn difference_settings_from_options() {
    let mut agent = Agent::new();
    let o = options_object(
        &mut agent,
        vec![("smallestUnit", string("hours")), ("roundingMode", string("floor")), ("roundingIncrement", string("6"))],
    );
    let s = get_difference_settings(&agent, o, UnitGroup::Time, &Vec::new(), TemporalUnit::Nanosecond, TemporalUnit::Second, false)
        .ok()
        .unwrap();
    assert_eq!(s.smallest_unit, TemporalUnit::Hour);
    assert_eq!(s.largest_unit, TemporalUnit::Hour);
    assert_eq!(s.rounding_mode, RoundingMode::Ceil);
    assert_eq!(s.rounding_increment, 6);
}

#[test]
fn difference_settings_errors() {
    let mut agent = Agent::new();
    let inverted = options_object(&mut agent, vec![("largestUnit", string("minute")), ("smallestUnit", string("hour"))]);
    assert_eq!(
        kind(get_difference_settings(&agent, inverted, UnitGroup::Time, &Vec::new(), TemporalUnit::Nanosecond, TemporalUnit::Second, true)),
        ExceptionType::RangeError
    );
    let date_unit = options_object(&mut agent, vec![("largestUnit", string("day"))]);
    assert_eq!(
        kind(get_difference_settings(&agent, date_unit, UnitGroup::Time, &Vec::new(), TemporalUnit::Nanosecond, TemporalUnit::Second, true)),
        ExceptionType::RangeError
    );
    let increment = options_object(&mut agent, vec![("smallestUnit", string("second")), ("roundingIncrement", string("7"))]);
    assert_eq!(
        kind(get_difference_settings(&agent, increment, UnitGroup::Time, &Vec::new(), TemporalUnit::Nanosecond, TemporalUnit::Second, true)),
        ExceptionType::RangeError
    );
    let disallowed = options_object(&mut agent, vec![("smallestUnit", string("minute"))]);
    assert_eq!(
        kind(get_difference_settings(
            &agent,
            disallowed,
            UnitGroup::Time,
            &vec![TemporalUnit::Minute],
            TemporalUnit::Nanosecond,
            TemporalUnit::Second,
            true
        )),
        ExceptionType::RangeError
    );
    let symbol = options_object(&mut agent, vec![("largestUnit", Value::Symbol(2))]);
    assert_eq!(
        kind(get_difference_settings(&agent, symbol, UnitGroup::Time, &Vec::new(), TemporalUnit::Nanosecond, TemporalUnit::Second, true)),
        ExceptionType::TypeError
    );
}

fn message<T>(r: Result<T, nova_temporal::heap::JsError>) -> &'static str {
    match r {
        Ok(_) => panic!("expected a throw completion"),
        Err(e) => e.message,
    }
}

#[test]
fn error_messages() {
    let mut agent = Agent::new();
    assert_eq!(
        message(to_integer_with_truncation(&agent, &Value::Number(JsNumber::NaN))),
        "number is NaN, +∞𝔽 or -∞𝔽"
    );
    let zero = options_object(&mut agent, vec![("roundingIncrement", Value::Number(JsNumber::Integer(0)))]);
    assert_eq!(
        message(get_rounding_increment_option(&agent, zero)),
        "integerIncrement < 1 or integerIncrement > 10**9"
    );
    assert_eq!(message(get_options_object(&mut agent, &Value::Null)), "options is not undefined and not an Object");
}

#[test]
fn non_decimal_number_strings() {
    let n = |s: &str| string_to_number_exec(&s.as_bytes().to_vec());
    assert_eq!(n("0x10"), Numeric::Number(JsNumber::Integer(16)));
    assert_eq!(n("0X1f"), Numeric::Number(JsNumber::Integer(31)));
    assert_eq!(n("0o17"), Numeric::Number(JsNumber::Integer(15)));
    assert_eq!(n("0b11"), Numeric::Number(JsNumber::Integer(3)));
    assert_eq!(n(" 0B101\n"), Numeric::Number(JsNumber::Integer(5)));
    assert_eq!(n("0x7fffffffffffffff"), Numeric::Number(JsNumber::Integer(i64::MAX)));
    assert_eq!(n("0x"), Numeric::Number(JsNumber::NaN));
    assert_eq!(n("0xg"), Numeric::Number(JsNumber::NaN));
    assert_eq!(n("0b2"), Numeric::Number(JsNumber::NaN));
    assert_eq!(n("-0x10"), Numeric::Number(JsNumber::NaN));
    assert_eq!(n("0x1 0"), Numeric::Number(JsNumber::NaN));
    let mut agent = Agent::new();
    let hex = options_object(&mut agent, vec![("roundingIncrement", string("0x10"))]);
    assert_eq!(get_rounding_increment_option(&agent, hex).ok().unwrap(), 16);
}

#[test]
fn unicode_white_space_is_trimmed() {
    let n = |s: &str| string_to_number_exec(&s.as_bytes().to_vec());
    assert_eq!(n("\u{00A0}12\u{3000}"), Numeric::Number(JsNumber::Integer(12)));
    assert_eq!(n("\u{FEFF}0x10\u{2028}"), Numeric::Number(JsNumber::Integer(16)));
    assert_eq!(n("\u{2009}-5\u{202F}\u{205F}"), Numeric::Number(JsNumber::Integer(-5)));
    assert_eq!(n("\u{1680}\u{2029}"), Numeric::Number(JsNumber::Integer(0)));
    assert_eq!(n("\u{0085}1"), Numeric::Number(JsNumber::NaN));
    assert_eq!(n("1\u{200B}"), Numeric::Number(JsNumber::NaN));
}

#[test]
fn decimal_literals_with_fraction_and_exponent() {
    let n = |s: &str| string_to_number_exec(&s.as_bytes().to_vec());
    assert_eq!(n("1e3"), Numeric::Number(JsNumber::Integer(1000)));
    assert_eq!(n("1.0"), Numeric::Number(JsNumber::Integer(1)));
    assert_eq!(n("0.5e1"), Numeric::Number(JsNumber::Integer(5)));
    assert_eq!(n("12.50e1"), Numeric::Number(JsNumber::Integer(125)));
    assert_eq!(n("-2.5E+1"), Numeric::Number(JsNumber::Integer(-25)));
    assert_eq!(n(".5e1"), Numeric::Number(JsNumber::Integer(5)));
    assert_eq!(n("5."), Numeric::Number(JsNumber::Integer(5)));
    assert_eq!(n("100e-2"), Numeric::Number(JsNumber::Integer(1)));
    assert_eq!(n("1e-0"), Numeric::Number(JsNumber::Integer(1)));
    assert_eq!(n("1e18"), Numeric::Number(JsNumber::Integer(1_000_000_000_000_000_000)));
    assert_eq!(n("00012"), Numeric::Number(JsNumber::Integer(12)));
    assert_eq!(n("-0"), Numeric::Number(JsNumber::Integer(0)));
    assert_eq!(n("-0.0e5"), Numeric::Number(JsNumber::Integer(0)));
    assert_eq!(n("0e99999999999999999999999"), Numeric::Number(JsNumber::Integer(0)));
    assert_eq!(n("9223372036854775807"), Numeric::Number(JsNumber::Integer(i64::MAX)));
    assert_eq!(n("-9223372036854775808"), Numeric::Number(JsNumber::Integer(i64::MIN)));
    assert_eq!(n("922337203685477580.7e1"), Numeric::Number(JsNumber::Integer(i64::MAX)));
    assert_eq!(n("1e19"), Numeric::Number(JsNumber::NaN));
    assert_eq!(n("1e99999999999999999999999"), Numeric::Number(JsNumber::NaN));
    assert_eq!(n("1e-99999999999999999999999"), Numeric::Fraction(0));
    assert_eq!(n("1.5"), Numeric::Fraction(1));
    assert_eq!(n("."), Numeric::Number(JsNumber::NaN));
    assert_eq!(n("e5"), Numeric::Number(JsNumber::NaN));
    assert_eq!(n("1e"), Numeric::Number(JsNumber::NaN));
    assert_eq!(n("1e+"), Numeric::Number(JsNumber::NaN));
    assert_eq!(n("1.2.3"), Numeric::Number(JsNumber::NaN));
    assert_eq!(n("+.e1"), Numeric::Number(JsNumber::NaN));
    assert_eq!(n("1_000"), Numeric::Number(JsNumber::NaN));
    let mut agent = Agent::new();
    let exp = options_object(&mut agent, vec![("roundingIncrement", string("1e3"))]);
    assert_eq!(get_rounding_increment_option(&agent, exp).ok().unwrap(), 1000);
}
