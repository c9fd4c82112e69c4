use vstd::prelude::*;

use crate::conversion::{spec_to_boolean, spec_to_number, spec_to_string, to_boolean, to_number, to_string, Numeric};
use crate::heap::{Agent, ExceptionType, JsError, JsResult, OrdinaryObject, PropertyKey, PropertyKeyView};
use crate::value::{bytes_equal, object_of, JsNumber, Object, Value, ValueView};

verus! {

/// The default of an option: required, or a value.
#[derive(Debug)]
pub enum OptionDefault {
    Required,
    Value(Value),
}

/// The view of an option default: `None` where the option is required.
pub open spec fn default_view(d: OptionDefault) -> Option<ValueView> {
    match d {
        OptionDefault::Required => None,
        OptionDefault::Value(v) => Some(v@),
    }
}

/// The views of a list of values.
pub open spec fn values_view(values: Seq<Value>) -> Seq<ValueView> {
    values.map_values(|v: Value| v@)
}

/// GetOption(options, property, type, values, default): `types` is true for
/// a string option and false for a boolean one.
pub open spec fn spec_get_option(
    agent: &Agent,
    options: Object,
    key: PropertyKeyView,
    types: bool,
    values: Seq<ValueView>,
    default: Option<ValueView>,
) -> Result<ValueView, ExceptionType> {
    let value = agent.spec_get(options, key);
    if value is Undefined {
        match default {
            None => Err(ExceptionType::RangeError),
            Some(d) => Ok(d),
        }
    } else {
        let converted = if !types {
            Ok(ValueView::Boolean(spec_to_boolean(value)))
        } else {
            match spec_to_string(value) {
                Ok(s) => Ok(ValueView::String(s)),
                Err(e) => Err(e),
            }
        };
        match converted {
            Err(e) => Err(e),
            Ok(c) => if values.len() > 0 && !values.contains(c) {
                Err(ExceptionType::RangeError)
            } else {
                Ok(c)
            },
        }
    }
}

/// SameValue(a, b) over the values of this model.
pub fn same_value(a: &Value, b: &Value) -> (r: bool)
    ensures
        r == (a@ == b@),
{
    match (a, b) {
        (Value::Undefined, Value::Undefined) => true,
        (Value::Null, Value::Null) => true,
        (Value::Boolean(x), Value::Boolean(y)) => *x == *y,
        (Value::String(x), Value::String(y)) => bytes_equal(x.as_slice(), y.as_slice()),
        (Value::Symbol(x), Value::Symbol(y)) => *x == *y,
        (Value::Number(x), Value::Number(y)) => *x == *y,
        (Value::Object(x), Value::Object(y)) => *x == *y,
        (Value::Instant(x), Value::Instant(y)) => *x == *y,
        (Value::ZonedDateTime(x), Value::ZonedDateTime(y)) => *x == *y,
        _ => false,
    }
}

/// Whether `values` holds `v`.
fn list_contains(values: &Vec<Value>, v: &Value) -> (r: bool)
    ensures
        r == values_view(values@).contains(v@),
{
    let mut i: usize = 0;
    while i < values.len()
        invariant
            i <= values.len(),
            forall|j: int| 0 <= j < i ==> values@[j]@ != v@,
        decreases values.len() - i,
    {
        if same_value(&values[i], v) {
            assert(values_view(values@)[i as int] == v@);
            return true;
        }
        i = i + 1;
    }
    proof {
        if values_view(values@).contains(v@) {
            let j = choose|j: int| 0 <= j < values_view(values@).len() && values_view(values@)[j] == v@;
            assert(values@[j]@ == v@);
        }
    }
    false
}

/// [14.5.2.2 GetOption ( options, property, type, values, default )](https://tc39.es/proposal-temporal/#sec-getoption)
/// Reads property `property_key` of `options`; substitutes `default` where it
/// is undefined (a RangeError where the option is required); converts it to
/// a boolean or, where `types` is true, to a string; and throws a RangeError
/// where `values` is not empty and does not hold the result.
pub fn get_option(
    agent: &Agent,
    options: Object,
    property_key: &PropertyKey,
    types: bool,
    values: &Vec<Value>,
    default: OptionDefault,
) -> (r: JsResult<Value>)
    requires
        agent.wf(),
        agent.heap.valid_object_ref(options),
    ensures
        match r {
            Ok(v) => spec_get_option(agent, options, property_key@, types, values_view(values@), default_view(default)) == Ok::<ValueView, ExceptionType>(v@),
            Err(e) => spec_get_option(agent, options, property_key@, types, values_view(values@), default_view(default)) == Err::<ValueView, ExceptionType>(e.kind),
        },
{
    // 1. Let value be ? Get(options, property).
    let value = agent.get(options, property_key);
    // 2. If value is undefined, then
    if value.is_undefined() {
        return match default {
            // a. If default is required, throw a RangeError exception.
            OptionDefault::Required => Err(
                JsError { kind: ExceptionType::RangeError, message: "option is required" },
            ),
            // b. Return default.
            OptionDefault::Value(d) => Ok(d),
        };
    }
    let converted = if !types {
        // 3. If type is boolean, set value to ToBoolean(value).
        Value::Boolean(to_boolean(&value))
    } else {
        // 4. Else, set value to ? ToString(value).
        match to_string(&value) {
            Ok(s) => Value::String(s),
            Err(e) => {
                return Err(e);
            },
        }
    };
    // 5. If values is not empty and values does not contain value, throw a RangeError exception.
    if values.len() > 0 && !list_contains(values, &converted) {
        return Err(JsError { kind: ExceptionType::RangeError, message: "option value is not allowed" });
    }
    // 6. Return value.
    Ok(converted)
}

/// A Temporal unit, or `auto`; ordered from the smallest unit up as the
/// `temporal_rs` unit numbering is.
#[derive(Clone, Copy, Debug, PartialEq, Eq, Structural)]
pub enum TemporalUnit {
    Auto,
    Nanosecond,
    Microsecond,
    Millisecond,
    Second,
    Minute,
    Hour,
    Day,
    Week,
    Month,
    Year,
}

/// The number of a unit: `auto` is 0, nanosecond 1, up to year 10.
pub open spec fn unit_rank(u: TemporalUnit) -> int {
    match u {
        TemporalUnit::Auto => 0,
        TemporalUnit::Nanosecond => 1,
        TemporalUnit::Microsecond => 2,
        TemporalUnit::Millisecond => 3,
        TemporalUnit::Second => 4,
        TemporalUnit::Minute => 5,
        TemporalUnit::Hour => 6,
        TemporalUnit::Day => 7,
        TemporalUnit::Week => 8,
        TemporalUnit::Month => 9,
        TemporalUnit::Year => 10,
    }
}

/// The unit of row `k` of Table 21, from year down to nanosecond.
pub open spec fn unit_at(k: int) -> TemporalUnit {
    if k == 0 {
        TemporalUnit::Year
    } else if k == 1 {
        TemporalUnit::Month
    } else if k == 2 {
        TemporalUnit::Week
    } else if k == 3 {
        TemporalUnit::Day
    } else if k == 4 {
        TemporalUnit::Hour
    } else if k == 5 {
        TemporalUnit::Minute
    } else if k == 6 {
        TemporalUnit::Second
    } else if k == 7 {
        TemporalUnit::Millisecond
    } else if k == 8 {
        TemporalUnit::Microsecond
    } else {
        TemporalUnit::Nanosecond
    }
}

/// The singular property name of a unit (`auto` for auto).
pub open spec fn unit_singular(u: TemporalUnit) -> Seq<u8> {
    match u {
        TemporalUnit::Auto => seq!['a' as u8, 'u' as u8, 't' as u8, 'o' as u8],
        TemporalUnit::Nanosecond => seq![
            'n' as u8, 'a' as u8, 'n' as u8, 'o' as u8, 's' as u8, 'e' as u8, 'c' as u8, 'o' as u8, 'n' as u8, 'd' as u8,
        ],
        TemporalUnit::Microsecond => seq![
            'm' as u8, 'i' as u8, 'c' as u8, 'r' as u8, 'o' as u8, 's' as u8, 'e' as u8, 'c' as u8, 'o' as u8, 'n' as u8, 'd' as u8,
        ],
        TemporalUnit::Millisecond => seq![
            'm' as u8, 'i' as u8, 'l' as u8, 'l' as u8, 'i' as u8, 's' as u8, 'e' as u8, 'c' as u8, 'o' as u8, 'n' as u8, 'd' as u8,
        ],
        TemporalUnit::Second => seq!['s' as u8, 'e' as u8, 'c' as u8, 'o' as u8, 'n' as u8, 'd' as u8],
        TemporalUnit::Minute => seq!['m' as u8, 'i' as u8, 'n' as u8, 'u' as u8, 't' as u8, 'e' as u8],
        TemporalUnit::Hour => seq!['h' as u8, 'o' as u8, 'u' as u8, 'r' as u8],
        TemporalUnit::Day => seq!['d' as u8, 'a' as u8, 'y' as u8],
        TemporalUnit::Week => seq!['w' as u8, 'e' as u8, 'e' as u8, 'k' as u8],
        TemporalUnit::Month => seq!['m' as u8, 'o' as u8, 'n' as u8, 't' as u8, 'h' as u8],
        TemporalUnit::Year => seq!['y' as u8, 'e' as u8, 'a' as u8, 'r' as u8],
    }
}

/// The allowed strings of GetTemporalUnitValuedOption with the unit each
/// names: the singular and plural names of the rows of Table 21, in order,
/// then `auto`.
pub open spec fn unit_name_table() -> Seq<(Seq<u8>, TemporalUnit)> {
    Seq::new(
        21,
        |i: int|
            if i == 20 {
                (unit_singular(TemporalUnit::Auto), TemporalUnit::Auto)
            } else if i % 2 == 0 {
                (unit_singular(unit_at(i / 2)), unit_at(i / 2))
            } else {
                (unit_singular(unit_at(i / 2)).push('s' as u8), unit_at(i / 2))
            },
    )
}

/// The entry named `s` first found in `table` at or after `i`.
pub open spec fn find_name<T>(table: Seq<(Seq<u8>, T)>, s: Seq<u8>, i: int) -> Option<T>
    decreases table.len() - i,
{
    if i < 0 || i >= table.len() {
        None
    } else if table[i].0 == s {
        Some(table[i].1)
    } else {
        find_name(table, s, i + 1)
    }
}

/// The strings of a name table, as values.
pub open spec fn table_values<T>(table: Seq<(Seq<u8>, T)>) -> Seq<ValueView> {
    table.map_values(|p: (Seq<u8>, T)| ValueView::String(p.0))
}

/// The view of a name table built in memory.
pub open spec fn table_view<T>(t: Seq<(Vec<u8>, T)>) -> Seq<(Seq<u8>, T)> {
    t.map_values(|p: (Vec<u8>, T)| (p.0@, p.1))
}

/// The unit that `s` names in Table 21, or `auto`.
pub open spec fn unit_from_name(s: Seq<u8>) -> Option<TemporalUnit> {
    find_name(unit_name_table(), s, 0)
}

proof fn lemma_find_name<T>(table: Seq<(Seq<u8>, T)>, s: Seq<u8>, i: int)
    requires
        0 <= i <= table.len(),
    ensures
        find_name(table, s, i) is Some <==> exists|j: int| i <= j < table.len() && table[j].0 == s,
    decreases table.len() - i,
{
    if i < table.len() {
        lemma_find_name(table, s, i + 1);
        if find_name(table, s, i + 1) is Some {
            let j = choose|j: int| i + 1 <= j < table.len() && table[j].0 == s;
            assert(i <= j < table.len() && table[j].0 == s);
        }
    }
}

/// A string value is one of the table's strings exactly where the table
/// names something by it.
proof fn lemma_table_values<T>(table: Seq<(Seq<u8>, T)>, v: ValueView)
    ensures
        table_values(table).contains(v) <==> (v matches ValueView::String(s) && find_name(table, s, 0) is Some),
{
    match v {
        ValueView::String(s) => {
            lemma_find_name(table, s, 0);
            if table_values(table).contains(v) {
                let j = choose|j: int| 0 <= j < table_values(table).len() && table_values(table)[j] == v;
                assert(table[j].0 == s);
            }
            if find_name(table, s, 0) is Some {
                let j = choose|j: int| 0 <= j < table.len() && table[j].0 == s;
                assert(table_values(table)[j] == v);
            }
        },
        _ => {
            if table_values(table).contains(v) {
                let j = choose|j: int| 0 <= j < table_values(table).len() && table_values(table)[j] == v;
                assert(table_values(table)[j] is String);
            }
        },
    }
}

fn unit_singular_bytes(u: TemporalUnit) -> (r: Vec<u8>)
    ensures
        r@ == unit_singular(u),
{
    match u {
        TemporalUnit::Auto => vec!['a' as u8, 'u' as u8, 't' as u8, 'o' as u8],
        TemporalUnit::Nanosecond => vec![
            'n' as u8, 'a' as u8, 'n' as u8, 'o' as u8, 's' as u8, 'e' as u8, 'c' as u8, 'o' as u8, 'n' as u8, 'd' as u8,
        ],
        TemporalUnit::Microsecond => vec![
            'm' as u8, 'i' as u8, 'c' as u8, 'r' as u8, 'o' as u8, 's' as u8, 'e' as u8, 'c' as u8, 'o' as u8, 'n' as u8, 'd' as u8,
        ],
        TemporalUnit::Millisecond => vec![
            'm' as u8, 'i' as u8, 'l' as u8, 'l' as u8, 'i' as u8, 's' as u8, 'e' as u8, 'c' as u8, 'o' as u8, 'n' as u8, 'd' as u8,
        ],
        TemporalUnit::Second => vec!['s' as u8, 'e' as u8, 'c' as u8, 'o' as u8, 'n' as u8, 'd' as u8],
        TemporalUnit::Minute => vec!['m' as u8, 'i' as u8, 'n' as u8, 'u' as u8, 't' as u8, 'e' as u8],
        TemporalUnit::Hour => vec!['h' as u8, 'o' as u8, 'u' as u8, 'r' as u8],
        TemporalUnit::Day => vec!['d' as u8, 'a' as u8, 'y' as u8],
        TemporalUnit::Week => vec!['w' as u8, 'e' as u8, 'e' as u8, 'k' as u8],
        TemporalUnit::Month => vec!['m' as u8, 'o' as u8, 'n' as u8, 't' as u8, 'h' as u8],
        TemporalUnit::Year => vec!['y' as u8, 'e' as u8, 'a' as u8, 'r' as u8],
    }
}

fn unit_at_exec(k: usize) -> (r: TemporalUnit)
    ensures
        r == unit_at(k as int),
{
    if k == 0 {
        TemporalUnit::Year
    } else if k == 1 {
        TemporalUnit::Month
    } else if k == 2 {
        TemporalUnit::Week
    } else if k == 3 {
        TemporalUnit::Day
    } else if k == 4 {
        TemporalUnit::Hour
    } else if k == 5 {
        TemporalUnit::Minute
    } else if k == 6 {
        TemporalUnit::Second
    } else if k == 7 {
        TemporalUnit::Millisecond
    } else if k == 8 {
        TemporalUnit::Microsecond
    } else {
        TemporalUnit::Nanosecond
    }
}

/// The name table of GetTemporalUnitValuedOption, built in memory.
fn unit_name_table_exec() -> (r: Vec<(Vec<u8>, TemporalUnit)>)
    ensures
        table_view(r@) == unit_name_table(),
{
    let mut r: Vec<(Vec<u8>, TemporalUnit)> = Vec::new();
    let mut k: usize = 0;
    while k < 10
        invariant
            k <= 10,
            r.len() == 2 * k,
            forall|i: int| 0 <= i < 2 * k ==> (#[trigger] r@[i]).0@ == unit_name_table()[i].0 && r@[i].1 == unit_name_table()[i].1,
        decreases 10 - k,
    {
        let u = unit_at_exec(k);
        let singular = unit_singular_bytes(u);
        let mut plural = unit_singular_bytes(u);
        plural.push('s' as u8);
        let ghost before = r@;
        r.push((singular, u));
        r.push((plural, u));
        k = k + 1;
        assert forall|i: int| 0 <= i < 2 * k implies (#[trigger] r@[i]).0@ == unit_name_table()[i].0 && r@[i].1 == unit_name_table()[i].1 by {
            if i < 2 * k - 2 {
                assert(r@[i] == before[i]);
            } else if i == 2 * k - 2 {
                assert(i / 2 == k - 1);
                assert(i % 2 == 0);
            } else {
                assert(i / 2 == k - 1);
                assert(i % 2 == 1);
            }
        }
    }
    let ghost before = r@;
    r.push((unit_singular_bytes(TemporalUnit::Auto), TemporalUnit::Auto));
    assert(table_view(r@) =~= unit_name_table()) by {
        assert forall|i: int| 0 <= i < 21 implies #[trigger] table_view(r@)[i] == unit_name_table()[i] by {
            if i < 20 {
                assert(r@[i] == before[i]);
            }
        }
    }
    r
}

/// The strings of a name table, as values.
fn table_values_exec<T: Copy>(t: &Vec<(Vec<u8>, T)>) -> (r: Vec<Value>)
    ensures
        values_view(r@) == table_values(table_view(t@)),
{
    let mut r: Vec<Value> = Vec::new();
    let mut i: usize = 0;
    while i < t.len()
        invariant
            i <= t.len(),
            r.len() == i,
            forall|j: int| 0 <= j < i ==> (#[trigger] r@[j])@ == ValueView::String(t@[j].0@),
        decreases t.len() - i,
    {
        let ghost before = r@;
        r.push(Value::String(crate::value::copy_bytes(&t[i].0)));
        i = i + 1;
        assert forall|j: int| 0 <= j < i implies (#[trigger] r@[j])@ == ValueView::String(t@[j].0@) by {
            if j < i - 1 {
                assert(r@[j] == before[j]);
            }
        }
    }
    assert(values_view(r@) =~= table_values(table_view(t@)));
    r
}

/// The entry of the table named `s`.
fn find_name_exec<T: Copy>(t: &Vec<(Vec<u8>, T)>, s: &Vec<u8>) -> (r: Option<T>)
    ensures
        r == find_name(table_view(t@), s@, 0),
{
    let mut i: usize = 0;
    while i < t.len()
        invariant
            i <= t.len(),
            find_name(table_view(t@), s@, 0) == find_name(table_view(t@), s@, i as int),
        decreases t.len() - i,
    {
        if bytes_equal(t[i].0.as_slice(), s.as_slice()) {
            return Some(t[i].1);
        }
        i = i + 1;
    }
    None
}

/// GetTemporalUnitValuedOption(options, key, default), where `required`
/// tells the default `required` from `unset` (the result `None`).
pub open spec fn spec_unit_valued_option(agent: &Agent, options: Object, key: PropertyKeyView, required: bool) -> Result<
    Option<TemporalUnit>,
    ExceptionType,
> {
    let value = agent.spec_get(options, key);
    if value is Undefined {
        if required {
            Err(ExceptionType::RangeError)
        } else {
            Ok(None)
        }
    } else {
        match spec_to_string(value) {
            Err(e) => Err(e),
            Ok(s) => match unit_from_name(s) {
                Some(u) => Ok(Some(u)),
                None => Err(ExceptionType::RangeError),
            },
        }
    }
}

/// [13.17 GetTemporalUnitValuedOption ( options, key, default )](https://tc39.es/proposal-temporal/#sec-temporal-gettemporalunitvaluedoption)
/// Reads a Temporal unit from property `property_key` of `options`: a
/// singular or plural unit name of Table 21, or `auto`. `None` is unset.
pub fn get_temporal_unit_valued_option(
    agent: &Agent,
    options: Object,
    property_key: &PropertyKey,
    required: bool,
) -> (r: JsResult<Option<TemporalUnit>>)
    requires
        agent.wf(),
        agent.heap.valid_object_ref(options),
    ensures
        crate::heap::completes_as(r, spec_unit_valued_option(agent, options, property_key@, required)),
{
    // 1. Let allowedStrings be a List containing all values in the "Singular property name" and
    //    "Plural property name" columns of Table 21, except the header row.
    // 2. Append "auto" to allowedStrings.
    let table = unit_name_table_exec();
    let allowed = table_values_exec(&table);
    // 4. If default is unset, let defaultValue be undefined; 5. else let defaultValue be default.
    let default = if required {
        OptionDefault::Required
    } else {
        OptionDefault::Value(Value::Undefined)
    };
    proof {
        if let Ok(s) = spec_to_string(agent.spec_get(options, property_key@)) {
            lemma_table_values(unit_name_table(), ValueView::String(s));
        }
    }
    // 6. Let value be ? GetOption(options, key, string, allowedStrings, defaultValue).
    let value = get_option(agent, options, property_key, true, &allowed, default)?;
    proof {
        lemma_table_values(unit_name_table(), value@);
    }
    // 7. If value is undefined, return unset.
    match value {
        Value::String(s) => {
            // 8. If value is "auto", return auto.
            // 9. Return the value of the row of Table 21 whose singular or plural name is value.
            match find_name_exec(&table, &s) {
                Some(u) => Ok(Some(u)),
                None => Err(JsError { kind: ExceptionType::RangeError, message: "invalid unit" }),
            }
        },
        _ => Ok(None),
    }
}

/// A rounding mode of Table 28.
#[derive(Clone, Copy, Debug, PartialEq, Eq, Structural)]
pub enum RoundingMode {
    Ceil,
    Floor,
    Expand,
    Trunc,
    HalfCeil,
    HalfFloor,
    HalfExpand,
    HalfTrunc,
    HalfEven,
}

/// The rounding mode of row `k` of Table 28.
pub open spec fn rounding_mode_at(k: int) -> RoundingMode {
    if k == 0 {
        RoundingMode::Ceil
    } else if k == 1 {
        RoundingMode::Floor
    } else if k == 2 {
        RoundingMode::Expand
    } else if k == 3 {
        RoundingMode::Trunc
    } else if k == 4 {
        RoundingMode::HalfCeil
    } else if k == 5 {
        RoundingMode::HalfFloor
    } else if k == 6 {
        RoundingMode::HalfExpand
    } else if k == 7 {
        RoundingMode::HalfTrunc
    } else {
        RoundingMode::HalfEven
    }
}

/// The string identifier of a rounding mode.
pub open spec fn rounding_mode_name(m: RoundingMode) -> Seq<u8> {
    match m {
        RoundingMode::Ceil => seq!['c' as u8, 'e' as u8, 'i' as u8, 'l' as u8],
        RoundingMode::Floor => seq!['f' as u8, 'l' as u8, 'o' as u8, 'o' as u8, 'r' as u8],
        RoundingMode::Expand => seq!['e' as u8, 'x' as u8, 'p' as u8, 'a' as u8, 'n' as u8, 'd' as u8],
        RoundingMode::Trunc => seq!['t' as u8, 'r' as u8, 'u' as u8, 'n' as u8, 'c' as u8],
        RoundingMode::HalfCeil => seq!['h' as u8, 'a' as u8, 'l' as u8, 'f' as u8, 'C' as u8, 'e' as u8, 'i' as u8, 'l' as u8],
        RoundingMode::HalfFloor => seq![
            'h' as u8, 'a' as u8, 'l' as u8, 'f' as u8, 'F' as u8, 'l' as u8, 'o' as u8, 'o' as u8, 'r' as u8,
        ],
        RoundingMode::HalfExpand => seq![
            'h' as u8, 'a' as u8, 'l' as u8, 'f' as u8, 'E' as u8, 'x' as u8, 'p' as u8, 'a' as u8, 'n' as u8, 'd' as u8,
        ],
        RoundingMode::HalfTrunc => seq![
            'h' as u8, 'a' as u8, 'l' as u8, 'f' as u8, 'T' as u8, 'r' as u8, 'u' as u8, 'n' as u8, 'c' as u8,
        ],
        RoundingMode::HalfEven => seq!['h' as u8, 'a' as u8, 'l' as u8, 'f' as u8, 'E' as u8, 'v' as u8, 'e' as u8, 'n' as u8],
    }
}

/// The String Identifier column of Table 28, with the mode of each row.
pub open spec fn rounding_mode_table() -> Seq<(Seq<u8>, RoundingMode)> {
    Seq::new(9, |i: int| (rounding_mode_name(rounding_mode_at(i)), rounding_mode_at(i)))
}

/// NegateRoundingMode(roundingMode).
pub open spec fn negate_rounding_mode(m: RoundingMode) -> RoundingMode {
    match m {
        RoundingMode::Ceil => RoundingMode::Floor,
        RoundingMode::Floor => RoundingMode::Ceil,
        RoundingMode::HalfCeil => RoundingMode::HalfFloor,
        RoundingMode::HalfFloor => RoundingMode::HalfCeil,
        _ => m,
    }
}

fn rounding_mode_at_exec(k: usize) -> (r: RoundingMode)
    ensures
        r == rounding_mode_at(k as int),
{
    if k == 0 {
        RoundingMode::Ceil
    } else if k == 1 {
        RoundingMode::Floor
    } else if k == 2 {
        RoundingMode::Expand
    } else if k == 3 {
        RoundingMode::Trunc
    } else if k == 4 {
        RoundingMode::HalfCeil
    } else if k == 5 {
        RoundingMode::HalfFloor
    } else if k == 6 {
        RoundingMode::HalfExpand
    } else if k == 7 {
        RoundingMode::HalfTrunc
    } else {
        RoundingMode::HalfEven
    }
}

fn rounding_mode_name_bytes(m: RoundingMode) -> (r: Vec<u8>)
    ensures
        r@ == rounding_mode_name(m),
{
    match m {
        RoundingMode::Ceil => vec!['c' as u8, 'e' as u8, 'i' as u8, 'l' as u8],
        RoundingMode::Floor => vec!['f' as u8, 'l' as u8, 'o' as u8, 'o' as u8, 'r' as u8],
        RoundingMode::Expand => vec!['e' as u8, 'x' as u8, 'p' as u8, 'a' as u8, 'n' as u8, 'd' as u8],
        RoundingMode::Trunc => vec!['t' as u8, 'r' as u8, 'u' as u8, 'n' as u8, 'c' as u8],
        RoundingMode::HalfCeil => vec!['h' as u8, 'a' as u8, 'l' as u8, 'f' as u8, 'C' as u8, 'e' as u8, 'i' as u8, 'l' as u8],
        RoundingMode::HalfFloor => vec![
            'h' as u8, 'a' as u8, 'l' as u8, 'f' as u8, 'F' as u8, 'l' as u8, 'o' as u8, 'o' as u8, 'r' as u8,
        ],
        RoundingMode::HalfExpand => vec![
            'h' as u8, 'a' as u8, 'l' as u8, 'f' as u8, 'E' as u8, 'x' as u8, 'p' as u8, 'a' as u8, 'n' as u8, 'd' as u8,
        ],
        RoundingMode::HalfTrunc => vec![
            'h' as u8, 'a' as u8, 'l' as u8, 'f' as u8, 'T' as u8, 'r' as u8, 'u' as u8, 'n' as u8, 'c' as u8,
        ],
        RoundingMode::HalfEven => vec!['h' as u8, 'a' as u8, 'l' as u8, 'f' as u8, 'E' as u8, 'v' as u8, 'e' as u8, 'n' as u8],
    }
}

/// The name table of Table 28, built in memory.
fn rounding_mode_table_exec() -> (r: Vec<(Vec<u8>, RoundingMode)>)
    ensures
        table_view(r@) == rounding_mode_table(),
{
    let mut r: Vec<(Vec<u8>, RoundingMode)> = Vec::new();
    let mut k: usize = 0;
    while k < 9
        invariant
            k <= 9,
            r.len() == k,
            forall|i: int| 0 <= i < k ==> (#[trigger] r@[i]).0@ == rounding_mode_table()[i].0 && r@[i].1 == rounding_mode_table()[i].1,
        decreases 9 - k,
    {
        let m = rounding_mode_at_exec(k);
        let ghost before = r@;
        r.push((rounding_mode_name_bytes(m), m));
        k = k + 1;
        assert forall|i: int| 0 <= i < k implies (#[trigger] r@[i]).0@ == rounding_mode_table()[i].0 && r@[i].1 == rounding_mode_table()[i].1 by {
            if i < k - 1 {
                assert(r@[i] == before[i]);
            }
        }
    }
    assert(table_view(r@) =~= rounding_mode_table());
    r
}

/// Each rounding mode is found by its own name.
proof fn lemma_rounding_mode_names(m: RoundingMode)
    ensures
        find_name(rounding_mode_table(), rounding_mode_name(m), 0) == Some(m),
{
    let t = rounding_mode_table();
    reveal_with_fuel(find_name, 10);
    assert(rounding_mode_name(RoundingMode::Floor)[0] != rounding_mode_name(RoundingMode::Trunc)[0]);
    assert(rounding_mode_name(RoundingMode::HalfCeil)[4] != rounding_mode_name(RoundingMode::HalfEven)[4]);
    assert(rounding_mode_name(RoundingMode::HalfFloor)[4] != rounding_mode_name(RoundingMode::HalfTrunc)[4]);
    assert forall|i: int| 0 <= i < 9 implies #[trigger] t[i].1 == rounding_mode_at(i) && t[i].0 == rounding_mode_name(rounding_mode_at(i)) by {}
    assert forall|i: int, j: int| 0 <= i < 9 && 0 <= j < 9 && i != j implies #[trigger] t[i].0 != #[trigger] t[j].0 by {
        let a = t[i].0;
        let b = t[j].0;
        if a.len() == b.len() {
            assert(a[0] != b[0] || a[4] != b[4]);
        }
    }
}

/// GetRoundingModeOption(options, fallback): undefined gives `fallback`,
/// a string of Table 28 its mode, any other string a RangeError.
pub open spec fn spec_rounding_mode_option(agent: &Agent, options: Object, fallback: RoundingMode) -> Result<
    RoundingMode,
    ExceptionType,
> {
    let value = agent.spec_get(options, PropertyKeyView::String(key_rounding_mode()));
    if value is Undefined {
        Ok(fallback)
    } else {
        match spec_to_string(value) {
            Err(e) => Err(e),
            Ok(s) => match find_name(rounding_mode_table(), s, 0) {
                Some(m) => Ok(m),
                None => Err(ExceptionType::RangeError),
            },
        }
    }
}

pub open spec fn key_rounding_mode() -> Seq<u8> {
    seq![
        'r' as u8, 'o' as u8, 'u' as u8, 'n' as u8, 'd' as u8, 'i' as u8, 'n' as u8, 'g' as u8, 'M' as u8, 'o' as u8, 'd' as u8, 'e' as u8,
    ]
}

/// [14.5.2.3 GetRoundingModeOption ( options, fallback )](https://tc39.es/proposal-temporal/#sec-temporal-getroundingmodeoption)
/// Fetches and validates the "roundingMode" property of `options`,
/// returning `fallback` where it is absent.
pub fn get_rounding_mode_option(agent: &Agent, options: Object, fallback: RoundingMode) -> (r: JsResult<RoundingMode>)
    requires
        agent.wf(),
        agent.heap.valid_object_ref(options),
    ensures
        crate::heap::completes_as(r, spec_rounding_mode_option(agent, options, fallback)),
{
    // 1. Let allowedStrings be the List of Strings from the "String Identifier" column of Table 28.
    let table = rounding_mode_table_exec();
    let allowed = table_values_exec(&table);
    // 2. Let stringFallback be the value from the "String Identifier" column of the row with fallback in its "Rounding Mode" column.
    let string_fallback = Value::String(rounding_mode_name_bytes(fallback));
    let key = PropertyKey::String(
        vec![
            'r' as u8, 'o' as u8, 'u' as u8, 'n' as u8, 'd' as u8, 'i' as u8, 'n' as u8, 'g' as u8, 'M' as u8, 'o' as u8, 'd' as u8, 'e' as u8,
        ],
    );
    proof {
        lemma_rounding_mode_names(fallback);
        if let Ok(s) = spec_to_string(agent.spec_get(options, key@)) {
            lemma_table_values(rounding_mode_table(), ValueView::String(s));
        }
    }
    // 3. Let stringValue be ? GetOption(options, "roundingMode", string, allowedStrings, stringFallback).
    let value = get_option(agent, options, &key, true, &allowed, OptionDefault::Value(string_fallback))?;
    // 4. Return the value from the "Rounding Mode" column of the row with stringValue in its "String Identifier" column.
    match value {
        Value::String(s) => match find_name_exec(&table, &s) {
            Some(m) => Ok(m),
            None => Err(JsError { kind: ExceptionType::RangeError, message: "invalid rounding mode" }),
        },
        _ => Err(JsError { kind: ExceptionType::RangeError, message: "invalid rounding mode" }),
    }
}

/// ToIntegerWithTruncation(argument): NaN and the infinities are a
/// RangeError; an integer is itself and a fraction its truncation.
pub open spec fn spec_to_integer_with_truncation(v: ValueView) -> Result<i64, ExceptionType> {
    match spec_to_number(v) {
        Err(e) => Err(e),
        Ok(Numeric::Number(JsNumber::Integer(i))) => Ok(i),
        Ok(Numeric::Fraction(t)) => Ok(t),
        Ok(_) => Err(ExceptionType::RangeError),
    }
}

/// [13.40 ToIntegerWithTruncation ( argument )](https://tc39.es/proposal-temporal/#sec-tointegerwithtruncation)
/// Converts `argument` to an integer representing its Number value with
/// its fractional part truncated, or throws a RangeError when that value is
/// not finite.
pub fn to_integer_with_truncation(agent: &Agent, argument: &Value) -> (r: JsResult<i64>)
    ensures
        crate::heap::completes_as(r, spec_to_integer_with_truncation(argument@)),
        spec_to_number(argument@) matches Ok(Numeric::Number(n)) && !(n is Integer) ==> (r matches Err(e)
            && e.message@ == "number is NaN, +∞𝔽 or -∞𝔽"@),
{
    // 1. Let number be ? ToNumber(argument).
    let number = to_number(argument)?;
    // 2. If number is NaN, +∞𝔽 or -∞𝔽, throw a RangeError exception.
    // 3. Return truncate(ℝ(number)).
    match number {
        Numeric::Number(JsNumber::Integer(i)) => Ok(i),
        Numeric::Fraction(t) => Ok(t),
        _ => Err(JsError { kind: ExceptionType::RangeError, message: "number is NaN, +∞𝔽 or -∞𝔽" }),
    }
}

pub open spec fn key_rounding_increment() -> Seq<u8> {
    seq![
        'r' as u8, 'o' as u8, 'u' as u8, 'n' as u8, 'd' as u8, 'i' as u8, 'n' as u8, 'g' as u8,
        'I' as u8, 'n' as u8, 'c' as u8, 'r' as u8, 'e' as u8, 'm' as u8, 'e' as u8, 'n' as u8, 't' as u8,
    ]
}

/// The largest rounding increment: 10^9.
pub open spec fn max_rounding_increment() -> int {
    1_000_000_000
}

/// GetRoundingIncrementOption(options): 1 where "roundingIncrement" is
/// undefined, else its integer value, which must lie in 1 to 10^9.
pub open spec fn spec_rounding_increment_option(agent: &Agent, options: Object) -> Result<u32, ExceptionType> {
    let value = agent.spec_get(options, PropertyKeyView::String(key_rounding_increment()));
    if value is Undefined {
        Ok(1)
    } else {
        match spec_to_integer_with_truncation(value) {
            Err(e) => Err(e),
            Ok(i) => if i < 1 || i > max_rounding_increment() {
                Err(ExceptionType::RangeError)
            } else {
                Ok(i as u32)
            },
        }
    }
}

/// [14.5.2.4 GetRoundingIncrementOption ( options )](https://tc39.es/proposal-temporal/#sec-temporal-getroundingincrementoption)
/// Fetches and validates the "roundingIncrement" property of `options`,
/// returning 1 where it is absent; the result lies in 1 to 10^9.
pub fn get_rounding_increment_option(agent: &Agent, options: Object) -> (r: JsResult<u32>)
    requires
        agent.wf(),
        agent.heap.valid_object_ref(options),
    ensures
        crate::heap::completes_as(r, spec_rounding_increment_option(agent, options)),
        r matches Ok(i) ==> 1 <= i <= max_rounding_increment(),
        ({
            let value = agent.spec_get(options, PropertyKeyView::String(key_rounding_increment()));
            spec_to_integer_with_truncation(value) matches Ok(i) && !(value is Undefined) && (i < 1 || i
                > max_rounding_increment())
        }) ==> (r matches Err(e) && e.message@ == "integerIncrement < 1 or integerIncrement > 10**9"@),
{
    let key = PropertyKey::String(
        vec![
            'r' as u8, 'o' as u8, 'u' as u8, 'n' as u8, 'd' as u8, 'i' as u8, 'n' as u8, 'g' as u8,
            'I' as u8, 'n' as u8, 'c' as u8, 'r' as u8, 'e' as u8, 'm' as u8, 'e' as u8, 'n' as u8, 't' as u8,
        ],
    );
    // 1. Let value be ? Get(options, "roundingIncrement").
    let value = agent.get(options, &key);
    // 2. If value is undefined, return 1𝔽.
    if value.is_undefined() {
        return Ok(1);
    }
    // 3. Let integerIncrement be ? ToIntegerWithTruncation(value).
    let integer_increment = to_integer_with_truncation(agent, &value)?;
    // 4. If integerIncrement < 1 or integerIncrement > 10**9, throw a RangeError exception.
    if integer_increment < 1 || integer_increment > 1_000_000_000 {
        return Err(
            JsError { kind: ExceptionType::RangeError, message: "integerIncrement < 1 or integerIncrement > 10**9" },
        );
    }
    // 5. Return integerIncrement.
    Ok(integer_increment as u32)
}

/// GetOptionsObject(options): undefined gives a new object with a null
/// prototype, an object is itself, and any other value is a TypeError.
/// Only the first case adds to the heap.
pub open spec fn options_object_result(old_agent: &Agent, options: ValueView) -> Result<Object, ExceptionType> {
    if options is Undefined {
        Ok(Object::Object(OrdinaryObject(old_agent.heap.objects.len() as u32)))
    } else {
        match object_of(options) {
            Some(o) => Ok(o),
            None => Err(ExceptionType::TypeError),
        }
    }
}

/// [14.5.2.1 GetOptionsObject ( options )](https://tc39.es/proposal-temporal/#sec-getoptionsobject)
/// Returns an Object suitable for use with GetOption: `options` itself, or
/// a new empty object with a null prototype where `options` is undefined.
/// Throws a TypeError if `options` is neither undefined nor an Object.
pub fn get_options_object(agent: &mut Agent, options: &Value) -> (r: JsResult<Object>)
    requires
        old(agent).wf(),
        old(agent).heap.valid_value(options@),
        old(agent).heap.objects.len() + 1 < u32::MAX,
    ensures
        final(agent).wf(),
        crate::heap::completes_as(r, options_object_result(old(agent), options@)),
        r matches Ok(o) ==> final(agent).heap.valid_object_ref(o),
        old(agent).heap.grows_to(&final(agent).heap),
        final(agent).realms == old(agent).realms,
        final(agent).current_realm == old(agent).current_realm,
        final(agent).heap.instants == old(agent).heap.instants,
        final(agent).heap.zoned_date_times == old(agent).heap.zoned_date_times,
        forall|i: int| 0 <= i < old(agent).heap.objects.len() ==> final(agent).heap.objects@[i] == old(agent).heap.objects@[i],
        options@ is Undefined ==> {
            &&& final(agent).heap.objects@.len() == old(agent).heap.objects@.len() + 1
            &&& final(agent).heap.objects@[old(agent).heap.objects.len() as int].prototype is None
            &&& final(agent).heap.objects@[old(agent).heap.objects.len() as int].properties@.len() == 0
        },
        !(options@ is Undefined) ==> *final(agent) == *old(agent),
        !(options@ is Undefined) && object_of(options@) is None ==> (r matches Err(e) && e.message@
            == "options is not undefined and not an Object"@),
{
    // 1. If options is undefined, then
    if options.is_undefined() {
        // a. Return OrdinaryObjectCreate(null).
        let obj = agent.create_empty_object();
        return Ok(Object::Object(obj));
    }
    // 2. If options is an Object, then
    match options.to_object() {
        // a. Return options itself.
        Some(o) => Ok(o),
        // 3. Throw a TypeError exception.
        None => Err(
            JsError { kind: ExceptionType::TypeError, message: "options is not undefined and not an Object" },
        ),
    }
}

/// The unit group of a Temporal operation.
#[derive(Clone, Copy, Debug, PartialEq, Eq, Structural)]
pub enum UnitGroup {
    Date,
    Time,
    DateTime,
}

/// A unit whose Category in Table 21 is date.
pub open spec fn is_date_unit(u: TemporalUnit) -> bool {
    unit_rank(u) >= 7
}

/// ValidateTemporalUnitValue(value, unitGroup, extraValues), where
/// `auto_allowed` tells whether extraValues holds `auto`; `None` is unset.
pub open spec fn valid_temporal_unit_value(value: Option<TemporalUnit>, unit_group: UnitGroup, auto_allowed: bool) -> bool {
    match value {
        None => true,
        Some(TemporalUnit::Auto) => auto_allowed,
        Some(u) => if is_date_unit(u) {
            unit_group is Date || unit_group is DateTime
        } else {
            unit_group is Time || unit_group is DateTime
        },
    }
}

/// LargerOfTwoTemporalUnits(u1, u2).
pub open spec fn larger_of_two_temporal_units(u1: TemporalUnit, u2: TemporalUnit) -> TemporalUnit {
    if unit_rank(u1) >= unit_rank(u2) {
        u1
    } else {
        u2
    }
}

/// MaximumTemporalDurationRoundingIncrement(unit): `None` is unset.
pub open spec fn maximum_rounding_increment(u: TemporalUnit) -> Option<u32> {
    match u {
        TemporalUnit::Year | TemporalUnit::Month | TemporalUnit::Week | TemporalUnit::Day => None,
        TemporalUnit::Hour => Some(24),
        TemporalUnit::Minute | TemporalUnit::Second => Some(60),
        _ => Some(1000),
    }
}

/// ValidateTemporalRoundingIncrement(increment, dividend, inclusive) holds.
pub open spec fn valid_rounding_increment(increment: int, dividend: int, inclusive: bool) -> bool {
    let maximum = if inclusive {
        dividend
    } else {
        dividend - 1
    };
    increment <= maximum && dividend % increment == 0
}

/// The record that GetDifferenceSettings returns.
#[derive(Clone, Copy, Debug, PartialEq, Eq, Structural)]
pub struct DifferenceSettings {
    pub smallest_unit: TemporalUnit,
    pub largest_unit: TemporalUnit,
    pub rounding_mode: RoundingMode,
    pub rounding_increment: u32,
}

/// Steps 6 to 18 of GetDifferenceSettings, on the options already read.
pub open spec fn resolve_difference_settings(
    is_until: bool,
    largest_unit: Option<TemporalUnit>,
    rounding_increment: u32,
    rounding_mode: RoundingMode,
    smallest_unit: Option<TemporalUnit>,
    unit_group: UnitGroup,
    disallowed_units: Seq<TemporalUnit>,
    fallback_smallest_unit: TemporalUnit,
    smallest_largest_default_unit: TemporalUnit,
) -> Result<DifferenceSettings, ExceptionType> {
    if !valid_temporal_unit_value(largest_unit, unit_group, true) {
        Err(ExceptionType::RangeError)
    } else {
        let largest = match largest_unit {
            None => TemporalUnit::Auto,
            Some(u) => u,
        };
        if disallowed_units.contains(largest) {
            Err(ExceptionType::RangeError)
        } else {
            let mode = if is_until {
                rounding_mode
            } else {
                negate_rounding_mode(rounding_mode)
            };
            if !valid_temporal_unit_value(smallest_unit, unit_group, false) {
                Err(ExceptionType::RangeError)
            } else {
                let smallest = match smallest_unit {
                    None => fallback_smallest_unit,
                    Some(u) => u,
                };
                if disallowed_units.contains(smallest) {
                    Err(ExceptionType::RangeError)
                } else {
                    let default_largest = larger_of_two_temporal_units(smallest_largest_default_unit, smallest);
                    let largest = if largest == TemporalUnit::Auto {
                        default_largest
                    } else {
                        largest
                    };
                    if larger_of_two_temporal_units(largest, smallest) != largest {
                        Err(ExceptionType::RangeError)
                    } else {
                        let settings = DifferenceSettings {
                            smallest_unit: smallest,
                            largest_unit: largest,
                            rounding_mode: mode,
                            rounding_increment,
                        };
                        match maximum_rounding_increment(smallest) {
                            Some(m) => if !valid_rounding_increment(rounding_increment as int, m as int, false) {
                                Err(ExceptionType::RangeError)
                            } else {
                                Ok(settings)
                            },
                            None => Ok(settings),
                        }
                    }
                }
            }
        }
    }
}

pub open spec fn key_largest_unit() -> Seq<u8> {
    seq![
        'l' as u8, 'a' as u8, 'r' as u8, 'g' as u8, 'e' as u8, 's' as u8, 't' as u8,
        'U' as u8, 'n' as u8, 'i' as u8, 't' as u8,
    ]
}

pub open spec fn key_smallest_unit() -> Seq<u8> {
    seq![
        's' as u8, 'm' as u8, 'a' as u8, 'l' as u8, 'l' as u8, 'e' as u8, 's' as u8, 't' as u8,
        'U' as u8, 'n' as u8, 'i' as u8, 't' as u8,
    ]
}

/// GetDifferenceSettings(operation, options, unitGroup, disallowedUnits,
/// fallbackSmallestUnit, smallestLargestDefaultUnit), where `is_until`
/// tells until from since: the options are read in the order largestUnit,
/// roundingIncrement, roundingMode, smallestUnit, and the first throw stops.
pub open spec fn spec_difference_settings(
    agent: &Agent,
    options: Object,
    unit_group: UnitGroup,
    disallowed_units: Seq<TemporalUnit>,
    fallback_smallest_unit: TemporalUnit,
    smallest_largest_default_unit: TemporalUnit,
    is_until: bool,
) -> Result<DifferenceSettings, ExceptionType> {
    match spec_unit_valued_option(agent, options, PropertyKeyView::String(key_largest_unit()), false) {
        Err(e) => Err(e),
        Ok(largest_unit) => match spec_rounding_increment_option(agent, options) {
            Err(e) => Err(e),
            Ok(rounding_increment) => match spec_rounding_mode_option(agent, options, RoundingMode::Trunc) {
                Err(e) => Err(e),
                Ok(rounding_mode) => match spec_unit_valued_option(
                    agent,
                    options,
                    PropertyKeyView::String(key_smallest_unit()),
                    false,
                ) {
                    Err(e) => Err(e),
                    Ok(smallest_unit) => resolve_difference_settings(
                        is_until,
                        largest_unit,
                        rounding_increment,
                        rounding_mode,
                        smallest_unit,
                        unit_group,
                        disallowed_units,
                        fallback_smallest_unit,
                        smallest_largest_default_unit,
                    ),
                },
            },
        },
    }
}

/// The number of a unit, as `temporal_rs` numbers units.
pub fn unit_number(u: TemporalUnit) -> (r: usize)
    ensures
        r as int == unit_rank(u),
{
    match u {
        TemporalUnit::Auto => 0,
        TemporalUnit::Nanosecond => 1,
        TemporalUnit::Microsecond => 2,
        TemporalUnit::Millisecond => 3,
        TemporalUnit::Second => 4,
        TemporalUnit::Minute => 5,
        TemporalUnit::Hour => 6,
        TemporalUnit::Day => 7,
        TemporalUnit::Week => 8,
        TemporalUnit::Month => 9,
        TemporalUnit::Year => 10,
    }
}

/// [13.14 ValidateTemporalUnitValue ( value, unitGroup [ , extraValues ] )](https://tc39.es/proposal-temporal/#sec-temporal-validatetemporalunitvaluedoption)
/// `auto_allowed` tells whether extraValues holds `auto`.
pub fn validate_temporal_unit_value(value: Option<TemporalUnit>, unit_group: UnitGroup, auto_allowed: bool) -> (r: JsResult<()>)
    ensures
        r is Ok <==> valid_temporal_unit_value(value, unit_group, auto_allowed),
        r matches Err(e) ==> e.kind == ExceptionType::RangeError,
{
    let ok = match value {
        None => true,
        Some(TemporalUnit::Auto) => auto_allowed,
        Some(u) => if unit_number(u) >= 7 {
            match unit_group {
                UnitGroup::Time => false,
                _ => true,
            }
        } else {
            match unit_group {
                UnitGroup::Date => false,
                _ => true,
            }
        },
    };
    if ok {
        Ok(())
    } else {
        Err(JsError { kind: ExceptionType::RangeError, message: "invalid unit for this operation" })
    }
}

/// [13.21 LargerOfTwoTemporalUnits ( u1, u2 )](https://tc39.es/proposal-temporal/#sec-temporal-largeroftwotemporalunits)
pub fn larger_of_two_units(u1: TemporalUnit, u2: TemporalUnit) -> (r: TemporalUnit)
    ensures
        r == larger_of_two_temporal_units(u1, u2),
{
    if unit_number(u1) >= unit_number(u2) {
        u1
    } else {
        u2
    }
}

/// [13.25 MaximumTemporalDurationRoundingIncrement ( unit )](https://tc39.es/proposal-temporal/#sec-temporal-maximumtemporaldurationroundingincrement)
pub fn maximum_temporal_duration_rounding_increment(u: TemporalUnit) -> (r: Option<u32>)
    ensures
        r == maximum_rounding_increment(u),
{
    match u {
        TemporalUnit::Year | TemporalUnit::Month | TemporalUnit::Week | TemporalUnit::Day => None,
        TemporalUnit::Hour => Some(24),
        TemporalUnit::Minute | TemporalUnit::Second => Some(60),
        _ => Some(1000),
    }
}

/// [13.15 ValidateTemporalRoundingIncrement ( increment, dividend, inclusive )](https://tc39.es/proposal-temporal/#sec-validatetemporalroundingincrement)
pub fn validate_temporal_rounding_increment(increment: u32, dividend: u32, inclusive: bool) -> (r: JsResult<()>)
    requires
        1 <= increment,
    ensures
        r is Ok <==> valid_rounding_increment(increment as int, dividend as int, inclusive),
        r is Ok <==> (increment <= dividend && (inclusive || increment < dividend) && dividend % increment == 0),
        r matches Err(e) ==> e.kind == ExceptionType::RangeError,
{
    // 1. If inclusive is true, let maximum be dividend.
    // 2. Else, let maximum be dividend - 1.
    let maximum: i64 = if inclusive {
        dividend as i64
    } else {
        dividend as i64 - 1
    };
    // 3. If increment > maximum, throw a RangeError exception.
    if increment as i64 > maximum {
        return Err(JsError { kind: ExceptionType::RangeError, message: "rounding increment is too large" });
    }
    // 4. If dividend modulo increment ≠ 0, throw a RangeError exception.
    if dividend % increment != 0 {
        return Err(JsError { kind: ExceptionType::RangeError, message: "rounding increment does not divide the unit" });
    }
    Ok(())
}

/// NegateRoundingMode(roundingMode).
pub fn negate_rounding_mode_exec(m: RoundingMode) -> (r: RoundingMode)
    ensures
        r == negate_rounding_mode(m),
{
    match m {
        RoundingMode::Ceil => RoundingMode::Floor,
        RoundingMode::Floor => RoundingMode::Ceil,
        RoundingMode::HalfCeil => RoundingMode::HalfFloor,
        RoundingMode::HalfFloor => RoundingMode::HalfCeil,
        _ => m,
    }
}

fn units_contain(units: &Vec<TemporalUnit>, u: TemporalUnit) -> (r: bool)
    ensures
        r == units@.contains(u),
{
    let mut i: usize = 0;
    while i < units.len()
        invariant
            i <= units.len(),
            forall|j: int| 0 <= j < i ==> units@[j] != u,
        decreases units.len() - i,
    {
        if units[i] == u {
            return true;
        }
        i = i + 1;
    }
    false
}

/// [13.42 GetDifferenceSettings ( operation, options, unitGroup, disallowedUnits, fallbackSmallestUnit, smallestLargestDefaultUnit )](https://tc39.es/proposal-temporal/#sec-temporal-getdifferencesettings)
/// Reads the unit and rounding options that difference operations need and
/// validates them; `is_until` tells until from since.
pub fn get_difference_settings(
    agent: &Agent,
    options: Object,
    unit_group: UnitGroup,
    disallowed_units: &Vec<TemporalUnit>,
    fallback_smallest_unit: TemporalUnit,
    smallest_largest_default_unit: TemporalUnit,
    is_until: bool,
) -> (r: JsResult<DifferenceSettings>)
    requires
        agent.wf(),
        agent.heap.valid_object_ref(options),
        fallback_smallest_unit != TemporalUnit::Auto,
        smallest_largest_default_unit != TemporalUnit::Auto,
    ensures
        crate::heap::completes_as(
            r,
            spec_difference_settings(
                agent,
                options,
                unit_group,
                disallowed_units@,
                fallback_smallest_unit,
                smallest_largest_default_unit,
                is_until,
            ),
        ),
        r matches Ok(s) ==> {
            &&& s.smallest_unit != TemporalUnit::Auto
            &&& s.largest_unit != TemporalUnit::Auto
            &&& larger_of_two_temporal_units(s.largest_unit, s.smallest_unit) == s.largest_unit
            &&& 1 <= s.rounding_increment <= max_rounding_increment()
        },
{
    // 1. NOTE: The following steps read options and perform independent validation in alphabetical order.
    // 2. Let largestUnit be ? GetTemporalUnitValuedOption(options, "largestUnit", unset).
    let largest_key = PropertyKey::String(
        vec![
            'l' as u8, 'a' as u8, 'r' as u8, 'g' as u8, 'e' as u8, 's' as u8, 't' as u8,
            'U' as u8, 'n' as u8, 'i' as u8, 't' as u8,
        ],
    );
    let largest_unit = get_temporal_unit_valued_option(agent, options, &largest_key, false)?;
    // 3. Let roundingIncrement be ? GetRoundingIncrementOption(options).
    let rounding_increment = get_rounding_increment_option(agent, options)?;
    // 4. Let roundingMode be ? GetRoundingModeOption(options, trunc).
    let rounding_mode = get_rounding_mode_option(agent, options, RoundingMode::Trunc)?;
    // 5. Let smallestUnit be ? GetTemporalUnitValuedOption(options, "smallestUnit", unset).
    let smallest_key = PropertyKey::String(
        vec![
            's' as u8, 'm' as u8, 'a' as u8, 'l' as u8, 'l' as u8, 'e' as u8, 's' as u8, 't' as u8,
            'U' as u8, 'n' as u8, 'i' as u8, 't' as u8,
        ],
    );
    let smallest_unit = get_temporal_unit_valued_option(agent, options, &smallest_key, false)?;
    // 6. Perform ? ValidateTemporalUnitValue(largestUnit, unitGroup, « auto »).
    validate_temporal_unit_value(largest_unit, unit_group, true)?;
    // 7. If largestUnit is unset, then
    //    a. Set largestUnit to auto.
    let mut largest = match largest_unit {
        None => TemporalUnit::Auto,
        Some(u) => u,
    };
    // 8. If disallowedUnits contains largestUnit, throw a RangeError exception.
    if units_contain(disallowed_units, largest) {
        return Err(JsError { kind: ExceptionType::RangeError, message: "largestUnit is not allowed" });
    }
    // 9. If operation is since, then
    //    a. Set roundingMode to NegateRoundingMode(roundingMode).
    let rounding_mode = if is_until {
        rounding_mode
    } else {
        negate_rounding_mode_exec(rounding_mode)
    };
    // 10. Perform ? ValidateTemporalUnitValue(smallestUnit, unitGroup).
    validate_temporal_unit_value(smallest_unit, unit_group, false)?;
    // 11. If smallestUnit is unset, then
    //     a. Set smallestUnit to fallbackSmallestUnit.
    let smallest = match smallest_unit {
        None => fallback_smallest_unit,
        Some(u) => u,
    };
    // 12. If disallowedUnits contains smallestUnit, throw a RangeError exception.
    if units_contain(disallowed_units, smallest) {
        return Err(JsError { kind: ExceptionType::RangeError, message: "smallestUnit is not allowed" });
    }
    // 13. Let defaultLargestUnit be LargerOfTwoTemporalUnits(smallestLargestDefaultUnit, smallestUnit).
    let default_largest_unit = larger_of_two_units(smallest_largest_default_unit, smallest);
    // 14. If largestUnit is auto, set largestUnit to defaultLargestUnit.
    if largest == TemporalUnit::Auto {
        largest = default_largest_unit;
    }
    // 15. If LargerOfTwoTemporalUnits(largestUnit, smallestUnit) is not largestUnit, throw a RangeError exception.
    if larger_of_two_units(largest, smallest) != largest {
        return Err(JsError { kind: ExceptionType::RangeError, message: "smallestUnit is larger than largestUnit" });
    }
    // 16. Let maximum be MaximumTemporalDurationRoundingIncrement(smallestUnit).
    // 17. If maximum is not unset, perform ? ValidateTemporalRoundingIncrement(roundingIncrement, maximum, false).
    match maximum_temporal_duration_rounding_increment(smallest) {
        Some(maximum) => {
            validate_temporal_rounding_increment(rounding_increment, maximum, false)?;
        },
        None => {},
    }
    // 18. Return the Record { [[SmallestUnit]]: smallestUnit, [[LargestUnit]]: largestUnit,
    //     [[RoundingMode]]: roundingMode, [[RoundingIncrement]]: roundingIncrement }.
    Ok(
        DifferenceSettings {
            smallest_unit: smallest,
            largest_unit: largest,
            rounding_mode,
            rounding_increment,
        },
    )
}

} // verus!

verus! {

/// NegateRoundingMode undoes itself.
pub proof fn negate_rounding_mode_involution(m: RoundingMode)
    ensures
        negate_rounding_mode(negate_rounding_mode(m)) == m,
{
}

/// Each rounding mode is read back from its own string identifier.
pub proof fn rounding_mode_names_select_mode(m: RoundingMode)
    ensures
        find_name(rounding_mode_table(), rounding_mode_name(m), 0) == Some(m),
{
    lemma_rounding_mode_names(m);
}

/// The singular name of each unit, and the plural name of each unit but
/// `auto`, select that unit.
pub proof fn unit_names_select_unit(u: TemporalUnit)
    ensures
        unit_from_name(unit_singular(u)) == Some(u),
        u != TemporalUnit::Auto ==> unit_from_name(unit_singular(u).push('s' as u8)) == Some(u),
{
    let t = unit_name_table();
    reveal_with_fuel(find_name, 22);
    assert forall|i: int, j: int| 0 <= i < 21 && 0 <= j < 21 && i != j implies #[trigger] t[i].0 != #[trigger] t[j].0 by {
        let a = t[i].0;
        let b = t[j].0;
        if a.len() == b.len() {
            assert(a[0] != b[0] || a[1] != b[1] || a[2] != b[2]);
        }
    }
    assert forall|i: int| 0 <= i < 21 implies #[trigger] t[i] == t[i] by {}
}


/// GetRoundingModeOption reads a String Identifier of Table 28 as the
/// rounding mode of its row, and gives the fallback where the option is
/// undefined.
pub proof fn rounding_mode_option_reads_identifier(agent: &Agent, options: Object, fallback: RoundingMode, m: RoundingMode)
    ensures
        agent.spec_get(options, PropertyKeyView::String(key_rounding_mode())) == ValueView::String(rounding_mode_name(m))
            ==> spec_rounding_mode_option(agent, options, fallback) == Ok::<RoundingMode, ExceptionType>(m),
        agent.spec_get(options, PropertyKeyView::String(key_rounding_mode())) is Undefined ==> spec_rounding_mode_option(
            agent,
            options,
            fallback,
        ) == Ok::<RoundingMode, ExceptionType>(fallback),
{
    lemma_rounding_mode_names(m);
}

/// The nine String Identifiers of Table 28 are nine distinct strings, so
/// distinct rounding modes are read from distinct strings.
pub proof fn rounding_mode_identifiers_distinct(m1: RoundingMode, m2: RoundingMode)
    ensures
        rounding_mode_name(m1) == rounding_mode_name(m2) ==> m1 == m2,
{
    let a = rounding_mode_name(m1);
    let b = rounding_mode_name(m2);
    if a == b && m1 != m2 {
        assert(a.len() == b.len());
        assert(a[0] == b[0] && a[4] == b[4]);
    }
}

/// GetTemporalUnitValuedOption reads the singular or plural name of a row
/// of Table 21 as the unit of that row, and `auto` as auto; an undefined
/// option is unset, or a RangeError where the option is required.
pub proof fn unit_valued_option_reads_names(agent: &Agent, options: Object, key: PropertyKeyView, required: bool, u: TemporalUnit)
    ensures
        agent.spec_get(options, key) == ValueView::String(unit_singular(u)) ==> spec_unit_valued_option(
            agent,
            options,
            key,
            required,
        ) == Ok::<Option<TemporalUnit>, ExceptionType>(Some(u)),
        u != TemporalUnit::Auto && agent.spec_get(options, key) == ValueView::String(unit_singular(u).push('s' as u8))
            ==> spec_unit_valued_option(agent, options, key, required) == Ok::<Option<TemporalUnit>, ExceptionType>(
            Some(u),
        ),
        agent.spec_get(options, key) is Undefined ==> spec_unit_valued_option(agent, options, key, required) == (if required {
            Err::<Option<TemporalUnit>, ExceptionType>(ExceptionType::RangeError)
        } else {
            Ok::<Option<TemporalUnit>, ExceptionType>(None)
        }),
{
    unit_names_select_unit(u);
}

/// The singular names of the units are distinct, so distinct rows are read
/// as distinct units.
pub proof fn unit_names_distinct(u1: TemporalUnit, u2: TemporalUnit)
    ensures
        unit_singular(u1) == unit_singular(u2) ==> u1 == u2,
{
    unit_names_select_unit(u1);
    unit_names_select_unit(u2);
}

/// MaximumTemporalDurationRoundingIncrement of a time unit: 24 for hours,
/// 60 for minutes and seconds, 1000 below.
pub open spec fn time_unit_maximum(u: TemporalUnit) -> int {
    if u == TemporalUnit::Hour {
        24
    } else if u == TemporalUnit::Minute || u == TemporalUnit::Second {
        60
    } else {
        1000
    }
}

/// GetDifferenceSettings for a time difference (as Temporal.Instant reads
/// it) with a time unit as smallestUnit and largestUnit unset accepts
/// exactly the increments that lie below the unit's maximum and divide it,
/// and keeps the increment and the smallest unit it was given.
pub proof fn difference_settings_accept_divisors(
    is_until: bool,
    increment: u32,
    rounding_mode: RoundingMode,
    smallest: TemporalUnit,
)
    requires
        1 <= increment,
        1 <= unit_rank(smallest) <= 6,
    ensures
        resolve_difference_settings(
            is_until,
            None,
            increment,
            rounding_mode,
            Some(smallest),
            UnitGroup::Time,
            Seq::empty(),
            TemporalUnit::Nanosecond,
            TemporalUnit::Second,
        ) is Ok <==> (increment < time_unit_maximum(smallest) && time_unit_maximum(smallest) % (increment as int) == 0),
        resolve_difference_settings(
            is_until,
            None,
            increment,
            rounding_mode,
            Some(smallest),
            UnitGroup::Time,
            Seq::empty(),
            TemporalUnit::Nanosecond,
            TemporalUnit::Second,
        ) matches Ok(s) ==> s.rounding_increment == increment && s.smallest_unit == smallest,
{
}


/// GetRoundingIncrementOption gives 1 where the option is undefined, takes
/// an integer from 1 to 10^9 as it is, and refuses any other integer with a
/// RangeError.
pub proof fn rounding_increment_option_range(agent: &Agent, options: Object, k: i64)
    ensures
        agent.spec_get(options, PropertyKeyView::String(key_rounding_increment())) is Undefined
            ==> spec_rounding_increment_option(agent, options) == Ok::<u32, ExceptionType>(1),
        agent.spec_get(options, PropertyKeyView::String(key_rounding_increment())) == ValueView::Number(
            JsNumber::Integer(k),
        ) ==> spec_rounding_increment_option(agent, options) == if 1 <= k <= 1_000_000_000 {
            Ok::<u32, ExceptionType>(k as u32)
        } else {
            Err::<u32, ExceptionType>(ExceptionType::RangeError)
        },
{
}

/// GetDifferenceSettings for a time difference: an unset or `auto`
/// largestUnit becomes the larger of second and the smallest unit, a set
/// one stays as it is and must not be smaller than the smallest unit, and
/// a date unit is refused in either place.
pub proof fn difference_settings_units(
    is_until: bool,
    largest: Option<TemporalUnit>,
    increment: u32,
    rounding_mode: RoundingMode,
    smallest: TemporalUnit,
)
    requires
        1 <= increment,
    ensures
        ({
            let r = resolve_difference_settings(
                is_until,
                largest,
                increment,
                rounding_mode,
                Some(smallest),
                UnitGroup::Time,
                Seq::empty(),
                TemporalUnit::Nanosecond,
                TemporalUnit::Second,
            );
            &&& unit_rank(smallest) >= 7 ==> r == Err::<DifferenceSettings, ExceptionType>(ExceptionType::RangeError)
            &&& smallest == TemporalUnit::Auto ==> r == Err::<DifferenceSettings, ExceptionType>(ExceptionType::RangeError)
            &&& (largest matches Some(l) && unit_rank(l) >= 7) ==> r == Err::<DifferenceSettings, ExceptionType>(
                ExceptionType::RangeError,
            )
            &&& (largest matches Some(l) && l != TemporalUnit::Auto && unit_rank(l) < unit_rank(smallest)) ==> r
                == Err::<DifferenceSettings, ExceptionType>(ExceptionType::RangeError)
            &&& r matches Ok(s) ==> {
                &&& s.smallest_unit == smallest
                &&& s.rounding_increment == increment
                &&& s.largest_unit == match largest {
                    Some(l) => if l == TemporalUnit::Auto {
                        if unit_rank(smallest) >= 4 { smallest } else { TemporalUnit::Second }
                    } else {
                        l
                    },
                    None => if unit_rank(smallest) >= 4 { smallest } else { TemporalUnit::Second },
                }
                &&& unit_rank(s.smallest_unit) <= unit_rank(s.largest_unit) <= 6
                &&& s.rounding_mode == if is_until { rounding_mode } else { negate_rounding_mode(rounding_mode) }
            }
        }),
{
}

} // verus!
