//! ToTemporalDuration: a duration string or a duration-like object read
//! into a duration record.
use vstd::prelude::*;

use crate::conversion::{spec_to_number, to_number, Numeric};
use crate::heap::{Agent, ExceptionType, JsError, JsResult, PropertyKey, PropertyKeyView};
use crate::temporal::{duration_from_utf8, parse_duration, DurationRecord};
use crate::value::{object_of, object_value, JsNumber, Object, Value, ValueView};

verus! {

/// The fields of a duration-like object, in the alphabetical order in
/// which they are read.
pub open spec fn duration_keys() -> Seq<Seq<u8>> {
    seq![
        seq!['d' as u8, 'a' as u8, 'y' as u8, 's' as u8],
        seq!['h' as u8, 'o' as u8, 'u' as u8, 'r' as u8, 's' as u8],
        seq![
            'm' as u8, 'i' as u8, 'c' as u8, 'r' as u8, 'o' as u8, 's' as u8, 'e' as u8, 'c' as u8, 'o' as u8, 'n' as u8,
            'd' as u8, 's' as u8,
        ],
        seq![
            'm' as u8, 'i' as u8, 'l' as u8, 'l' as u8, 'i' as u8, 's' as u8, 'e' as u8, 'c' as u8, 'o' as u8, 'n' as u8,
            'd' as u8, 's' as u8,
        ],
        seq!['m' as u8, 'i' as u8, 'n' as u8, 'u' as u8, 't' as u8, 'e' as u8, 's' as u8],
        seq!['m' as u8, 'o' as u8, 'n' as u8, 't' as u8, 'h' as u8, 's' as u8],
        seq![
            'n' as u8, 'a' as u8, 'n' as u8, 'o' as u8, 's' as u8, 'e' as u8, 'c' as u8, 'o' as u8, 'n' as u8, 'd' as u8,
            's' as u8,
        ],
        seq!['s' as u8, 'e' as u8, 'c' as u8, 'o' as u8, 'n' as u8, 'd' as u8, 's' as u8],
        seq!['w' as u8, 'e' as u8, 'e' as u8, 'k' as u8, 's' as u8],
        seq!['y' as u8, 'e' as u8, 'a' as u8, 'r' as u8, 's' as u8],
    ]
}

/// ToIntegerIfIntegral(v): the integer that ToNumber gives, or a
/// RangeError for a fraction, NaN and the infinities.
pub open spec fn spec_to_integer_if_integral(v: ValueView) -> Result<i64, ExceptionType> {
    match spec_to_number(v) {
        Err(e) => Err(e),
        Ok(Numeric::Number(JsNumber::Integer(i))) => Ok(i),
        Ok(_) => Err(ExceptionType::RangeError),
    }
}

/// One field of a duration-like object: absent where Get gives undefined,
/// else its ToIntegerIfIntegral.
pub open spec fn duration_field(agent: &Agent, o: Object, key: Seq<u8>) -> Result<Option<i64>, ExceptionType> {
    let v = agent.spec_get(o, PropertyKeyView::String(key));
    if v is Undefined {
        Ok(None)
    } else {
        match spec_to_integer_if_integral(v) {
            Ok(i) => Ok(Some(i)),
            Err(e) => Err(e),
        }
    }
}

/// The first `n` fields of a duration-like object, read in order; the
/// first throw completion stops the reading.
pub open spec fn duration_fields(agent: &Agent, o: Object, n: nat) -> Result<Seq<Option<i64>>, ExceptionType>
    decreases n,
{
    if n == 0 {
        Ok(Seq::empty())
    } else {
        match duration_fields(agent, o, (n - 1) as nat) {
            Err(e) => Err(e),
            Ok(fields) => match duration_field(agent, o, duration_keys()[n - 1]) {
                Err(e) => Err(e),
                Ok(f) => Ok(fields.push(f)),
            },
        }
    }
}

pub open spec fn field_or_zero(f: Option<i64>) -> i64 {
    match f {
        Some(i) => i,
        None => 0,
    }
}

/// ToTemporalPartialDurationRecord of a duration-like object, its absent
/// fields then taken as zero: a TypeError where every field is absent.
pub open spec fn partial_duration_record(agent: &Agent, o: Object) -> Result<DurationRecord, ExceptionType> {
    match duration_fields(agent, o, 10) {
        Err(e) => Err(e),
        Ok(f) => if forall|i: int| 0 <= i < 10 ==> #[trigger] f[i] is None {
            Err(ExceptionType::TypeError)
        } else {
            Ok(
                DurationRecord {
                    years: field_or_zero(f[9]),
                    months: field_or_zero(f[5]),
                    weeks: field_or_zero(f[8]),
                    days: field_or_zero(f[0]),
                    hours: field_or_zero(f[1]),
                    minutes: field_or_zero(f[4]),
                    seconds: field_or_zero(f[7]),
                    milliseconds: field_or_zero(f[3]),
                    microseconds: field_or_zero(f[2]) as i128,
                    nanoseconds: field_or_zero(f[6]) as i128,
                },
            )
        },
    }
}

/// ToTemporalDuration(item), up to the validity check of
/// CreateTemporalDuration: a string is parsed by `temporal_rs` (a
/// RangeError where it refuses it), an object is read as a duration-like
/// object, and any other value is a TypeError.
pub open spec fn spec_to_temporal_duration(agent: &Agent, item: ValueView) -> Result<DurationRecord, ExceptionType> {
    match item {
        ValueView::String(s) => match duration_from_utf8(s) {
            Some(d) => Ok(d),
            None => Err(ExceptionType::RangeError),
        },
        _ => match object_of(item) {
            Some(o) => partial_duration_record(agent, o),
            None => Err(ExceptionType::TypeError),
        },
    }
}

/// The name of the `i`-th field of a duration-like object.
fn duration_key(i: usize) -> (k: PropertyKey)
    requires
        i < 10,
    ensures
        k@ == PropertyKeyView::String(duration_keys()[i as int]),
{
    let name: Vec<u8> = if i == 0 {
        vec!['d' as u8, 'a' as u8, 'y' as u8, 's' as u8]
    } else if i == 1 {
        vec!['h' as u8, 'o' as u8, 'u' as u8, 'r' as u8, 's' as u8]
    } else if i == 2 {
        vec![
            'm' as u8, 'i' as u8, 'c' as u8, 'r' as u8, 'o' as u8, 's' as u8, 'e' as u8, 'c' as u8, 'o' as u8, 'n' as u8,
            'd' as u8, 's' as u8,
        ]
    } else if i == 3 {
        vec![
            'm' as u8, 'i' as u8, 'l' as u8, 'l' as u8, 'i' as u8, 's' as u8, 'e' as u8, 'c' as u8, 'o' as u8, 'n' as u8,
            'd' as u8, 's' as u8,
        ]
    } else if i == 4 {
        vec!['m' as u8, 'i' as u8, 'n' as u8, 'u' as u8, 't' as u8, 'e' as u8, 's' as u8]
    } else if i == 5 {
        vec!['m' as u8, 'o' as u8, 'n' as u8, 't' as u8, 'h' as u8, 's' as u8]
    } else if i == 6 {
        vec![
            'n' as u8, 'a' as u8, 'n' as u8, 'o' as u8, 's' as u8, 'e' as u8, 'c' as u8, 'o' as u8, 'n' as u8, 'd' as u8,
            's' as u8,
        ]
    } else if i == 7 {
        vec!['s' as u8, 'e' as u8, 'c' as u8, 'o' as u8, 'n' as u8, 'd' as u8, 's' as u8]
    } else if i == 8 {
        vec!['w' as u8, 'e' as u8, 'e' as u8, 'k' as u8, 's' as u8]
    } else {
        vec!['y' as u8, 'e' as u8, 'a' as u8, 'r' as u8, 's' as u8]
    };
    assert(name@ =~= duration_keys()[i as int]);
    PropertyKey::String(name)
}

/// ToIntegerIfIntegral(v).
fn to_integer_if_integral(v: &Value) -> (r: JsResult<i64>)
    ensures
        crate::heap::completes_as(r, spec_to_integer_if_integral(v@)),
{
    match to_number(v)? {
        Numeric::Number(JsNumber::Integer(i)) => Ok(i),
        _ => Err(JsError { kind: ExceptionType::RangeError, message: "the duration field is not an integer" }),
    }
}

/// A throw completion among the first fields stops all later readings.
proof fn lemma_fields_stop(agent: &Agent, o: Object, n: nat, m: nat, e: ExceptionType)
    requires
        n <= m,
        duration_fields(agent, o, n) == Err::<Seq<Option<i64>>, ExceptionType>(e),
    ensures
        duration_fields(agent, o, m) == Err::<Seq<Option<i64>>, ExceptionType>(e),
    decreases m - n,
{
    if n < m {
        lemma_fields_stop(agent, o, n, (m - 1) as nat, e);
    }
}

/// ToTemporalDuration(item), as [`spec_to_temporal_duration`] gives it.
pub(crate) fn to_temporal_duration(agent: &Agent, item: &Value) -> (r: JsResult<DurationRecord>)
    requires
        agent.wf(),
        agent.heap.valid_value(item@),
    ensures
        crate::heap::completes_as(r, spec_to_temporal_duration(agent, item@)),
{
    if let Value::String(s) = item {
        return match parse_duration(s.as_slice()) {
            Some(d) => Ok(d),
            None => Err(JsError { kind: ExceptionType::RangeError, message: "invalid duration string" }),
        };
    }
    let o = match item.to_object() {
        Some(o) => o,
        None => {
            return Err(JsError { kind: ExceptionType::TypeError, message: "item is not a duration" });
        },
    };
    let mut fields: Vec<Option<i64>> = Vec::new();
    let mut i: usize = 0;
    while i < 10
        invariant
            agent.wf(),
            agent.heap.valid_object_ref(o),
            object_of(item@) == Some(o),
            !(item@ is String),
            i <= 10,
            fields@.len() == i,
            duration_fields(agent, o, i as nat) == Ok::<Seq<Option<i64>>, ExceptionType>(fields@),
        decreases 10 - i,
    {
        let key = duration_key(i);
        let value = agent.get(o, &key);
        let field = if value.is_undefined() {
            None
        } else {
            match to_integer_if_integral(&value) {
                Ok(n) => Some(n),
                Err(e) => {
                    proof {
                        assert(duration_field(agent, o, duration_keys()[i as int]) == Err::<Option<i64>, ExceptionType>(
                            e.kind,
                        ));
                        assert(duration_fields(agent, o, (i + 1) as nat) == Err::<Seq<Option<i64>>, ExceptionType>(
                            e.kind,
                        ));
                        lemma_fields_stop(agent, o, (i + 1) as nat, 10, e.kind);
                        assert(partial_duration_record(agent, o) == Err::<DurationRecord, ExceptionType>(e.kind));
                        assert(spec_to_temporal_duration(agent, item@) == partial_duration_record(agent, o));
                    }
                    return Err(e);
                },
            }
        };
        fields.push(field);
        i = i + 1;
    }
    let mut any = false;
    let mut j: usize = 0;
    while j < 10
        invariant
            j <= 10,
            fields@.len() == 10,
            any <==> exists|k: int| 0 <= k < j && !(#[trigger] fields@[k] is None),
        decreases 10 - j,
    {
        if fields[j].is_some() {
            any = true;
        }
        j = j + 1;
    }
    if !any {
        return Err(JsError { kind: ExceptionType::TypeError, message: "the duration-like object has no duration field" });
    }
    Ok(
        DurationRecord {
            years: field_or_zero_exec(fields[9]),
            months: field_or_zero_exec(fields[5]),
            weeks: field_or_zero_exec(fields[8]),
            days: field_or_zero_exec(fields[0]),
            hours: field_or_zero_exec(fields[1]),
            minutes: field_or_zero_exec(fields[4]),
            seconds: field_or_zero_exec(fields[7]),
            milliseconds: field_or_zero_exec(fields[3]),
            microseconds: field_or_zero_exec(fields[2]) as i128,
            nanoseconds: field_or_zero_exec(fields[6]) as i128,
        },
    )
}

fn field_or_zero_exec(f: Option<i64>) -> (r: i64)
    ensures
        r == field_or_zero(f),
{
    match f {
        Some(i) => i,
        None => 0,
    }
}


/// The field named `name` of a duration-like object reads as `x`: 0 where
/// Get gives undefined, else ToIntegerIfIntegral of the value gives `x`.
#[verifier::opaque]
pub open spec fn field_reads_as(agent: &Agent, o: Object, name: Seq<u8>, x: int) -> bool {
    let v = agent.spec_get(o, PropertyKeyView::String(name));
    if v is Undefined {
        x == 0
    } else {
        spec_to_integer_if_integral(v) matches Ok(i) && i == x
    }
}

/// ToTemporalDuration of a duration-like object keeps every field it reads:
/// each field of the record is the integer of the property of that name,
/// 0 only where the property is absent.
pub proof fn duration_like_fields_kept(agent: &Agent, o: Object)
    ensures
        match spec_to_temporal_duration(agent, object_value(o)) {
            Err(_) => true,
            Ok(d) => {
            &&& field_reads_as(agent, o, seq!['y' as u8, 'e' as u8, 'a' as u8, 'r' as u8, 's' as u8], d.years as int)
            &&& field_reads_as(agent, o, seq!['m' as u8, 'o' as u8, 'n' as u8, 't' as u8, 'h' as u8, 's' as u8], d.months as int)
            &&& field_reads_as(agent, o, seq!['w' as u8, 'e' as u8, 'e' as u8, 'k' as u8, 's' as u8], d.weeks as int)
            &&& field_reads_as(agent, o, seq!['d' as u8, 'a' as u8, 'y' as u8, 's' as u8], d.days as int)
            &&& field_reads_as(agent, o, seq!['h' as u8, 'o' as u8, 'u' as u8, 'r' as u8, 's' as u8], d.hours as int)
            &&& field_reads_as(
                agent,
                o,
                seq!['m' as u8, 'i' as u8, 'n' as u8, 'u' as u8, 't' as u8, 'e' as u8, 's' as u8],
                d.minutes as int,
            )
            &&& field_reads_as(
                agent,
                o,
                seq!['s' as u8, 'e' as u8, 'c' as u8, 'o' as u8, 'n' as u8, 'd' as u8, 's' as u8],
                d.seconds as int,
            )
            &&& field_reads_as(
                agent,
                o,
                seq![
                    'm' as u8, 'i' as u8, 'l' as u8, 'l' as u8, 'i' as u8, 's' as u8, 'e' as u8, 'c' as u8, 'o' as u8,
                    'n' as u8, 'd' as u8, 's' as u8,
                ],
                d.milliseconds as int,
            )
            &&& field_reads_as(
                agent,
                o,
                seq![
                    'm' as u8, 'i' as u8, 'c' as u8, 'r' as u8, 'o' as u8, 's' as u8, 'e' as u8, 'c' as u8, 'o' as u8,
                    'n' as u8, 'd' as u8, 's' as u8,
                ],
                d.microseconds as int,
            )
            &&& field_reads_as(
                agent,
                o,
                seq![
                    'n' as u8, 'a' as u8, 'n' as u8, 'o' as u8, 's' as u8, 'e' as u8, 'c' as u8, 'o' as u8, 'n' as u8,
                    'd' as u8, 's' as u8,
                ],
                d.nanoseconds as int,
            )
            },
        },
{
    if let Ok(d) = spec_to_temporal_duration(agent, object_value(o)) {
        let f = duration_fields(agent, o, 10)->Ok_0;
        lemma_fields_read(agent, o, 10);
        assert(d == DurationRecord {
            years: field_or_zero(f[9]),
            months: field_or_zero(f[5]),
            weeks: field_or_zero(f[8]),
            days: field_or_zero(f[0]),
            hours: field_or_zero(f[1]),
            minutes: field_or_zero(f[4]),
            seconds: field_or_zero(f[7]),
            milliseconds: field_or_zero(f[3]),
            microseconds: field_or_zero(f[2]) as i128,
            nanoseconds: field_or_zero(f[6]) as i128,
        });
        lemma_record_fields(agent, o, f, d);
    }
}

/// The record made from the ten fields read reads back field by field.
proof fn lemma_record_fields(agent: &Agent, o: Object, f: Seq<Option<i64>>, d: DurationRecord)
    requires
        f.len() == 10,
        forall|i: int| 0 <= i < 10 ==> duration_field(agent, o, duration_keys()[i]) == Ok::<Option<i64>, ExceptionType>(#[trigger] f[i]),
        d == (DurationRecord {
            years: field_or_zero(f[9]),
            months: field_or_zero(f[5]),
            weeks: field_or_zero(f[8]),
            days: field_or_zero(f[0]),
            hours: field_or_zero(f[1]),
            minutes: field_or_zero(f[4]),
            seconds: field_or_zero(f[7]),
            milliseconds: field_or_zero(f[3]),
            microseconds: field_or_zero(f[2]) as i128,
            nanoseconds: field_or_zero(f[6]) as i128,
        }),
    ensures
        field_reads_as(agent, o, seq!['y' as u8, 'e' as u8, 'a' as u8, 'r' as u8, 's' as u8], d.years as int),
        field_reads_as(agent, o, seq!['m' as u8, 'o' as u8, 'n' as u8, 't' as u8, 'h' as u8, 's' as u8], d.months as int),
        field_reads_as(agent, o, seq!['w' as u8, 'e' as u8, 'e' as u8, 'k' as u8, 's' as u8], d.weeks as int),
        field_reads_as(agent, o, seq!['d' as u8, 'a' as u8, 'y' as u8, 's' as u8], d.days as int),
        field_reads_as(agent, o, seq!['h' as u8, 'o' as u8, 'u' as u8, 'r' as u8, 's' as u8], d.hours as int),
        field_reads_as(agent, o, seq!['m' as u8, 'i' as u8, 'n' as u8, 'u' as u8, 't' as u8, 'e' as u8, 's' as u8], d.minutes as int),
        field_reads_as(agent, o, seq!['s' as u8, 'e' as u8, 'c' as u8, 'o' as u8, 'n' as u8, 'd' as u8, 's' as u8], d.seconds as int),
        field_reads_as(
            agent,
            o,
            seq![
                'm' as u8, 'i' as u8, 'l' as u8, 'l' as u8, 'i' as u8, 's' as u8, 'e' as u8, 'c' as u8, 'o' as u8, 'n' as u8,
                'd' as u8, 's' as u8,
            ],
            d.milliseconds as int,
        ),
        field_reads_as(
            agent,
            o,
            seq![
                'm' as u8, 'i' as u8, 'c' as u8, 'r' as u8, 'o' as u8, 's' as u8, 'e' as u8, 'c' as u8, 'o' as u8, 'n' as u8,
                'd' as u8, 's' as u8,
            ],
            d.microseconds as int,
        ),
        field_reads_as(
            agent,
            o,
            seq![
                'n' as u8, 'a' as u8, 'n' as u8, 'o' as u8, 's' as u8, 'e' as u8, 'c' as u8, 'o' as u8, 'n' as u8, 'd' as u8,
                's' as u8,
            ],
            d.nanoseconds as int,
        ),
{
    let k = duration_keys();
    assert(k[0] =~= seq!['d' as u8, 'a' as u8, 'y' as u8, 's' as u8]);
    assert(k[1] =~= seq!['h' as u8, 'o' as u8, 'u' as u8, 'r' as u8, 's' as u8]);
    assert(k[2] =~= seq![
        'm' as u8, 'i' as u8, 'c' as u8, 'r' as u8, 'o' as u8, 's' as u8, 'e' as u8, 'c' as u8, 'o' as u8, 'n' as u8,
        'd' as u8, 's' as u8,
    ]);
    assert(k[3] =~= seq![
        'm' as u8, 'i' as u8, 'l' as u8, 'l' as u8, 'i' as u8, 's' as u8, 'e' as u8, 'c' as u8, 'o' as u8, 'n' as u8,
        'd' as u8, 's' as u8,
    ]);
    assert(k[4] =~= seq!['m' as u8, 'i' as u8, 'n' as u8, 'u' as u8, 't' as u8, 'e' as u8, 's' as u8]);
    assert(k[5] =~= seq!['m' as u8, 'o' as u8, 'n' as u8, 't' as u8, 'h' as u8, 's' as u8]);
    assert(k[6] =~= seq![
        'n' as u8, 'a' as u8, 'n' as u8, 'o' as u8, 's' as u8, 'e' as u8, 'c' as u8, 'o' as u8, 'n' as u8, 'd' as u8,
        's' as u8,
    ]);
    assert(k[7] =~= seq!['s' as u8, 'e' as u8, 'c' as u8, 'o' as u8, 'n' as u8, 'd' as u8, 's' as u8]);
    assert(k[8] =~= seq!['w' as u8, 'e' as u8, 'e' as u8, 'k' as u8, 's' as u8]);
    assert(k[9] =~= seq!['y' as u8, 'e' as u8, 'a' as u8, 'r' as u8, 's' as u8]);
    lemma_field_kept(agent, o, f, 0, k[0], d.days as int);
    lemma_field_kept(agent, o, f, 1, k[1], d.hours as int);
    lemma_field_kept(agent, o, f, 2, k[2], d.microseconds as int);
    lemma_field_kept(agent, o, f, 3, k[3], d.milliseconds as int);
    lemma_field_kept(agent, o, f, 4, k[4], d.minutes as int);
    lemma_field_kept(agent, o, f, 5, k[5], d.months as int);
    lemma_field_kept(agent, o, f, 6, k[6], d.nanoseconds as int);
    lemma_field_kept(agent, o, f, 7, k[7], d.seconds as int);
    lemma_field_kept(agent, o, f, 8, k[8], d.weeks as int);
    lemma_field_kept(agent, o, f, 9, k[9], d.years as int);
}

/// Reading the first `n` fields gives, where it succeeds, one entry per
/// field, each what reading that field alone gives.
proof fn lemma_fields_read(agent: &Agent, o: Object, n: nat)
    ensures
        duration_fields(agent, o, n) matches Ok(f) ==> f.len() == n && forall|i: int|
            0 <= i < n ==> duration_field(agent, o, duration_keys()[i]) == Ok::<Option<i64>, ExceptionType>(#[trigger] f[i]),
    decreases n,
{
    if n > 0 {
        lemma_fields_read(agent, o, (n - 1) as nat);
    }
}

/// A field entry read as `f[i]` and kept as `x` reads as `x`.
proof fn lemma_field_kept(agent: &Agent, o: Object, f: Seq<Option<i64>>, i: int, key: Seq<u8>, x: int)
    requires
        0 <= i < f.len(),
        duration_field(agent, o, key) == Ok::<Option<i64>, ExceptionType>(f[i]),
        x == field_or_zero(f[i]),
    ensures
        field_reads_as(agent, o, key, x),
{
    reveal(field_reads_as);
}

} // verus!
