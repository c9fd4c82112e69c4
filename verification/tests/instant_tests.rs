use nova_temporal::gc::{CompactionList, CompactionLists, HeapRootData, HeapRootRef, WorkQueues};
use nova_temporal::heap::{
    Agent, ExceptionType, Function, Intrinsics, ObjectHeapData, OrdinaryObject, Property, PropertyKey, Realm, RealmRecord,
};
use nova_temporal::instant::{
    add_duration_to_instant, create_temporal_instant, difference_temporal_instant, require_internal_slot_temporal_instant,
    to_temporal_instant, InstantHeapData, TemporalInstant,
};
use nova_temporal::temporal::DurationRecord;
use nova_temporal::value::{JsNumber, Object, Value};
use nova_temporal::zoned_date_time::ZonedDateTimeHeapData;

const JAN_2021: i128 = 1_609_459_200_000_000_000;

fn zero_duration() -> DurationRecord {
    DurationRecord {
        years: 0,
        months: 0,
        weeks: 0,
        days: 0,
        hours: 0,
        minutes: 0,
        seconds: 0,
        milliseconds: 0,
        microseconds: 0,
        nanoseconds: 0,
    }
}

fn duration_value(agent: &mut Agent, d: DurationRecord) -> Value {
    let fields: Vec<(&str, i64)> = vec![
        ("years", d.years),
        ("months", d.months),
        ("weeks", d.weeks),
        ("days", d.days),
        ("hours", d.hours),
        ("minutes", d.minutes),
        ("seconds", d.seconds),
        ("milliseconds", d.milliseconds),
        ("microseconds", d.microseconds as i64),
        ("nanoseconds", d.nanoseconds as i64),
    ];
    let properties = fields
        .into_iter()
        .map(|(k, v)| Property {
            key: PropertyKey::String(k.as_bytes().to_vec()),
            value: Value::Number(JsNumber::Integer(v)),
            writable: true,
            enumerable: true,
            configurable: true,
        })
        .collect();
    Value::Object(agent.heap.create_object(ObjectHeapData { prototype: None, properties }))
}

fn add(
    agent: &mut Agent,
    h: TemporalInstant,
    d: DurationRecord,
    is_add: bool,
) -> Result<Value, nova_temporal::heap::JsError> {
    let v = duration_value(agent, d);
    add_duration_to_instant(agent, h, &v, is_add)
}

fn string(s: &str) -> Value {
    Value::String(s.as_bytes().to_vec())
}

fn kind<T>(r: Result<T, nova_temporal::heap::JsError>) -> ExceptionType {
    match r {
        Ok(_) => panic!("expected a throw completion"),
        Err(e) => e.kind,
    }
}

#[test]
fn handles_and_indices() {
    assert_eq!(TemporalInstant::_def().get_index(), 0);
    assert_eq!(TemporalInstant(7).get_index(), 7);
    let v = TemporalInstant(3).into_value();
    assert_eq!(TemporalInstant::try_from_value(&v), Ok(TemporalInstant(3)));
    assert_eq!(TemporalInstant::try_from_value(&Value::Null), Err(()));
    assert_eq!(TemporalInstant::try_from_object(Object::Instant(TemporalInstant(2))), Ok(TemporalInstant(2)));
    assert_eq!(TemporalInstant::try_from_object(Object::Object(OrdinaryObject(2))), Err(()));
}

#[test]
fn created_instant_reads_back() {
    let mut agent = Agent::new();
    let h = create_temporal_instant(&mut agent, JAN_2021, None).ok().unwrap();
    assert_eq!(h.get_index(), 0);
    assert_eq!(h.inner_instant(&agent), JAN_2021);
    assert_eq!(agent.heap.instants.len(), 1);
    assert!(h.get_backing_object(&agent).is_none());
    assert_eq!(agent.heap.alloc_counter, core::mem::size_of::<InstantHeapData>());
    h.set_epoch_nanoseconds(&mut agent, -5);
    assert_eq!(h.inner_instant(&agent), -5);
}

#[test]
fn instant_prototype_from_new_target() {
    let mut agent = Agent::new();
    let custom_proto = agent.heap.create_object(ObjectHeapData { prototype: None, properties: Vec::new() });
    let constructor = agent.heap.create_object(ObjectHeapData {
        prototype: None,
        properties: vec![Property {
            key: PropertyKey::String(b"prototype".to_vec()),
            value: Value::Object(custom_proto),
            writable: false,
            enumerable: false,
            configurable: false,
        }],
    });
    let objects_before = agent.heap.objects.len();
    let h = create_temporal_instant(&mut agent, 42, Some(Function(constructor))).ok().unwrap();
    let backing = h.get_backing_object(&agent).unwrap();
    assert_eq!(backing, OrdinaryObject(objects_before as u32));
    assert_eq!(agent.heap.objects[backing.0 as usize].prototype, Some(Object::Object(custom_proto)));
    assert_eq!(h.inner_instant(&agent), 42);
}

#[test]
fn to_temporal_instant_values() {
    let mut agent = Agent::new();
    let h = create_temporal_instant(&mut agent, JAN_2021, None).ok().unwrap();
    assert_eq!(to_temporal_instant(&agent, &h.into_value()).ok().unwrap(), JAN_2021);
    assert_eq!(to_temporal_instant(&agent, &string("1970-01-01T00:00:00Z")).ok().unwrap(), 0);
    assert_eq!(
        to_temporal_instant(&agent, &string("2024-03-15T14:30:45.123Z")).ok().unwrap(),
        1_710_513_045_123_000_000
    );
    assert_eq!(
        to_temporal_instant(&agent, &string("2024-03-15T14:30:45.123+01:00")).ok().unwrap(),
        1_710_513_045_123_000_000 - 3_600_000_000_000
    );
    assert_eq!(kind(to_temporal_instant(&agent, &string("not an instant"))), ExceptionType::RangeError);
    assert_eq!(kind(to_temporal_instant(&agent, &Value::Number(JsNumber::Integer(0)))), ExceptionType::TypeError);
    assert_eq!(kind(to_temporal_instant(&agent, &Value::Object(OrdinaryObject(0)))), ExceptionType::TypeError);
}

#[test]
fn add_and_subtract_durations() {
    let mut agent = Agent::new();
    let h = create_temporal_instant(&mut agent, JAN_2021, None).ok().unwrap();
    let mut d = zero_duration();
    d.hours = 1;
    d.minutes = 30;
    let later = add(&mut agent, h, d, true).ok().unwrap();
    let later = TemporalInstant::try_from_value(&later).unwrap();
    assert_eq!(later.inner_instant(&agent), JAN_2021 + 5_400_000_000_000);
    let earlier = add(&mut agent, h, d, false).ok().unwrap();
    let earlier = TemporalInstant::try_from_value(&earlier).unwrap();
    assert_eq!(earlier.inner_instant(&agent), JAN_2021 - 5_400_000_000_000);
    assert_eq!(agent.heap.instants.len(), 3);
    let mut days = zero_duration();
    days.days = 1;
    assert_eq!(kind(add(&mut agent, h, days, true)), ExceptionType::RangeError);
    assert_eq!(agent.heap.instants.len(), 3);
}

#[test]
fn differences_between_instants() {
    let mut agent = Agent::new();
    let a = create_temporal_instant(&mut agent, JAN_2021 - 3_600_000_000_000, None).ok().unwrap();
    let b = create_temporal_instant(&mut agent, JAN_2021, None).ok().unwrap();
    let objects_before = agent.heap.objects.len();
    let until = difference_temporal_instant(&mut agent, a, &b.into_value(), &Value::Undefined, true).ok().unwrap();
    assert_eq!(until.seconds, 3600);
    assert_eq!(until.hours, 0);
    assert_eq!(agent.heap.objects.len(), objects_before + 1);
    let since = difference_temporal_instant(&mut agent, a, &b.into_value(), &Value::Undefined, false).ok().unwrap();
    assert_eq!(since.seconds, -3600);
    let options = agent.heap.create_object(ObjectHeapData {
        prototype: None,
        properties: vec![Property {
            key: PropertyKey::String(b"largestUnit".to_vec()),
            value: string("hour"),
            writable: true,
            enumerable: true,
            configurable: true,
        }],
    });
    let hours = difference_temporal_instant(&mut agent, a, &b.into_value(), &Value::Object(options), true).ok().unwrap();
    assert_eq!(hours.hours, 1);
    assert_eq!(hours.seconds, 0);
    assert_eq!(
        kind(difference_temporal_instant(&mut agent, a, &b.into_value(), &Value::Number(JsNumber::Integer(1)), true)),
        ExceptionType::TypeError
    );
    assert_eq!(kind(difference_temporal_instant(&mut agent, a, &Value::Null, &Value::Undefined, true)), ExceptionType::TypeError);
    let from_string =
        difference_temporal_instant(&mut agent, a, &string("2021-01-01T00:00:00Z"), &Value::Undefined, true).ok().unwrap();
    assert_eq!(from_string.seconds, 3600);
}

#[test]
fn internal_slot_check() {
    assert_eq!(require_internal_slot_temporal_instant(&Agent::new(), &TemporalInstant(1).into_value()).ok(), Some(TemporalInstant(1)));
    assert_eq!(kind(require_internal_slot_temporal_instant(&Agent::new(), &Value::Undefined)), ExceptionType::TypeError);
}

#[test]
fn root_representations() {
    let h = TemporalInstant(4);
    let data = TemporalInstant::to_root_repr(h).unwrap_err();
    assert_eq!(data, HeapRootData::Instant(h));
    assert_eq!(TemporalInstant::from_heap_data(data), Some(h));
    assert_eq!(TemporalInstant::from_heap_data(HeapRootData::Object(OrdinaryObject(4))), None);
    assert_eq!(TemporalInstant::from_root_repr(&HeapRootRef(9)), Err(HeapRootRef(9)));
    assert_eq!(TemporalInstant::from_heap_ref(HeapRootRef(2)), HeapRootRef(2));
}

#[test]
fn marking_and_compaction() {
    let mut queues = WorkQueues { objects: Vec::new(), instants: Vec::new(), zoned_date_times: Vec::new() };
    TemporalInstant(2).mark_values(&mut queues);
    assert_eq!(queues.instants, vec![TemporalInstant(2)]);
    let compactions = CompactionLists {
        objects: CompactionList { marks: vec![false, true] },
        instants: CompactionList { marks: vec![true, false, true, true] },
        zoned_date_times: CompactionList { marks: vec![] },
    };
    let mut h = TemporalInstant(3);
    h.sweep_values(&compactions);
    assert_eq!(h, TemporalInstant(2));
    assert_eq!(TemporalInstant(2).sweep_weak_reference(&compactions), Some(TemporalInstant(1)));
    assert_eq!(TemporalInstant(1).sweep_weak_reference(&compactions), None);
    assert_eq!(TemporalInstant(0).sweep_weak_reference(&compactions), Some(TemporalInstant(0)));
    let mut o = OrdinaryObject(1);
    o.sweep_values(&compactions);
    assert_eq!(o, OrdinaryObject(0));
}

fn options_with(agent: &mut Agent, entries: Vec<(&str, Value)>) -> Value {
    let properties = entries
        .into_iter()
        .map(|(k, v)| Property {
            key: PropertyKey::String(k.as_bytes().to_vec()),
            value: v,
            writable: true,
            enumerable: true,
            configurable: true,
        })
        .collect();
    Value::Object(agent.heap.create_object(ObjectHeapData { prototype: None, properties }))
}

#[test]
fn since_rounds_with_the_negated_mode() {
    let mut agent = Agent::new();
    let a = create_temporal_instant(&mut agent, 0, None).ok().unwrap();
    let b = create_temporal_instant(&mut agent, 1_500_000_000, None).ok().unwrap();
    let options = options_with(&mut agent, vec![("smallestUnit", string("second")), ("roundingMode", string("floor"))]);
    let since = difference_temporal_instant(&mut agent, a, &b.into_value(), &options, false).ok().unwrap();
    assert_eq!(since.seconds, -2);
    assert_eq!(since.milliseconds, 0);
    let until = difference_temporal_instant(&mut agent, b, &a.into_value(), &options, true).ok().unwrap();
    assert_eq!(until.seconds, -2);
    assert_eq!(until.milliseconds, 0);
    let forward = difference_temporal_instant(&mut agent, a, &b.into_value(), &options, true).ok().unwrap();
    assert_eq!(forward.seconds, 1);
}

#[test]
fn difference_with_itself_is_blank() {
    let mut agent = Agent::new();
    let a = create_temporal_instant(&mut agent, JAN_2021, None).ok().unwrap();
    for is_until in [true, false] {
        let d = difference_temporal_instant(&mut agent, a, &a.into_value(), &Value::Undefined, is_until).ok().unwrap();
        assert_eq!(d, zero_duration());
    }
}

#[test]
fn zoned_date_time_converts_to_its_instant() {
    let mut agent = Agent::new();
    let z = temporal_rs::ZonedDateTime::try_new_iso(JAN_2021 + 7, temporal_rs::TimeZone::utc()).unwrap();
    let h = agent.heap.create_zoned_date_time(ZonedDateTimeHeapData::new(None, z));
    assert_eq!(to_temporal_instant(&agent, &h.into_value()).ok().unwrap(), JAN_2021 + 7);
    let a = create_temporal_instant(&mut agent, JAN_2021, None).ok().unwrap();
    let d = difference_temporal_instant(&mut agent, a, &h.into_value(), &Value::Undefined, true).ok().unwrap();
    assert_eq!(d.nanoseconds, 7);
    assert_eq!(d.seconds, 0);
}

#[test]
fn out_of_range_sum_is_a_range_error() {
    let mut agent = Agent::new();
    let limit: i128 = 8_640_000_000_000_000_000_000;
    let h = create_temporal_instant(&mut agent, limit - 1_000, None).ok().unwrap();
    let mut hour = zero_duration();
    hour.hours = 1;
    assert_eq!(kind(add(&mut agent, h, hour, true)), ExceptionType::RangeError);
    assert_eq!(agent.heap.instants.len(), 1);
    let mut micro = zero_duration();
    micro.microseconds = 1;
    let edge = add(&mut agent, h, micro, true).ok().unwrap();
    let edge = TemporalInstant::try_from_value(&edge).unwrap();
    assert_eq!(edge.inner_instant(&agent), limit);
    let low = create_temporal_instant(&mut agent, -limit, None).ok().unwrap();
    let mut ns = zero_duration();
    ns.nanoseconds = 1;
    assert_eq!(kind(add(&mut agent, low, ns, false)), ExceptionType::RangeError);
}

#[test]
fn subtracting_undoes_adding() {
    let mut agent = Agent::new();
    let h = create_temporal_instant(&mut agent, JAN_2021, None).ok().unwrap();
    let d = DurationRecord {
        years: 0,
        months: 0,
        weeks: 0,
        days: 0,
        hours: 25,
        minutes: -3,
        seconds: 61,
        milliseconds: 999,
        microseconds: 1,
        nanoseconds: 7,
    };
    let mut same_sign = d;
    same_sign.minutes = 3;
    let later = add(&mut agent, h, same_sign, true).ok().unwrap();
    let later = TemporalInstant::try_from_value(&later).unwrap();
    assert_eq!(
        later.inner_instant(&agent),
        JAN_2021 + 25 * 3_600_000_000_000 + 3 * 60_000_000_000 + 61_000_000_000 + 999_000_000 + 1_000 + 7
    );
    let back = add(&mut agent, later, same_sign, false).ok().unwrap();
    let back = TemporalInstant::try_from_value(&back).unwrap();
    assert_eq!(back.inner_instant(&agent), JAN_2021);
    assert_eq!(kind(add(&mut agent, h, d, true)), ExceptionType::RangeError);
}

#[test]
fn prototype_falls_back_to_the_constructor_realm() {
    let mut agent = Agent::new();
    let mut made = Vec::new();
    for _ in 0..6 {
        made.push(agent.heap.create_object(ObjectHeapData { prototype: None, properties: Vec::new() }));
    }
    agent.heap.objects[made[2].0 as usize].properties.push(Property {
        key: PropertyKey::String(b"prototype".to_vec()),
        value: Value::Object(made[3]),
        writable: false,
        enumerable: false,
        configurable: false,
    });
    agent.realms.push(RealmRecord {
        intrinsics: Intrinsics {
            object_prototype: made[0],
            function_prototype: made[1],
            temporal_instant: Function(made[2]),
            temporal_instant_prototype: made[3],
            temporal_zoned_date_time: Function(made[4]),
            temporal_zoned_date_time_prototype: made[5],
        },
    });
    agent.current_realm = Realm(1);
    let objects_before = agent.heap.objects.len();
    let other_realm_constructor = Function(OrdinaryObject(4));
    let h = create_temporal_instant(&mut agent, 9, Some(other_realm_constructor)).ok().unwrap();
    let backing = h.get_backing_object(&agent).unwrap();
    assert_eq!(backing, OrdinaryObject(objects_before as u32));
    assert_eq!(agent.heap.objects[backing.0 as usize].prototype, Some(Object::Object(OrdinaryObject(3))));
    let own = create_temporal_instant(&mut agent, 10, Some(Function(made[4]))).ok().unwrap();
    assert!(own.get_backing_object(&agent).is_none());
}

#[test]
fn internal_slot_message() {
    match require_internal_slot_temporal_instant(&Agent::new(), &Value::Null) {
        Ok(_) => panic!("expected a throw completion"),
        Err(e) => assert_eq!(e.message, "Object is not a Temporal Instant"),
    }
}

#[test]
fn since_is_until_reversed() {
    let mut agent = Agent::new();
    let a = create_temporal_instant(&mut agent, 0, None).ok().unwrap();
    for other in [1_500_000_000i128, 2_500_000_000, -1_500_000_000, 7_250_000_000] {
        let b = create_temporal_instant(&mut agent, other, None).ok().unwrap();
        for mode in ["ceil", "floor", "expand", "trunc", "halfCeil", "halfFloor", "halfExpand", "halfTrunc", "halfEven"] {
            let options =
                options_with(&mut agent, vec![("smallestUnit", string("second")), ("roundingMode", string(mode))]);
            let since = difference_temporal_instant(&mut agent, a, &b.into_value(), &options, false).ok().unwrap();
            let until = difference_temporal_instant(&mut agent, b, &a.into_value(), &options, true).ok().unwrap();
            assert_eq!(since, until, "mode {mode}, other {other}");
        }
    }
}

#[test]
fn durations_from_strings_and_objects() {
    let mut agent = Agent::new();
    let h = create_temporal_instant(&mut agent, JAN_2021, None).ok().unwrap();
    let later = add_duration_to_instant(&mut agent, h, &string("PT1H30M"), true).ok().unwrap();
    let later = TemporalInstant::try_from_value(&later).unwrap();
    assert_eq!(later.inner_instant(&agent), JAN_2021 + 5_400_000_000_000);
    let earlier = add_duration_to_instant(&mut agent, h, &string("-PT0.5S"), true).ok().unwrap();
    let earlier = TemporalInstant::try_from_value(&earlier).unwrap();
    assert_eq!(earlier.inner_instant(&agent), JAN_2021 - 500_000_000);
    assert_eq!(kind(add_duration_to_instant(&mut agent, h, &string("P1D"), true)), ExceptionType::RangeError);
    assert_eq!(kind(add_duration_to_instant(&mut agent, h, &string("one hour"), true)), ExceptionType::RangeError);
    assert_eq!(
        kind(add_duration_to_instant(&mut agent, h, &Value::Number(JsNumber::Integer(5)), true)),
        ExceptionType::TypeError
    );
    assert_eq!(kind(add_duration_to_instant(&mut agent, h, &Value::Undefined, true)), ExceptionType::TypeError);
    let empty = Value::Object(agent.heap.create_object(ObjectHeapData { prototype: None, properties: Vec::new() }));
    assert_eq!(kind(add_duration_to_instant(&mut agent, h, &empty, true)), ExceptionType::TypeError);
    let minutes = options_with(&mut agent, vec![("minutes", string("2")), ("unrelated", string("x"))]);
    let moved = add_duration_to_instant(&mut agent, h, &minutes, false).ok().unwrap();
    let moved = TemporalInstant::try_from_value(&moved).unwrap();
    assert_eq!(moved.inner_instant(&agent), JAN_2021 - 120_000_000_000);
    let fractional = options_with(&mut agent, vec![("hours", string("1.5"))]);
    assert_eq!(kind(add_duration_to_instant(&mut agent, h, &fractional, true)), ExceptionType::RangeError);
    let infinite = options_with(&mut agent, vec![("seconds", Value::Number(JsNumber::PositiveInfinity))]);
    assert_eq!(kind(add_duration_to_instant(&mut agent, h, &infinite, true)), ExceptionType::RangeError);
    assert_eq!(agent.heap.instants.len(), 4);
}

#[test]
fn huge_time_parts_are_refused_before_the_call() {
    let mut agent = Agent::new();
    let h = create_temporal_instant(&mut agent, 0, None).ok().unwrap();
    let mut d = zero_duration();
    d.seconds = 1;
    d.milliseconds = 9_007_199_254_740_991_487;
    assert_eq!(kind(add(&mut agent, h, d, true)), ExceptionType::RangeError);
    assert_eq!(kind(add(&mut agent, h, d, false)), ExceptionType::RangeError);
    let mut n = zero_duration();
    n.seconds = -1;
    n.milliseconds = -9_007_199_254_740_991_487;
    assert_eq!(kind(add(&mut agent, h, n, true)), ExceptionType::RangeError);
    let big = options_with(&mut agent, vec![("seconds", string("1")), ("milliseconds", string("9007199254740991487"))]);
    assert_eq!(kind(add_duration_to_instant(&mut agent, h, &big, true)), ExceptionType::RangeError);
    assert_eq!(agent.heap.instants.len(), 1);
}

#[test]
fn since_is_negated_until_by_default() {
    let mut agent = Agent::new();
    let a = create_temporal_instant(&mut agent, 1_000, None).ok().unwrap();
    for other in [0i128, 3_600_000_000_123, -98_765_432_100, JAN_2021] {
        let b = create_temporal_instant(&mut agent, other, None).ok().unwrap();
        let since = difference_temporal_instant(&mut agent, a, &b.into_value(), &Value::Undefined, false).ok().unwrap();
        let until = difference_temporal_instant(&mut agent, a, &b.into_value(), &Value::Undefined, true).ok().unwrap();
        assert_eq!(since.seconds, -until.seconds);
        assert_eq!(since.milliseconds, -until.milliseconds);
        assert_eq!(since.microseconds, -until.microseconds);
        assert_eq!(since.nanoseconds, -until.nanoseconds);
        assert_eq!(since.hours, -until.hours);
    }
}
