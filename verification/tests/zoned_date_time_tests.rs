use nova_temporal::gc::{CompactionList, CompactionLists, HeapRootData, WorkQueues};
use nova_temporal::heap::{Agent, ObjectHeapData, OrdinaryObject, Property, PropertyKey, Realm, TO_STRING_TAG};
use nova_temporal::value::{JsNumber, Object, Value};
use nova_temporal::zoned_date_time::{
    TemporalZonedDateTime, TemporalZonedDateTimeConstructor, TemporalZonedDateTimePrototype, ZonedDateTimeHeapData,
};

fn key(name: &str) -> PropertyKey {
    PropertyKey::String(name.as_bytes().to_vec())
}

fn zoned(ns: i128) -> temporal_rs::ZonedDateTime {
    temporal_rs::ZonedDateTime::try_new_iso(ns, temporal_rs::TimeZone::utc()).unwrap()
}

#[test]
fn zoned_date_time_records() {
    let mut agent = Agent::new();
    let h = agent.heap.create_zoned_date_time(ZonedDateTimeHeapData::new(None, zoned(0)));
    assert_eq!(h, TemporalZonedDateTime(0));
    assert_eq!(h.get_index(), 0);
    assert_eq!(TemporalZonedDateTime::_def(), h);
    assert!(h.get_backing_object(&agent).is_none());
    h.set_backing_object(&mut agent, OrdinaryObject(1));
    assert_eq!(h.get_backing_object(&agent), Some(OrdinaryObject(1)));
    assert_eq!(agent.zoned_date_time_data(h).zoned_date_time.epoch_nanoseconds().as_i128(), 0);
    assert_eq!(TemporalZonedDateTime::try_from_value(&h.into_value()), Ok(h));
    assert_eq!(TemporalZonedDateTime::try_from_object(Object::Object(OrdinaryObject(0))), Err(()));
    assert_eq!(h.into_object(), Object::ZonedDateTime(h));
}

#[test]
fn zoned_date_time_collection() {
    let mut queues = WorkQueues { objects: Vec::new(), instants: Vec::new(), zoned_date_times: Vec::new() };
    TemporalZonedDateTime(1).mark_values(&mut queues);
    let data = ZonedDateTimeHeapData::new(Some(OrdinaryObject(3)), zoned(5));
    data.mark_values(&mut queues);
    assert_eq!(queues.zoned_date_times, vec![TemporalZonedDateTime(1)]);
    assert_eq!(queues.objects, vec![OrdinaryObject(3)]);
    let compactions = CompactionLists {
        objects: CompactionList { marks: vec![false, false, true, true] },
        instants: CompactionList { marks: vec![] },
        zoned_date_times: CompactionList { marks: vec![false, true] },
    };
    let mut data = data;
    data.sweep_values(&compactions);
    assert_eq!(data.object_index, Some(OrdinaryObject(1)));
    let mut h = TemporalZonedDateTime(1);
    h.sweep_values(&compactions);
    assert_eq!(h, TemporalZonedDateTime(0));
    assert_eq!(TemporalZonedDateTime(0).sweep_weak_reference(&compactions), None);
    let entry = TemporalZonedDateTime::to_root_repr(h).unwrap_err();
    assert_eq!(entry, HeapRootData::ZonedDateTime(h));
    assert_eq!(TemporalZonedDateTime::from_heap_data(entry), Some(h));
}

#[test]
fn intrinsics_refer_to_each_other() {
    let mut agent = Agent::new();
    TemporalZonedDateTimeConstructor::create_intrinsic(&mut agent, Realm(0));
    TemporalZonedDateTimePrototype::create_intrinsic(&mut agent, Realm(0));
    let constructor = Object::Object(OrdinaryObject(4));
    let prototype = Object::Object(OrdinaryObject(5));
    assert!(matches!(agent.get(constructor, &key("prototype")), Value::Object(OrdinaryObject(5))));
    assert!(matches!(agent.get(prototype, &key("constructor")), Value::Object(OrdinaryObject(4))));
    assert!(matches!(agent.get(constructor, &key("length")), Value::Number(JsNumber::Integer(1))));
    assert!(matches!(agent.get(constructor, &key("name")), Value::String(ref s) if s == b"ZonedDateTime"));
    assert!(
        matches!(agent.get(prototype, &PropertyKey::Symbol(TO_STRING_TAG)), Value::String(ref s) if s == b"Temporal.ZonedDateTime")
    );
    assert!(matches!(agent.get(prototype, &key("missing")), Value::Undefined));
    let proto_data = &agent.heap.objects[5];
    assert_eq!(proto_data.prototype, Some(Object::Object(OrdinaryObject(0))));
    assert!(!proto_data.properties[0].enumerable && proto_data.properties[0].writable);
    assert!(!proto_data.properties[1].writable && proto_data.properties[1].configurable);
}

#[test]
fn prototype_inherits_from_object_prototype() {
    let mut agent = Agent::new();
    TemporalZonedDateTimePrototype::create_intrinsic(&mut agent, Realm(0));
    agent.heap.objects[0] = ObjectHeapData {
        prototype: None,
        properties: vec![Property {
            key: key("shared"),
            value: Value::Boolean(true),
            writable: true,
            enumerable: false,
            configurable: true,
        }],
    };
    assert!(matches!(agent.get(Object::Object(OrdinaryObject(5)), &key("shared")), Value::Boolean(true)));
    let h = agent.heap.create_zoned_date_time(ZonedDateTimeHeapData::new(None, zoned(0)));
    assert!(matches!(agent.get(Object::ZonedDateTime(h), &key("constructor")), Value::Object(OrdinaryObject(4))));
}
