//! Temporal.ZonedDateTime: the handle, its heap record, and the intrinsic
//! constructor and prototype objects of the built-in.
use vstd::prelude::*;

use crate::gc::{CompactionLists, HeapRootData, HeapRootRef, WorkQueues};
use crate::heap::{Agent, Heap, OrdinaryObject, Property, PropertyKey, PropertyKeyView, Realm, TO_STRING_TAG};
use crate::instant::same_realms;
use crate::temporal::{zoned_date_time_epoch_nanoseconds, zoned_epoch_nanoseconds};
use crate::value::{JsNumber, Object, Value, ValueView};

verus! {

/// A handle to a Temporal.ZonedDateTime in the engine heap.
#[derive(Clone, Copy, Debug, PartialEq, Eq, Structural)]
pub struct TemporalZonedDateTime(pub u32);

/// The heap record of a Temporal.ZonedDateTime: its backing object, if one
/// was made, the `temporal_rs` value it holds, and the epoch nanoseconds of
/// that value, which is what the abstract operations of this library read.
#[derive(Debug)]
pub struct ZonedDateTimeHeapData {
    pub object_index: Option<OrdinaryObject>,
    pub zoned_date_time: temporal_rs::ZonedDateTime,
    pub epoch_nanoseconds: i128,
}

impl TemporalZonedDateTime {
    /// The heap index this handle refers to.
    pub open spec fn index(self) -> int {
        self.0 as int
    }

    /// The handle of the first Temporal.ZonedDateTime of the heap.
    pub fn _def() -> (r: Self)
        ensures
            r.index() == 0,
    {
        TemporalZonedDateTime(0)
    }

    /// The heap index this handle refers to.
    pub fn get_index(self) -> (r: usize)
        ensures
            r as int == self.index(),
    {
        self.0 as usize
    }

    /// The value that is this zoned date-time.
    pub fn into_value(self) -> (r: Value)
        ensures
            r@ == ValueView::ZonedDateTime(self),
    {
        Value::ZonedDateTime(self)
    }

    /// The object that is this zoned date-time.
    pub fn into_object(self) -> (r: Object)
        ensures
            r == Object::ZonedDateTime(self),
    {
        Object::ZonedDateTime(self)
    }

    /// The zoned date-time that a value is, or `Err` for any other value.
    pub fn try_from_value(value: &Value) -> (r: Result<Self, ()>)
        ensures
            match value@ {
                ValueView::ZonedDateTime(z) => r == Ok::<Self, ()>(z),
                _ => r is Err,
            },
    {
        match value {
            Value::ZonedDateTime(idx) => Ok(*idx),
            _ => Err(()),
        }
    }

    /// The zoned date-time that an object is, or `Err` for any other object.
    pub fn try_from_object(object: Object) -> (r: Result<Self, ()>)
        ensures
            match object {
                Object::ZonedDateTime(z) => r == Ok::<Self, ()>(z),
                _ => r is Err,
            },
    {
        match object {
            Object::ZonedDateTime(idx) => Ok(idx),
            _ => Err(()),
        }
    }

    /// The backing object of the zoned date-time, if one was made.
    pub fn get_backing_object(self, agent: &Agent) -> (r: Option<OrdinaryObject>)
        requires
            agent.heap.valid_zoned_date_time(self),
        ensures
            r == agent.heap.zoned_date_times@[self.index()].object_index,
    {
        agent.heap.zoned_date_times[self.0 as usize].object_index
    }

    /// Gives the zoned date-time its backing object; it has at most one.
    pub fn set_backing_object(self, agent: &mut Agent, backing_object: OrdinaryObject)
        requires
            old(agent).wf(),
            old(agent).heap.valid_zoned_date_time(self),
            old(agent).heap.valid_object(backing_object),
            old(agent).heap.zoned_date_times@[self.index()].object_index is None,
        ensures
            final(agent).wf(),
            final(agent).heap.zoned_date_times@.len() == old(agent).heap.zoned_date_times@.len(),
            final(agent).heap.zoned_date_times@[self.index()].object_index == Some(backing_object),
            final(agent).heap.zoned_date_times@[self.index()].zoned_date_time
                == old(agent).heap.zoned_date_times@[self.index()].zoned_date_time,
            forall|i: int|
                0 <= i < old(agent).heap.zoned_date_times.len() && i != self.index()
                    ==> final(agent).heap.zoned_date_times@[i] == old(agent).heap.zoned_date_times@[i],
            final(agent).heap.objects == old(agent).heap.objects,
            final(agent).heap.instants == old(agent).heap.instants,
            final(agent).heap.alloc_counter == old(agent).heap.alloc_counter,
            same_realms(old(agent), final(agent)),
    {
        let ghost before = agent.heap;
        agent.heap.zoned_date_times[self.0 as usize].object_index = Some(backing_object);
        proof {
            assert forall|j: int| 0 <= j < agent.heap.zoned_date_times.len() implies agent.heap.valid_backing(
                #[trigger] agent.heap.zoned_date_times@[j].object_index,
            ) by {
                assert(before.valid_backing(before.zoned_date_times@[j].object_index));
            }
            assert forall|r: int| 0 <= r < agent.realms.len() implies (#[trigger] agent.realms@[r]).intrinsics.valid(
                &agent.heap,
            ) by {
                assert(agent.realms@[r].intrinsics.valid(&before));
            }
            assert forall|r: int| 0 <= r < agent.realms.len() implies agent.heap.instant_constructor_linked((#[trigger] agent.realms@[r]).intrinsics) by {
                assert(old(agent).heap.instant_constructor_linked(old(agent).realms@[r].intrinsics));
                let c = agent.realms@[r].intrinsics.temporal_instant.0.0 as int;
                assert(agent.heap.objects@[c] == before.objects@[c]);
            }
        }
    }

    /// The root-list entry of the zoned date-time: it is held by its heap data.
    #[verifier::allow_in_spec]
    pub fn to_root_repr(value: Self) -> Result<HeapRootRef, HeapRootData>
        returns
            Err::<HeapRootRef, HeapRootData>(HeapRootData::ZonedDateTime(value)),
    {
        Err(HeapRootData::ZonedDateTime(value))
    }

    /// A root reference is never a zoned date-time held inline.
    pub fn from_root_repr(value: &HeapRootRef) -> (r: Result<Self, HeapRootRef>)
        ensures
            r == Err::<Self, HeapRootRef>(*value),
    {
        Err(*value)
    }

    /// The root representation of a root reference is the reference.
    pub fn from_heap_ref(heap_ref: HeapRootRef) -> (r: HeapRootRef)
        ensures
            r == heap_ref,
    {
        heap_ref
    }

    /// The zoned date-time that a root-list entry holds, if it holds one.
    #[verifier::allow_in_spec]
    pub fn from_heap_data(heap_data: HeapRootData) -> Option<Self>
        returns
            (match heap_data {
                HeapRootData::ZonedDateTime(z) => Some(z),
                _ => None,
            }),
    {
        match heap_data {
            HeapRootData::ZonedDateTime(object) => Some(object),
            _ => None,
        }
    }

    /// Marks the zoned date-time as reached.
    pub fn mark_values(&self, queues: &mut WorkQueues)
        ensures
            final(queues).zoned_date_times@ == old(queues).zoned_date_times@.push(*self),
            final(queues).objects == old(queues).objects,
            final(queues).instants == old(queues).instants,
    {
        queues.zoned_date_times.push(*self);
    }

    /// Moves the handle to the zoned date-time's compacted index.
    pub fn sweep_values(&mut self, compactions: &CompactionLists)
        requires
            (old(self).0 as int) < compactions.zoned_date_times.marks.len(),
        ensures
            final(self).0 as int == compactions.zoned_date_times.shifted(old(self).0 as int),
    {
        compactions.zoned_date_times.shift_index(&mut self.0);
    }

    /// The handle at the compacted index, or `None` where the zoned
    /// date-time is dropped.
    pub fn sweep_weak_reference(self, compactions: &CompactionLists) -> (r: Option<Self>)
        requires
            (self.0 as int) < compactions.zoned_date_times.marks.len(),
        ensures
            match r {
                Some(z) => compactions.zoned_date_times.marks@[self.index()] && z.index()
                    == compactions.zoned_date_times.shifted(self.index()),
                None => !compactions.zoned_date_times.marks@[self.index()],
            },
    {
        match compactions.zoned_date_times.shift_weak_index(self.0) {
            Some(i) => Some(TemporalZonedDateTime(i)),
            None => None,
        }
    }
}

impl ZonedDateTimeHeapData {
    /// The record of a zoned date-time, with its epoch nanoseconds read from
    /// the `temporal_rs` value.
    pub fn new(object_index: Option<OrdinaryObject>, zoned_date_time: temporal_rs::ZonedDateTime) -> (r: Self)
        ensures
            r.object_index == object_index,
            r.zoned_date_time == zoned_date_time,
            r.epoch_nanoseconds == zoned_date_time_epoch_nanoseconds(zoned_date_time),
    {
        let epoch_nanoseconds = zoned_epoch_nanoseconds(&zoned_date_time);
        ZonedDateTimeHeapData { object_index, zoned_date_time, epoch_nanoseconds }
    }

    /// Marks the backing object, if there is one; the `temporal_rs` value
    /// holds no handles.
    pub fn mark_values(&self, queues: &mut WorkQueues)
        ensures
            match self.object_index {
                Some(o) => final(queues).objects@ == old(queues).objects@.push(o),
                None => final(queues).objects == old(queues).objects,
            },
            final(queues).instants == old(queues).instants,
            final(queues).zoned_date_times == old(queues).zoned_date_times,
    {
        match &self.object_index {
            Some(object_index) => object_index.mark_values(queues),
            None => {},
        }
    }

    /// Moves the handle of the backing object, if there is one, to its
    /// compacted index.
    pub fn sweep_values(&mut self, compactions: &CompactionLists)
        requires
            old(self).object_index matches Some(o) ==> (o.0 as int) < compactions.objects.marks.len(),
        ensures
            match old(self).object_index {
                Some(o) => final(self).object_index matches Some(n) && n.0 as int == compactions.objects.shifted(
                    o.0 as int,
                ),
                None => final(self).object_index is None,
            },
            final(self).zoned_date_time == old(self).zoned_date_time,
            final(self).epoch_nanoseconds == old(self).epoch_nanoseconds,
    {
        match &mut self.object_index {
            Some(object_index) => object_index.sweep_values(compactions),
            None => {},
        }
    }
}

impl Agent {
    /// The heap record of a zoned date-time.
    pub fn zoned_date_time_data(&self, index: TemporalZonedDateTime) -> (r: &ZonedDateTimeHeapData)
        requires
            self.heap.valid_zoned_date_time(index),
        ensures
            *r == self.heap.zoned_date_times@[index.index()],
    {
        &self.heap.zoned_date_times[index.0 as usize]
    }
}

impl Heap {
    /// Adds the record of a Temporal.ZonedDateTime to the heap, counts its
    /// size, and returns its handle.
    pub fn create_zoned_date_time(&mut self, data: ZonedDateTimeHeapData) -> (r: TemporalZonedDateTime)
        requires
            old(self).wf(),
            old(self).valid_backing(data.object_index),
            old(self).zoned_date_times.len() + 1 < u32::MAX,
            old(self).alloc_counter + vstd::layout::size_of::<ZonedDateTimeHeapData>() <= usize::MAX,
        ensures
            final(self).wf(),
            old(self).grows_to(&*final(self)),
            r.index() == old(self).zoned_date_times.len(),
            final(self).zoned_date_times@ == old(self).zoned_date_times@.push(data),
            final(self).objects == old(self).objects,
            final(self).instants == old(self).instants,
            final(self).alloc_counter == old(self).alloc_counter + vstd::layout::size_of::<ZonedDateTimeHeapData>(),
    {
        let ghost before = *self;
        let ghost d = data;
        self.zoned_date_times.push(data);
        self.alloc_counter = self.alloc_counter + core::mem::size_of::<ZonedDateTimeHeapData>();
        proof {
            assert forall|i: int| 0 <= i < self.objects.len() implies match #[trigger] self.objects@[i].prototype {
                Some(p) => self.valid_object_ref(p),
                None => true,
            } by {
                assert(match before.objects@[i].prototype {
                    Some(p) => before.valid_object_ref(p),
                    None => true,
                });
            }
            assert forall|i: int, j: int|
                0 <= i < self.objects.len() && 0 <= j < self.objects@[i].properties.len()
                implies self.valid_value(#[trigger] self.objects@[i].properties@[j].value@) by {
                assert(before.valid_value(before.objects@[i].properties@[j].value@));
            }
            assert forall|i: int| 0 <= i < self.instants.len() implies self.valid_backing(
                #[trigger] self.instants@[i].object_index,
            ) by {
                assert(before.valid_backing(before.instants@[i].object_index));
            }
            assert forall|i: int| 0 <= i < self.zoned_date_times.len() implies self.valid_backing(
                #[trigger] self.zoned_date_times@[i].object_index,
            ) by {
                if i < before.zoned_date_times.len() {
                    assert(self.zoned_date_times@[i] == before.zoned_date_times@[i]);
                } else {
                    assert(self.zoned_date_times@[i] == d);
                }
            }
        }
        TemporalZonedDateTime((self.zoned_date_times.len() - 1) as u32)
    }
}

pub open spec fn key_constructor() -> Seq<u8> {
    seq!['c' as u8, 'o' as u8, 'n' as u8, 's' as u8, 't' as u8, 'r' as u8, 'u' as u8, 'c' as u8, 't' as u8, 'o' as u8, 'r' as u8]
}

pub open spec fn key_length() -> Seq<u8> {
    seq!['l' as u8, 'e' as u8, 'n' as u8, 'g' as u8, 't' as u8, 'h' as u8]
}

pub open spec fn key_name() -> Seq<u8> {
    seq!['n' as u8, 'a' as u8, 'm' as u8, 'e' as u8]
}

/// The name of the constructor, "ZonedDateTime".
pub open spec fn str_zoned_date_time() -> Seq<u8> {
    seq![
        'Z' as u8, 'o' as u8, 'n' as u8, 'e' as u8, 'd' as u8, 'D' as u8, 'a' as u8, 't' as u8, 'e' as u8,
        'T' as u8, 'i' as u8, 'm' as u8, 'e' as u8,
    ]
}

/// The @@toStringTag of the prototype, "Temporal.ZonedDateTime".
pub open spec fn str_temporal_zoned_date_time() -> Seq<u8> {
    seq!['T' as u8, 'e' as u8, 'm' as u8, 'p' as u8, 'o' as u8, 'r' as u8, 'a' as u8, 'l' as u8, '.' as u8]
        + str_zoned_date_time()
}

/// The property has the key, value and attributes given.
pub open spec fn property_is(
    p: Property,
    key: PropertyKeyView,
    value: ValueView,
    writable: bool,
    enumerable: bool,
    configurable: bool,
) -> bool {
    &&& p.key@ == key
    &&& p.value@ == value
    &&& p.writable == writable
    &&& p.enumerable == enumerable
    &&& p.configurable == configurable
}

/// %Temporal.ZonedDateTime.prototype% of the realm is built: its
/// [[Prototype]] is %Object.prototype%, and it has a "constructor" property
/// holding %Temporal.ZonedDateTime% and a non-writable @@toStringTag
/// "Temporal.ZonedDateTime", both non-enumerable.
pub open spec fn zoned_date_time_prototype_built(agent: &Agent, realm: Realm) -> bool {
    let intrinsics = agent.intrinsics_of(realm);
    let data = agent.heap.objects@[intrinsics.temporal_zoned_date_time_prototype.0 as int];
    &&& data.prototype == Some(Object::Object(intrinsics.object_prototype))
    &&& data.properties@.len() == 2
    &&& property_is(
        data.properties@[0],
        PropertyKeyView::String(key_constructor()),
        ValueView::Object(intrinsics.temporal_zoned_date_time.0),
        true,
        false,
        true,
    )
    &&& property_is(
        data.properties@[1],
        PropertyKeyView::Symbol(TO_STRING_TAG),
        ValueView::String(str_temporal_zoned_date_time()),
        false,
        false,
        true,
    )
}

/// %Temporal.ZonedDateTime% of the realm is built: its [[Prototype]] is
/// %Function.prototype%, its "length" is 1, its "name" "ZonedDateTime",
/// and its "prototype" %Temporal.ZonedDateTime.prototype%, fixed.
pub open spec fn zoned_date_time_constructor_built(agent: &Agent, realm: Realm) -> bool {
    let intrinsics = agent.intrinsics_of(realm);
    let data = agent.heap.objects@[intrinsics.temporal_zoned_date_time.0.0 as int];
    &&& data.prototype == Some(Object::Object(intrinsics.function_prototype))
    &&& data.properties@.len() == 3
    &&& property_is(
        data.properties@[0],
        PropertyKeyView::String(key_length()),
        ValueView::Number(JsNumber::Integer(1)),
        false,
        false,
        true,
    )
    &&& property_is(
        data.properties@[1],
        PropertyKeyView::String(key_name()),
        ValueView::String(str_zoned_date_time()),
        false,
        false,
        true,
    )
    &&& property_is(
        data.properties@[2],
        PropertyKeyView::String(crate::instant::key_prototype()),
        ValueView::Object(intrinsics.temporal_zoned_date_time_prototype),
        false,
        false,
        false,
    )
}

/// `new` is `old` with the data of the object `o` replaced and nothing
/// else changed.
pub open spec fn only_object_changed(old: &Agent, new: &Agent, o: OrdinaryObject) -> bool {
    &&& new.wf()
    &&& same_realms(old, new)
    &&& new.heap.objects@.len() == old.heap.objects@.len()
    &&& forall|i: int| 0 <= i < old.heap.objects.len() && i != o.0 as int ==> new.heap.objects@[i] == old.heap.objects@[i]
    &&& new.heap.instants == old.heap.instants
    &&& new.heap.zoned_date_times == old.heap.zoned_date_times
    &&& new.heap.alloc_counter == old.heap.alloc_counter
}

/// Replaces the data of the object `o`, whose new prototype and property
/// values are handles of the heap.
fn replace_object_data(agent: &mut Agent, o: OrdinaryObject, data: crate::heap::ObjectHeapData)
    requires
        old(agent).wf(),
        forall|r: int| 0 <= r < old(agent).realms.len() ==> o != (#[trigger] old(agent).realms@[r]).intrinsics.temporal_instant.0,
        old(agent).heap.valid_object(o),
        old(agent).heap.valid_object_data(&data),
    ensures
        only_object_changed(old(agent), final(agent), o),
        final(agent).heap.objects@[o.0 as int] == data,
{
    let ghost before = agent.heap;
    let ghost d = data;
    agent.heap.objects.set(o.0 as usize, data);
    proof {
        assert forall|i: int| 0 <= i < agent.heap.objects.len() implies match #[trigger] agent.heap.objects@[i].prototype {
            Some(p) => agent.heap.valid_object_ref(p),
            None => true,
        } by {
            if i != o.0 as int {
                assert(agent.heap.objects@[i] == before.objects@[i]);
                assert(match before.objects@[i].prototype {
                    Some(p) => before.valid_object_ref(p),
                    None => true,
                });
            }
        }
        assert forall|i: int, j: int|
            0 <= i < agent.heap.objects.len() && 0 <= j < agent.heap.objects@[i].properties.len()
            implies agent.heap.valid_value(#[trigger] agent.heap.objects@[i].properties@[j].value@) by {
            if i != o.0 as int {
                assert(agent.heap.objects@[i] == before.objects@[i]);
                assert(before.valid_value(before.objects@[i].properties@[j].value@));
            } else {
                assert(before.valid_value(d.properties@[j].value@));
            }
        }
        assert forall|i: int| 0 <= i < agent.heap.instants.len() implies agent.heap.valid_backing(
            #[trigger] agent.heap.instants@[i].object_index,
        ) by {
            assert(before.valid_backing(before.instants@[i].object_index));
        }
        assert forall|i: int| 0 <= i < agent.heap.zoned_date_times.len() implies agent.heap.valid_backing(
            #[trigger] agent.heap.zoned_date_times@[i].object_index,
        ) by {
            assert(before.valid_backing(before.zoned_date_times@[i].object_index));
        }
        assert forall|r: int| 0 <= r < agent.realms.len() implies (#[trigger] agent.realms@[r]).intrinsics.valid(
            &agent.heap,
        ) by {
            assert(agent.realms@[r].intrinsics.valid(&before));
        }
        assert forall|r: int| 0 <= r < agent.realms.len() implies agent.heap.instant_constructor_linked((#[trigger] agent.realms@[r]).intrinsics) by {
            assert(old(agent).heap.instant_constructor_linked(old(agent).realms@[r].intrinsics));
            let c = agent.realms@[r].intrinsics.temporal_instant.0.0 as int;
            assert(c != o.0 as int);
            assert(agent.heap.objects@[c] == before.objects@[c]);
        }
    }
}

/// The intrinsic constructor %Temporal.ZonedDateTime%.
pub struct TemporalZonedDateTimeConstructor;

impl TemporalZonedDateTimeConstructor {
    /// Builds %Temporal.ZonedDateTime% of the realm: a built-in constructor
    /// named "ZonedDateTime" of length 1 whose "prototype" is
    /// %Temporal.ZonedDateTime.prototype%.
    pub fn create_intrinsic(agent: &mut Agent, realm: Realm)
        requires
            old(agent).wf(),
            old(agent).valid_realm(realm),
        ensures
            only_object_changed(old(agent), final(agent), old(agent).intrinsics_of(realm).temporal_zoned_date_time.0),
            zoned_date_time_constructor_built(final(agent), realm),
            zoned_date_time_prototype_built(old(agent), realm) ==> zoned_date_time_prototype_built(final(agent), realm),
    {
        let intrinsics = agent.realms[realm.0 as usize].intrinsics;
        let zoned_date_time_prototype = intrinsics.temporal_zoned_date_time_prototype;
        proof {
            assert(agent.realms@[realm.0 as int].intrinsics.valid(&agent.heap));
        }
        let mut properties: Vec<Property> = Vec::new();
        properties.push(
            Property {
                key: PropertyKey::String(vec!['l' as u8, 'e' as u8, 'n' as u8, 'g' as u8, 't' as u8, 'h' as u8]),
                value: Value::Number(JsNumber::Integer(1)),
                writable: false,
                enumerable: false,
                configurable: true,
            },
        );
        properties.push(
            Property {
                key: PropertyKey::String(vec!['n' as u8, 'a' as u8, 'm' as u8, 'e' as u8]),
                value: Value::String(
                    vec![
                        'Z' as u8, 'o' as u8, 'n' as u8, 'e' as u8, 'd' as u8, 'D' as u8, 'a' as u8, 't' as u8, 'e' as u8,
                        'T' as u8, 'i' as u8, 'm' as u8, 'e' as u8,
                    ],
                ),
                writable: false,
                enumerable: false,
                configurable: true,
            },
        );
        properties.push(
            Property {
                key: crate::instant::prototype_key(),
                value: Value::Object(zoned_date_time_prototype),
                writable: false,
                enumerable: false,
                configurable: false,
            },
        );
        let data = crate::heap::ObjectHeapData {
            prototype: Some(Object::Object(intrinsics.function_prototype)),
            properties,
        };
        proof {
            assert forall|r: int| 0 <= r < agent.realms.len() implies intrinsics.temporal_zoned_date_time.0
                != (#[trigger] agent.realms@[r]).intrinsics.temporal_instant.0 by {
                assert(agent.realms@[realm.0 as int].intrinsics.object_at(4) != agent.realms@[r].intrinsics.object_at(2));
            }
            assert(agent.realms@[realm.0 as int].intrinsics.object_at(4) != agent.realms@[realm.0 as int].intrinsics.object_at(5));
        }
        replace_object_data(agent, intrinsics.temporal_zoned_date_time.0, data);
    }
}

/// The intrinsic object %Temporal.ZonedDateTime.prototype%.
pub struct TemporalZonedDateTimePrototype;

impl TemporalZonedDateTimePrototype {
    /// Builds %Temporal.ZonedDateTime.prototype% of the realm: an ordinary
    /// object inheriting from %Object.prototype%, with a "constructor"
    /// property and the @@toStringTag "Temporal.ZonedDateTime".
    pub fn create_intrinsic(agent: &mut Agent, realm: Realm)
        requires
            old(agent).wf(),
            old(agent).valid_realm(realm),
        ensures
            only_object_changed(
                old(agent),
                final(agent),
                old(agent).intrinsics_of(realm).temporal_zoned_date_time_prototype,
            ),
            zoned_date_time_prototype_built(final(agent), realm),
            zoned_date_time_constructor_built(old(agent), realm) ==> zoned_date_time_constructor_built(final(agent), realm),
    {
        let intrinsics = agent.realms[realm.0 as usize].intrinsics;
        let this = intrinsics.temporal_zoned_date_time_prototype;
        let object_prototype = intrinsics.object_prototype;
        let zoned_date_time_constructor = intrinsics.temporal_zoned_date_time;
        proof {
            assert(agent.realms@[realm.0 as int].intrinsics.valid(&agent.heap));
        }
        let mut properties: Vec<Property> = Vec::new();
        properties.push(
            Property {
                key: PropertyKey::String(
                    vec!['c' as u8, 'o' as u8, 'n' as u8, 's' as u8, 't' as u8, 'r' as u8, 'u' as u8, 'c' as u8, 't' as u8, 'o' as u8, 'r' as u8],
                ),
                value: Value::Object(zoned_date_time_constructor.0),
                writable: true,
                enumerable: false,
                configurable: true,
            },
        );
        let tag: Vec<u8> = vec![
            'T' as u8, 'e' as u8, 'm' as u8, 'p' as u8, 'o' as u8, 'r' as u8, 'a' as u8, 'l' as u8, '.' as u8,
            'Z' as u8, 'o' as u8, 'n' as u8, 'e' as u8, 'd' as u8, 'D' as u8, 'a' as u8, 't' as u8, 'e' as u8,
            'T' as u8, 'i' as u8, 'm' as u8, 'e' as u8,
        ];
        assert(tag@ =~= str_temporal_zoned_date_time());
        properties.push(
            Property {
                key: PropertyKey::Symbol(TO_STRING_TAG),
                value: Value::String(tag),
                writable: false,
                enumerable: false,
                configurable: true,
            },
        );
        let data = crate::heap::ObjectHeapData { prototype: Some(Object::Object(object_prototype)), properties };
        proof {
            assert forall|r: int| 0 <= r < agent.realms.len() implies this
                != (#[trigger] agent.realms@[r]).intrinsics.temporal_instant.0 by {
                assert(agent.realms@[realm.0 as int].intrinsics.object_at(5) != agent.realms@[r].intrinsics.object_at(2));
            }
            assert(agent.realms@[realm.0 as int].intrinsics.object_at(4) != agent.realms@[realm.0 as int].intrinsics.object_at(5));
        }
        replace_object_data(agent, this, data);
    }
}

} // verus!

verus! {

/// The root-list entry of a zoned date-time gives it back.
pub proof fn zoned_date_time_root_round_trip(h: TemporalZonedDateTime)
    ensures
        TemporalZonedDateTime::to_root_repr(h) matches Err(data) && TemporalZonedDateTime::from_heap_data(data) == Some(h),
{
}

/// Once both intrinsics of a realm are built they refer to each other:
/// the constructor's "prototype" is the prototype, whose "constructor" is
/// the constructor again; the prototype's @@toStringTag is
/// "Temporal.ZonedDateTime" and the constructor's "name" "ZonedDateTime".
pub proof fn zoned_date_time_intrinsics_linked(agent: &Agent, realm: Realm)
    requires
        agent.wf(),
        agent.valid_realm(realm),
        zoned_date_time_constructor_built(agent, realm),
        zoned_date_time_prototype_built(agent, realm),
    ensures
        agent.spec_get(
            Object::Object(agent.intrinsics_of(realm).temporal_zoned_date_time.0),
            PropertyKeyView::String(crate::instant::key_prototype()),
        ) == ValueView::Object(agent.intrinsics_of(realm).temporal_zoned_date_time_prototype),
        agent.spec_get(
            Object::Object(agent.intrinsics_of(realm).temporal_zoned_date_time_prototype),
            PropertyKeyView::String(key_constructor()),
        ) == ValueView::Object(agent.intrinsics_of(realm).temporal_zoned_date_time.0),
        agent.spec_get(
            Object::Object(agent.intrinsics_of(realm).temporal_zoned_date_time_prototype),
            PropertyKeyView::Symbol(TO_STRING_TAG),
        ) == ValueView::String(str_temporal_zoned_date_time()),
        agent.spec_get(
            Object::Object(agent.intrinsics_of(realm).temporal_zoned_date_time.0),
            PropertyKeyView::String(key_name()),
        ) == ValueView::String(str_zoned_date_time()),
{
    let intrinsics = agent.intrinsics_of(realm);
    assert(intrinsics.valid(&agent.heap));
    reveal_with_fuel(crate::heap::find_property_from, 4);
    let c = agent.heap.objects@[intrinsics.temporal_zoned_date_time.0.0 as int].properties@;
    let p = agent.heap.objects@[intrinsics.temporal_zoned_date_time_prototype.0 as int].properties@;
    assert(c[0].key@ != PropertyKeyView::String(crate::instant::key_prototype()));
    assert(c[1].key@ != PropertyKeyView::String(crate::instant::key_prototype()));
    assert(crate::heap::find_property(c, PropertyKeyView::String(crate::instant::key_prototype())) == Some(2int));
    assert(crate::heap::find_property(p, PropertyKeyView::String(key_constructor())) == Some(0int));
    assert(crate::heap::find_property(p, PropertyKeyView::Symbol(TO_STRING_TAG)) == Some(1int));
    assert(c[0].key@ != PropertyKeyView::String(key_name()));
    assert(crate::heap::find_property(c, PropertyKeyView::String(key_name())) == Some(1int));
}

} // verus!
